use vstd::prelude::*;
use crate::ast::{NodeKind, SyntaxTree};
use crate::diagnostics::{DiagnosticModel, LintContext};
use crate::module_record::ModuleGraph;
use crate::no_absolute_path::{spec_self_import_diags, NoAbsolutePath};
use crate::no_duplicates::{spec_cycle_diags, spec_dup_diags, NoDuplicates};
use crate::require_render_return::{spec_rrr_diags, RequireRenderReturn};

verus! {

/// One registered rule. The variant is the rule's stable identity; the
/// registry keeps registration order, which fixes the physical dispatch
/// order — though by contract no rule may depend on another's findings.
#[derive(Debug, Clone)]
pub enum RuleInstance {
    NoAbsolutePath(NoAbsolutePath),
    NoDuplicates(NoDuplicates),
    RequireRenderReturn(RequireRenderReturn),
}

/// The capability set a rule declared: the node variants its per-node
/// visitor wants. Rules with only the once-per-unit hook want none.
pub open spec fn spec_rule_interest(r: RuleInstance, k: NodeKind) -> bool {
    match r {
        RuleInstance::RequireRenderReturn(_) => (k is Class) || (k is CallExpr),
        _ => false,
    }
}

/// What a rule contributes at one visited node: nothing at all unless the
/// node's variant is in its declared interest set.
pub open spec fn spec_rule_node_diags(r: RuleInstance, t: SyntaxTree, i: int) -> Seq<
    DiagnosticModel,
> {
    if spec_rule_interest(r, t.nodes@[i].kind) {
        match r {
            RuleInstance::RequireRenderReturn(_) => spec_rrr_diags(t, i),
            _ => Seq::empty(),
        }
    } else {
        Seq::empty()
    }
}

/// What a rule contributes in its once-per-unit hook.
pub open spec fn spec_rule_unit_diags(r: RuleInstance, g: ModuleGraph, u: int) -> Seq<
    DiagnosticModel,
> {
    match r {
        RuleInstance::NoAbsolutePath(_) => spec_self_import_diags(g, u),
        RuleInstance::NoDuplicates(nd) => spec_dup_diags(g, u, nd.consider_query_string)
            + spec_cycle_diags(g, u, nd.max_cycle_depth),
        RuleInstance::RequireRenderReturn(_) => Seq::empty(),
    }
}

/// The contributions of the rules from position `k` at node `i`, in
/// registration order.
pub open spec fn spec_node_dispatch(rules: Seq<RuleInstance>, t: SyntaxTree, i: int, k: int) -> Seq<
    DiagnosticModel,
>
    decreases rules.len() - k,
        when 0 <= k
{
    if k >= rules.len() {
        Seq::empty()
    } else {
        spec_rule_node_diags(rules[k], t, i) + spec_node_dispatch(rules, t, i, k + 1)
    }
}

/// One depth-first pre-order traversal: the arena is laid out in
/// pre-order, so this is the nodes in index order from `i`, each
/// dispatched to every interested rule.
pub open spec fn spec_traverse(rules: Seq<RuleInstance>, t: SyntaxTree, i: int) -> Seq<
    DiagnosticModel,
>
    decreases t.nodes@.len() - i,
        when 0 <= i
{
    if i >= t.nodes@.len() {
        Seq::empty()
    } else {
        spec_node_dispatch(rules, t, i, 0) + spec_traverse(rules, t, i + 1)
    }
}

/// The once-per-unit hooks of the rules from position `k`, in
/// registration order.
pub open spec fn spec_unit_hooks(rules: Seq<RuleInstance>, g: ModuleGraph, u: int, k: int) -> Seq<
    DiagnosticModel,
>
    decreases rules.len() - k,
        when 0 <= k
{
    if k >= rules.len() {
        Seq::empty()
    } else {
        spec_rule_unit_diags(rules[k], g, u) + spec_unit_hooks(rules, g, u, k + 1)
    }
}

/// Everything one engine run over one unit produces: the traversal's
/// findings, then the whole-unit findings. A pure function of the unit,
/// the graph and the registered rules.
pub open spec fn spec_run_unit(
    rules: Seq<RuleInstance>,
    t: SyntaxTree,
    g: ModuleGraph,
    u: int,
) -> Seq<DiagnosticModel> {
    spec_traverse(rules, t, 0) + spec_unit_hooks(rules, g, u, 0)
}

/// The ordered rule registry of one analysis run.
#[derive(Debug)]
pub struct RuleRegistry {
    pub rules: Vec<RuleInstance>,
}

impl RuleRegistry {
    pub fn new() -> (reg: RuleRegistry)
        ensures
            reg.rules@ == Seq::<RuleInstance>::empty(),
    {
        let reg = RuleRegistry { rules: Vec::new() };
        proof {
            assert(reg.rules@ =~= Seq::<RuleInstance>::empty());
        }
        reg
    }

    /// Registers a rule at the end of the dispatch order.
    pub fn register(&mut self, r: RuleInstance)
        ensures
            final(self).rules@ == old(self).rules@.push(r),
    {
        self.rules.push(r);
    }
}

fn rule_interested(r: &RuleInstance, k: &NodeKind) -> (b: bool)
    ensures
        b == spec_rule_interest(*r, *k),
{
    match r {
        RuleInstance::RequireRenderReturn(_) => {
            matches!(k, NodeKind::Class { .. }) || matches!(k, NodeKind::CallExpr)
        },
        _ => false,
    }
}

/// Runs every registered rule over one unit: one pre-order traversal with
/// per-node dispatch to the interested rules, then each rule's
/// once-per-unit hook. Returns the unit's ordered diagnostic sequence.
#[verifier::loop_isolation(false)]
pub fn run_unit(reg: &RuleRegistry, t: &SyntaxTree, g: &ModuleGraph, u: usize) -> (ctx:
    LintContext)
    requires
        t.wf(),
        g.wf(),
        u < g.records@.len(),
    ensures
        ctx.diags() == spec_run_unit(reg.rules@, *t, *g, u as int),
{
    let mut ctx = LintContext::new();
    let n = t.nodes.len();
    let nr = reg.rules.len();
    let mut i: usize = 0;
    while i < n
        invariant
            0 <= i <= n,
            n == t.nodes@.len(),
            nr == reg.rules@.len(),
            ctx.diags() + spec_traverse(reg.rules@, *t, i as int) == spec_traverse(
                reg.rules@,
                *t,
                0,
            ),
        decreases n - i,
    {
        let ghost at_node = ctx.diags();
        let mut k: usize = 0;
        while k < nr
            invariant
                0 <= k <= nr,
                0 <= i < n,
                n == t.nodes@.len(),
                nr == reg.rules@.len(),
                ctx.diags() + spec_node_dispatch(reg.rules@, *t, i as int, k as int) == at_node
                    + spec_node_dispatch(reg.rules@, *t, i as int, 0),
            decreases nr - k,
        {
            let ghost before = ctx.diags();
            let r = &reg.rules[k];
            if rule_interested(r, &t.nodes[i].kind) {
                match r {
                    RuleInstance::RequireRenderReturn(rule) => {
                        rule.run(t, i, &mut ctx);
                    },
                    _ => {},
                }
            }
            proof {
                assert(ctx.diags() =~= before + spec_rule_node_diags(
                    reg.rules@[k as int],
                    *t,
                    i as int,
                ));
                assert(before + (spec_rule_node_diags(reg.rules@[k as int], *t, i as int)
                    + spec_node_dispatch(reg.rules@, *t, i as int, k + 1)) =~= (before
                    + spec_rule_node_diags(reg.rules@[k as int], *t, i as int))
                    + spec_node_dispatch(reg.rules@, *t, i as int, k + 1));
            }
            k = k + 1;
        }
        proof {
            assert(ctx.diags() + Seq::<DiagnosticModel>::empty() =~= ctx.diags());
            assert(at_node + (spec_node_dispatch(reg.rules@, *t, i as int, 0) + spec_traverse(
                reg.rules@,
                *t,
                i + 1,
            )) =~= (at_node + spec_node_dispatch(reg.rules@, *t, i as int, 0)) + spec_traverse(
                reg.rules@,
                *t,
                i + 1,
            ));
        }
        i = i + 1;
    }
    proof {
        assert(ctx.diags() + Seq::<DiagnosticModel>::empty() =~= ctx.diags());
    }
    let ghost mid = ctx.diags();
    let mut k2: usize = 0;
    while k2 < nr
        invariant
            0 <= k2 <= nr,
            nr == reg.rules@.len(),
            ctx.diags() + spec_unit_hooks(reg.rules@, *g, u as int, k2 as int) == mid
                + spec_unit_hooks(reg.rules@, *g, u as int, 0),
        decreases nr - k2,
    {
        let ghost before = ctx.diags();
        let r = &reg.rules[k2];
        match r {
            RuleInstance::NoAbsolutePath(rule) => {
                rule.run_once(g, u, &mut ctx);
            },
            RuleInstance::NoDuplicates(rule) => {
                rule.run_once(g, u, &mut ctx);
            },
            RuleInstance::RequireRenderReturn(_) => {},
        }
        proof {
            assert(ctx.diags() =~= before + spec_rule_unit_diags(
                reg.rules@[k2 as int],
                *g,
                u as int,
            ));
            assert(before + (spec_rule_unit_diags(reg.rules@[k2 as int], *g, u as int)
                + spec_unit_hooks(reg.rules@, *g, u as int, k2 + 1)) =~= (before
                + spec_rule_unit_diags(reg.rules@[k2 as int], *g, u as int)) + spec_unit_hooks(
                reg.rules@,
                *g,
                u as int,
                k2 + 1,
            ));
        }
        k2 = k2 + 1;
    }
    proof {
        assert(ctx.diags() + Seq::<DiagnosticModel>::empty() =~= ctx.diags());
    }
    ctx
}

/// A rule is never invoked on a node variant outside its declared
/// interest set: its contribution at any such node is empty, whatever
/// else the tree holds.
pub proof fn lemma_dispatch_only_interested(r: RuleInstance, t: SyntaxTree, i: int)
    requires
        !spec_rule_interest(r, t.nodes@[i].kind),
    ensures
        spec_rule_node_diags(r, t, i) == Seq::<DiagnosticModel>::empty(),
{
}

/// Running the same unit through the engine twice with the same rules and
/// configuration gives identical diagnostic sequences: the run is a pure
/// function of its inputs.
pub proof fn lemma_run_unit_deterministic(
    d1: Seq<DiagnosticModel>,
    d2: Seq<DiagnosticModel>,
    rules: Seq<RuleInstance>,
    t: SyntaxTree,
    g: ModuleGraph,
    u: int,
)
    requires
        d1 == spec_run_unit(rules, t, g, u),
        d2 == spec_run_unit(rules, t, g, u),
    ensures
        d1 == d2,
{
}

} // verus!
