use vstd::prelude::*;
use crate::diagnostics::{Diagnostic, DiagnosticMessage, DiagnosticModel, LintContext, Severity};
use crate::module_record::{path_exists, resolve, spec_has_path, spec_resolve, ImportForm, ModuleGraph};
use crate::span::Span;
use crate::text::JsString;

verus! {

/// Flags, per unit, groups of import requests that resolve to the same
/// target (one diagnostic per group, citing every site), and requests
/// whose target leads back to the unit (a dependency cycle).
///
/// With `consider_query_string`, specifiers differing in their trailing
/// query string are distinct targets; matching is by presence and content
/// of the query alone. `max_cycle_depth` bounds the reported cycles'
/// length in edges; `None` is unbounded. Since a minimal cycle through a
/// unit never needs more edges than the graph has records, the unbounded
/// search uses the record count as its bound.
#[derive(Debug, Default, Clone)]
pub struct NoDuplicates {
    pub consider_query_string: bool,
    pub max_cycle_depth: Option<u32>,
}

// ---------------------------------------------------------------------------
// Grouping key
// ---------------------------------------------------------------------------
/// The position of the first `?` in a specifier.
pub open spec fn spec_qpos(sp: Seq<u16>, i: int) -> Option<int>
    decreases sp.len() - i,
        when 0 <= i
{
    if i >= sp.len() {
        None
    } else if sp[i] == 0x3F {
        Some(i)
    } else {
        spec_qpos(sp, i + 1)
    }
}

/// The query string of a specifier: what follows the first `?`, absent
/// where there is none.
pub open spec fn spec_query_of(sp: Seq<u16>) -> Option<Seq<u16>> {
    match spec_qpos(sp, 0) {
        Some(p) => Some(sp.subrange(p + 1, sp.len() as int)),
        None => None,
    }
}

/// The grouping key of request `k`: its resolved target path, its binding
/// form, and (only under query-string sensitivity) its query string.
/// Unresolvable requests have no key and join no group.
pub open spec fn spec_dup_key(g: ModuleGraph, u: int, k: int, cq: bool) -> Option<
    (Seq<u16>, ImportForm, Option<Seq<u16>>),
> {
    match spec_resolve(g, u, g.records@[u].requests@[k].specifier@) {
        Some(t) => Some(
            (
                g.records@[t].resolved_absolute_path@,
                g.records@[u].requests@[k].form,
                if cq {
                    spec_query_of(g.records@[u].requests@[k].specifier@)
                } else {
                    None
                },
            ),
        ),
        None => None,
    }
}

pub open spec fn spec_same_key(g: ModuleGraph, u: int, a: int, b: int, cq: bool) -> bool {
    spec_dup_key(g, u, a, cq) is Some && spec_dup_key(g, u, a, cq) == spec_dup_key(g, u, b, cq)
}

// ---------------------------------------------------------------------------
// Duplicate groups
// ---------------------------------------------------------------------------
/// The spans of every request at or after `k` sharing request `i`'s key.
pub open spec fn spec_group_spans(g: ModuleGraph, u: int, i: int, k: int, cq: bool) -> Seq<Span>
    decreases g.records@[u].requests@.len() - k,
        when 0 <= u < g.records@.len() && 0 <= k
{
    if k >= g.records@[u].requests@.len() {
        Seq::empty()
    } else {
        (if spec_same_key(g, u, i, k, cq) {
            seq![g.records@[u].requests@[k].span]
        } else {
            Seq::empty()
        }) + spec_group_spans(g, u, i, k + 1, cq)
    }
}

pub open spec fn spec_dup_diag(g: ModuleGraph, u: int, i: int, cq: bool) -> DiagnosticModel {
    DiagnosticModel {
        severity: Severity::Warning,
        message: DiagnosticMessage::ImportedMultipleTimes,
        labels: spec_group_spans(g, u, i, i, cq),
    }
}

/// Request `i` leads its group: no earlier request shares its key.
pub open spec fn spec_is_group_lead(g: ModuleGraph, u: int, i: int, cq: bool) -> bool {
    forall|j: int| 0 <= j < i ==> !(#[trigger] spec_same_key(g, u, j, i, cq))
}

/// Request `i`'s group has a later member.
pub open spec fn spec_has_later_dup(g: ModuleGraph, u: int, i: int, cq: bool) -> bool {
    exists|j: int|
        i < j < g.records@[u].requests@.len() && #[trigger] spec_same_key(g, u, i, j, cq)
}

pub open spec fn spec_dup_head(g: ModuleGraph, u: int, k: int, cq: bool) -> Seq<DiagnosticModel> {
    if spec_dup_key(g, u, k, cq) is Some && spec_is_group_lead(g, u, k, cq) && spec_has_later_dup(
        g,
        u,
        k,
        cq,
    ) {
        seq![spec_dup_diag(g, u, k, cq)]
    } else {
        Seq::empty()
    }
}

pub open spec fn spec_dup_from(g: ModuleGraph, u: int, k: int, cq: bool) -> Seq<DiagnosticModel>
    decreases g.records@[u].requests@.len() - k,
        when 0 <= u < g.records@.len() && 0 <= k
{
    if k >= g.records@[u].requests@.len() {
        Seq::empty()
    } else {
        spec_dup_head(g, u, k, cq) + spec_dup_from(g, u, k + 1, cq)
    }
}

/// One diagnostic per group of two or more requests resolving to the same
/// key, in the order of the groups' first sites, each citing all of the
/// group's spans.
pub open spec fn spec_dup_diags(g: ModuleGraph, u: int, cq: bool) -> Seq<DiagnosticModel> {
    spec_dup_from(g, u, 0, cq)
}

// ---------------------------------------------------------------------------
// Cycles
// ---------------------------------------------------------------------------
/// The edge budget of the cycle search after the first edge: the whole
/// graph when unbounded (a minimal cycle never needs more), else the
/// configured depth less the first edge, likewise clamped.
pub open spec fn spec_cycle_fuel(g: ModuleGraph, maxd: Option<u32>) -> nat {
    match maxd {
        None => g.records@.len(),
        Some(d) => {
            if d == 0 {
                0
            } else if (d - 1) as nat <= g.records@.len() {
                (d - 1) as nat
            } else {
                g.records@.len()
            }
        },
    }
}

pub open spec fn spec_cycle_allowed(maxd: Option<u32>) -> bool {
    match maxd {
        None => true,
        Some(d) => d >= 1,
    }
}

pub open spec fn spec_cycle_diag(sp: Span) -> DiagnosticModel {
    DiagnosticModel {
        severity: Severity::Warning,
        message: DiagnosticMessage::DependencyCycle,
        labels: seq![sp],
    }
}

/// The contribution of request `k`: one diagnostic where its target is
/// the unit itself or leads back to it within the depth bound.
pub open spec fn spec_cycle_head(g: ModuleGraph, u: int, k: int, maxd: Option<u32>) -> Seq<
    DiagnosticModel,
> {
    match spec_resolve(g, u, g.records@[u].requests@[k].specifier@) {
        Some(t) => {
            if spec_cycle_allowed(maxd) && (t == u || spec_has_path(
                g,
                t,
                u,
                spec_cycle_fuel(g, maxd),
            )) {
                seq![spec_cycle_diag(g.records@[u].requests@[k].span)]
            } else {
                Seq::empty()
            }
        },
        None => Seq::empty(),
    }
}

pub open spec fn spec_cycle_from(g: ModuleGraph, u: int, k: int, maxd: Option<u32>) -> Seq<
    DiagnosticModel,
>
    decreases g.records@[u].requests@.len() - k,
        when 0 <= u < g.records@.len() && 0 <= k
{
    if k >= g.records@[u].requests@.len() {
        Seq::empty()
    } else {
        spec_cycle_head(g, u, k, maxd) + spec_cycle_from(g, u, k + 1, maxd)
    }
}

pub open spec fn spec_cycle_diags(g: ModuleGraph, u: int, maxd: Option<u32>) -> Seq<
    DiagnosticModel,
> {
    spec_cycle_from(g, u, 0, maxd)
}

// ---------------------------------------------------------------------------
// Executable comparisons
// ---------------------------------------------------------------------------
fn qpos(sp: &JsString, i: usize) -> (r: Option<usize>)
    requires
        i <= sp@.len(),
    ensures
        match r {
            Some(p) => spec_qpos(sp@, i as int) == Some(p as int) && p < sp@.len(),
            None => spec_qpos(sp@, i as int) is None,
        },
    decreases sp@.len() - i,
{
    if i >= sp.len() {
        None
    } else if sp[i] == 0x3F {
        Some(i)
    } else {
        qpos(sp, i + 1)
    }
}

/// Whether two specifier tails (from the given positions) are equal.
#[verifier::loop_isolation(false)]
fn tails_eq(a: &JsString, fa: usize, b: &JsString, fb: usize) -> (r: bool)
    requires
        fa <= a@.len(),
        fb <= b@.len(),
    ensures
        r == (a@.subrange(fa as int, a@.len() as int) == b@.subrange(fb as int, b@.len() as int)),
{
    let la = a.len() - fa;
    let lb = b.len() - fb;
    if la != lb {
        proof {
            assert(a@.subrange(fa as int, a@.len() as int).len() != b@.subrange(
                fb as int,
                b@.len() as int,
            ).len());
        }
        return false;
    }
    let mut i: usize = 0;
    while i < la
        invariant
            0 <= i <= la,
            la == a@.len() - fa == b@.len() - fb,
            forall|q: int| 0 <= q < i ==> #[trigger] a@[fa + q] == b@[fb + q],
        decreases la - i,
    {
        if a[fa + i] != b[fb + i] {
            proof {
                assert(a@.subrange(fa as int, a@.len() as int)[i as int] == a@[fa + i]);
                assert(b@.subrange(fb as int, b@.len() as int)[i as int] == b@[fb + i]);
            }
            return false;
        }
        i = i + 1;
    }
    proof {
        assert forall|q: int| 0 <= q < la implies a@.subrange(fa as int, a@.len() as int)[q]
            == b@.subrange(fb as int, b@.len() as int)[q] by {
            assert(a@[fa + q] == b@[fb + q]);
        }
        assert(a@.subrange(fa as int, a@.len() as int) =~= b@.subrange(
            fb as int,
            b@.len() as int,
        ));
    }
    true
}

/// Whether two specifiers carry the same query string (same presence and
/// same content).
fn queries_eq(a: &JsString, b: &JsString) -> (r: bool)
    ensures
        r == (spec_query_of(a@) == spec_query_of(b@)),
{
    match qpos(a, 0) {
        Some(pa) => match qpos(b, 0) {
            Some(pb) => {
                let la = a.len();
                let lb = b.len();
                tails_eq(a, pa + 1, b, pb + 1)
            },
            None => false,
        },
        None => match qpos(b, 0) {
            Some(_) => false,
            None => true,
        },
    }
}

fn forms_eq(a: &ImportForm, b: &ImportForm) -> (r: bool)
    ensures
        r == (a == b),
{
    match a {
        ImportForm::Value => matches!(b, ImportForm::Value),
        ImportForm::Namespace => matches!(b, ImportForm::Namespace),
        ImportForm::TypeOnly => matches!(b, ImportForm::TypeOnly),
    }
}

/// Whether requests `a` and `b` of unit `u` fall in one duplicate group.
fn same_key(g: &ModuleGraph, u: usize, a: usize, b: usize, cq: bool) -> (r: bool)
    requires
        g.wf(),
        u < g.records@.len(),
        a < g.records@[u as int].requests@.len(),
        b < g.records@[u as int].requests@.len(),
    ensures
        r == spec_same_key(*g, u as int, a as int, b as int, cq),
{
    let ra = resolve(g, u, &g.records[u].requests[a].specifier);
    let rb = resolve(g, u, &g.records[u].requests[b].specifier);
    match ra {
        Some(ta) => match rb {
            Some(tb) => {
                let paths = crate::text::str_eq(
                    &g.records[ta].resolved_absolute_path,
                    &g.records[tb].resolved_absolute_path,
                );
                let forms = forms_eq(
                    &g.records[u].requests[a].form,
                    &g.records[u].requests[b].form,
                );
                let queries = if cq {
                    queries_eq(
                        &g.records[u].requests[a].specifier,
                        &g.records[u].requests[b].specifier,
                    )
                } else {
                    true
                };
                paths && forms && queries
            },
            None => false,
        },
        None => false,
    }
}

impl NoDuplicates {
    /// The whole-unit check: appends the duplicate-group diagnostics, then
    /// the cycle diagnostics, of unit `u`.
    #[verifier::loop_isolation(false)]
    pub fn run_once(&self, g: &ModuleGraph, u: usize, ctx: &mut LintContext)
        requires
            g.wf(),
            u < g.records@.len(),
        ensures
            final(ctx).diags() == old(ctx).diags() + spec_dup_diags(
                *g,
                u as int,
                self.consider_query_string,
            ) + spec_cycle_diags(*g, u as int, self.max_cycle_depth),
    {
        let cq = self.consider_query_string;
        let n = g.records[u].requests.len();
        // duplicate groups
        let mut k: usize = 0;
        while k < n
            invariant
                0 <= k <= n,
                n == g.records@[u as int].requests@.len(),
                ctx.diags() + spec_dup_from(*g, u as int, k as int, cq) == old(ctx).diags()
                    + spec_dup_diags(*g, u as int, cq),
            decreases n - k,
        {
            let ghost before = ctx.diags();
            let keyed = match resolve(g, u, &g.records[u].requests[k].specifier) {
                Some(_) => true,
                None => false,
            };
            if keyed {
                // is k the first of its group?
                let mut lead = true;
                let mut j: usize = 0;
                while j < k
                    invariant
                        0 <= j <= k < n,
                        lead == (forall|q: int|
                            0 <= q < j ==> !(#[trigger] spec_same_key(*g, u as int, q, k as int, cq))),
                    decreases k - j,
                {
                    if same_key(g, u, j, k, cq) {
                        lead = false;
                        proof {
                            assert(spec_same_key(*g, u as int, j as int, k as int, cq));
                            assert(!(forall|q: int|
                                0 <= q < j + 1 ==> !(#[trigger] spec_same_key(
                                    *g,
                                    u as int,
                                    q,
                                    k as int,
                                    cq,
                                )))) by {
                                assert(spec_same_key(*g, u as int, j as int, k as int, cq));
                            }
                        }
                        j = k;
                    } else {
                        j = j + 1;
                    }
                }
                if lead {
                    // does the group have a later member?
                    let mut later = false;
                    let mut j2: usize = k + 1;
                    while j2 < n && !later
                        invariant
                            k < j2 <= n,
                            later ==> spec_has_later_dup(*g, u as int, k as int, cq),
                            !later ==> (forall|q: int|
                                k < q < j2 ==> !(#[trigger] spec_same_key(
                                    *g,
                                    u as int,
                                    k as int,
                                    q,
                                    cq,
                                ))),
                        decreases n - j2,
                    {
                        if same_key(g, u, k, j2, cq) {
                            later = true;
                            proof {
                                assert(spec_same_key(*g, u as int, k as int, j2 as int, cq));
                            }
                        }
                        j2 = j2 + 1;
                    }
                    if later {
                        // collect every span of the group
                        let mut labels: Vec<Span> = Vec::new();
                        let mut j3: usize = k;
                        while j3 < n
                            invariant
                                k <= j3 <= n,
                                labels@ + spec_group_spans(*g, u as int, k as int, j3 as int, cq)
                                    =~= spec_group_spans(*g, u as int, k as int, k as int, cq),
                            decreases n - j3,
                        {
                            let ghost lbefore = labels@;
                            if same_key(g, u, k, j3, cq) {
                                labels.push(g.records[u].requests[j3].span);
                                proof {
                                    assert(labels@ =~= lbefore + seq![
                                        g.records@[u as int].requests@[j3 as int].span,
                                    ]);
                                }
                            }
                            proof {
                                assert(lbefore + ((if spec_same_key(
                                    *g,
                                    u as int,
                                    k as int,
                                    j3 as int,
                                    cq,
                                ) {
                                    seq![g.records@[u as int].requests@[j3 as int].span]
                                } else {
                                    Seq::<Span>::empty()
                                }) + spec_group_spans(*g, u as int, k as int, j3 + 1, cq)) =~= (
                                lbefore + (if spec_same_key(*g, u as int, k as int, j3 as int, cq) {
                                    seq![g.records@[u as int].requests@[j3 as int].span]
                                } else {
                                    Seq::<Span>::empty()
                                })) + spec_group_spans(*g, u as int, k as int, j3 + 1, cq));
                            }
                            j3 = j3 + 1;
                        }
                        proof {
                            assert(labels@ + Seq::<Span>::empty() =~= labels@);
                        }
                        let d = Diagnostic {
                            severity: Severity::Warning,
                            message: DiagnosticMessage::ImportedMultipleTimes,
                            labels,
                        };
                        ctx.diagnostic(d);
                        proof {
                            assert(ctx.diags() =~= before + spec_dup_head(
                                *g,
                                u as int,
                                k as int,
                                cq,
                            ));
                        }
                    } else {
                        proof {
                            assert(!spec_has_later_dup(*g, u as int, k as int, cq));
                            assert(ctx.diags() =~= before + spec_dup_head(
                                *g,
                                u as int,
                                k as int,
                                cq,
                            ));
                        }
                    }
                } else {
                    proof {
                        assert(!spec_is_group_lead(*g, u as int, k as int, cq));
                        assert(ctx.diags() =~= before + spec_dup_head(*g, u as int, k as int, cq));
                    }
                }
            } else {
                proof {
                    assert(spec_dup_key(*g, u as int, k as int, cq) is None);
                    assert(ctx.diags() =~= before + spec_dup_head(*g, u as int, k as int, cq));
                }
            }
            proof {
                assert(before + (spec_dup_head(*g, u as int, k as int, cq) + spec_dup_from(
                    *g,
                    u as int,
                    k + 1,
                    cq,
                )) =~= (before + spec_dup_head(*g, u as int, k as int, cq)) + spec_dup_from(
                    *g,
                    u as int,
                    k + 1,
                    cq,
                ));
            }
            k = k + 1;
        }
        proof {
            assert(ctx.diags() + Seq::<DiagnosticModel>::empty() =~= ctx.diags());
        }
        // dependency cycles
        let maxd = self.max_cycle_depth;
        let allowed = match maxd {
            None => true,
            Some(d) => d >= 1,
        };
        let fuel: usize = match maxd {
            None => g.records.len(),
            Some(d) => {
                if d == 0 {
                    0
                } else if ((d - 1) as usize) <= g.records.len() {
                    (d - 1) as usize
                } else {
                    g.records.len()
                }
            },
        };
        proof {
            assert(fuel as nat == spec_cycle_fuel(*g, maxd));
        }
        let ghost mid = ctx.diags();
        let mut k2: usize = 0;
        while k2 < n
            invariant
                0 <= k2 <= n,
                n == g.records@[u as int].requests@.len(),
                fuel as nat == spec_cycle_fuel(*g, maxd),
                allowed == spec_cycle_allowed(maxd),
                ctx.diags() + spec_cycle_from(*g, u as int, k2 as int, maxd) == mid
                    + spec_cycle_diags(*g, u as int, maxd),
            decreases n - k2,
        {
            let ghost before = ctx.diags();
            match resolve(g, u, &g.records[u].requests[k2].specifier) {
                Some(t) => {
                    let cyc = allowed && (t == u || path_exists(g, t, u, fuel));
                    if cyc {
                        let mut labels: Vec<Span> = Vec::new();
                        labels.push(g.records[u].requests[k2].span);
                        let d = Diagnostic {
                            severity: Severity::Warning,
                            message: DiagnosticMessage::DependencyCycle,
                            labels,
                        };
                        proof {
                            assert(d@.labels =~= seq![
                                g.records@[u as int].requests@[k2 as int].span,
                            ]);
                        }
                        ctx.diagnostic(d);
                        proof {
                            assert(ctx.diags() =~= before + spec_cycle_head(
                                *g,
                                u as int,
                                k2 as int,
                                maxd,
                            ));
                        }
                    } else {
                        proof {
                            assert(ctx.diags() =~= before + spec_cycle_head(
                                *g,
                                u as int,
                                k2 as int,
                                maxd,
                            ));
                        }
                    }
                },
                None => {
                    proof {
                        assert(ctx.diags() =~= before + spec_cycle_head(
                            *g,
                            u as int,
                            k2 as int,
                            maxd,
                        ));
                    }
                },
            }
            proof {
                assert(before + (spec_cycle_head(*g, u as int, k2 as int, maxd) + spec_cycle_from(
                    *g,
                    u as int,
                    k2 + 1,
                    maxd,
                )) =~= (before + spec_cycle_head(*g, u as int, k2 as int, maxd)) + spec_cycle_from(
                    *g,
                    u as int,
                    k2 + 1,
                    maxd,
                ));
            }
            k2 = k2 + 1;
        }
        proof {
            assert(ctx.diags() + Seq::<DiagnosticModel>::empty() =~= ctx.diags());
            assert(mid == old(ctx).diags() + spec_dup_diags(*g, u as int, cq));
        }
    }
}


/// Imports of distinct binding forms never fall in one duplicate group:
/// a namespace import beside a default or named import, or a type-only
/// import beside a value import, is not flagged, whatever they resolve
/// to.
pub proof fn lemma_distinct_forms_never_group(g: ModuleGraph, u: int, a: int, b: int, cq: bool)
    requires
        0 <= u < g.records@.len(),
        0 <= a < g.records@[u].requests@.len(),
        0 <= b < g.records@[u].requests@.len(),
        g.records@[u].requests@[a].form != g.records@[u].requests@[b].form,
    ensures
        !spec_same_key(g, u, a, b, cq),
{
}

} // verus!
