use vstd::prelude::*;
use crate::diagnostics::{Diagnostic, DiagnosticMessage, DiagnosticModel, LintContext, Severity};
use crate::module_record::{resolve, spec_resolve, ModuleGraph};
use crate::span::Span;

verus! {

/// Flags a unit importing itself: every request whose specifier resolves
/// to a record with the unit's own resolved absolute path is reported, one
/// diagnostic per request site.
#[derive(Debug, Default, Clone)]
pub struct NoAbsolutePath;

/// The diagnostic for one self-importing request site.
pub open spec fn spec_self_import_diag(sp: Span) -> DiagnosticModel {
    DiagnosticModel {
        severity: Severity::Warning,
        message: DiagnosticMessage::SelfImport,
        labels: seq![sp],
    }
}

/// The contribution of request `k` of unit `u`: one diagnostic where the
/// request resolves back to the unit's own path, nothing otherwise.
pub open spec fn spec_self_import_head(g: ModuleGraph, u: int, k: int) -> Seq<DiagnosticModel> {
    match spec_resolve(g, u, g.records@[u].requests@[k].specifier@) {
        Some(t) => {
            if g.records@[t].resolved_absolute_path@ == g.records@[u].resolved_absolute_path@ {
                seq![spec_self_import_diag(g.records@[u].requests@[k].span)]
            } else {
                Seq::empty()
            }
        },
        None => Seq::empty(),
    }
}

pub open spec fn spec_self_import_from(g: ModuleGraph, u: int, k: int) -> Seq<DiagnosticModel>
    decreases g.records@[u].requests@.len() - k,
        when 0 <= u < g.records@.len() && 0 <= k
{
    if k >= g.records@[u].requests@.len() {
        Seq::empty()
    } else {
        spec_self_import_head(g, u, k) + spec_self_import_from(g, u, k + 1)
    }
}

/// Every self-import diagnostic of unit `u`, in request order.
pub open spec fn spec_self_import_diags(g: ModuleGraph, u: int) -> Seq<DiagnosticModel> {
    spec_self_import_from(g, u, 0)
}

impl NoAbsolutePath {
    /// The whole-unit check: appends exactly the self-import diagnostics
    /// of unit `u`, in request order, to the channel.
    #[verifier::loop_isolation(false)]
    pub fn run_once(&self, g: &ModuleGraph, u: usize, ctx: &mut LintContext)
        requires
            g.wf(),
            u < g.records@.len(),
        ensures
            final(ctx).diags() == old(ctx).diags() + spec_self_import_diags(*g, u as int),
    {
        let n = g.records[u].requests.len();
        let mut k: usize = 0;
        while k < n
            invariant
                0 <= k <= n,
                n == g.records@[u as int].requests@.len(),
                ctx.diags() + spec_self_import_from(*g, u as int, k as int) == old(ctx).diags()
                    + spec_self_import_diags(*g, u as int),
            decreases n - k,
        {
            let ghost before = ctx.diags();
            match resolve(g, u, &g.records[u].requests[k].specifier) {
                Some(t) => {
                    if crate::text::str_eq(
                        &g.records[t].resolved_absolute_path,
                        &g.records[u].resolved_absolute_path,
                    ) {
                        let mut labels: Vec<Span> = Vec::new();
                        labels.push(g.records[u].requests[k].span);
                        let d = Diagnostic {
                            severity: Severity::Warning,
                            message: DiagnosticMessage::SelfImport,
                            labels,
                        };
                        proof {
                            assert(d@.labels =~= seq![
                                g.records@[u as int].requests@[k as int].span,
                            ]);
                        }
                        ctx.diagnostic(d);
                        proof {
                            assert(ctx.diags() =~= before + spec_self_import_head(
                                *g,
                                u as int,
                                k as int,
                            ));
                        }
                    } else {
                        proof {
                            assert(ctx.diags() =~= before + spec_self_import_head(
                                *g,
                                u as int,
                                k as int,
                            ));
                        }
                    }
                },
                None => {
                    proof {
                        assert(ctx.diags() =~= before + spec_self_import_head(
                            *g,
                            u as int,
                            k as int,
                        ));
                    }
                },
            }
            proof {
                assert(before + (spec_self_import_head(*g, u as int, k as int)
                    + spec_self_import_from(*g, u as int, k + 1)) =~= (before
                    + spec_self_import_head(*g, u as int, k as int)) + spec_self_import_from(
                    *g,
                    u as int,
                    k + 1,
                ));
            }
            k = k + 1;
        }
        proof {
            assert(ctx.diags() + Seq::<DiagnosticModel>::empty() =~= ctx.diags());
        }
    }
}

/// In a unit whose every request resolves to its own path, the check
/// yields exactly one diagnostic per import site, in order, each labelled
/// with that site's span.
pub proof fn lemma_self_import_one_per_site(g: ModuleGraph, u: int, k: int)
    requires
        0 <= u < g.records@.len(),
        0 <= k <= g.records@[u].requests@.len(),
        forall|q: int|
            0 <= q < g.records@[u].requests@.len() ==> {
                let r = spec_resolve(g, u, (#[trigger] g.records@[u].requests@[q]).specifier@);
                r is Some && g.records@[r->Some_0].resolved_absolute_path@
                    == g.records@[u].resolved_absolute_path@
            },
    ensures
        spec_self_import_from(g, u, k).len() == g.records@[u].requests@.len() - k,
        forall|q: int|
            0 <= q < g.records@[u].requests@.len() - k ==> #[trigger] spec_self_import_from(
                g,
                u,
                k,
            )[q] == spec_self_import_diag(g.records@[u].requests@[k + q].span),
    decreases g.records@[u].requests@.len() - k,
{
    if k < g.records@[u].requests@.len() {
        lemma_self_import_one_per_site(g, u, k + 1);
        assert(spec_self_import_head(g, u, k) == seq![
            spec_self_import_diag(g.records@[u].requests@[k].span),
        ]);
    }
}

} // verus!
