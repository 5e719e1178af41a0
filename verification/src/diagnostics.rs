use vstd::prelude::*;
use crate::span::Span;

verus! {

#[derive(Clone, Copy, Debug, PartialEq, Eq, Structural)]
pub enum Severity {
    Error,
    Warning,
}

/// The fixed message of a diagnostic. Rendering the message and its
/// remediation text to human-readable strings is the reporting
/// collaborator's concern; the channel carries plain structured data.
#[derive(Clone, Copy, Debug, PartialEq, Eq, Structural)]
pub enum DiagnosticMessage {
    SelfImport,
    ImportedMultipleTimes,
    DependencyCycle,
    RenderMustReturn,
}

/// One write-once finding: a severity, a fixed message, and one or more
/// labelled source spans. The channel never mutates or deduplicates
/// diagnostics.
#[derive(Clone, Debug, PartialEq, Eq)]
pub struct Diagnostic {
    pub severity: Severity,
    pub message: DiagnosticMessage,
    pub labels: Vec<Span>,
}

/// The mathematical model of a diagnostic.
pub struct DiagnosticModel {
    pub severity: Severity,
    pub message: DiagnosticMessage,
    pub labels: Seq<Span>,
}

impl View for Diagnostic {
    type V = DiagnosticModel;

    open spec fn view(&self) -> DiagnosticModel {
        DiagnosticModel { severity: self.severity, message: self.message, labels: self.labels@ }
    }
}

/// The deep view of an ordered diagnostic sequence.
pub open spec fn spec_diags_view(v: Seq<Diagnostic>) -> Seq<DiagnosticModel> {
    v.map_values(|d: Diagnostic| d@)
}

pub proof fn lemma_diags_view_push(v: Seq<Diagnostic>, d: Diagnostic)
    ensures
        spec_diags_view(v.push(d)) == spec_diags_view(v).push(d@),
{
    assert(spec_diags_view(v.push(d)) =~= spec_diags_view(v).push(d@));
}

/// The per-unit analysis context a rule receives: for this core, the
/// append-only diagnostic channel. The tree and the module graph are
/// passed alongside, read-only.
#[derive(Debug)]
pub struct LintContext {
    pub diagnostics: Vec<Diagnostic>,
}

impl LintContext {
    pub open spec fn diags(self) -> Seq<DiagnosticModel> {
        spec_diags_view(self.diagnostics@)
    }

    pub fn new() -> (ctx: LintContext)
        ensures
            ctx.diags() == Seq::<DiagnosticModel>::empty(),
    {
        let ctx = LintContext { diagnostics: Vec::new() };
        proof {
            assert(ctx.diags() =~= Seq::<DiagnosticModel>::empty());
        }
        ctx
    }

    /// Appends one finding; nothing already collected changes.
    pub fn diagnostic(&mut self, d: Diagnostic)
        ensures
            final(self).diags() == old(self).diags().push(d@),
    {
        let ghost v = self.diagnostics@;
        let ghost dm = d;
        self.diagnostics.push(d);
        proof {
            lemma_diags_view_push(v, dm);
        }
    }
}

} // verus!
