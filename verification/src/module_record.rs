use vstd::prelude::*;
use crate::span::Span;
use crate::text::{str_eq, JsString};

verus! {

/// The binding form of an import request. The duplicate-import check
/// groups namespace imports, value (default or named) imports and
/// type-only imports separately: they are distinct binding forms.
#[derive(Clone, Copy, Debug, PartialEq, Eq, Structural)]
pub enum ImportForm {
    Value,
    Namespace,
    TypeOnly,
}

/// One site requesting a specifier.
#[derive(Debug)]
pub struct ImportRequest {
    pub specifier: JsString,
    pub span: Span,
    pub form: ImportForm,
}

/// The resolver's answer for one specifier: the index of the target's
/// record in the graph. A specifier the resolver could not map is simply
/// absent.
#[derive(Debug)]
pub struct Resolution {
    pub specifier: JsString,
    pub target: usize,
}

/// One analyzed unit's module record, built by the external resolver
/// before rule execution and read-only afterwards.
#[derive(Debug)]
pub struct ModuleRecord {
    pub resolved_absolute_path: JsString,
    pub requests: Vec<ImportRequest>,
    pub loaded: Vec<Resolution>,
}

/// The dependency graph of the analysis run: records addressed by index,
/// edges through each record's resolutions.
#[derive(Debug)]
pub struct ModuleGraph {
    pub records: Vec<ModuleRecord>,
}

impl ModuleGraph {
    /// Well-formedness: every resolution points into the graph.
    pub open spec fn wf(self) -> bool {
        forall|r: int, k: int|
            0 <= r < self.records@.len() && 0 <= k < self.records@[r].loaded@.len()
                ==> (#[trigger] self.records@[r].loaded@[k]).target < self.records@.len()
    }
}

/// The first resolution of `sp` in unit `u`'s record, scanning from
/// position `k`.
pub open spec fn spec_resolve_from(g: ModuleGraph, u: int, sp: Seq<u16>, k: int) -> Option<int>
    decreases g.records@[u].loaded@.len() - k,
        when 0 <= u < g.records@.len() && 0 <= k
{
    if k >= g.records@[u].loaded@.len() {
        None
    } else if g.records@[u].loaded@[k].specifier@ == sp {
        Some(g.records@[u].loaded@[k].target as int)
    } else {
        spec_resolve_from(g, u, sp, k + 1)
    }
}

/// The record index a specifier resolves to in unit `u`, if any.
pub open spec fn spec_resolve(g: ModuleGraph, u: int, sp: Seq<u16>) -> Option<int> {
    spec_resolve_from(g, u, sp, 0)
}

fn resolve_from(g: &ModuleGraph, u: usize, sp: &JsString, k: usize) -> (r: Option<usize>)
    requires
        g.wf(),
        u < g.records@.len(),
    ensures
        match r {
            Some(t) => spec_resolve_from(*g, u as int, sp@, k as int) == Some(t as int) && t
                < g.records@.len(),
            None => spec_resolve_from(*g, u as int, sp@, k as int) is None,
        },
    decreases g.records@[u as int].loaded@.len() - k,
{
    if k >= g.records[u].loaded.len() {
        None
    } else if str_eq(&g.records[u].loaded[k].specifier, sp) {
        Some(g.records[u].loaded[k].target)
    } else {
        resolve_from(g, u, sp, k + 1)
    }
}

pub fn resolve(g: &ModuleGraph, u: usize, sp: &JsString) -> (r: Option<usize>)
    requires
        g.wf(),
        u < g.records@.len(),
    ensures
        match r {
            Some(t) => spec_resolve(*g, u as int, sp@) == Some(t as int) && t < g.records@.len(),
            None => spec_resolve(*g, u as int, sp@) is None,
        },
{
    resolve_from(g, u, sp, 0)
}

/// There is a dependency path of at most `fuel` edges from `a` to `t`,
/// with at least one edge.
pub open spec fn spec_has_path(g: ModuleGraph, a: int, t: int, fuel: nat) -> bool
    decreases fuel,
{
    fuel > 0 && exists|k: int|
        0 <= k < g.records@[a].loaded@.len() && ((#[trigger] g.records@[a].loaded@[k]).target == t
            || spec_has_path(g, g.records@[a].loaded@[k].target as int, t, (fuel - 1) as nat))
}

/// Executable bounded path search over the loaded-module edges.
pub fn path_exists(g: &ModuleGraph, a: usize, t: usize, fuel: usize) -> (r: bool)
    requires
        g.wf(),
        a < g.records@.len(),
    ensures
        r == spec_has_path(*g, a as int, t as int, fuel as nat),
    decreases fuel, g.records@[a as int].loaded@.len() + 1,
{
    if fuel == 0 {
        return false;
    }
    path_exists_edges(g, a, t, fuel, 0)
}

fn path_exists_edges(g: &ModuleGraph, a: usize, t: usize, fuel: usize, k0: usize) -> (r: bool)
    requires
        g.wf(),
        a < g.records@.len(),
        fuel >= 1,
    ensures
        r == exists|k: int|
            k0 <= k < g.records@[a as int].loaded@.len() && ((
            #[trigger] g.records@[a as int].loaded@[k]).target == t || spec_has_path(
                *g,
                g.records@[a as int].loaded@[k].target as int,
                t as int,
                (fuel - 1) as nat,
            )),
    decreases fuel, g.records@[a as int].loaded@.len() - k0,
{
    if k0 >= g.records[a].loaded.len() {
        return false;
    }
    let m = g.records[a].loaded[k0].target;
    if m == t {
        return true;
    }
    if path_exists(g, m, t, fuel - 1) {
        return true;
    }
    path_exists_edges(g, a, t, fuel, k0 + 1)
}

} // verus!
