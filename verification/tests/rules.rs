use ecma_lint_core::diagnostics::{DiagnosticMessage, LintContext};
use ecma_lint_core::module_record::{
    ImportForm, ImportRequest, ModuleGraph, ModuleRecord, Resolution,
};
use ecma_lint_core::no_absolute_path::NoAbsolutePath;
use ecma_lint_core::no_duplicates::NoDuplicates;
use ecma_lint_core::span::Span;

fn js(s: &str) -> Vec<u16> {
    s.encode_utf16().collect()
}

/// A graph with one analyzed unit whose requests resolve as given:
/// `(specifier, form, resolved path or None)`. Targets resolving to the
/// unit's own path point back at its record.
fn unit_graph(own_path: &str, entries: &[(&str, ImportForm, Option<&str>)]) -> ModuleGraph {
    let mut records = vec![ModuleRecord {
        resolved_absolute_path: js(own_path),
        requests: Vec::new(),
        loaded: Vec::new(),
    }];
    for (i, (spec, form, resolved)) in entries.iter().enumerate() {
        records[0].requests.push(ImportRequest {
            specifier: js(spec),
            span: Span::new(i as u32 * 10, i as u32 * 10 + 5),
            form: *form,
        });
        if let Some(path) = resolved {
            let target = if *path == own_path {
                0
            } else {
                match records.iter().position(|r| r.resolved_absolute_path == js(path)) {
                    Some(t) => t,
                    None => {
                        records.push(ModuleRecord {
                            resolved_absolute_path: js(path),
                            requests: Vec::new(),
                            loaded: Vec::new(),
                        });
                        records.len() - 1
                    }
                }
            };
            records[0].loaded.push(Resolution { specifier: js(spec), target });
        }
    }
    ModuleGraph { records }
}

#[test]
fn no_absolute_path_test() {
    let v = ImportForm::Value;
    // sources whose single import does not resolve back to the unit
    let pass: &[(&str, &str, Option<&str>)] = &[
        ("import _ from 'lodash'", "lodash", Some("/node_modules/lodash/index.js")),
        ("import find from 'lodash.find'", "lodash.find", Some("/node_modules/lodash.find/index.js")),
        ("import foo from './foo'", "./foo", Some("/project/foo.js")),
        ("import foo from '../foo'", "../foo", Some("/foo.js")),
        ("import foo from 'foo'", "foo", Some("/node_modules/foo/index.js")),
        ("import foo from './'", "./", Some("/project/index.js")),
        ("import foo from '@scope/foo'", "@scope/foo", Some("/node_modules/@scope/foo/index.js")),
        ("var _ = require('lodash')", "lodash", Some("/node_modules/lodash/index.js")),
        ("var find = require('lodash.find')", "lodash.find", Some("/node_modules/lodash.find/index.js")),
        ("var foo = require('./foo')", "./foo", Some("/project/foo.js")),
        ("var foo = require('../foo')", "../foo", Some("/foo.js")),
        ("var foo = require('foo')", "foo", Some("/node_modules/foo/index.js")),
        ("var foo = require('./')", "./", Some("/project/index.js")),
        ("var foo = require('@scope/foo')", "@scope/foo", Some("/node_modules/@scope/foo/index.js")),
        ("var bar = require('./bar/index')", "./bar/index", Some("/project/bar/index.js")),
    ];
    for (_source, spec, resolved) in pass {
        let g = unit_graph("/project/no-self-import.js", &[(*spec, v, *resolved)]);
        let mut ctx = LintContext::new();
        NoAbsolutePath.run_once(&g, 0, &mut ctx);
        assert_eq!(ctx.diagnostics.len(), 0, "flagged: {}", _source);
    }
    // sources whose import resolves to the unit's own path
    let fail: &[(&str, &str)] = &[
        ("import bar from './no-self-import'", "./no-self-import"),
        ("var bar = require('./no-self-import')", "./no-self-import"),
        ("var bar = require('./no-self-import.js')", "./no-self-import.js"),
    ];
    for (_source, spec) in fail {
        let g = unit_graph(
            "/project/no-self-import.js",
            &[(*spec, v, Some("/project/no-self-import.js"))],
        );
        let mut ctx = LintContext::new();
        NoAbsolutePath.run_once(&g, 0, &mut ctx);
        assert_eq!(ctx.diagnostics.len(), 1, "missed: {}", _source);
        assert_eq!(ctx.diagnostics[0].message, DiagnosticMessage::SelfImport);
        assert_eq!(ctx.diagnostics[0].labels, vec![Span::new(0, 5)]);
    }
}

/// One diagnostic per import site of a self-importing unit.
#[test]
fn self_import_one_diagnostic_per_site() {
    let v = ImportForm::Value;
    let g = unit_graph(
        "/u.js",
        &[("./u", v, Some("/u.js")), ("./u.js", v, Some("/u.js")), ("./other", v, Some("/o.js"))],
    );
    let mut ctx = LintContext::new();
    NoAbsolutePath.run_once(&g, 0, &mut ctx);
    assert_eq!(ctx.diagnostics.len(), 2);
    assert_eq!(ctx.diagnostics[0].labels, vec![Span::new(0, 5)]);
    assert_eq!(ctx.diagnostics[1].labels, vec![Span::new(10, 15)]);
}

fn run_dup(g: &ModuleGraph, cq: bool) -> Vec<ecma_lint_core::diagnostics::Diagnostic> {
    let rule = NoDuplicates { consider_query_string: cq, max_cycle_depth: None };
    let mut ctx = LintContext::new();
    rule.run_once(g, 0, &mut ctx);
    ctx.diagnostics
}

/// A chain `own -> a [-> b [-> c]] -> own` for the cycle fixtures.
fn cycle_graph(spec: &str, hops: usize) -> ModuleGraph {
    let mut records = vec![ModuleRecord {
        resolved_absolute_path: js("/cycles/depth-zero.js"),
        requests: vec![ImportRequest { specifier: js(spec), span: Span::new(0, 5), form: ImportForm::Value }],
        loaded: vec![Resolution { specifier: js(spec), target: 1 }],
    }];
    for h in 0..hops {
        let next = if h + 1 == hops { 0 } else { h + 2 };
        records.push(ModuleRecord {
            resolved_absolute_path: js(&format!("/cycles/hop{}.js", h)),
            requests: Vec::new(),
            loaded: vec![Resolution { specifier: js("x"), target: next }],
        });
    }
    ModuleGraph { records }
}

#[test]
fn no_duplicates_test() {
    let v = ImportForm::Value;
    let ns = ImportForm::Namespace;
    let ty = ImportForm::TypeOnly;
    // r#"import "./malformed.js"# — a parse failure leaves no requests
    let g = unit_graph("/cycles/depth-zero.js", &[]);
    assert_eq!(run_dup(&g, false).len(), 0);
    // "import { x } from './foo'; import { y } from './bar'"
    let g = unit_graph(
        "/cycles/depth-zero.js",
        &[("./foo", v, Some("/foo.js")), ("./bar", v, Some("/bar.js"))],
    );
    assert_eq!(run_dup(&g, false).len(), 0);
    // r#"import foo from "234artaf"; import { shoop } from "234q25ad"# — unresolved
    let g = unit_graph("/cycles/depth-zero.js", &[("234artaf", v, None), ("234q25ad", v, None)]);
    assert_eq!(run_dup(&g, false).len(), 0);
    // "import { x } from './foo'; import type { y } from './foo'"
    let g = unit_graph(
        "/cycles/depth-zero.js",
        &[("./foo", v, Some("/foo.js")), ("./foo", ty, Some("/foo.js"))],
    );
    assert_eq!(run_dup(&g, false).len(), 0);
    // "import x from './bar?optionX'; import y from './bar?optionY';" with considerQueryString
    let g = unit_graph(
        "/cycles/depth-zero.js",
        &[("./bar?optionX", v, Some("/bar.js")), ("./bar?optionY", v, Some("/bar.js"))],
    );
    assert_eq!(run_dup(&g, true).len(), 0);
    // "import x from './foo'; import y from './bar';" with considerQueryString
    let g = unit_graph(
        "/cycles/depth-zero.js",
        &[("./foo", v, Some("/foo.js")), ("./bar", v, Some("/bar.js"))],
    );
    assert_eq!(run_dup(&g, true).len(), 0);
    // "import * as ns from './foo'; import {y} from './foo'" and the reverse
    let g = unit_graph(
        "/cycles/depth-zero.js",
        &[("./foo", ns, Some("/foo.js")), ("./foo", v, Some("/foo.js"))],
    );
    assert_eq!(run_dup(&g, false).len(), 0);
    let g = unit_graph(
        "/cycles/depth-zero.js",
        &[("./foo", v, Some("/foo.js")), ("./foo", ns, Some("/foo.js"))],
    );
    assert_eq!(run_dup(&g, false).len(), 0);
    // "import {x} from './foo'; import {y} from './foo'; import { z } from './foo'"
    let g = unit_graph(
        "/cycles/depth-zero.js",
        &[
            ("./foo", v, Some("/foo.js")),
            ("./foo", v, Some("/foo.js")),
            ("./foo", v, Some("/foo.js")),
        ],
    );
    let d = run_dup(&g, false);
    assert_eq!(d.len(), 1);
    assert_eq!(d[0].message, DiagnosticMessage::ImportedMultipleTimes);
    assert_eq!(d[0].labels.len(), 3);
    // "import { x } from './bar'; import { y } from 'bar';" — both resolve to one file
    let g = unit_graph(
        "/cycles/depth-zero.js",
        &[("./bar", v, Some("/files/bar.js")), ("bar", v, Some("/files/bar.js"))],
    );
    let d = run_dup(&g, false);
    assert_eq!(d.len(), 1);
    assert_eq!(d[0].labels, vec![Span::new(0, 5), Span::new(10, 15)]);
    // "import x from './bar.js?optionX'; import y from './bar?optionX';"
    let g = unit_graph(
        "/cycles/depth-zero.js",
        &[("./bar.js?optionX", v, Some("/bar.js")), ("./bar?optionX", v, Some("/bar.js"))],
    );
    assert_eq!(run_dup(&g, false).len(), 1);
    // "import x from './bar?optionX'; import y from './bar?optionY';" without the option
    let g = unit_graph(
        "/cycles/depth-zero.js",
        &[("./bar?optionX", v, Some("/bar.js")), ("./bar?optionY", v, Some("/bar.js"))],
    );
    assert_eq!(run_dup(&g, false).len(), 1);
    // "import x from './bar?optionX'; import y from './bar.js?optionX';" with the option:
    // equal query strings still collide
    let g = unit_graph(
        "/cycles/depth-zero.js",
        &[("./bar?optionX", v, Some("/bar.js")), ("./bar.js?optionX", v, Some("/bar.js"))],
    );
    assert_eq!(run_dup(&g, true).len(), 1);
    // "import { foo } from './es6/depth-three-indirect'" from cycles/depth-zero.js
    let d = run_dup(&cycle_graph("./es6/depth-three-indirect", 3), false);
    assert_eq!(d.len(), 1);
    assert_eq!(d[0].message, DiagnosticMessage::DependencyCycle);
    // "import { foo } from './intermediate-ignore'"
    let d = run_dup(&cycle_graph("./intermediate-ignore", 2), false);
    assert_eq!(d.len(), 1);
    assert_eq!(d[0].message, DiagnosticMessage::DependencyCycle);
    // "import { foo } from './ignore'"
    let d = run_dup(&cycle_graph("./ignore", 1), false);
    assert_eq!(d.len(), 1);
    assert_eq!(d[0].message, DiagnosticMessage::DependencyCycle);
}

#[test]
fn cycle_depth_limit_is_respected() {
    // own -> a -> b -> c -> own is a cycle of four edges
    let g = cycle_graph("./a", 3);
    for (maxd, hits) in [(None, 1), (Some(4), 1), (Some(3), 0), (Some(2), 0), (Some(0), 0)] {
        let rule = NoDuplicates { consider_query_string: false, max_cycle_depth: maxd };
        let mut ctx = LintContext::new();
        rule.run_once(&g, 0, &mut ctx);
        assert_eq!(ctx.diagnostics.len(), hits, "maxDepth {:?}", maxd);
    }
}
