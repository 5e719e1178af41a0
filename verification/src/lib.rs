//! Semantic core of a static-analysis toolchain for ECMAScript sources.
//!
//! The crate holds four verified layers:
//! * value semantics: conversions of statically known values to numbers,
//!   booleans, big integers and strings, following the language
//!   specification's abstract operations;
//! * syntax-directed queries: bound names, parameter-list simplicity,
//!   private identifiers and property keys, computed by structural
//!   recursion over a parsed tree;
//! * a read-only module dependency graph with self-import, duplicate-import
//!   and cycle checks;
//! * a rule execution engine that walks each unit's tree once and
//!   dispatches every visited node to the registered rules that declared
//!   interest in its kind, then gives each rule one whole-unit call.

// shared ground: spans, code-unit strings, the value models
pub mod span;
pub mod text;
pub mod number;
pub mod big_int;
pub mod value;

// the parsed tree and static evaluation over it
pub mod ast;
pub mod eval;

// abstract operations of the language specification
pub mod to_number;
pub mod to_int_32;
pub mod to_boolean;
pub mod to_big_int;
pub mod string_to_big_int;
pub mod to_string;
pub mod string_char_at;
pub mod string_index_of;
pub mod string_last_index_of;

// syntax-directed operations
pub mod bound_names;
pub mod is_simple_parameter_list;
pub mod private_bound_identifiers;
pub mod prop_name;

// the lint core: diagnostics, the module graph, the rules, the engine
pub mod diagnostics;
pub mod module_record;
pub mod no_absolute_path;
pub mod no_duplicates;
pub mod require_render_return;
pub mod engine;
