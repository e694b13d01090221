//! Decisions of the scan for panicking calls inside `Drop` implementations:
//! which directories and files are scanned, which trait implementations are
//! inspected, which method calls and macros are reported, and the report
//! lines.

use vstd::prelude::*;
use crate::text::{contains_seq, contains_str, push_str, str_eq};

verus! {

/// The directories scanned, relative to the tool's working directory.
pub open spec fn scan_roots() -> Seq<Seq<char>> {
    seq![
        "../src"@,
        "../asupersync-browser-core/src"@,
        "../asupersync-macros/src"@,
        "../asupersync-tokio-compat/src"@,
        "../asupersync-wasm/src"@,
    ]
}

/// The directories scanned, in order.
pub fn dirs_to_check() -> (dirs: Vec<&'static str>)
    ensures
        dirs@.map_values(|d: &str| d@) == scan_roots(),
{
    let dirs = vec![
        "../src",
        "../asupersync-browser-core/src",
        "../asupersync-macros/src",
        "../asupersync-tokio-compat/src",
        "../asupersync-wasm/src",
    ];
    assert(dirs@.map_values(|d: &str| d@) =~= scan_roots());
    dirs
}

/// Whether a path names a test file, which the scan skips.
pub open spec fn is_test_path_spec(path: Seq<char>) -> bool {
    contains_seq(path, "/tests/"@) || contains_seq(path, "/test_"@) || contains_seq(path, "tests.rs"@)
}

/// Whether a path names a test file: under `/tests/`, a `test_` file, or a
/// `tests.rs` file.
pub fn is_test_path(path: &str) -> (b: bool)
    ensures
        b == is_test_path_spec(path@),
{
    contains_str(path, "/tests/") || contains_str(path, "/test_") || contains_str(path, "tests.rs")
}

/// Whether a Rust source file is scanned: any `.rs` file that is not a test file.
pub fn should_scan(is_rust_source: bool, path: &str) -> (b: bool)
    ensures
        b == (is_rust_source && !is_test_path_spec(path@)),
{
    is_rust_source && !is_test_path(path)
}

/// Whether an implemented trait, by the last segment of its path, is `Drop`.
pub fn is_drop_trait(last_segment: &str) -> (b: bool)
    ensures
        b == (last_segment@ == "Drop"@),
{
    str_eq(last_segment, "Drop")
}

/// Whether a method call is reported: its name contains `unwrap` or `expect`.
pub fn is_flagged_method(method_name: &str) -> (b: bool)
    ensures
        b == (contains_seq(method_name@, "unwrap"@) || contains_seq(method_name@, "expect"@)),
{
    contains_str(method_name, "unwrap") || contains_str(method_name, "expect")
}

/// Whether a macro, named by a single identifier, is reported: `unwrap`,
/// `expect` or `panic`.
pub fn is_flagged_macro(ident: &str) -> (b: bool)
    ensures
        b == (ident@ == "unwrap"@ || ident@ == "expect"@ || ident@ == "panic"@),
{
    str_eq(ident, "unwrap") || str_eq(ident, "expect") || str_eq(ident, "panic")
}

/// The report line for a flagged method call.
pub fn method_report(filepath: &str, method_name: &str) -> (s: String)
    ensures
        s@ == filepath@ + ": has "@ + method_name@,
{
    let mut s = String::new();
    push_str(&mut s, filepath);
    push_str(&mut s, ": has ");
    push_str(&mut s, method_name);
    proof {
        assert(s@ =~= filepath@ + ": has "@ + method_name@);
    }
    s
}

/// The report line for a flagged macro.
pub fn macro_report(filepath: &str, macro_name: &str) -> (s: String)
    ensures
        s@ == filepath@ + ": has macro "@ + macro_name@,
{
    let mut s = String::new();
    push_str(&mut s, filepath);
    push_str(&mut s, ": has macro ");
    push_str(&mut s, macro_name);
    proof {
        assert(s@ =~= filepath@ + ": has macro "@ + macro_name@);
    }
    s
}

} // verus!
