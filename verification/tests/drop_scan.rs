use frankensearch::drop_scan::{
    dirs_to_check, is_drop_trait, is_flagged_macro, is_flagged_method, is_test_path,
    macro_report, method_report, should_scan,
};

#[test]
fn scan_roots_are_the_five_crate_sources() {
    let dirs = dirs_to_check();
    assert_eq!(dirs.len(), 5);
    assert_eq!(dirs[0], "../src");
    assert_eq!(dirs[4], "../asupersync-wasm/src");
}

#[test]
fn test_files_are_skipped() {
    assert!(is_test_path("crate/tests/pool.rs"));
    assert!(is_test_path("crate/src/test_utils.rs"));
    assert!(is_test_path("crate/src/tests.rs"));
    assert!(!is_test_path("crate/src/pool.rs"));
    assert!(should_scan(true, "crate/src/pool.rs"));
    assert!(!should_scan(false, "crate/src/pool.txt"));
    assert!(!should_scan(true, "crate/tests/pool.rs"));
}

#[test]
fn only_drop_impls_and_panicking_calls_are_flagged() {
    assert!(is_drop_trait("Drop"));
    assert!(!is_drop_trait("Clone"));
    assert!(is_flagged_method("unwrap"));
    assert!(is_flagged_method("unwrap_or_else"));
    assert!(is_flagged_method("expect_err"));
    assert!(!is_flagged_method("map"));
    assert!(is_flagged_macro("panic"));
    assert!(!is_flagged_macro("println"));
}

#[test]
fn report_lines_name_file_and_call() {
    assert_eq!(method_report("a.rs", "unwrap"), "a.rs: has unwrap");
    assert_eq!(macro_report("b.rs", "panic"), "b.rs: has macro panic");
}
