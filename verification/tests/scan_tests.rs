use cargo_foreach::scan::Entry;
use cargo_foreach::scan::is_eligible;
use cargo_foreach::scan::plan_scan;
use cargo_foreach::should_skip;

fn entry(name: &str, is_dir: bool, manifest: bool, internal: bool, sibling: bool) -> Entry {
    Entry {
        name: name.to_string(),
        is_dir,
        has_manifest: manifest,
        has_internal_skip: internal,
        has_sibling_skip: sibling,
    }
}

fn project(name: &str) -> Entry {
    entry(name, true, true, false, false)
}

#[test]
fn dispatch_order_is_bytewise_ascending() {
    let entries = vec![
        project("zeta"),
        project("alpha"),
        project("Beta"),
        project("2"),
        project("10"),
    ];
    let plan = plan_scan(entries);
    assert_eq!(plan, vec!["10", "2", "Beta", "alpha", "zeta"]);
}

#[test]
fn dispatch_order_stable_on_rerun() {
    let build = || {
        vec![project("mango"), project("apple"), project("kiwi")]
    };
    let first = plan_scan(build());
    let second = plan_scan(build());
    assert_eq!(first, second);
    assert_eq!(first, vec!["apple", "kiwi", "mango"]);
}

#[test]
fn missing_manifest_never_dispatched() {
    let entries = vec![
        entry("plain", true, false, false, false),
        entry("skipped_too", true, false, true, false),
        project("real"),
    ];
    let plan = plan_scan(entries);
    assert_eq!(plan, vec!["real"]);
}

#[test]
fn internal_skip_marker_excludes() {
    let entries = vec![entry("optout", true, true, true, false), project("kept")];
    let plan = plan_scan(entries);
    assert_eq!(plan, vec!["kept"]);
}

#[test]
fn sibling_skip_marker_excludes() {
    // `x/` has the manifest and no internal marker, but `x.skip` sits in the
    // base directory next to it.
    let entries = vec![entry("x", true, true, false, true)];
    let plan = plan_scan(entries);
    assert!(plan.is_empty());
}

#[test]
fn non_directories_are_dropped() {
    let entries = vec![entry("notes.txt", false, false, false, false), project("proj")];
    let plan = plan_scan(entries);
    assert_eq!(plan, vec!["proj"]);
}

#[test]
fn mixed_markers_scenario() {
    // a/ has the manifest and an internal .skip, b/ has only the manifest,
    // c/ has no manifest: only b qualifies.
    let entries = vec![
        entry("a", true, true, true, false),
        entry("b", true, true, false, false),
        entry("c", true, false, false, false),
    ];
    let plan = plan_scan(entries);
    assert_eq!(plan, vec!["b"]);
}

#[test]
fn skip_signals_combine_with_or() {
    assert!(!should_skip(false, false));
    assert!(should_skip(true, false));
    assert!(should_skip(false, true));
    assert!(should_skip(true, true));
}

#[test]
fn eligibility_requires_all_conditions() {
    assert!(is_eligible(&project("ok")));
    assert!(!is_eligible(&entry("f", false, true, false, false)));
    assert!(!is_eligible(&entry("m", true, false, false, false)));
    assert!(!is_eligible(&entry("i", true, true, true, false)));
    assert!(!is_eligible(&entry("s", true, true, false, true)));
}

#[test]
fn empty_listing_gives_empty_plan() {
    let plan = plan_scan(Vec::new());
    assert!(plan.is_empty());
}
