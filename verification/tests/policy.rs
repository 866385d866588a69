use cargo_licenses::check::{check_licenses, PolicyError, Rule, Violation};
use cargo_licenses::fetch::LicenseReport;

fn report(name: &str, license: &str) -> LicenseReport {
    LicenseReport {
        crate_name: name.to_string(),
        matched_version: "1.0.0".to_string(),
        license: license.to_string(),
    }
}

fn violation(name: &str, license: &str, rule: Rule) -> Violation {
    Violation { crate_name: name.to_string(), license: license.to_string(), rule }
}

fn list(items: &[&str]) -> Vec<String> {
    items.iter().map(|s| s.to_string()).collect()
}

#[test]
fn denied_token_is_the_only_violation() {
    let reports = vec![report("foo", "GPL-3.0 OR MIT")];
    let error = check_licenses(&reports, &list(&["GPL-3.0"]), &[]).unwrap_err();
    assert_eq!(error.violations, vec![violation("foo", "GPL-3.0", Rule::Denied)]);
    assert_eq!(
        error.message(),
        "License check found these violations:\nCrate 'foo': sub-license 'GPL-3.0' is in the deny list."
    );
}

#[test]
fn token_outside_the_allow_list_is_a_violation() {
    let reports = vec![report("bar", "MIT AND Apache-2.0")];
    let error = check_licenses(&reports, &[], &list(&["MIT"])).unwrap_err();
    assert_eq!(error.violations, vec![violation("bar", "Apache-2.0", Rule::NotAllowed)]);
    assert_eq!(
        error.message(),
        "License check found these violations:\nCrate 'bar': sub-license 'Apache-2.0' is NOT in the allow list."
    );
}

#[test]
fn no_lists_no_violations() {
    let reports = vec![
        report("a", "GPL-3.0"),
        report("b", "Failed: crates.io returned status 404 Not Found"),
        report("c", ""),
        report("d", "No license listed"),
    ];
    assert_eq!(check_licenses(&reports, &[], &[]), Ok(()));
    assert_eq!(check_licenses(&[], &[], &[]), Ok(()));
}

#[test]
fn no_reports_no_violations() {
    assert_eq!(check_licenses(&[], &list(&["MIT"]), &list(&["MIT"])), Ok(()));
}

#[test]
fn lists_are_expanded_before_the_check() {
    let reports = vec![report("a", "MIT"), report("b", "Apache-2.0"), report("c", "ISC")];
    let error = check_licenses(&reports, &list(&["(MIT OR Apache-2.0)"]), &[]).unwrap_err();
    assert_eq!(
        error.violations,
        vec![violation("a", "MIT", Rule::Denied), violation("b", "Apache-2.0", Rule::Denied)]
    );
    assert_eq!(check_licenses(&reports, &[], &list(&["MIT or Apache-2.0", "ISC"])), Ok(()));
}

#[test]
fn all_violations_are_gathered_in_order() {
    let reports = vec![
        report("one", "GPL-3.0 OR MIT"),
        report("two", "MIT"),
        report("three", "LGPL-2.1 AND GPL-3.0"),
    ];
    let error = check_licenses(&reports, &list(&["GPL-3.0"]), &list(&["MIT", "GPL-3.0"]))
        .unwrap_err();
    assert_eq!(
        error.violations,
        vec![
            violation("one", "GPL-3.0", Rule::Denied),
            violation("three", "GPL-3.0", Rule::Denied),
            violation("three", "LGPL-2.1", Rule::NotAllowed),
        ]
    );
    assert_eq!(
        error.message(),
        "License check found these violations:\n\
         Crate 'one': sub-license 'GPL-3.0' is in the deny list.\n\
         Crate 'three': sub-license 'GPL-3.0' is in the deny list.\n\
         Crate 'three': sub-license 'LGPL-2.1' is NOT in the allow list."
    );
}

#[test]
fn a_token_can_break_both_rules() {
    let reports = vec![report("x", "GPL-3.0")];
    let error = check_licenses(&reports, &list(&["GPL-3.0"]), &list(&["MIT"])).unwrap_err();
    assert_eq!(
        error.violations,
        vec![violation("x", "GPL-3.0", Rule::Denied), violation("x", "GPL-3.0", Rule::NotAllowed)]
    );
}

#[test]
fn a_repeated_token_is_reported_each_time() {
    let reports = vec![report("x", "GPL-3.0 OR GPL-3.0")];
    let error = check_licenses(&reports, &list(&["GPL-3.0"]), &[]).unwrap_err();
    assert_eq!(error.violations.len(), 2);
}

#[test]
fn names_are_compared_exactly() {
    let reports = vec![report("x", "mit")];
    assert_eq!(check_licenses(&reports, &list(&["MIT"]), &[]), Ok(()));
    assert!(check_licenses(&reports, &[], &list(&["MIT"])).is_err());
}

#[test]
fn an_allow_list_that_names_nothing_allows_nothing() {
    let reports = vec![report("x", "MIT")];
    let error = check_licenses(&reports, &[], &list(&["()"])).unwrap_err();
    assert_eq!(error.violations, vec![violation("x", "MIT", Rule::NotAllowed)]);
    // and a deny list that names nothing denies nothing
    assert_eq!(check_licenses(&reports, &list(&["()"]), &[]), Ok(()));
}

#[test]
fn a_report_without_tokens_breaks_no_rule() {
    let reports = vec![report("x", ""), report("y", "( )")];
    assert_eq!(check_licenses(&reports, &list(&["MIT"]), &list(&["MIT"])), Ok(()));
}

#[test]
fn violation_messages_name_crate_and_license() {
    assert_eq!(
        violation("serde", "MIT", Rule::Denied).message(),
        "Crate 'serde': sub-license 'MIT' is in the deny list."
    );
    assert_eq!(
        violation("serde", "MIT", Rule::NotAllowed).message(),
        "Crate 'serde': sub-license 'MIT' is NOT in the allow list."
    );
}

#[test]
fn policy_error_message_with_no_violation_is_the_heading() {
    let error = PolicyError { violations: Vec::new() };
    assert_eq!(error.message(), "License check found these violations:\n");
}
