//! Tests of the deny policy evaluator.

use public_api::deny::deny_message;
use public_api::deny::parse_deny_rule;
use public_api::deny::deny_usage_error;
use public_api::deny::evaluate;
use public_api::deny::violation_message;
use public_api::deny::DenyRule;
use public_api::diff::PublicItemsDiff;
use public_api::item::PublicItem;

fn item(prefix: &str, path: &str, suffix: &str) -> PublicItem {
    PublicItem {
        prefix: String::from(prefix),
        path: String::from(path),
        suffix: String::from(suffix),
        tokens: None,
    }
}

fn item_with_path(path: &str) -> PublicItem {
    item("prefix ", path, " suffix")
}

fn assert_deny_rejected_outside_diff(rules: Vec<DenyRule>) {
    let err = deny_usage_error(false, !rules.is_empty());
    let message = err.expect("deny rules outside a diff must be a usage error");
    assert!(message.contains("`--deny` can only be used when diffing"));
}

#[test]
fn deny_when_not_diffing() {
    assert_deny_rejected_outside_diff(vec![DenyRule::All]);
}

#[test]
fn deny_added_when_not_diffing() {
    assert_deny_rejected_outside_diff(vec![DenyRule::Added]);
}

#[test]
fn deny_changed_when_not_diffing() {
    assert_deny_rejected_outside_diff(vec![DenyRule::Changed]);
}

#[test]
fn deny_removed_when_not_diffing() {
    assert_deny_rejected_outside_diff(vec![DenyRule::Removed]);
}

#[test]
fn deny_combination_when_not_diffing() {
    assert_deny_rejected_outside_diff(vec![
        DenyRule::Added,
        DenyRule::Changed,
        DenyRule::Removed,
    ]);
}

#[test]
fn deny_usage_allowed_when_diffing() {
    assert!(deny_usage_error(true, true).is_none());
    assert!(deny_usage_error(false, false).is_none());
}

#[test]
fn deny_without_diff() {
    // Between two identical versions there is no API difference, so even
    // the all-encompassing rule passes.
    let x = vec![item_with_path("kept")];
    let diff = PublicItemsDiff::between(x.clone(), x);
    assert!(evaluate(&diff, &vec![DenyRule::All]).is_ok());
}

#[test]
fn deny_with_diff() {
    let diff = PublicItemsDiff::between(
        vec![item_with_path("gone")],
        vec![item_with_path("fresh")],
    );
    let violations = evaluate(&diff, &vec![DenyRule::All]).unwrap_err();
    let message = deny_message(&violations);
    assert!(message.contains("The API diff is not allowed as per --deny"));
}

#[test]
fn deny_added_with_diff() {
    let diff = PublicItemsDiff::between(vec![], vec![item_with_path("fresh")]);
    let violations = evaluate(&diff, &vec![DenyRule::Added]).unwrap_err();
    assert_eq!(violations.len(), 1);
    assert_eq!(violations[0].rule, DenyRule::Added);
    assert_eq!(violations[0].items, vec!["prefix fresh suffix"]);
}

#[test]
fn deny_changed_with_diff() {
    let diff = PublicItemsDiff::between(
        vec![item("pub fn ", "m::f", "(x: u8)")],
        vec![item("pub fn ", "m::f", "(x: u16)")],
    );
    let result = evaluate(&diff, &vec![DenyRule::Changed]);
    assert!(result.is_err());
}

#[test]
fn deny_removed_with_diff() {
    let removed = item(
        "pub fn ",
        "example_api::function",
        "(v1_param: example_api::Struct, v2_param: usize)",
    );
    let diff = PublicItemsDiff::between(vec![removed], vec![]);
    let violations = evaluate(&diff, &vec![DenyRule::Removed]).unwrap_err();
    assert_eq!(violations.len(), 1);
    assert_eq!(
        violation_message(&violations[0]),
        "Removed items not allowed: [pub fn example_api::function(v1_param: example_api::Struct, v2_param: usize)]"
    );
    let message = deny_message(&violations);
    assert!(message.contains(
        "The API diff is not allowed as per --deny: Removed items not allowed: [pub fn example_api::function(v1_param: example_api::Struct, v2_param: usize)]"
    ));
}

#[test]
fn deny_all_passes_on_empty_diff() {
    let diff = PublicItemsDiff::between(vec![], vec![]);
    assert!(evaluate(&diff, &vec![DenyRule::All]).is_ok());
}

#[test]
fn deny_rules_ignore_unselected_buckets() {
    // Only additions happened; denying removals does not fire.
    let diff = PublicItemsDiff::between(vec![], vec![item_with_path("fresh")]);
    assert!(evaluate(&diff, &vec![DenyRule::Removed]).is_ok());
}

#[test]
fn deny_with_invalid_arg() {
    assert_eq!(parse_deny_rule("invalid"), None);
}

#[test]
fn deny_rule_values_parse() {
    assert_eq!(parse_deny_rule("all"), Some(DenyRule::All));
    assert_eq!(parse_deny_rule("added"), Some(DenyRule::Added));
    assert_eq!(parse_deny_rule("changed"), Some(DenyRule::Changed));
    assert_eq!(parse_deny_rule("removed"), Some(DenyRule::Removed));
}

#[test]
fn deny_all_names_every_violated_bucket() {
    let diff = PublicItemsDiff::between(
        vec![item_with_path("gone"), item_with_path("kept")],
        vec![item_with_path("kept"), item_with_path("fresh")],
    );
    let violations = evaluate(&diff, &vec![DenyRule::All]).unwrap_err();
    assert_eq!(violations.len(), 2);
    assert_eq!(violations[0].rule, DenyRule::Removed);
    assert_eq!(violations[1].rule, DenyRule::Added);
}
