//! Tests of the diff target resolver's operand classification.

use public_api::resolve::classify_operand;
use public_api::resolve::split_published;
use public_api::resolve::CheckoutRecipe;
use public_api::resolve::ResolveError;

#[test]
fn diff_published() {
    let (name, version) = split_published("example_api@0.1.0").unwrap();
    assert_eq!(name, "example_api");
    assert_eq!(version, "0.1.0");
}

#[test]
fn diff_published_smart_diff() {
    let recipe = classify_operand("example_api@0.1.0", false, Some("example_api")).unwrap();
    assert_eq!(
        recipe,
        CheckoutRecipe::FromPublished(String::from("example_api"), String::from("0.1.0"))
    );
}

#[test]
fn diff_published_fallback() {
    // A bare `@version` specifier borrows the package's own name.
    let (name, version) = split_published("@0.1.0").unwrap();
    assert_eq!(name, "");
    assert_eq!(version, "0.1.0");
    let recipe = classify_operand("@0.1.0", false, Some("example_api")).unwrap();
    assert_eq!(
        recipe,
        CheckoutRecipe::FromPublished(String::from("example_api"), String::from("0.1.0"))
    );
}

#[test]
fn diff_published_smart_diff_fallback() {
    let recipe = classify_operand("@0.1.0", false, Some("example_api")).unwrap();
    assert_eq!(
        recipe,
        CheckoutRecipe::FromPublished(String::from("example_api"), String::from("0.1.0"))
    );
}

#[test]
fn diff_published_explicit_package() {
    let recipe = classify_operand("@0.1.0", false, Some("example_api")).unwrap();
    assert_eq!(
        recipe,
        CheckoutRecipe::FromPublished(String::from("example_api"), String::from("0.1.0"))
    );
}

#[test]
fn bare_version_without_package_name_is_an_error() {
    let err = classify_operand("@0.1.0", false, None).unwrap_err();
    assert_eq!(err, ResolveError::MissingPackageName);
}

#[test]
fn existing_file_wins_over_other_shapes() {
    let recipe = classify_operand("example_api@0.1.0", true, None).unwrap();
    assert_eq!(
        recipe,
        CheckoutRecipe::FromFile(String::from("example_api@0.1.0"))
    );
}

#[test]
fn plain_operand_is_a_reference() {
    let recipe = classify_operand("v0.2.0", false, None).unwrap();
    assert_eq!(recipe, CheckoutRecipe::FromReference(String::from("v0.2.0")));
}

#[test]
fn relative_expressions_are_references() {
    for operand in ["HEAD", "HEAD^", "HEAD~3", "main", "1c5a4e0"] {
        let recipe = classify_operand(operand, false, None).unwrap();
        assert_eq!(
            recipe,
            CheckoutRecipe::FromReference(String::from(operand)),
            "operand {operand} must classify as a reference"
        );
    }
}

#[test]
fn diff_public_items_from_files() {
    // Operands naming existing files classify as file recipes, each side
    // independently of the other.
    let old = classify_operand("old-api.json", true, None).unwrap();
    let new = classify_operand("new-api.json", true, None).unwrap();
    assert_eq!(old, CheckoutRecipe::FromFile(String::from("old-api.json")));
    assert_eq!(new, CheckoutRecipe::FromFile(String::from("new-api.json")));
}

#[test]
fn diff_public_items_from_files_smart_diff() {
    // Smart classification puts an existing file ahead of the published
    // shape: a file named like a specifier is still a file.
    let recipe = classify_operand("example_api@0.1.0.json", true, Some("example_api")).unwrap();
    assert_eq!(
        recipe,
        CheckoutRecipe::FromFile(String::from("example_api@0.1.0.json"))
    );
}

#[test]
fn version_part_must_be_non_empty() {
    assert!(split_published("name@").is_none());
    assert!(split_published("@").is_none());
}

#[test]
fn two_separators_are_no_published_specifier() {
    assert!(split_published("a@b@c").is_none());
    let recipe = classify_operand("a@b@c", false, None).unwrap();
    assert_eq!(recipe, CheckoutRecipe::FromReference(String::from("a@b@c")));
}
