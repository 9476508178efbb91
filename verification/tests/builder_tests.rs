//! Tests of the build options and build errors.

use public_api::builder::BuildError;
use public_api::builder::Builder;

#[test]
fn default_builder_points_at_the_current_manifest() {
    let b = Builder::default();
    assert_eq!(b.manifest_path, "Cargo.toml");
    assert!(b.toolchain.is_none());
    assert!(b.target_dir.is_none());
    assert!(b.target.is_none());
    assert!(!b.quiet);
    assert!(!b.no_default_features);
    assert!(!b.all_features);
    assert!(b.features.is_empty());
    assert!(b.package.is_none());
    assert_eq!(b.cap_lints.as_deref(), Some("warn"));
}

#[test]
fn builder_methods_refine_the_options() {
    let b = Builder::default()
        .toolchain(String::from("nightly"))
        .manifest_path("../example/Cargo.toml")
        .target_dir("/tmp/build")
        .package("specific-crate")
        .all_features(true)
        .quiet(true);
    assert_eq!(b.toolchain.as_deref(), Some("nightly"));
    assert_eq!(b.manifest_path, "../example/Cargo.toml");
    assert_eq!(b.target_dir.as_deref(), Some("/tmp/build"));
    assert_eq!(b.package.as_deref(), Some("specific-crate"));
    assert!(b.all_features);
    assert!(b.quiet);
}

#[test]
fn virtual_manifest_error_names_the_manifest() {
    let err = BuildError::VirtualManifest(String::from("../test-apis/virtual-manifest/Cargo.toml"));
    assert_eq!(
        err.message(),
        "Manifest must be for an actual package. `../test-apis/virtual-manifest/Cargo.toml` is a virtual manifest"
    );
}

#[test]
fn general_build_error_carries_the_diagnostics() {
    let err = BuildError::General(String::from("error: build failed"));
    assert_eq!(
        err.message(),
        "Failed to build rustdoc JSON. Stderr: error: build failed"
    );
}

#[test]
fn outside_errors_pass_their_message_through() {
    let err = BuildError::IoError(String::from("No such file or directory"));
    assert_eq!(err.message(), "No such file or directory");
}
