//! Options for invoking the external documentation tool that turns a
//! package manifest into a structured API description document, and the
//! errors such an invocation can report.
//!
//! The invocation itself is an external collaborator: it shells out to the
//! toolchain and reads the filesystem, so it lives outside this library.
//! This module holds the plain data the collaborator consumes and returns.

use vstd::prelude::*;

verus! {

/// Why building the structured API description document failed. Outside
/// causes are carried as their rendered message text.
#[derive(Debug, Clone, PartialEq, Eq)]
pub enum BuildError {
    /// The manifest describes a whole workspace rather than one package.
    /// Carries the offending manifest path.
    VirtualManifest(String),
    /// The build tool itself failed. Carries its captured diagnostics.
    General(String),
    /// The package manifest could not be parsed.
    CargoManifestError(String),
    /// The package metadata could not be obtained.
    CargoMetadataError(String),
    /// Reading or writing a file failed.
    IoError(String),
}

/// The message text of a [`BuildError::VirtualManifest`], around its path.
pub open spec fn virtual_manifest_message(path: Seq<char>) -> Seq<char> {
    "Manifest must be for an actual package. `"@ + path + "` is a virtual manifest"@
}

/// The message text of a [`BuildError::General`], around its diagnostics.
pub open spec fn general_build_message(stderr: Seq<char>) -> Seq<char> {
    "Failed to build rustdoc JSON. Stderr: "@ + stderr
}

impl BuildError {
    /// The human-readable message of this error.
    pub fn message(&self) -> (s: String)
        ensures
            s@ == (match self {
                BuildError::VirtualManifest(path) => virtual_manifest_message(path@),
                BuildError::General(stderr) => general_build_message(stderr@),
                BuildError::CargoManifestError(m) => m@,
                BuildError::CargoMetadataError(m) => m@,
                BuildError::IoError(m) => m@,
            }),
    {
        match self {
            BuildError::VirtualManifest(path) => {
                let mut s = String::new();
                s.append("Manifest must be for an actual package. `");
                s.append(path.as_str());
                s.append("` is a virtual manifest");
                s
            },
            BuildError::General(stderr) => {
                let mut s = String::new();
                s.append("Failed to build rustdoc JSON. Stderr: ");
                s.append(stderr.as_str());
                s
            },
            BuildError::CargoManifestError(m) => m.clone(),
            BuildError::CargoMetadataError(m) => m.clone(),
            BuildError::IoError(m) => m.clone(),
        }
    }
}

/// Options for building the structured API description document of one
/// package. Construct one with [`Builder::default`] and refine it with the
/// builder-style methods.
#[derive(Debug, Clone, PartialEq, Eq)]
pub struct Builder {
    pub toolchain: Option<String>,
    pub manifest_path: String,
    pub target_dir: Option<String>,
    pub target: Option<String>,
    pub quiet: bool,
    pub no_default_features: bool,
    pub all_features: bool,
    pub features: Vec<String>,
    pub package: Option<String>,
    pub cap_lints: Option<String>,
}

impl Default for Builder {
    /// The default build: the manifest in the current directory, the
    /// default toolchain and features, and lints capped to warnings.
    fn default() -> (b: Builder)
        ensures
            b.toolchain is None,
            b.manifest_path@ == "Cargo.toml"@,
            b.target_dir is None,
            b.target is None,
            !b.quiet,
            !b.no_default_features,
            !b.all_features,
            b.features@.len() == 0,
            b.package is None,
            (match b.cap_lints {
                Some(level) => level@ == "warn"@,
                None => false,
            }),
    {
        Builder {
            toolchain: None,
            manifest_path: "Cargo.toml".to_owned(),
            target_dir: None,
            target: None,
            quiet: false,
            no_default_features: false,
            all_features: false,
            features: Vec::new(),
            package: None,
            cap_lints: Some("warn".to_owned()),
        }
    }
}

impl Builder {
    /// Builds with the given toolchain, for example `nightly`.
    pub fn toolchain(self, toolchain: String) -> (b: Builder)
        ensures
            b == (Builder { toolchain: Some(toolchain), ..self }),
    {
        Builder { toolchain: Some(toolchain), ..self }
    }

    /// Builds from the given package manifest.
    pub fn manifest_path(self, manifest_path: &str) -> (b: Builder)
        ensures
            b.manifest_path@ == manifest_path@,
            b == (Builder { manifest_path: b.manifest_path, ..self }),
    {
        Builder { manifest_path: manifest_path.to_owned(), ..self }
    }

    /// Places build artifacts in the given directory.
    pub fn target_dir(self, target_dir: &str) -> (b: Builder)
        ensures
            (match b.target_dir {
                Some(d) => d@ == target_dir@,
                None => false,
            }),
            b == (Builder { target_dir: b.target_dir, ..self }),
    {
        Builder { target_dir: Some(target_dir.to_owned()), ..self }
    }

    /// Builds for the given target triple.
    pub fn target(self, target: String) -> (b: Builder)
        ensures
            b == (Builder { target: Some(target), ..self }),
    {
        Builder { target: Some(target), ..self }
    }

    /// Suppresses the build tool's progress output.
    pub fn quiet(self, quiet: bool) -> (b: Builder)
        ensures
            b == (Builder { quiet, ..self }),
    {
        Builder { quiet, ..self }
    }

    /// Builds without the package's default features.
    pub fn no_default_features(self, no_default_features: bool) -> (b: Builder)
        ensures
            b == (Builder { no_default_features, ..self }),
    {
        Builder { no_default_features, ..self }
    }

    /// Builds with every feature of the package enabled.
    pub fn all_features(self, all_features: bool) -> (b: Builder)
        ensures
            b == (Builder { all_features, ..self }),
    {
        Builder { all_features, ..self }
    }

    /// Builds with exactly the given extra features enabled.
    pub fn features(self, features: Vec<String>) -> (b: Builder)
        ensures
            b == (Builder { features, ..self }),
    {
        Builder { features, ..self }
    }

    /// Builds the given package of a workspace.
    pub fn package(self, package: &str) -> (b: Builder)
        ensures
            (match b.package {
                Some(p) => p@ == package@,
                None => false,
            }),
            b == (Builder { package: b.package, ..self }),
    {
        Builder { package: Some(package.to_owned()), ..self }
    }

    /// Caps lints at the given level, or lifts the cap.
    pub fn cap_lints(self, cap_lints: Option<String>) -> (b: Builder)
        ensures
            b == (Builder { cap_lints, ..self }),
    {
        Builder { cap_lints, ..self }
    }
}

} // verus!
