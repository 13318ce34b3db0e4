//! The resolved configuration a library is built and installed with.
//!
//! These values arrive already parsed from the build orchestrator; the
//! crate only reads them.

use vstd::prelude::*;

use crate::version;
use crate::version::{LibraryVersion, VersionSuffix};

verus! {

/// Configuration of the C header to ship.
#[derive(Clone, Debug)]
pub struct HeaderCApiConfig {
    pub name: String,
    pub subdirectory: String,
    pub generation: bool,
    pub enabled: bool,
}

/// Configuration of the pkg-config document.
#[derive(Clone, Debug)]
pub struct PkgConfigCApiConfig {
    pub name: String,
    pub filename: String,
    pub description: String,
    pub version: String,
    pub requires: Option<String>,
    pub requires_private: Option<String>,
    pub strip_include_path_components: usize,
}

/// Configuration of the library artifacts themselves.
#[derive(Clone, Debug)]
pub struct LibraryCApiConfig {
    pub name: String,
    pub version: LibraryVersion,
    pub install_subdir: Option<String>,
    pub versioning: bool,
    pub version_suffix_components: Option<VersionSuffix>,
    pub import_library: bool,
    pub rustflags: Vec<String>,
}

impl LibraryCApiConfig {
    /// The ABI version suffix of this library.
    pub fn sover(&self) -> (s: String)
        ensures
            s@ == version::sover_str(self.version_suffix_components, self.version),
    {
        version::sover(self.version_suffix_components, &self.version)
    }
}

/// One set of files to install, described by a glob pattern (`from`,
/// relative to a root directory chosen by the variant) and a
/// destination subdirectory (`to`).
#[derive(Clone, Debug)]
pub struct InstallTargetPaths {
    pub from: String,
    pub to: String,
}

/// Files to install that either ship with the sources or are generated
/// into the build output directory.
#[derive(Clone, Debug)]
pub enum InstallTarget {
    Asset(InstallTargetPaths),
    Generated(InstallTargetPaths),
}

/// Extra header and data trees to install.
#[derive(Clone, Debug)]
pub struct InstallCApiConfig {
    pub include_targets: Vec<InstallTarget>,
    pub data_targets: Vec<InstallTarget>,
}

/// The complete per-library configuration.
#[derive(Clone, Debug)]
pub struct CApiConfig {
    pub header: HeaderCApiConfig,
    pub pkg_config: PkgConfigCApiConfig,
    pub library: LibraryCApiConfig,
    pub install: InstallCApiConfig,
}

/// Shared-object version suffixes are disallowed on Android: building
/// for it forces `versioning` off, whatever was configured.
pub fn force_platform_versioning(library: &mut LibraryCApiConfig, os: &str)
    ensures
        final(library).versioning == if os@ == "android"@ {
            false
        } else {
            old(library).versioning
        },
        final(library).name == old(library).name,
        final(library).version == old(library).version,
        final(library).install_subdir == old(library).install_subdir,
        final(library).version_suffix_components == old(library).version_suffix_components,
        final(library).import_library == old(library).import_library,
        final(library).rustflags == old(library).rustflags,
{
    if crate::strutil::str_eq(os, "android") {
        library.versioning = false;
    }
}

} // verus!
