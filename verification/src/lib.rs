//! Verified core of a C-ABI build-artifact pipeline.
//!
//! The crate turns a compiled native library into an installable
//! distribution: it classifies the platform, derives the ABI version
//! suffix, names the expected output files, fingerprints artifact
//! content to decide whether derived files must be regenerated,
//! renders pkg-config documents, and plans the installation of every
//! artifact together with its version symlink chain.
//!
//! All filesystem access, process invocation and argument parsing is
//! left to the surrounding application; the functions here work on
//! plain values and carry contracts for what they compute.

pub mod build_targets;
pub mod config;
pub mod error;
pub mod examples;
pub mod fingerprint;
pub mod install;
pub mod paths;
pub mod pkg_config_gen;
pub mod static_libs;
pub mod strutil;
pub mod target;
pub mod version;
