use cargo_c::config::LibraryCApiConfig;
use cargo_c::version::{LibraryVersion, VersionSuffix};

fn make_test_library_config(major: u64, minor: u64, patch: u64) -> LibraryCApiConfig {
    LibraryCApiConfig {
        name: String::from("example"),
        version: LibraryVersion { major, minor, patch },
        install_subdir: None,
        versioning: true,
        version_suffix_components: None,
        import_library: true,
        rustflags: Vec::new(),
    }
}

#[test]
fn test_semver_zero_zero_zero() {
    let library = make_test_library_config(0, 0, 0);
    let sover = library.sover();
    assert_eq!(sover, "0.0.0");
}

#[test]
fn test_semver_zero_one_zero() {
    let library = make_test_library_config(0, 1, 0);
    let sover = library.sover();
    assert_eq!(sover, "0.1");
}

#[test]
fn test_semver_one_zero_zero() {
    let library = make_test_library_config(1, 0, 0);
    let sover = library.sover();
    assert_eq!(sover, "1");
}

#[test]
fn text_one_fixed_zero_zero_zero() {
    let mut library = make_test_library_config(0, 0, 0);
    library.version_suffix_components = Some(VersionSuffix::Major);
    let sover = library.sover();
    assert_eq!(sover, "0");
}

#[test]
fn text_two_fixed_one_zero_zero() {
    let mut library = make_test_library_config(1, 0, 0);
    library.version_suffix_components = Some(VersionSuffix::MajorMinor);
    let sover = library.sover();
    assert_eq!(sover, "1.0");
}

#[test]
fn text_three_fixed_one_zero_zero() {
    let mut library = make_test_library_config(1, 0, 0);
    library.version_suffix_components = Some(VersionSuffix::MajorMinorPatch);
    let sover = library.sover();
    assert_eq!(sover, "1.0.0");
}

#[test]
fn sover_table() {
    assert_eq!(make_test_library_config(0, 0, 3).sover(), "0.0.3");
    assert_eq!(make_test_library_config(0, 5, 2).sover(), "0.5");
    assert_eq!(make_test_library_config(2, 3, 1).sover(), "2");
}

#[test]
fn full_version_string() {
    let v = LibraryVersion { major: 1, minor: 2, patch: 3 };
    assert_eq!(v.full_version(), "1.2.3");
    assert_eq!(v.main_version(), "1");
}
