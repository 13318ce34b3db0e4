use cargo_c::build_targets::{BuildTargets, LibraryTypes};
use cargo_c::config::{
    CApiConfig, HeaderCApiConfig, InstallCApiConfig, LibraryCApiConfig, PkgConfigCApiConfig,
};
use cargo_c::fingerprint::{
    cache_path, fingerprint, is_valid, parse_record, render_record, FingerprintRecord,
};
use cargo_c::install::InstallPaths;
use cargo_c::target::Target;
use cargo_c::version::LibraryVersion;

fn capi_config() -> CApiConfig {
    CApiConfig {
        header: HeaderCApiConfig {
            name: String::from("foo"),
            subdirectory: String::from("foo"),
            generation: false,
            enabled: false,
        },
        pkg_config: PkgConfigCApiConfig {
            name: String::from("foo"),
            filename: String::from("foo"),
            description: String::from(""),
            version: String::from("0.1.0"),
            requires: None,
            requires_private: None,
            strip_include_path_components: 0,
        },
        library: LibraryCApiConfig {
            name: String::from("foo"),
            version: LibraryVersion { major: 0, minor: 1, patch: 0 },
            install_subdir: None,
            versioning: true,
            version_suffix_components: None,
            import_library: true,
            rustflags: Vec::new(),
        },
        install: InstallCApiConfig { include_targets: Vec::new(), data_targets: Vec::new() },
    }
}

fn layout() -> InstallPaths {
    InstallPaths {
        subdir_name: String::from("foo"),
        destdir: None,
        prefix: String::from("/usr/local"),
        libdir: String::from("/usr/local/lib"),
        includedir: String::from("/usr/local/include"),
        datadir: String::from("/usr/local/share"),
        bindir: String::from("/usr/local/bin"),
        pkgconfigdir: String::from("/usr/local/lib/pkgconfig"),
    }
}

fn build_targets() -> BuildTargets {
    let target = Target {
        is_target_overridden: false,
        arch: String::from("x86_64"),
        os: String::from("linux"),
        env: String::from("gnu"),
    };
    let kinds = LibraryTypes { staticlib: true, cdylib: true };
    BuildTargets::new("foo", &target, "/out", kinds, &capi_config(), false).unwrap()
}

#[test]
fn fingerprint_is_deterministic() {
    let cfg = capi_config();
    let paths = layout();
    let bt = build_targets();
    let st = vec![1u8, 2, 3];
    let sh = vec![4u8, 5];
    let a = fingerprint(&cfg, &paths, &bt, None, Some(&st), Some(&sh));
    let b = fingerprint(&cfg, &paths, &bt, None, Some(&st), Some(&sh));
    assert!(a.is_some());
    assert_eq!(a, b);
}

#[test]
fn byte_change_changes_fingerprint() {
    let cfg = capi_config();
    let paths = layout();
    let bt = build_targets();
    let st = vec![1u8, 2, 3];
    let st2 = vec![1u8, 2, 4];
    let sh = vec![4u8, 5];
    let a = fingerprint(&cfg, &paths, &bt, None, Some(&st), Some(&sh));
    let b = fingerprint(&cfg, &paths, &bt, None, Some(&st2), Some(&sh));
    assert_ne!(a, b);
}

#[test]
fn config_change_changes_fingerprint() {
    let cfg = capi_config();
    let mut cfg2 = capi_config();
    cfg2.library.version.patch = 1;
    let paths = layout();
    let bt = build_targets();
    let st = vec![1u8, 2, 3];
    let sh = vec![4u8, 5];
    let a = fingerprint(&cfg, &paths, &bt, None, Some(&st), Some(&sh));
    let b = fingerprint(&cfg2, &paths, &bt, None, Some(&st), Some(&sh));
    assert_ne!(a, b);
}

#[test]
fn missing_artifact_means_no_fingerprint() {
    let cfg = capi_config();
    let paths = layout();
    let bt = build_targets();
    let sh = vec![4u8, 5];
    let a = fingerprint(&cfg, &paths, &bt, None, None, Some(&sh));
    assert!(a.is_none());
}

#[test]
fn record_round_trip_preserves_static_libs() {
    let rec = FingerprintRecord {
        hash: String::from("12345678901234567890"),
        static_libs: vec![
            String::from("-lgcc_s"),
            String::from("-lutil"),
            String::from("odd \"quoted\" and \\slashed\\ value"),
        ],
    };
    let stored = render_record(&rec);
    let loaded = parse_record(&stored).unwrap();
    assert_eq!(loaded.hash, rec.hash);
    assert_eq!(loaded.static_libs, rec.static_libs);
}

#[test]
fn record_round_trip_empty_list() {
    let rec = FingerprintRecord { hash: String::from("42"), static_libs: Vec::new() };
    let stored = render_record(&rec);
    assert_eq!(stored, "hash = \"42\"\nstatic_libs = []\n");
    let loaded = parse_record(&stored).unwrap();
    assert_eq!(loaded.hash, "42");
    assert!(loaded.static_libs.is_empty());
}

#[test]
fn malformed_record_is_rejected() {
    assert!(parse_record("").is_none());
    assert!(parse_record("hash = \"unterminated").is_none());
    assert!(parse_record("hash = \"x\"\nstatic_libs = [\"a\"").is_none());
}

#[test]
fn validity_needs_both_fingerprints() {
    let rec = FingerprintRecord { hash: String::from("7"), static_libs: Vec::new() };
    assert!(is_valid(Some(&rec), Some(7)));
    assert!(!is_valid(Some(&rec), Some(8)));
    assert!(!is_valid(Some(&rec), None));
    assert!(!is_valid(None, Some(7)));
}

#[test]
fn cache_file_is_per_library() {
    assert_eq!(cache_path("/out", "foo"), "/out/cargo-c-foo.cache");
}
