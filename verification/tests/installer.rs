use cargo_c::build_targets::{BuildTargets, LibraryTypes};
use cargo_c::config::{
    CApiConfig, HeaderCApiConfig, InstallCApiConfig, LibraryCApiConfig, PkgConfigCApiConfig,
};
use cargo_c::install::{
    append_to_destdir, cinstall_plan, DebugInfoDisk, InstallAction, InstallPathOverrides,
    InstallPaths, LibType, UnixLibNames,
};
use cargo_c::target::Target;
use cargo_c::version::LibraryVersion;

#[test]
fn install_append_to_destdir() {
    assert_eq!(
        append_to_destdir(Some(&String::from("/foo")), "/bar/./.."),
        String::from("/foo/bar/./..")
    );

    assert_eq!(append_to_destdir(Some(&String::from("foo")), "bar"), String::from("foo/bar"));

    assert_eq!(append_to_destdir(Some(&String::from("")), ""), String::from(""));
}

#[test]
fn cinstall_append_to_destdir() {
    assert_eq!(
        append_to_destdir(Some(&String::from("/foo")), "/bar/./.."),
        String::from("/foo/bar/./..")
    );

    assert_eq!(append_to_destdir(Some(&String::from("foo")), "bar"), String::from("foo/bar"));

    assert_eq!(append_to_destdir(Some(&String::from("")), ""), String::from(""));
}

#[test]
fn destdir_discards_absolute_root() {
    assert_eq!(
        append_to_destdir(Some(&String::from("/dest")), "/usr/local/lib"),
        String::from("/dest/usr/local/lib")
    );
    assert_eq!(append_to_destdir(None, "/usr/local/lib"), String::from("/usr/local/lib"));
}

fn capi_config(name: &str, major: u64, minor: u64, patch: u64) -> CApiConfig {
    CApiConfig {
        header: HeaderCApiConfig {
            name: String::from(name),
            subdirectory: String::from(name),
            generation: false,
            enabled: false,
        },
        pkg_config: PkgConfigCApiConfig {
            name: String::from(name),
            filename: String::from(name),
            description: String::from(""),
            version: String::from("1.2.3"),
            requires: None,
            requires_private: None,
            strip_include_path_components: 0,
        },
        library: LibraryCApiConfig {
            name: String::from(name),
            version: LibraryVersion { major, minor, patch },
            install_subdir: None,
            versioning: true,
            version_suffix_components: None,
            import_library: true,
            rustflags: Vec::new(),
        },
        install: InstallCApiConfig { include_targets: Vec::new(), data_targets: Vec::new() },
    }
}

fn target(os: &str, env: &str) -> Target {
    Target {
        is_target_overridden: false,
        arch: String::from("x86_64"),
        os: String::from(os),
        env: String::from(env),
    }
}

fn layout() -> InstallPaths {
    InstallPaths {
        subdir_name: String::from("foo"),
        destdir: None,
        prefix: String::from("/usr/local"),
        libdir: String::from("/usr/local/lib"),
        includedir: String::from("/usr/local/include"),
        datadir: String::from("/usr/local/share"),
        bindir: String::from("/usr/local/bin"),
        pkgconfigdir: String::from("/usr/local/lib/pkgconfig"),
    }
}

#[test]
fn unix_lib_names_so() {
    let cfg = capi_config("foo", 1, 2, 3);
    let names = UnixLibNames::new(LibType::So, &cfg.library).unwrap();
    assert_eq!(names.canonical, "libfoo.so");
    assert_eq!(names.with_main_ver, "libfoo.so.1");
    assert_eq!(names.with_full_ver, "libfoo.so.1.2.3");
}

#[test]
fn unix_lib_names_dylib() {
    let cfg = capi_config("foo", 1, 2, 3);
    let names = UnixLibNames::new(LibType::Dylib, &cfg.library).unwrap();
    assert_eq!(names.canonical, "libfoo.dylib");
    assert_eq!(names.with_main_ver, "libfoo.1.dylib");
    assert_eq!(names.with_full_ver, "libfoo.1.2.3.dylib");
    assert!(UnixLibNames::new(LibType::Windows, &cfg.library).is_none());
}

#[test]
fn symlink_chain_for_versioned_library() {
    let cfg = capi_config("foo", 1, 2, 3);
    let tgt = target("linux", "gnu");
    let kinds = LibraryTypes { staticlib: false, cdylib: true };
    let bt = BuildTargets::new("foo", &tgt, "/out", kinds, &cfg, false).unwrap();
    let dbg = DebugInfoDisk { exists: false, is_dir: false, files: Vec::new() };
    let plan = cinstall_plan(&cfg, &bt, &layout(), &dbg);

    let copies: Vec<&InstallAction> = plan
        .iter()
        .filter(|a| matches!(a, InstallAction::Copy { .. }))
        .collect();
    let links: Vec<&InstallAction> = plan
        .iter()
        .filter(|a| matches!(a, InstallAction::Symlink { .. }))
        .collect();

    match copies.last().unwrap() {
        InstallAction::Copy { from, to } => {
            assert_eq!(from, "/out/libfoo.so");
            assert_eq!(to, "/usr/local/lib/libfoo.so.1.2.3");
        }
        _ => unreachable!(),
    }
    assert_eq!(links.len(), 2);
    match links[0] {
        InstallAction::Symlink { target, link } => {
            assert_eq!(target, "libfoo.so.1.2.3");
            assert_eq!(link, "/usr/local/lib/libfoo.so.1");
        }
        _ => unreachable!(),
    }
    match links[1] {
        InstallAction::Symlink { target, link } => {
            assert_eq!(target, "libfoo.so.1.2.3");
            assert_eq!(link, "/usr/local/lib/libfoo.so");
        }
        _ => unreachable!(),
    }

    // re-running install computes the same replacing actions
    let again = cinstall_plan(&cfg, &bt, &layout(), &dbg);
    assert_eq!(plan, again);
}

#[test]
fn unversioned_library_gets_single_copy() {
    let mut cfg = capi_config("foo", 1, 2, 3);
    cfg.library.versioning = false;
    let tgt = target("linux", "gnu");
    let kinds = LibraryTypes { staticlib: false, cdylib: true };
    let bt = BuildTargets::new("foo", &tgt, "/out", kinds, &cfg, false).unwrap();
    let dbg = DebugInfoDisk { exists: false, is_dir: false, files: Vec::new() };
    let plan = cinstall_plan(&cfg, &bt, &layout(), &dbg);
    assert!(plan.iter().all(|a| !matches!(a, InstallAction::Symlink { .. })));
    assert!(plan.iter().any(|a| match a {
        InstallAction::Copy { to, .. } => to == "/usr/local/lib/libfoo.so",
        _ => false,
    }));
}

#[test]
fn windows_shared_goes_to_bindir() {
    let cfg = capi_config("foo", 1, 2, 3);
    let tgt = target("windows", "msvc");
    let kinds = LibraryTypes { staticlib: false, cdylib: true };
    let bt = BuildTargets::new("foo", &tgt, "/out", kinds, &cfg, false).unwrap();
    let dbg = DebugInfoDisk { exists: false, is_dir: false, files: Vec::new() };
    let plan = cinstall_plan(&cfg, &bt, &layout(), &dbg);
    assert!(plan.iter().any(|a| match a {
        InstallAction::Copy { from, to } =>
            from == "/out/foo.dll" && to == "/usr/local/bin/foo.dll",
        _ => false,
    }));
    assert!(plan.iter().any(|a| match a {
        InstallAction::Copy { to, .. } => to == "/usr/local/lib/foo.dll.lib",
        _ => false,
    }));
    assert!(plan.iter().any(|a| match a {
        InstallAction::Copy { to, .. } => to == "/usr/local/lib/foo.def",
        _ => false,
    }));
}

#[test]
fn install_paths_defaults() {
    let tgt = target("linux", "gnu");
    let overrides = InstallPathOverrides {
        destdir: None,
        prefix: None,
        libdir: None,
        includedir: None,
        datarootdir: None,
        datadir: None,
        bindir: String::from("bin"),
        pkgconfigdir: None,
    };
    let host = cargo_c::install::HostDirs {
        debian_multiarch: None,
        host_matches: false,
        usr_lib64_exists: false,
    };
    let cfg = capi_config("foo", 1, 0, 0);
    let paths = InstallPaths::new(&tgt, &overrides, &host, &cfg);
    assert_eq!(paths.prefix, "/usr/local");
    assert_eq!(paths.libdir, "/usr/local/lib");
    assert_eq!(paths.includedir, "/usr/local/include");
    assert_eq!(paths.bindir, "/usr/local/bin");
    assert_eq!(paths.pkgconfigdir, "/usr/local/lib/pkgconfig");
}

#[test]
fn android_forces_versioning_off() {
    let mut cfg = capi_config("foo", 1, 0, 0);
    cargo_c::config::force_platform_versioning(&mut cfg.library, "android");
    assert!(!cfg.library.versioning);
    let mut cfg = capi_config("foo", 1, 0, 0);
    cargo_c::config::force_platform_versioning(&mut cfg.library, "linux");
    assert!(cfg.library.versioning);
}
