use cargo_c::build_targets::{BuildTargets, ExtraTargets, FileNames, LibraryTypes};
use cargo_c::config::{
    CApiConfig, HeaderCApiConfig, InstallCApiConfig, InstallTarget, InstallTargetPaths,
    LibraryCApiConfig, PkgConfigCApiConfig,
};
use cargo_c::target::Target;
use cargo_c::version::LibraryVersion;

fn target(os: &str, env: &str) -> Target {
    Target {
        is_target_overridden: false,
        arch: String::from(""),
        os: String::from(os),
        env: String::from(env),
    }
}

#[test]
fn unix() {
    for os in [
        "none",
        "linux",
        "freebsd",
        "dragonfly",
        "netbsd",
        "android",
        "haiku",
        "illumos",
        "emscripten",
    ] {
        let target = target(os, "");
        let file_names = FileNames::from_target(&target, "ferris", "/foo/bar");

        let expected = FileNames {
            static_lib: String::from("/foo/bar/libferris.a"),
            shared_lib: String::from("/foo/bar/libferris.so"),
            impl_lib: None,
            debug_info: None,
            def: None,
        };

        assert_eq!(file_names.unwrap(), expected);
    }
}

#[test]
fn apple() {
    for os in ["macos", "ios", "tvos", "visionos"] {
        let target = target(os, "");
        let file_names = FileNames::from_target(&target, "ferris", "/foo/bar");

        let expected = FileNames {
            static_lib: String::from("/foo/bar/libferris.a"),
            shared_lib: String::from("/foo/bar/libferris.dylib"),
            impl_lib: None,
            debug_info: None,
            def: None,
        };

        assert_eq!(file_names.unwrap(), expected);
    }
}

#[test]
fn windows_msvc() {
    let target = target("windows", "msvc");
    let file_names = FileNames::from_target(&target, "ferris", "/foo/bar");

    let expected = FileNames {
        static_lib: String::from("/foo/bar/ferris.lib"),
        shared_lib: String::from("/foo/bar/ferris.dll"),
        impl_lib: Some(String::from("/foo/bar/ferris.dll.lib")),
        debug_info: Some(String::from("/foo/bar/ferris.pdb")),
        def: Some(String::from("/foo/bar/ferris.def")),
    };

    assert_eq!(file_names.unwrap(), expected);
}

#[test]
fn windows_gnu() {
    let target = target("windows", "gnu");
    let file_names = FileNames::from_target(&target, "ferris", "/foo/bar");

    let expected = FileNames {
        static_lib: String::from("/foo/bar/libferris.a"),
        shared_lib: String::from("/foo/bar/ferris.dll"),
        impl_lib: Some(String::from("/foo/bar/ferris.dll.a")),
        debug_info: None,
        def: Some(String::from("/foo/bar/ferris.def")),
    };

    assert_eq!(file_names.unwrap(), expected);
}

#[test]
fn unknown_target_is_refused() {
    let target = target("wasi", "");
    assert!(FileNames::from_target(&target, "ferris", "/foo/bar").is_none());
}

fn capi_config(name: &str) -> CApiConfig {
    CApiConfig {
        header: HeaderCApiConfig {
            name: String::from(name),
            subdirectory: String::from(name),
            generation: true,
            enabled: true,
        },
        pkg_config: PkgConfigCApiConfig {
            name: String::from(name),
            filename: String::from(name),
            description: String::from(""),
            version: String::from("0.1.0"),
            requires: None,
            requires_private: None,
            strip_include_path_components: 0,
        },
        library: LibraryCApiConfig {
            name: String::from(name),
            version: LibraryVersion { major: 0, minor: 1, patch: 0 },
            install_subdir: None,
            versioning: true,
            version_suffix_components: None,
            import_library: true,
            rustflags: Vec::new(),
        },
        install: InstallCApiConfig { include_targets: Vec::new(), data_targets: Vec::new() },
    }
}

#[test]
fn build_targets_for_linux() {
    let target = target("linux", "gnu");
    let cfg = capi_config("ferris");
    let kinds = LibraryTypes { staticlib: true, cdylib: true };
    let bt = BuildTargets::new("ferris", &target, "/out", kinds, &cfg, false).unwrap();
    assert_eq!(bt.pc, "/out/ferris.pc");
    assert_eq!(bt.include_file.as_deref(), Some("/out/ferris.h"));
    assert_eq!(bt.static_lib.as_deref(), Some("/out/libferris.a"));
    assert_eq!(bt.shared_lib.as_deref(), Some("/out/libferris.so"));
    assert!(bt.impl_lib.is_none());
    assert!(bt.def.is_none());
}

#[test]
fn build_targets_unsupported_message() {
    let target = target("wasi", "");
    let cfg = capi_config("ferris");
    let kinds = LibraryTypes { staticlib: true, cdylib: false };
    let err = BuildTargets::new("ferris", &target, "/out", kinds, &cfg, false).unwrap_err();
    assert_eq!(err.message(), "The target wasi- is not supported yet");
}

#[test]
fn bare_metal_never_builds_shared() {
    let target = target("none", "");
    let kinds = LibraryTypes::from_target(&target);
    assert!(kinds.staticlib);
    assert!(!kinds.cdylib);
    let requested = vec![String::from("staticlib"), String::from("cdylib")];
    let kinds = LibraryTypes::from_library_types(&target, &requested);
    assert!(kinds.staticlib);
    assert!(!kinds.cdylib);
}

#[test]
fn meson_naming_convention_output_names() {
    let target = target("windows", "msvc");
    let cfg = capi_config("ferris");
    let kinds = LibraryTypes { staticlib: true, cdylib: true };
    let bt = BuildTargets::new("ferris", &target, "/out", kinds, &cfg, true).unwrap();
    assert_eq!(bt.static_output_file_name(), Some(String::from("libferris.a")));
    assert_eq!(bt.shared_output_file_name(), Some(String::from("libferris.dll")));
    let bt = BuildTargets::new("ferris", &target, "/out", kinds, &cfg, false).unwrap();
    assert_eq!(bt.static_output_file_name(), Some(String::from("ferris.lib")));
    assert_eq!(bt.shared_output_file_name(), Some(String::from("ferris.dll")));
}

#[test]
fn header_name_extension_is_replaced() {
    assert_eq!(cargo_c::build_targets::header_file_name("foo"), "foo.h");
    assert_eq!(cargo_c::build_targets::header_file_name("foo.h"), "foo.h");
    assert_eq!(cargo_c::build_targets::header_file_name("foo.bar"), "foo.h");
    assert_eq!(cargo_c::build_targets::header_file_name(".bar"), ".bar.h");
}

#[test]
fn extra_targets_setup_computes_pairs() {
    let mut cfg = capi_config("ferris");
    cfg.install.include_targets = vec![InstallTarget::Asset(InstallTargetPaths {
        from: String::from("assets/capi/include/**/*"),
        to: String::from("ferris"),
    })];
    cfg.install.data_targets = vec![InstallTarget::Generated(InstallTargetPaths {
        from: String::from("capi/share/**/*"),
        to: String::from("ferris"),
    })];
    let inc_matches = vec![vec![String::from("/root/assets/capi/include/sub/api.h")]];
    let data_matches = vec![vec![String::from("/build/capi/share/readme.txt")]];
    let mut extra = ExtraTargets {
        include_files: Vec::new(),
        data_files: Vec::new(),
    };

    // generated targets are skipped without a build output directory
    extra.setup(&cfg, "/root", None, &inc_matches, &data_matches);
    assert_eq!(extra.include_files.len(), 1);
    assert_eq!(extra.include_files[0].from, "/root/assets/capi/include/sub/api.h");
    assert_eq!(extra.include_files[0].to, "ferris/sub/api.h");
    assert!(extra.data_files.is_empty());

    let out = String::from("/build");
    extra.setup(&cfg, "/root", Some(&out), &inc_matches, &data_matches);
    assert_eq!(extra.data_files.len(), 1);
    assert_eq!(extra.data_files[0].from, "/build/capi/share/readme.txt");
    assert_eq!(extra.data_files[0].to, "ferris/readme.txt");
}
