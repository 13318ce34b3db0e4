use cargo_c::config::{
    CApiConfig, HeaderCApiConfig, InstallCApiConfig, LibraryCApiConfig, PkgConfigCApiConfig,
};
use cargo_c::static_libs::static_libraries;
use cargo_c::target::Target;
use cargo_c::version::LibraryVersion;

fn target(os: &str, env: &str) -> Target {
    Target {
        is_target_overridden: false,
        arch: String::from("x86_64"),
        os: String::from(os),
        env: String::from(env),
    }
}

#[test]
fn test_lib_listing() {
    let libs_osx = "-lSystem -lc -lm";
    let libs_linux = "-lgcc_s -lutil -lrt -lpthread -lm -ldl -lc";
    let libs_hurd = "-lgcc_s -lutil -lrt -lpthread -lm -ldl -lc";
    let libs_msvc = "kernel32.lib advapi32.lib kernel32.lib ntdll.lib userenv.lib ws2_32.lib kernel32.lib ws2_32.lib kernel32.lib msvcrt.lib /defaultlib:msvcrt";
    let libs_mingw = "-lkernel32 -ladvapi32 -lkernel32 -lntdll -luserenv -lws2_32 -lkernel32 -lws2_32 -lkernel32";

    let target_osx = target("macos", "");
    let target_linux = target("linux", "gnu");
    let target_hurd = target("hurd", "gnu");
    let target_msvc = target("windows", "msvc");
    let target_mingw = target("windows", "gnu");

    assert_eq!(static_libraries(libs_osx, &target_osx).join(" "), "-lSystem -lc -lm");
    assert_eq!(
        static_libraries(libs_linux, &target_linux).join(" "),
        "-lgcc_s -lutil -lrt -lpthread -lm -ldl -lc"
    );
    assert_eq!(
        static_libraries(libs_hurd, &target_hurd).join(" "),
        "-lgcc_s -lutil -lrt -lpthread -lm -ldl -lc"
    );
    assert_eq!(
        static_libraries(libs_msvc, &target_msvc).join(" "),
        "-lkernel32 -ladvapi32 -lntdll -luserenv -lws2_32 -lmsvcrt"
    );
    assert_eq!(
        static_libraries(libs_mingw, &target_mingw).join(" "),
        "-lkernel32 -ladvapi32 -lntdll -luserenv -lws2_32"
    );
}

#[test]
fn framework_pairs_are_rejoined() {
    let t = target("macos", "");
    assert_eq!(
        static_libraries("-framework Foundation -lc", &t).join(" "),
        "-framework Foundation -lc"
    );
    assert_eq!(
        static_libraries("-undefined dynamic_lookup -lc", &t).join(" "),
        "-Wl,-undefined,dynamic_lookup -lc"
    );
    assert_eq!(
        static_libraries("-isystem /opt/inc -lc", &t).join(" "),
        "-isystem /opt/inc -lc"
    );
}

#[test]
fn link_args_linux_and_apple() {
    let cfg = CApiConfig {
        header: HeaderCApiConfig {
            name: String::from("foo"),
            subdirectory: String::from("foo"),
            generation: true,
            enabled: true,
        },
        pkg_config: PkgConfigCApiConfig {
            name: String::from("foo"),
            filename: String::from("foo"),
            description: String::from(""),
            version: String::from("1.2.3"),
            requires: None,
            requires_private: None,
            strip_include_path_components: 0,
        },
        library: LibraryCApiConfig {
            name: String::from("foo"),
            version: LibraryVersion { major: 1, minor: 2, patch: 3 },
            install_subdir: None,
            versioning: true,
            version_suffix_components: None,
            import_library: true,
            rustflags: Vec::new(),
        },
        install: InstallCApiConfig { include_targets: Vec::new(), data_targets: Vec::new() },
    };
    let linux = target("linux", "gnu");
    let args = linux.shared_object_link_args(&cfg, "/usr/local/lib", "/out");
    assert_eq!(args, vec![String::from("-Wl,-soname,libfoo.so.1")]);

    let android = target("android", "");
    let args = android.shared_object_link_args(&cfg, "/usr/local/lib", "/out");
    assert_eq!(args, vec![String::from("-Wl,-soname,libfoo.so")]);

    let mac = target("macos", "");
    let args = mac.shared_object_link_args(&cfg, "/usr/local/lib", "/out");
    assert_eq!(
        args,
        vec![
            String::from(
                "-Wl,-install_name,/usr/local/lib/libfoo.1.dylib,-current_version,1.2.3,-compatibility_version,1"
            ),
            String::from("-Wl,-headerpad_max_install_names"),
        ]
    );

    let mingw = target("windows", "gnu");
    let args = mingw.shared_object_link_args(&cfg, "/usr/local/lib", "/out");
    assert_eq!(args, vec![String::from("-Wl,--output-def,/out/foo.def")]);
}

#[test]
fn platform_defaults() {
    assert_eq!(target("windows", "msvc").default_prefix(), "c:/");
    assert_eq!(target("haiku", "").default_prefix(), "/boot/system/non-packaged");
    assert_eq!(target("linux", "gnu").default_prefix(), "/usr/local");
    assert_eq!(target("haiku", "").default_includedir(), "develop/headers");
    assert_eq!(target("linux", "gnu").default_includedir(), "include");
    assert_eq!(target("haiku", "").default_datadir(), "data");
    assert_eq!(target("linux", "gnu").default_datadir(), "share");
    let t = target("linux", "gnu");
    assert_eq!(t.default_libdir(None, true, true), "lib64");
    assert_eq!(t.default_libdir(None, false, false), "lib");
    assert_eq!(
        t.default_libdir(Some(&String::from("x86_64-linux-gnu\n")), true, true),
        "lib/x86_64-linux-gnu"
    );
    assert_eq!(target("freebsd", "").default_libdir(None, true, true), "lib");
}
