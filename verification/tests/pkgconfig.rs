use cargo_c::config::{
    CApiConfig, HeaderCApiConfig, InstallCApiConfig, LibraryCApiConfig, PkgConfigCApiConfig,
};
use cargo_c::pkg_config_gen::{PkgConfig, ResolvedLibrary};
use cargo_c::version::LibraryVersion;

fn resolved(libs: &[&str]) -> ResolvedLibrary {
    ResolvedLibrary {
        include_paths: Vec::new(),
        link_files: Vec::new(),
        libs: libs.iter().map(|s| String::from(*s)).collect(),
        link_paths: Vec::new(),
        frameworks: Vec::new(),
        framework_paths: Vec::new(),
        defines: Vec::new(),
        ld_args: Vec::new(),
    }
}

fn simple_config() -> CApiConfig {
    CApiConfig {
        header: HeaderCApiConfig {
            name: String::from("foo"),
            subdirectory: String::from(""),
            generation: true,
            enabled: true,
        },
        pkg_config: PkgConfigCApiConfig {
            name: String::from("foo"),
            filename: String::from("foo"),
            description: String::from(""),
            version: String::from("0.1"),
            requires: Some(String::from("somelib, someotherlib")),
            requires_private: Some(String::from("someprivatelib >= 1.0")),
            strip_include_path_components: 0,
        },
        library: LibraryCApiConfig {
            name: String::from("foo"),
            version: LibraryVersion { major: 0, minor: 1, patch: 0 },
            install_subdir: None,
            versioning: true,
            version_suffix_components: None,
            import_library: true,
            rustflags: Vec::new(),
        },
        install: InstallCApiConfig { include_targets: Vec::new(), data_targets: Vec::new() },
    }
}

#[test]
fn simple() {
    let mut pkg = PkgConfig::new("foo", &simple_config(), &Vec::new(), &Vec::new());
    pkg.add_lib("-lbar");
    pkg.add_cflag("-DFOO");

    let expected = "prefix=/usr/local\n\
exec_prefix=${prefix}\n\
libdir=${exec_prefix}/lib\n\
includedir=${prefix}/include\n\
\n\
Name: foo\n\
Description: \n\
Version: 0.1\n\
Libs: -L${libdir} -lfoo -lbar\n\
Cflags: -I${includedir} -DFOO\n\
Requires: somelib, someotherlib\n\
Requires.private: someprivatelib >= 1.0\n";

    assert_eq!(expected, pkg.render());
}

#[test]
fn dedup_drops_already_supplied_libs() {
    let known = vec![resolved(&["somelib"])];
    let mut pkg = PkgConfig::new("foo", &simple_config(), &known, &Vec::new());
    pkg.add_lib("-lsomelib");
    pkg.add_lib("-Wl,-z,now");
    pkg.add_lib("-Wl,-z,now");
    let rendered = pkg.render();
    let libs_line = rendered.lines().find(|l| l.starts_with("Libs: ")).unwrap();
    assert_eq!(libs_line, "Libs: -L${libdir} -lfoo -Wl,-z,now -Wl,-z,now");
}

#[test]
fn libs_private_dedups_against_public_libs() {
    let mut pkg = PkgConfig::new("foo", &simple_config(), &Vec::new(), &Vec::new());
    pkg.add_lib("-lshared");
    pkg.add_lib_private("-lshared");
    pkg.add_lib_private("-lprivonly");
    let rendered = pkg.render();
    let line = rendered.lines().find(|l| l.starts_with("Libs.private: ")).unwrap();
    assert_eq!(line, "Libs.private: -lprivonly");
}

#[test]
fn uninstalled_points_at_build_directory() {
    let pkg = PkgConfig::new("foo", &simple_config(), &Vec::new(), &Vec::new());
    let uninstalled = pkg.uninstalled("/build/out");
    let rendered = uninstalled.render();
    assert!(rendered.starts_with("prefix=/build/out\n"));
    assert!(rendered.contains("libdir=${prefix}\n"));
    assert!(rendered.contains("Libs: -L${prefix} -lfoo\n"));
}

#[test]
fn description_newlines_become_spaces() {
    let mut pkg = PkgConfig::new("foo", &simple_config(), &Vec::new(), &Vec::new());
    pkg.set_description("two\nlines");
    let rendered = pkg.render();
    assert!(rendered.contains("Description: two lines\n"));
}

#[test]
fn include_subdirectory_and_strip() {
    let mut cfg = simple_config();
    cfg.header.subdirectory = String::from("foo/nested");
    let pkg = PkgConfig::new("foo", &cfg, &Vec::new(), &Vec::new());
    assert!(pkg.render().contains("Cflags: -I${includedir}/foo/nested\n"));
    cfg.pkg_config.strip_include_path_components = 1;
    let pkg = PkgConfig::new("foo", &cfg, &Vec::new(), &Vec::new());
    assert!(pkg.render().contains("Cflags: -I${includedir}/foo\n"));
}
