//! The build target: raw (arch, os, env) strings as reported by the
//! compiler, classified into a closed set of library families, with
//! per-platform default installation directories.

use vstd::prelude::*;

use crate::config::CApiConfig;
use crate::paths;
use crate::strutil;
use crate::strutil::{eq_ignore_ascii_case, lower_seq, str_eq};
use crate::version;

verus! {

/// A build target, split into its components.
///
/// The raw strings come from the compiler's configuration dump; the
/// caller obtains them externally and hands them in.
#[derive(Clone, Debug)]
pub struct Target {
    pub is_target_overridden: bool,
    pub arch: String,
    pub os: String,
    pub env: String,
}

/// Case-insensitive equality of two character sequences.
pub open spec fn eq_icase(a: Seq<char>, b: Seq<char>) -> bool {
    lower_seq(a) == lower_seq(b)
}

/// The default installation prefix of a platform.
pub open spec fn default_prefix_spec(os: Seq<char>) -> Seq<char> {
    if eq_icase(os, "windows"@) {
        "c:/"@
    } else if eq_icase(os, "haiku"@) {
        "/boot/system/non-packaged"@
    } else {
        "/usr/local"@
    }
}

/// The default data directory of a platform, relative to the prefix.
pub open spec fn default_datadir_spec(os: Seq<char>) -> Seq<char> {
    if eq_icase(os, "haiku"@) {
        "data"@
    } else {
        "share"@
    }
}

/// The default header directory of a platform, relative to the prefix.
pub open spec fn default_includedir_spec(os: Seq<char>) -> Seq<char> {
    if eq_icase(os, "haiku"@) {
        "develop/headers"@
    } else {
        "include"@
    }
}

/// The default library directory, relative to the prefix, given the
/// facts about the build host it depends on.
pub open spec fn default_libdir_spec(
    t: Target,
    multiarch: Option<Seq<char>>,
    host_matches: bool,
    usr_lib64_exists: bool,
) -> Seq<char> {
    if t.is_target_overridden || eq_icase(t.os@, "freebsd"@) {
        "lib"@
    } else if multiarch is Some {
        "lib/"@ + strutil::trim_spec(multiarch->0)
    } else if host_matches && usr_lib64_exists {
        "lib64"@
    } else {
        "lib"@
    }
}

/// Operating systems whose shared objects carry a `-soname` link
/// argument with the version suffix.
pub open spec fn is_soname_os(os: Seq<char>) -> bool {
    os == "linux"@ || os == "freebsd"@ || os == "dragonfly"@ || os == "netbsd"@ || os == "haiku"@
        || os == "illumos"@ || os == "openbsd"@ || os == "hurd"@
}

/// Operating systems of the Mach-O family.
pub open spec fn is_apple_os(os: Seq<char>) -> bool {
    os == "macos"@ || os == "ios"@ || os == "tvos"@ || os == "visionos"@
}

fn is_soname_os_exec(os: &str) -> (r: bool)
    ensures
        r == is_soname_os(os@),
{
    str_eq(os, "linux") || str_eq(os, "freebsd") || str_eq(os, "dragonfly") || str_eq(os, "netbsd")
        || str_eq(os, "haiku") || str_eq(os, "illumos") || str_eq(os, "openbsd") || str_eq(
        os,
        "hurd",
    )
}

fn is_apple_os_exec(os: &str) -> (r: bool)
    ensures
        r == is_apple_os(os@),
{
    str_eq(os, "macos") || str_eq(os, "ios") || str_eq(os, "tvos") || str_eq(os, "visionos")
}

/// The `-soname` line of an ELF shared object.
pub open spec fn soname_line(name: Seq<char>, versioning: bool, sover: Seq<char>) -> Seq<char> {
    if versioning {
        "-Wl,-soname,lib"@ + name + ".so."@ + sover
    } else {
        "-Wl,-soname,lib"@ + name + ".so"@
    }
}

/// The `-install_name` line of a Mach-O shared object.
pub open spec fn install_name_line(
    name: Seq<char>,
    versioning: bool,
    libdir: Seq<char>,
    sover: Seq<char>,
    full: Seq<char>,
) -> Seq<char> {
    if versioning {
        "-Wl,-install_name,"@ + libdir + "/lib"@ + name + "."@ + sover + ".dylib,-current_version,"@
            + full + ",-compatibility_version,"@ + sover
    } else {
        "-Wl,-install_name,"@ + libdir + "/lib"@ + name + ".dylib"@
    }
}

/// The linker arguments a platform needs so that the produced shared
/// object carries the right internal name.
pub open spec fn link_args_spec(
    os: Seq<char>,
    env: Seq<char>,
    name: Seq<char>,
    versioning: bool,
    sover: Seq<char>,
    full: Seq<char>,
    libdir: Seq<char>,
    target_dir: Seq<char>,
) -> Seq<Seq<char>> {
    if os == "android"@ {
        seq!["-Wl,-soname,lib"@ + name + ".so"@]
    } else if is_soname_os(os) {
        seq![soname_line(name, versioning, sover)]
    } else if is_apple_os(os) {
        seq![
            install_name_line(name, versioning, libdir, sover, full),
            "-Wl,-headerpad_max_install_names"@,
        ]
    } else if os == "windows"@ && env == "gnu"@ {
        seq!["-Wl,--output-def,"@ + paths::join_spec(target_dir, name + ".def"@)]
    } else {
        Seq::empty()
    }
}

impl Target {
    /// The default installation prefix of the platform.
    pub fn default_prefix(&self) -> (r: String)
        ensures
            r@ == default_prefix_spec(self.os@),
    {
        if eq_ignore_ascii_case(self.os.as_str(), "windows") {
            String::from_str("c:/")
        } else if eq_ignore_ascii_case(self.os.as_str(), "haiku") {
            String::from_str("/boot/system/non-packaged")
        } else {
            String::from_str("/usr/local")
        }
    }

    /// The default data directory, relative to the prefix.
    pub fn default_datadir(&self) -> (r: String)
        ensures
            r@ == default_datadir_spec(self.os@),
    {
        if eq_ignore_ascii_case(self.os.as_str(), "haiku") {
            String::from_str("data")
        } else {
            String::from_str("share")
        }
    }

    /// The default header directory, relative to the prefix.
    pub fn default_includedir(&self) -> (r: String)
        ensures
            r@ == default_includedir_spec(self.os@),
    {
        if eq_ignore_ascii_case(self.os.as_str(), "haiku") {
            String::from_str("develop/headers")
        } else {
            String::from_str("include")
        }
    }

    /// The default library directory, relative to the prefix.
    ///
    /// The caller supplies the three facts about the build host that
    /// this choice depends on: the Debian multiarch triplet when the
    /// host is a Debian system that reports one, whether the host's
    /// own architecture and operating system match this target, and
    /// whether `/usr/lib64` exists as a real directory.
    pub fn default_libdir(
        &self,
        debian_multiarch: Option<&String>,
        host_matches: bool,
        usr_lib64_exists: bool,
    ) -> (r: String)
        ensures
            r@ == default_libdir_spec(
                *self,
                match debian_multiarch {
                    Some(m) => Some(m@),
                    None => None,
                },
                host_matches,
                usr_lib64_exists,
            ),
    {
        if self.is_target_overridden || eq_ignore_ascii_case(self.os.as_str(), "freebsd") {
            return String::from_str("lib");
        }
        match debian_multiarch {
            Some(archpath) => {
                let mut r = String::from_str("lib/");
                let trimmed = strutil::trim(archpath.as_str());
                r.append(trimmed.as_str());
                proof {
                    assert(r@ =~= "lib/"@ + strutil::trim_spec(archpath@));
                }
                r
            },
            None => {
                if host_matches && usr_lib64_exists {
                    String::from_str("lib64")
                } else {
                    String::from_str("lib")
                }
            },
        }
    }

    /// The linker arguments for the shared object of this target, as
    /// [`link_args_spec`] describes them.
    pub fn shared_object_link_args(
        &self,
        capi_config: &CApiConfig,
        libdir: &str,
        target_dir: &str,
    ) -> (r: Vec<String>)
        ensures
            r.deep_view() == link_args_spec(
                self.os@,
                self.env@,
                capi_config.library.name@,
                capi_config.library.versioning,
                version::sover_str(
                    capi_config.library.version_suffix_components,
                    capi_config.library.version,
                ),
                version::full_version_str(capi_config.library.version),
                libdir@,
                target_dir@,
            ),
    {
        let mut lines: Vec<String> = Vec::new();
        let name = &capi_config.library.name;
        let versioning = capi_config.library.versioning;
        let sover = capi_config.library.sover();
        let full = capi_config.library.version.full_version();

        if str_eq(self.os.as_str(), "android") {
            let mut line = String::from_str("-Wl,-soname,lib");
            line.append(name.as_str());
            line.append(".so");
            proof {
                assert(line@ =~= "-Wl,-soname,lib"@ + name@ + ".so"@);
            }
            lines.push(line);
        } else if is_soname_os_exec(self.os.as_str()) {
            let mut line = String::from_str("-Wl,-soname,lib");
            line.append(name.as_str());
            if versioning {
                line.append(".so.");
                line.append(sover.as_str());
                proof {
                    assert(line@ =~= soname_line(name@, versioning, sover@));
                }
            } else {
                line.append(".so");
                proof {
                    assert(line@ =~= soname_line(name@, versioning, sover@));
                }
            }
            lines.push(line);
        } else if is_apple_os_exec(self.os.as_str()) {
            let mut line = String::from_str("-Wl,-install_name,");
            line.append(libdir);
            line.append("/lib");
            line.append(name.as_str());
            if versioning {
                line.append(".");
                line.append(sover.as_str());
                line.append(".dylib,-current_version,");
                line.append(full.as_str());
                line.append(",-compatibility_version,");
                line.append(sover.as_str());
                proof {
                    assert(line@ =~= install_name_line(name@, versioning, libdir@, sover@, full@));
                }
            } else {
                line.append(".dylib");
                proof {
                    assert(line@ =~= install_name_line(name@, versioning, libdir@, sover@, full@));
                }
            }
            lines.push(line);
            // Enable larger LC_RPATH and install_name entries
            lines.push(String::from_str("-Wl,-headerpad_max_install_names"));
        } else if str_eq(self.os.as_str(), "windows") && str_eq(self.env.as_str(), "gnu") {
            let mut def_name = String::new();
            def_name.append(name.as_str());
            def_name.append(".def");
            proof {
                assert(def_name@ =~= name@ + ".def"@);
            }
            let joined = paths::join(target_dir, def_name.as_str());
            let mut line = String::from_str("-Wl,--output-def,");
            line.append(joined.as_str());
            proof {
                assert(line@ =~= "-Wl,--output-def,"@ + paths::join_spec(
                    target_dir@,
                    name@ + ".def"@,
                ));
            }
            lines.push(line);
        }
        proof {
            assert(lines.deep_view() =~~= link_args_spec(
                self.os@,
                self.env@,
                capi_config.library.name@,
                capi_config.library.versioning,
                version::sover_str(
                    capi_config.library.version_suffix_components,
                    capi_config.library.version,
                ),
                version::full_version_str(capi_config.library.version),
                libdir@,
                target_dir@,
            ));
        }
        lines
    }
}

} // verus!
