//! Installation: destination layout, version-linked library names,
//! and the plan of filesystem actions an install performs.
//!
//! The plan is computed here and carried out by the surrounding
//! application; every action is an overwrite ("force" semantics), so
//! replaying a plan is idempotent.

use vstd::prelude::*;

use crate::config::{CApiConfig, LibraryCApiConfig};
use crate::error::Error;
use crate::paths;
use crate::paths::{join_spec, tokens_of};
use crate::strutil;
use crate::strutil::{is_prefix_of, str_eq};
use crate::target::{
    default_datadir_spec, default_includedir_spec, default_libdir_spec, default_prefix_spec, Target,
};
use crate::version;
use crate::version::full_version_str;

verus! {

/// Operating systems installed with ELF `.so` conventions.
pub open spec fn is_so_os(os: Seq<char>) -> bool {
    os == "linux"@ || os == "freebsd"@ || os == "dragonfly"@ || os == "netbsd"@ || os == "android"@
        || os == "haiku"@ || os == "illumos"@ || os == "openbsd"@ || os == "emscripten"@ || os
        == "hurd"@
}

/// Operating systems installed with Mach-O `.dylib` conventions.
pub open spec fn is_dylib_os(os: Seq<char>) -> bool {
    os == "macos"@ || os == "ios"@ || os == "tvos"@ || os == "visionos"@
}

/// Operating systems installed with Windows conventions.
pub open spec fn is_windows_os(os: Seq<char>) -> bool {
    os == "windows"@ || os == "cygwin"@
}

/// True when the installer knows the conventions of `os`.
pub open spec fn is_install_os(os: Seq<char>) -> bool {
    is_so_os(os) || is_dylib_os(os) || is_windows_os(os)
}

/// The three families of installed shared libraries.
#[derive(Clone, Copy, PartialEq, Eq, Structural, Debug)]
pub enum LibType {
    So,
    Dylib,
    Windows,
}

/// The family `os` belongs to.
pub open spec fn lib_type_of(os: Seq<char>) -> LibType {
    if is_so_os(os) {
        LibType::So
    } else if is_dylib_os(os) {
        LibType::Dylib
    } else {
        LibType::Windows
    }
}

impl LibType {
    /// Classify the target of a build; targets outside the table are
    /// excluded by the precondition, never guessed at.
    pub fn from_build_targets(build_targets: &crate::build_targets::BuildTargets) -> (r: LibType)
        requires
            is_install_os(build_targets.target.os@),
        ensures
            r == lib_type_of(build_targets.target.os@),
    {
        let os = build_targets.target.os.as_str();
        if str_eq(os, "linux") || str_eq(os, "freebsd") || str_eq(os, "dragonfly") || str_eq(
            os,
            "netbsd",
        ) || str_eq(os, "android") || str_eq(os, "haiku") || str_eq(os, "illumos") || str_eq(
            os,
            "openbsd",
        ) || str_eq(os, "emscripten") || str_eq(os, "hurd") {
            LibType::So
        } else if str_eq(os, "macos") || str_eq(os, "ios") || str_eq(os, "tvos") || str_eq(
            os,
            "visionos",
        ) {
            LibType::Dylib
        } else {
            LibType::Windows
        }
    }
}

/// `base` extended by every name token of a path, in order; root and
/// drive components contribute nothing.
pub open spec fn push_all_tokens(base: Seq<char>, toks: Seq<Seq<char>>) -> Seq<char>
    decreases toks.len(),
{
    if toks.len() == 0 {
        base
    } else {
        push_all_tokens(join_spec(base, toks[0]), toks.drop_first())
    }
}

/// The destination of `path` under a staging root: without one the
/// path is unchanged; with one, the path's name tokens are appended
/// to the root, its own root or drive component discarded.
pub open spec fn append_to_destdir_spec(destdir: Option<Seq<char>>, path: Seq<char>) -> Seq<char> {
    match destdir {
        None => path,
        Some(d) => push_all_tokens(d, tokens_of(path)),
    }
}

/// Compose a staging root with a target path, discarding the target
/// path's root or drive component.
pub fn append_to_destdir(destdir: Option<&String>, path: &str) -> (r: String)
    ensures
        r@ == append_to_destdir_spec(
            match destdir {
                Some(d) => Some(d@),
                None => None,
            },
            path@,
        ),
{
    match destdir {
        None => {
            let mut out = String::new();
            out.append(path);
            proof {
                assert(out@ =~= path@);
            }
            out
        },
        Some(d) => {
            let mut out = String::new();
            out.append(d.as_str());
            proof {
                assert(out@ =~= d@);
            }
            let parsed = paths::parse_path(path);
            let ghost toks = tokens_of(path@);
            let mut i: usize = 0;
            proof {
                assert(toks.skip(0) =~~= toks);
            }
            while i < parsed.tokens.len()
                invariant
                    i <= parsed.tokens@.len(),
                    parsed.tokens.deep_view() == toks,
                    append_to_destdir_spec(Some(d@), path@) == push_all_tokens(
                        out@,
                        toks.skip(i as int),
                    ),
                decreases parsed.tokens@.len() - i,
            {
                proof {
                    assert(toks.skip(i as int)[0] == toks[i as int]);
                    assert(toks.skip(i as int).drop_first() =~~= toks.skip(i + 1 as int));
                    assert(toks[i as int] == parsed.tokens@[i as int].deep_view());
                    assert(parsed.tokens@[i as int].deep_view() =~~= parsed.tokens@[i as int]@);
                }
                let tok = strutil::string_from_chars(&parsed.tokens[i]);
                paths::push_join(&mut out, tok.as_str());
                i = i + 1;
            }
            proof {
                assert(toks.skip(parsed.tokens@.len() as int) =~~= Seq::<Seq<char>>::empty());
            }
            out
        },
    }
}

/// No name token of a path holds a separator character, and none is
/// empty.
pub proof fn lemma_split_tokens_clean(s: Seq<char>, cur: Seq<char>)
    requires
        forall|j: int| 0 <= j < cur.len() ==> !paths::is_sep(cur[j]),
    ensures
        forall|k: int|
            0 <= k < paths::split_rec(s, cur).len() ==> (#[trigger] paths::split_rec(s, cur)[k].len()
                > 0 && forall|j: int|
                0 <= j < paths::split_rec(s, cur)[k].len() ==> !paths::is_sep(
                    paths::split_rec(s, cur)[k][j],
                )),
    decreases s.len(),
{
    if s.len() == 0 {
    } else if paths::is_sep(s[0]) {
        lemma_split_tokens_clean(s.drop_first(), Seq::empty());
        let head: Seq<Seq<char>> = if cur.len() > 0 {
            seq![cur]
        } else {
            Seq::empty()
        };
        let rest = paths::split_rec(s.drop_first(), Seq::empty());
        assert(paths::split_rec(s, cur) == head + rest);
        assert forall|k: int| 0 <= k < paths::split_rec(s, cur).len() implies (
            #[trigger] paths::split_rec(s, cur)[k].len() > 0 && forall|j: int|
                0 <= j < paths::split_rec(s, cur)[k].len() ==> !paths::is_sep(
                    paths::split_rec(s, cur)[k][j],
                )) by {
            if k < head.len() {
                assert(paths::split_rec(s, cur)[k] == cur);
            } else {
                assert(paths::split_rec(s, cur)[k] == rest[k - head.len()]);
            }
        }
    } else {
        assert(forall|j: int|
            0 <= j < cur.push(s[0]).len() ==> !paths::is_sep(cur.push(s[0])[j]));
        lemma_split_tokens_clean(s.drop_first(), cur.push(s[0]));
        assert(paths::split_rec(s, cur) == paths::split_rec(s.drop_first(), cur.push(s[0])));
    }
}

/// Appending name tokens to a staging root never escapes it: the root
/// stays a prefix of the composed path.
pub proof fn lemma_push_tokens_keeps_prefix(base: Seq<char>, toks: Seq<Seq<char>>)
    requires
        forall|k: int|
            0 <= k < toks.len() ==> (#[trigger] toks[k].len() > 0 && forall|j: int|
                0 <= j < toks[k].len() ==> !paths::is_sep(toks[k][j])),
    ensures
        is_prefix_of(base, push_all_tokens(base, toks)),
    decreases toks.len(),
{
    if toks.len() == 0 {
        assert(push_all_tokens(base, toks) == base);
        assert(base.take(base.len() as int) =~= base);
    } else {
        let t = toks[0];
        assert(t.len() > 0 && !paths::is_sep(t[0]));
        let joined = join_spec(base, t);
        assert(forall|k: int|
            0 <= k < toks.drop_first().len() ==> (#[trigger] toks.drop_first()[k].len() > 0
                && forall|j: int|
                0 <= j < toks.drop_first()[k].len() ==> !paths::is_sep(toks.drop_first()[k][j])));
        lemma_push_tokens_keeps_prefix(joined, toks.drop_first());
        assert(is_prefix_of(base, joined)) by {
            if base.len() == 0 {
                assert(t.take(0) =~= base);
            } else if paths::is_sep(base.last()) {
                assert((base + t).take(base.len() as int) =~= base);
            } else {
                assert((base + seq!['/'] + t).take(base.len() as int) =~= base);
            }
        }
        let fin = push_all_tokens(base, toks);
        assert(is_prefix_of(joined, fin));
        assert(fin.take(base.len() as int) =~= fin.take(joined.len() as int).take(
            base.len() as int,
        ));
        assert(fin.take(joined.len() as int).take(base.len() as int) =~= joined.take(
            base.len() as int,
        ));
    }
}

/// Composing a target path with a staging root keeps the staging root
/// as a prefix of the result: the target path's own root or drive can
/// never make the installation escape the staging tree.
pub proof fn lemma_append_to_destdir_stays_inside(destdir: Seq<char>, path: Seq<char>)
    ensures
        is_prefix_of(destdir, append_to_destdir_spec(Some(destdir), path)),
{
    lemma_split_tokens_clean(paths::rest_of(path), Seq::empty());
    lemma_push_tokens_keeps_prefix(destdir, tokens_of(path));
}

/// The canonical, version-suffixed and fully-versioned file names of
/// an installed Unix shared library.
#[derive(Debug)]
pub struct UnixLibNames {
    pub canonical: String,
    pub with_main_ver: String,
    pub with_full_ver: String,
}

impl UnixLibNames {
    /// The name triple of a library, `None` for the Windows family.
    pub fn new(lib_type: LibType, library: &LibraryCApiConfig) -> (r: Option<UnixLibNames>)
        ensures
            r is Some <==> lib_type != LibType::Windows,
            lib_type == LibType::So ==> {
                &&& r->0.canonical@ == "lib"@ + library.name@ + ".so"@
                &&& r->0.with_full_ver@ == "lib"@ + library.name@ + ".so."@ + full_version_str(
                    library.version,
                )
                &&& r->0.with_main_ver@ == "lib"@ + library.name@ + ".so."@ + version::sover_str(
                    library.version_suffix_components,
                    library.version,
                )
            },
            lib_type == LibType::Dylib ==> {
                &&& r->0.canonical@ == "lib"@ + library.name@ + ".dylib"@
                &&& r->0.with_full_ver@ == "lib"@ + library.name@ + "."@ + full_version_str(
                    library.version,
                ) + ".dylib"@
                &&& r->0.with_main_ver@ == "lib"@ + library.name@ + "."@ + version::sover_str(
                    library.version_suffix_components,
                    library.version,
                ) + ".dylib"@
            },
    {
        let main_version = library.sover();
        let full_version = library.version.full_version();
        match lib_type {
            LibType::So => {
                let mut lib = String::from_str("lib");
                lib.append(library.name.as_str());
                lib.append(".so");
                let mut full = String::from_str("lib");
                full.append(library.name.as_str());
                full.append(".so.");
                full.append(full_version.as_str());
                let mut main = String::from_str("lib");
                main.append(library.name.as_str());
                main.append(".so.");
                main.append(main_version.as_str());
                proof {
                    assert(lib@ =~= "lib"@ + library.name@ + ".so"@);
                    assert(full@ =~= "lib"@ + library.name@ + ".so."@ + full_version_str(
                        library.version,
                    ));
                    assert(main@ =~= "lib"@ + library.name@ + ".so."@ + version::sover_str(
                        library.version_suffix_components,
                        library.version,
                    ));
                }
                Some(UnixLibNames { canonical: lib, with_main_ver: main, with_full_ver: full })
            },
            LibType::Dylib => {
                let mut lib = String::from_str("lib");
                lib.append(library.name.as_str());
                let mut full = lib.clone();
                full.append(".");
                full.append(full_version.as_str());
                full.append(".dylib");
                let mut main = lib.clone();
                main.append(".");
                main.append(main_version.as_str());
                main.append(".dylib");
                lib.append(".dylib");
                proof {
                    assert(lib@ =~= "lib"@ + library.name@ + ".dylib"@);
                    assert(full@ =~= "lib"@ + library.name@ + "."@ + full_version_str(
                        library.version,
                    ) + ".dylib"@);
                    assert(main@ =~= "lib"@ + library.name@ + "."@ + version::sover_str(
                        library.version_suffix_components,
                        library.version,
                    ) + ".dylib"@);
                }
                Some(UnixLibNames { canonical: lib, with_main_ver: main, with_full_ver: full })
            },
            LibType::Windows => None,
        }
    }
}

/// One filesystem action of an installation.  Every action
/// overwrites what may already be at its destination, so replaying a
/// plan leaves the same tree.
#[derive(Clone, Debug, PartialEq, Eq)]
pub enum InstallAction {
    CreateDir { path: String },
    Copy { from: String, to: String },
    Symlink { target: String, link: String },
}

/// The spec-level shape of an [`InstallAction`].
#[verifier::ext_equal]
pub enum InstallActionV {
    CreateDir { path: Seq<char> },
    Copy { from: Seq<char>, to: Seq<char> },
    Symlink { target: Seq<char>, link: Seq<char> },
}

impl View for InstallAction {
    type V = InstallActionV;

    open spec fn view(&self) -> InstallActionV {
        match self {
            InstallAction::CreateDir { path } => InstallActionV::CreateDir { path: path@ },
            InstallAction::Copy { from, to } => InstallActionV::Copy { from: from@, to: to@ },
            InstallAction::Symlink { target, link } => InstallActionV::Symlink {
                target: target@,
                link: link@,
            },
        }
    }
}

impl DeepView for InstallAction {
    type V = InstallActionV;

    open spec fn deep_view(&self) -> InstallActionV {
        self.view()
    }
}

/// The canonical installed name of a Unix shared library.
pub open spec fn unix_canonical(lt: LibType, name: Seq<char>) -> Seq<char> {
    if lt == LibType::So {
        "lib"@ + name + ".so"@
    } else {
        "lib"@ + name + ".dylib"@
    }
}

/// The fully versioned installed name of a Unix shared library.
pub open spec fn unix_full(lt: LibType, name: Seq<char>, full: Seq<char>) -> Seq<char> {
    if lt == LibType::So {
        "lib"@ + name + ".so."@ + full
    } else {
        "lib"@ + name + "."@ + full + ".dylib"@
    }
}

/// The version-suffixed installed name of a Unix shared library.
pub open spec fn unix_main(lt: LibType, name: Seq<char>, sover: Seq<char>) -> Seq<char> {
    if lt == LibType::So {
        "lib"@ + name + ".so."@ + sover
    } else {
        "lib"@ + name + "."@ + sover + ".dylib"@
    }
}

/// The actions that install a Unix shared library: with versioning,
/// the file is copied under its fully versioned name and the
/// version-suffixed and canonical names become symlinks to it (the
/// suffixed link only when it differs from the full name); without
/// versioning, a single copy under the canonical name.
pub open spec fn unix_shared_actions(
    canonical: Seq<char>,
    main: Seq<char>,
    full: Seq<char>,
    versioning: bool,
    shared_lib: Seq<char>,
    libdir: Seq<char>,
) -> Seq<InstallActionV> {
    if versioning {
        seq![InstallActionV::Copy { from: shared_lib, to: join_spec(libdir, full) }] + (if main
            != full {
            seq![InstallActionV::Symlink { target: full, link: join_spec(libdir, main) }]
        } else {
            Seq::empty()
        }) + seq![InstallActionV::Symlink { target: full, link: join_spec(libdir, canonical) }]
    } else {
        seq![InstallActionV::Copy { from: shared_lib, to: join_spec(libdir, canonical) }]
    }
}

impl UnixLibNames {
    /// The actions that place this library, as
    /// [`unix_shared_actions`] describes them.
    pub fn install_actions(&self, versioning: bool, shared_lib: &str, install_path_lib: &str) -> (r:
        Vec<InstallAction>)
        ensures
            r.deep_view() == unix_shared_actions(
                self.canonical@,
                self.with_main_ver@,
                self.with_full_ver@,
                versioning,
                shared_lib@,
                install_path_lib@,
            ),
    {
        let mut r: Vec<InstallAction> = Vec::new();
        if versioning {
            let mut from = String::new();
            from.append(shared_lib);
            proof {
                assert(from@ =~= shared_lib@);
            }
            r.push(
                InstallAction::Copy {
                    from,
                    to: paths::join(install_path_lib, self.with_full_ver.as_str()),
                },
            );
            if !crate::strutil::str_eq(self.with_main_ver.as_str(), self.with_full_ver.as_str()) {
                r.push(
                    InstallAction::Symlink {
                        target: self.with_full_ver.clone(),
                        link: paths::join(install_path_lib, self.with_main_ver.as_str()),
                    },
                );
            }
            r.push(
                InstallAction::Symlink {
                    target: self.with_full_ver.clone(),
                    link: paths::join(install_path_lib, self.canonical.as_str()),
                },
            );
            proof {
                assert(r.deep_view() =~~= unix_shared_actions(
                    self.canonical@,
                    self.with_main_ver@,
                    self.with_full_ver@,
                    versioning,
                    shared_lib@,
                    install_path_lib@,
                ));
            }
        } else {
            let mut from = String::new();
            from.append(shared_lib);
            proof {
                assert(from@ =~= shared_lib@);
            }
            r.push(
                InstallAction::Copy {
                    from,
                    to: paths::join(install_path_lib, self.canonical.as_str()),
                },
            );
            proof {
                assert(r.deep_view() =~~= unix_shared_actions(
                    self.canonical@,
                    self.with_main_ver@,
                    self.with_full_ver@,
                    versioning,
                    shared_lib@,
                    install_path_lib@,
                ));
            }
        }
        r
    }
}

/// The actions that install a list of extra files below `base`: for
/// each file, its destination directory is created and the file
/// copied.
pub open spec fn pairs_actions(pairs: Seq<(Seq<char>, Seq<char>)>, base: Seq<char>) -> Seq<
    InstallActionV,
>
    decreases pairs.len(),
{
    if pairs.len() == 0 {
        Seq::empty()
    } else {
        let to_full = join_spec(base, pairs[0].1);
        seq![
            InstallActionV::CreateDir { path: paths::parent_spec(to_full) },
            InstallActionV::Copy { from: pairs[0].0, to: to_full },
        ] + pairs_actions(pairs.drop_first(), base)
    }
}

fn pairs_actions_exec(pairs: &Vec<crate::build_targets::InstallPair>, base: &str) -> (r: Vec<
    InstallAction,
>)
    ensures
        r.deep_view() == pairs_actions(pairs.deep_view(), base@),
{
    let mut r: Vec<InstallAction> = Vec::new();
    let mut i: usize = 0;
    proof {
        assert(pairs.deep_view().skip(0) =~~= pairs.deep_view());
        assert(r.deep_view() + pairs_actions(pairs.deep_view(), base@) =~~= pairs_actions(
            pairs.deep_view(),
            base@,
        ));
    }
    while i < pairs.len()
        invariant
            i <= pairs@.len(),
            pairs_actions(pairs.deep_view(), base@) == r.deep_view() + pairs_actions(
                pairs.deep_view().skip(i as int),
                base@,
            ),
        decreases pairs@.len() - i,
    {
        proof {
            assert(pairs.deep_view().skip(i as int)[0] == pairs.deep_view()[i as int]);
            assert(pairs.deep_view().skip(i as int).drop_first() =~~= pairs.deep_view().skip(
                i + 1 as int,
            ));
            assert(pairs.deep_view()[i as int] == pairs@[i as int].deep_view());
        }
        let to_full = paths::join(base, pairs[i].to.as_str());
        let dir = paths::parent_dir(to_full.as_str());
        let mut from = String::new();
        from.append(pairs[i].from.as_str());
        proof {
            assert(from@ =~= pairs@[i as int].from@);
        }
        let ghost pre = r.deep_view();
        r.push(InstallAction::CreateDir { path: dir });
        r.push(InstallAction::Copy { from, to: to_full });
        proof {
            assert(r.deep_view() =~~= pre + seq![
                InstallActionV::CreateDir {
                    path: paths::parent_spec(
                        join_spec(base@, pairs.deep_view()[i as int].1),
                    ),
                },
                InstallActionV::Copy {
                    from: pairs.deep_view()[i as int].0,
                    to: join_spec(base@, pairs.deep_view()[i as int].1),
                },
            ]);
        }
        i = i + 1;
    }
    proof {
        assert(pairs.deep_view().skip(pairs@.len() as int) =~~= Seq::<(Seq<char>, Seq<char>)>::empty());
        assert(r.deep_view() + Seq::<InstallActionV>::empty() =~~= r.deep_view());
    }
    r
}

/// What is on disk at the debug-info path: whether it exists, whether
/// it is a directory bundle, and in that case the relative paths of
/// the files inside it.
#[derive(Clone, Debug)]
pub struct DebugInfoDisk {
    pub exists: bool,
    pub is_dir: bool,
    pub files: Vec<String>,
}

/// The actions that copy a directory-form debug-info bundle: each
/// file keeps its relative position below the destination.
pub open spec fn debug_files_actions(
    files: Seq<Seq<char>>,
    src: Seq<char>,
    dest: Seq<char>,
) -> Seq<InstallActionV>
    decreases files.len(),
{
    if files.len() == 0 {
        Seq::empty()
    } else {
        let dst = join_spec(dest, files[0]);
        seq![
            InstallActionV::CreateDir { path: paths::parent_spec(dst) },
            InstallActionV::Copy { from: join_spec(src, files[0]), to: dst },
        ] + debug_files_actions(files.drop_first(), src, dest)
    }
}

fn debug_files_actions_exec(files: &Vec<String>, src: &str, dest: &str) -> (r: Vec<InstallAction>)
    ensures
        r.deep_view() == debug_files_actions(files.deep_view(), src@, dest@),
{
    let mut r: Vec<InstallAction> = Vec::new();
    let mut i: usize = 0;
    proof {
        assert(files.deep_view().skip(0) =~~= files.deep_view());
        assert(r.deep_view() + debug_files_actions(files.deep_view(), src@, dest@)
            =~~= debug_files_actions(files.deep_view(), src@, dest@));
    }
    while i < files.len()
        invariant
            i <= files@.len(),
            debug_files_actions(files.deep_view(), src@, dest@) == r.deep_view()
                + debug_files_actions(files.deep_view().skip(i as int), src@, dest@),
        decreases files@.len() - i,
    {
        proof {
            assert(files.deep_view().skip(i as int)[0] == files.deep_view()[i as int]);
            assert(files.deep_view().skip(i as int).drop_first() =~~= files.deep_view().skip(
                i + 1 as int,
            ));
            assert(files.deep_view()[i as int] == files@[i as int].deep_view());
        }
        let dst = paths::join(dest, files[i].as_str());
        let dir = paths::parent_dir(dst.as_str());
        let from = paths::join(src, files[i].as_str());
        let ghost pre = r.deep_view();
        r.push(InstallAction::CreateDir { path: dir });
        r.push(InstallAction::Copy { from, to: dst });
        proof {
            assert(r.deep_view() =~~= pre + seq![
                InstallActionV::CreateDir {
                    path: paths::parent_spec(join_spec(dest@, files.deep_view()[i as int])),
                },
                InstallActionV::Copy {
                    from: join_spec(src@, files.deep_view()[i as int]),
                    to: join_spec(dest@, files.deep_view()[i as int]),
                },
            ]);
        }
        i = i + 1;
    }
    proof {
        assert(files.deep_view().skip(files@.len() as int) =~~= Seq::<Seq<char>>::empty());
        assert(r.deep_view() + Seq::<InstallActionV>::empty() =~~= r.deep_view());
    }
    r
}

/// The directories an installation writes into.
#[derive(Clone, Debug)]
pub struct InstallPaths {
    pub subdir_name: String,
    pub destdir: Option<String>,
    pub prefix: String,
    pub libdir: String,
    pub includedir: String,
    pub datadir: String,
    pub bindir: String,
    pub pkgconfigdir: String,
}

/// Directory choices handed in from the command line; `None` falls
/// back to the platform default.
#[derive(Clone, Debug)]
pub struct InstallPathOverrides {
    pub destdir: Option<String>,
    pub prefix: Option<String>,
    pub libdir: Option<String>,
    pub includedir: Option<String>,
    pub datarootdir: Option<String>,
    pub datadir: Option<String>,
    pub bindir: String,
    pub pkgconfigdir: Option<String>,
}

/// Facts about the build host that the default library directory
/// depends on.
#[derive(Clone, Debug)]
pub struct HostDirs {
    pub debian_multiarch: Option<String>,
    pub host_matches: bool,
    pub usr_lib64_exists: bool,
}

impl InstallPaths {
    /// Resolve the directory layout: every directory is the supplied
    /// override or the platform default, joined under the prefix; an
    /// absolute override stands alone.
    pub fn new(
        rustc_target: &Target,
        overrides: &InstallPathOverrides,
        host: &HostDirs,
        capi_config: &CApiConfig,
    ) -> (r: InstallPaths)
        ensures
            r.destdir == overrides.destdir,
            r.prefix@ == match overrides.prefix {
                Some(p) => p@,
                None => default_prefix_spec(rustc_target.os@),
            },
            r.libdir@ == join_spec(
                r.prefix@,
                match overrides.libdir {
                    Some(d) => d@,
                    None => default_libdir_spec(
                        *rustc_target,
                        match host.debian_multiarch {
                            Some(m) => Some(m@),
                            None => None,
                        },
                        host.host_matches,
                        host.usr_lib64_exists,
                    ),
                },
            ),
            r.includedir@ == join_spec(
                r.prefix@,
                match overrides.includedir {
                    Some(d) => d@,
                    None => default_includedir_spec(rustc_target.os@),
                },
            ),
            r.datadir@ == match overrides.datadir {
                Some(d) => join_spec(r.prefix@, d@),
                None => join_spec(
                    r.prefix@,
                    match overrides.datarootdir {
                        Some(d) => d@,
                        None => default_datadir_spec(rustc_target.os@),
                    },
                ),
            },
            r.bindir@ == join_spec(r.prefix@, overrides.bindir@),
            r.pkgconfigdir@ == match overrides.pkgconfigdir {
                Some(d) => join_spec(r.prefix@, d@),
                None => join_spec(r.libdir@, "pkgconfig"@),
            },
            r.subdir_name@ == capi_config.header.subdirectory@,
    {
        let prefix = match &overrides.prefix {
            Some(p) => p.clone(),
            None => rustc_target.default_prefix(),
        };
        let libdir = match &overrides.libdir {
            Some(d) => paths::join(prefix.as_str(), d.as_str()),
            None => {
                let d = rustc_target.default_libdir(
                    host.debian_multiarch.as_ref(),
                    host.host_matches,
                    host.usr_lib64_exists,
                );
                paths::join(prefix.as_str(), d.as_str())
            },
        };
        let includedir = match &overrides.includedir {
            Some(d) => paths::join(prefix.as_str(), d.as_str()),
            None => {
                let d = rustc_target.default_includedir();
                paths::join(prefix.as_str(), d.as_str())
            },
        };
        let datarootdir = match &overrides.datarootdir {
            Some(d) => paths::join(prefix.as_str(), d.as_str()),
            None => {
                let d = rustc_target.default_datadir();
                paths::join(prefix.as_str(), d.as_str())
            },
        };
        let datadir = match &overrides.datadir {
            Some(d) => paths::join(prefix.as_str(), d.as_str()),
            None => datarootdir,
        };
        let bindir = paths::join(prefix.as_str(), overrides.bindir.as_str());
        let pkgconfigdir = match &overrides.pkgconfigdir {
            Some(d) => paths::join(prefix.as_str(), d.as_str()),
            None => paths::join(libdir.as_str(), "pkgconfig"),
        };
        let destdir = match &overrides.destdir {
            Some(d) => Some(d.clone()),
            None => None,
        };
        let subdir_name = capi_config.header.subdirectory.clone();
        InstallPaths {
            subdir_name,
            destdir,
            prefix,
            libdir,
            includedir,
            datadir,
            bindir,
            pkgconfigdir,
        }
    }
}

/// The install destination of the debug-info file: its file name
/// placed in the first directory on Windows, the second elsewhere.
pub open spec fn debug_dest_spec(
    bt: crate::build_targets::BuildTargets,
    bindir: Seq<char>,
    libdir: Seq<char>,
) -> Seq<char> {
    let f = paths::file_name_opt(crate::build_targets::opt_view(bt.debug_info)->0)->0;
    if lib_type_of(bt.target.os@) == LibType::Windows {
        join_spec(bindir, f)
    } else {
        join_spec(libdir, f)
    }
}

/// The actions that install debugging information: nothing when no
/// artifact was produced or none is on disk; otherwise the
/// destination directory is created and the bundle or file copied,
/// the bundle file by file.
pub open spec fn debug_actions(
    bt: crate::build_targets::BuildTargets,
    capi: CApiConfig,
    dbg: DebugInfoDisk,
    bin: Seq<char>,
    lib: Seq<char>,
) -> Seq<InstallActionV> {
    match bt.debug_info {
        Some(d) => {
            if dbg.exists {
                let dest = if capi.library.install_subdir is None {
                    debug_dest_spec(bt, bin, lib)
                } else {
                    debug_dest_spec(bt, lib, lib)
                };
                seq![InstallActionV::CreateDir { path: paths::parent_spec(dest) }] + (if dbg.is_dir {
                    debug_files_actions(dbg.files.deep_view(), d@, dest)
                } else {
                    seq![InstallActionV::Copy { from: d@, to: dest }]
                })
            } else {
                Seq::empty()
            }
        },
        None => Seq::empty(),
    }
}

/// The actions that install a Windows shared library: the binary
/// goes to the binary directory, or to the library directory when a
/// custom install subdirectory marks it as a plugin; the import
/// library and module-definition file follow when import-library
/// installation is enabled.
pub open spec fn windows_shared_actions(
    bt: crate::build_targets::BuildTargets,
    capi: CApiConfig,
    sh: Seq<char>,
    bin: Seq<char>,
    lib: Seq<char>,
) -> Seq<InstallActionV> {
    let lib_name = crate::build_targets::shared_output_spec(
        crate::build_targets::opt_view(bt.shared_lib),
        bt.name@,
        bt.use_meson_naming_convention,
    )->0;
    (if capi.library.install_subdir is None {
        seq![
            InstallActionV::CreateDir { path: bin },
            InstallActionV::Copy { from: sh, to: join_spec(bin, lib_name) },
        ]
    } else {
        seq![InstallActionV::Copy { from: sh, to: join_spec(lib, lib_name) }]
    }) + (if capi.library.import_library {
        let il = crate::build_targets::opt_view(bt.impl_lib)->0;
        let df = crate::build_targets::opt_view(bt.def)->0;
        seq![
            InstallActionV::Copy { from: il, to: join_spec(lib, paths::file_name_opt(il)->0) },
            InstallActionV::Copy { from: df, to: join_spec(lib, paths::file_name_opt(df)->0) },
        ]
    } else {
        Seq::empty()
    })
}

/// The staging-adjusted destination of a directory.
pub open spec fn staged(paths: InstallPaths, dir: Seq<char>) -> Seq<char> {
    append_to_destdir_spec(crate::build_targets::opt_view(paths.destdir), dir)
}

/// The library directory of an installation, with any configured
/// subdirectory, under the staging root.
pub open spec fn staged_lib_dir(capi: CApiConfig, paths: InstallPaths) -> Seq<char> {
    let lib0 = match capi.library.install_subdir {
        Some(s) => join_spec(paths.libdir@, s@),
        None => paths.libdir@,
    };
    staged(paths, lib0)
}

/// The first stage of an installation plan: create the library and
/// pkg-config directories, install the pkg-config file, the headers,
/// the data files, and the static library under its reported name.
pub open spec fn plan_prefix_spec(
    capi: CApiConfig,
    bt: crate::build_targets::BuildTargets,
    paths: InstallPaths,
) -> Seq<InstallActionV> {
    let lib = staged_lib_dir(capi, paths);
    let pcdir = staged(paths, paths.pkgconfigdir@);
    let inc = staged(paths, paths.includedir@);
    let dat = staged(paths, paths.datadir@);
    seq![
        InstallActionV::CreateDir { path: lib },
        InstallActionV::CreateDir { path: pcdir },
        InstallActionV::Copy {
            from: bt.pc@,
            to: join_spec(pcdir, paths::file_name_opt(bt.pc@)->0),
        },
    ] + (if capi.header.enabled {
        pairs_actions(bt.extra.include_files.deep_view(), inc)
    } else {
        Seq::empty()
    }) + pairs_actions(bt.extra.data_files.deep_view(), dat) + (match bt.static_lib {
        Some(p) => seq![
            InstallActionV::Copy {
                from: p@,
                to: join_spec(
                    lib,
                    crate::build_targets::static_output_spec(
                        bt.target.os@,
                        crate::build_targets::opt_view(bt.static_lib),
                        bt.name@,
                        bt.use_meson_naming_convention,
                    )->0,
                ),
            },
        ],
        None => Seq::empty(),
    })
}

/// The actions that install the shared library, if one was produced:
/// the Unix symlink chain, or the Windows placement.
pub open spec fn shared_segment_spec(
    capi: CApiConfig,
    bt: crate::build_targets::BuildTargets,
    bin: Seq<char>,
    lib: Seq<char>,
) -> Seq<InstallActionV> {
    let lt = lib_type_of(bt.target.os@);
    match bt.shared_lib {
        Some(sh) => {
            if lt != LibType::Windows {
                unix_shared_actions(
                    unix_canonical(lt, capi.library.name@),
                    unix_main(
                        lt,
                        capi.library.name@,
                        version::sover_str(
                            capi.library.version_suffix_components,
                            capi.library.version,
                        ),
                    ),
                    unix_full(lt, capi.library.name@, full_version_str(capi.library.version)),
                    capi.library.versioning,
                    sh@,
                    lib,
                )
            } else {
                windows_shared_actions(bt, capi, sh@, bin, lib)
            }
        },
        None => Seq::empty(),
    }
}

/// The complete installation plan of one library, in order: the
/// prefix stage, the shared library with its symlink chain or
/// Windows placement, and the debugging information.
pub open spec fn cinstall_plan_spec(
    capi: CApiConfig,
    bt: crate::build_targets::BuildTargets,
    paths: InstallPaths,
    dbg: DebugInfoDisk,
) -> Seq<InstallActionV> {
    let bin = staged(paths, paths.bindir@);
    let lib = staged_lib_dir(capi, paths);
    plan_prefix_spec(capi, bt, paths) + shared_segment_spec(capi, bt, bin, lib) + debug_actions(
        bt,
        capi,
        dbg,
        bin,
        lib,
    )
}

/// What occupies a path in the modelled file tree: a directory, a
/// file copied from a source, or a symlink to a target.
pub enum FsEntry {
    Dir,
    File { from: Seq<char> },
    Link { target: Seq<char> },
}

/// The destination path an action writes.
pub open spec fn action_dest(a: InstallActionV) -> Seq<char> {
    match a {
        InstallActionV::CreateDir { path } => path,
        InstallActionV::Copy { from, to } => to,
        InstallActionV::Symlink { target, link } => link,
    }
}

/// The entry an action leaves at its destination.
pub open spec fn action_entry(a: InstallActionV) -> FsEntry {
    match a {
        InstallActionV::CreateDir { path } => FsEntry::Dir,
        InstallActionV::Copy { from, to } => FsEntry::File { from },
        InstallActionV::Symlink { target, link } => FsEntry::Link { target },
    }
}

/// One action applied to the modelled tree: it replaces whatever was
/// at its destination ("force" semantics).
pub open spec fn apply_action(fs: Map<Seq<char>, FsEntry>, a: InstallActionV) -> Map<
    Seq<char>,
    FsEntry,
> {
    fs.insert(action_dest(a), action_entry(a))
}

/// A whole plan applied in order.
pub open spec fn apply_plan(fs: Map<Seq<char>, FsEntry>, plan: Seq<InstallActionV>) -> Map<
    Seq<char>,
    FsEntry,
>
    decreases plan.len(),
{
    if plan.len() == 0 {
        fs
    } else {
        apply_plan(apply_action(fs, plan[0]), plan.drop_first())
    }
}

/// True when some action of the plan writes `k`.
pub open spec fn plan_writes(plan: Seq<InstallActionV>, k: Seq<char>) -> bool {
    exists|i: int| 0 <= i < plan.len() && action_dest(#[trigger] plan[i]) == k
}

/// What a plan leaves at a path it writes does not depend on what was
/// there before; a path it never writes keeps its old entry.
proof fn lemma_apply_at(
    fs1: Map<Seq<char>, FsEntry>,
    fs2: Map<Seq<char>, FsEntry>,
    plan: Seq<InstallActionV>,
    k: Seq<char>,
)
    requires
        plan_writes(plan, k) || (fs1.contains_key(k) == fs2.contains_key(k) && (fs1.contains_key(k)
            ==> fs1[k] == fs2[k])),
    ensures
        apply_plan(fs1, plan).contains_key(k) == apply_plan(fs2, plan).contains_key(k),
        apply_plan(fs1, plan).contains_key(k) ==> apply_plan(fs1, plan)[k] == apply_plan(
            fs2,
            plan,
        )[k],
    decreases plan.len(),
{
    if plan.len() == 0 {
        assert(!plan_writes(plan, k));
    } else {
        let g1 = apply_action(fs1, plan[0]);
        let g2 = apply_action(fs2, plan[0]);
        if plan_writes(plan.drop_first(), k) {
            lemma_apply_at(g1, g2, plan.drop_first(), k);
        } else {
            if plan_writes(plan, k) {
                let i = choose|i: int|
                    0 <= i < plan.len() && action_dest(#[trigger] plan[i]) == k;
                if i > 0 {
                    assert(plan.drop_first()[i - 1] == plan[i]);
                    assert(plan_writes(plan.drop_first(), k));
                }
                assert(action_dest(plan[0]) == k);
                assert(g1.contains_key(k) && g2.contains_key(k) && g1[k] == g2[k]);
            } else {
                assert(g1.contains_key(k) == g2.contains_key(k) && (g1.contains_key(k) ==> g1[k]
                    == g2[k]));
            }
            lemma_apply_at(g1, g2, plan.drop_first(), k);
        }
    }
}

/// A path the plan never writes passes through untouched.
proof fn lemma_apply_preserves(fs: Map<Seq<char>, FsEntry>, plan: Seq<InstallActionV>, k: Seq<char>)
    requires
        !plan_writes(plan, k),
    ensures
        apply_plan(fs, plan).contains_key(k) == fs.contains_key(k),
        apply_plan(fs, plan).contains_key(k) ==> apply_plan(fs, plan)[k] == fs[k],
    decreases plan.len(),
{
    if plan.len() > 0 {
        assert(action_dest(plan[0]) != k);
        assert forall|i: int|
            0 <= i < plan.drop_first().len() implies action_dest(
            #[trigger] plan.drop_first()[i],
        ) != k by {
            assert(plan.drop_first()[i] == plan[i + 1]);
        }
        lemma_apply_preserves(apply_action(fs, plan[0]), plan.drop_first(), k);
    }
}

/// Replaying an installation plan is idempotent on the modelled file
/// tree: every action replaces what stands at its destination, so a
/// second run lays down exactly the entries of the first, and links
/// are replaced rather than duplicated or left dangling.
pub proof fn lemma_plan_idempotent(fs: Map<Seq<char>, FsEntry>, plan: Seq<InstallActionV>)
    ensures
        apply_plan(apply_plan(fs, plan), plan) == apply_plan(fs, plan),
{
    let once = apply_plan(fs, plan);
    let twice = apply_plan(once, plan);
    assert forall|k: Seq<char>| #[trigger]
        twice.contains_key(k) == once.contains_key(k) && (twice.contains_key(k) ==> twice[k]
            == once[k]) by {
        if plan_writes(plan, k) {
            lemma_apply_at(once, fs, plan, k);
        } else {
            lemma_apply_preserves(once, plan, k);
        }
    }
    assert(twice =~= once);
}

/// The symlink chain of a versioned Unix shared library: the plan
/// copies the file under its fully versioned name, then links the
/// version-suffixed name to it when that name differs, and always
/// links the canonical name to it.  The plan is a pure function of
/// its inputs and every one of its actions replaces what may already
/// be at its destination, so re-running an installation lays down
/// the same files and links again instead of accumulating them.
pub proof fn lemma_unix_symlink_chain(
    capi: CApiConfig,
    bt: crate::build_targets::BuildTargets,
    bin: Seq<char>,
    lib: Seq<char>,
)
    requires
        bt.shared_lib is Some,
        lib_type_of(bt.target.os@) != LibType::Windows,
        capi.library.versioning,
    ensures
        ({
            let lt = lib_type_of(bt.target.os@);
            let full = unix_full(lt, capi.library.name@, full_version_str(capi.library.version));
            let main = unix_main(
                lt,
                capi.library.name@,
                version::sover_str(capi.library.version_suffix_components, capi.library.version),
            );
            let canonical = unix_canonical(lt, capi.library.name@);
            let seg = shared_segment_spec(capi, bt, bin, lib);
            &&& seg.len() == if main != full {
                3int
            } else {
                2int
            }
            &&& seg[0] == (InstallActionV::Copy {
                from: crate::build_targets::opt_view(bt.shared_lib)->0,
                to: join_spec(lib, full),
            })
            &&& seg.last() == (InstallActionV::Symlink {
                target: full,
                link: join_spec(lib, canonical),
            })
            &&& main != full ==> seg[1] == (InstallActionV::Symlink {
                target: full,
                link: join_spec(lib, main),
            })
        }),
{
    let lt = lib_type_of(bt.target.os@);
    let full = unix_full(lt, capi.library.name@, full_version_str(capi.library.version));
    let main = unix_main(
        lt,
        capi.library.name@,
        version::sover_str(capi.library.version_suffix_components, capi.library.version),
    );
    let canonical = unix_canonical(lt, capi.library.name@);
    let seg = shared_segment_spec(capi, bt, bin, lib);
    if main != full {
        assert(seg =~~= seq![
            InstallActionV::Copy {
                from: crate::build_targets::opt_view(bt.shared_lib)->0,
                to: join_spec(lib, full),
            },
            InstallActionV::Symlink { target: full, link: join_spec(lib, main) },
            InstallActionV::Symlink { target: full, link: join_spec(lib, canonical) },
        ]);
    } else {
        assert(seg =~~= seq![
            InstallActionV::Copy {
                from: crate::build_targets::opt_view(bt.shared_lib)->0,
                to: join_spec(lib, full),
            },
            InstallActionV::Symlink { target: full, link: join_spec(lib, canonical) },
        ]);
    }
}

/// Compute the installation plan of one library.
///
/// The preconditions exclude exactly the inputs on which the
/// corresponding imperative installation would abort on a malformed
/// name: every produced artifact must carry a proper file name, and
/// an enabled import library must have its files named.
fn plan_prefix(
    capi_config: &CApiConfig,
    build_targets: &crate::build_targets::BuildTargets,
    paths: &InstallPaths,
    install_path_lib: &str,
    install_path_pc: &str,
    install_path_inc: &str,
    install_path_dat: &str,
) -> (r: Vec<InstallAction>)
    requires
        is_install_os(build_targets.target.os@),
        paths::file_name_opt(build_targets.pc@) is Some,
        build_targets.static_lib is Some ==> crate::build_targets::static_output_spec(
            build_targets.target.os@,
            crate::build_targets::opt_view(build_targets.static_lib),
            build_targets.name@,
            build_targets.use_meson_naming_convention,
        ) is Some,
        install_path_lib@ == staged_lib_dir(*capi_config, *paths),
        install_path_pc@ == staged(*paths, paths.pkgconfigdir@),
        install_path_inc@ == staged(*paths, paths.includedir@),
        install_path_dat@ == staged(*paths, paths.datadir@),
    ensures
        r.deep_view() == plan_prefix_spec(*capi_config, *build_targets, *paths),
{
    let ghost lib_g = staged_lib_dir(*capi_config, *paths);
    let ghost sp_head: Seq<InstallActionV> = seq![
        InstallActionV::CreateDir { path: lib_g },
        InstallActionV::CreateDir { path: staged(*paths, paths.pkgconfigdir@) },
        InstallActionV::Copy {
            from: build_targets.pc@,
            to: join_spec(
                staged(*paths, paths.pkgconfigdir@),
                paths::file_name_opt(build_targets.pc@)->0,
            ),
        },
    ];
    let ghost sp_inc: Seq<InstallActionV> = if capi_config.header.enabled {
        pairs_actions(
            build_targets.extra.include_files.deep_view(),
            staged(*paths, paths.includedir@),
        )
    } else {
        Seq::empty()
    };
    let ghost sp_dat: Seq<InstallActionV> = pairs_actions(
        build_targets.extra.data_files.deep_view(),
        staged(*paths, paths.datadir@),
    );
    let ghost sp_static: Seq<InstallActionV> = match &build_targets.static_lib {
        Some(p) => seq![
            InstallActionV::Copy {
                from: p@,
                to: join_spec(
                    lib_g,
                    crate::build_targets::static_output_spec(
                        build_targets.target.os@,
                        crate::build_targets::opt_view(build_targets.static_lib),
                        build_targets.name@,
                        build_targets.use_meson_naming_convention,
                    )->0,
                ),
            },
        ],
        None => Seq::empty(),
    };

    let mut plan: Vec<InstallAction> = Vec::new();
    let mut lib_copy = String::new();
    lib_copy.append(install_path_lib);
    let mut pc_copy = String::new();
    pc_copy.append(install_path_pc);
    proof {
        assert(lib_copy@ =~= install_path_lib@);
        assert(pc_copy@ =~= install_path_pc@);
    }
    plan.push(InstallAction::CreateDir { path: lib_copy });
    plan.push(InstallAction::CreateDir { path: pc_copy });
    let pc_name = match paths::file_name(build_targets.pc.as_str()) {
        Some(f) => f,
        None => {
            proof {
                assert(false);
            }
            String::new()
        },
    };
    plan.push(
        InstallAction::Copy {
            from: build_targets.pc.clone(),
            to: paths::join(install_path_pc, pc_name.as_str()),
        },
    );
    proof {
        assert(plan.deep_view() =~~= sp_head);
    }

    if capi_config.header.enabled {
        let mut seg = pairs_actions_exec(&build_targets.extra.include_files, install_path_inc);
        let ghost pre = plan.deep_view();
        let ghost segv = seg.deep_view();
        plan.append(&mut seg);
        proof {
            assert(plan.deep_view() =~~= pre + segv);
        }
    } else {
        proof {
            assert(plan.deep_view() + sp_inc =~~= plan.deep_view());
        }
    }
    proof {
        assert(plan.deep_view() == sp_head + sp_inc);
    }

    let mut seg = pairs_actions_exec(&build_targets.extra.data_files, install_path_dat);
    let ghost pre = plan.deep_view();
    let ghost segv = seg.deep_view();
    plan.append(&mut seg);
    proof {
        assert(plan.deep_view() =~~= pre + segv);
        assert(plan.deep_view() == sp_head + sp_inc + sp_dat);
    }

    match &build_targets.static_lib {
        Some(static_lib) => {
            let file_name = match build_targets.static_output_file_name() {
                Some(f) => f,
                None => {
                    proof {
                        assert(false);
                    }
                    String::new()
                },
            };
            let ghost pre2 = plan.deep_view();
            plan.push(
                InstallAction::Copy {
                    from: static_lib.clone(),
                    to: paths::join(install_path_lib, file_name.as_str()),
                },
            );
            proof {
                assert(plan.deep_view() =~~= pre2 + sp_static);
            }
        },
        None => {
            proof {
                assert(plan.deep_view() + sp_static =~~= plan.deep_view());
            }
        },
    }
    proof {
        assert(plan.deep_view() == sp_head + sp_inc + sp_dat + sp_static);
        assert(plan_prefix_spec(*capi_config, *build_targets, *paths) == sp_head + sp_inc + sp_dat
            + sp_static);
    }
    plan
}

fn shared_segment(
    capi_config: &CApiConfig,
    build_targets: &crate::build_targets::BuildTargets,
    install_path_bin: &str,
    install_path_lib: &str,
) -> (r: Vec<InstallAction>)
    requires
        is_install_os(build_targets.target.os@),
        build_targets.shared_lib matches Some(p) ==> paths::file_name_opt(p@) is Some,
        lib_type_of(build_targets.target.os@) == LibType::Windows && build_targets.shared_lib
            is Some && capi_config.library.import_library ==> {
            &&& build_targets.impl_lib matches Some(il) && paths::file_name_opt(il@) is Some
            &&& build_targets.def matches Some(df) && paths::file_name_opt(df@) is Some
        },
    ensures
        r.deep_view() == shared_segment_spec(
            *capi_config,
            *build_targets,
            install_path_bin@,
            install_path_lib@,
        ),
{
    let mut plan: Vec<InstallAction> = Vec::new();
    match &build_targets.shared_lib {
        Some(shared_lib) => {
            let lib_type = LibType::from_build_targets(build_targets);
            let unix = match lib_type {
                LibType::Windows => false,
                _ => true,
            };
            if unix {
                let names = match UnixLibNames::new(lib_type, &capi_config.library) {
                    Some(n) => n,
                    None => {
                        proof {
                            assert(false);
                        }
                        UnixLibNames {
                            canonical: String::new(),
                            with_main_ver: String::new(),
                            with_full_ver: String::new(),
                        }
                    },
                };
                let mut seg = names.install_actions(
                    capi_config.library.versioning,
                    shared_lib.as_str(),
                    install_path_lib,
                );
                let ghost segv = seg.deep_view();
                plan.append(&mut seg);
                proof {
                    assert(plan.deep_view() =~~= segv);
                    assert(plan.deep_view() =~~= shared_segment_spec(
                        *capi_config,
                        *build_targets,
                        install_path_bin@,
                        install_path_lib@,
                    ));
                }
            } else {
                let lib_name = match build_targets.shared_output_file_name() {
                    Some(f) => f,
                    None => {
                        proof {
                            assert(false);
                        }
                        String::new()
                    },
                };
                if capi_config.library.install_subdir.is_none() {
                    let mut bin_copy = String::new();
                    bin_copy.append(install_path_bin);
                    proof {
                        assert(bin_copy@ =~= install_path_bin@);
                    }
                    plan.push(InstallAction::CreateDir { path: bin_copy });
                    plan.push(
                        InstallAction::Copy {
                            from: shared_lib.clone(),
                            to: paths::join(install_path_bin, lib_name.as_str()),
                        },
                    );
                } else {
                    plan.push(
                        InstallAction::Copy {
                            from: shared_lib.clone(),
                            to: paths::join(install_path_lib, lib_name.as_str()),
                        },
                    );
                }
                if capi_config.library.import_library {
                    let impl_lib = match &build_targets.impl_lib {
                        Some(i) => i,
                        None => {
                            proof {
                                assert(false);
                            }
                            &build_targets.pc
                        },
                    };
                    let impl_name = match paths::file_name(impl_lib.as_str()) {
                        Some(f) => f,
                        None => {
                            proof {
                                assert(false);
                            }
                            String::new()
                        },
                    };
                    plan.push(
                        InstallAction::Copy {
                            from: impl_lib.clone(),
                            to: paths::join(install_path_lib, impl_name.as_str()),
                        },
                    );
                    let def = match &build_targets.def {
                        Some(d) => d,
                        None => {
                            proof {
                                assert(false);
                            }
                            &build_targets.pc
                        },
                    };
                    let def_name = match paths::file_name(def.as_str()) {
                        Some(f) => f,
                        None => {
                            proof {
                                assert(false);
                            }
                            String::new()
                        },
                    };
                    plan.push(
                        InstallAction::Copy {
                            from: def.clone(),
                            to: paths::join(install_path_lib, def_name.as_str()),
                        },
                    );
                }
                proof {
                    assert(plan.deep_view() =~~= shared_segment_spec(
                        *capi_config,
                        *build_targets,
                        install_path_bin@,
                        install_path_lib@,
                    ));
                }
            }
        },
        None => {
            proof {
                assert(plan.deep_view() =~~= shared_segment_spec(
                    *capi_config,
                    *build_targets,
                    install_path_bin@,
                    install_path_lib@,
                ));
            }
        },
    }
    plan
}

fn debug_segment(
    capi_config: &CApiConfig,
    build_targets: &crate::build_targets::BuildTargets,
    dbg: &DebugInfoDisk,
    install_path_bin: &str,
    install_path_lib: &str,
) -> (r: Vec<InstallAction>)
    requires
        is_install_os(build_targets.target.os@),
        build_targets.debug_info is Some && dbg.exists ==> paths::file_name_opt(
            crate::build_targets::opt_view(build_targets.debug_info)->0,
        ) is Some,
    ensures
        r.deep_view() == debug_actions(
            *build_targets,
            *capi_config,
            *dbg,
            install_path_bin@,
            install_path_lib@,
        ),
{
    let mut plan: Vec<InstallAction> = Vec::new();
    match &build_targets.debug_info {
        Some(debug_info) => {
            if dbg.exists {
                let destination_path = if capi_config.library.install_subdir.is_none() {
                    match build_targets.debug_info_file_name(install_path_bin, install_path_lib) {
                        Some(p) => p,
                        None => {
                            proof {
                                assert(false);
                            }
                            String::new()
                        },
                    }
                } else {
                    match build_targets.debug_info_file_name(install_path_lib, install_path_lib) {
                        Some(p) => p,
                        None => {
                            proof {
                                assert(false);
                            }
                            String::new()
                        },
                    }
                };
                plan.push(
                    InstallAction::CreateDir {
                        path: paths::parent_dir(destination_path.as_str()),
                    },
                );
                if dbg.is_dir {
                    let mut seg = debug_files_actions_exec(
                        &dbg.files,
                        debug_info.as_str(),
                        destination_path.as_str(),
                    );
                    let ghost mid = plan.deep_view();
                    let ghost segv = seg.deep_view();
                    plan.append(&mut seg);
                    proof {
                        assert(plan.deep_view() =~~= mid + segv);
                        assert(plan.deep_view() =~~= debug_actions(
                            *build_targets,
                            *capi_config,
                            *dbg,
                            install_path_bin@,
                            install_path_lib@,
                        ));
                    }
                } else {
                    plan.push(
                        InstallAction::Copy { from: debug_info.clone(), to: destination_path },
                    );
                    proof {
                        assert(plan.deep_view() =~~= debug_actions(
                            *build_targets,
                            *capi_config,
                            *dbg,
                            install_path_bin@,
                            install_path_lib@,
                        ));
                    }
                }
            } else {
                proof {
                    assert(plan.deep_view() =~~= debug_actions(
                        *build_targets,
                        *capi_config,
                        *dbg,
                        install_path_bin@,
                        install_path_lib@,
                    ));
                }
            }
        },
        None => {
            proof {
                assert(plan.deep_view() =~~= debug_actions(
                    *build_targets,
                    *capi_config,
                    *dbg,
                    install_path_bin@,
                    install_path_lib@,
                ));
            }
        },
    }
    plan
}


/// Compute the installation plan of one library.
///
/// The preconditions exclude exactly the inputs on which the
/// corresponding imperative installation would abort on a malformed
/// name: every produced artifact must carry a proper file name, and
/// an enabled import library must have its files named.
pub fn cinstall_plan(
    capi_config: &CApiConfig,
    build_targets: &crate::build_targets::BuildTargets,
    paths: &InstallPaths,
    dbg: &DebugInfoDisk,
) -> (r: Vec<InstallAction>)
    requires
        is_install_os(build_targets.target.os@),
        paths::file_name_opt(build_targets.pc@) is Some,
        build_targets.static_lib is Some ==> crate::build_targets::static_output_spec(
            build_targets.target.os@,
            crate::build_targets::opt_view(build_targets.static_lib),
            build_targets.name@,
            build_targets.use_meson_naming_convention,
        ) is Some,
        build_targets.shared_lib matches Some(p) ==> paths::file_name_opt(p@) is Some,
        lib_type_of(build_targets.target.os@) == LibType::Windows && build_targets.shared_lib
            is Some && capi_config.library.import_library ==> {
            &&& build_targets.impl_lib matches Some(il) && paths::file_name_opt(il@) is Some
            &&& build_targets.def matches Some(df) && paths::file_name_opt(df@) is Some
        },
        build_targets.debug_info is Some && dbg.exists ==> paths::file_name_opt(
            crate::build_targets::opt_view(build_targets.debug_info)->0,
        ) is Some,
    ensures
        r.deep_view() == cinstall_plan_spec(*capi_config, *build_targets, *paths, *dbg),
{
    let destdir: Option<&String> = match &paths.destdir {
        Some(d) => Some(d),
        None => None,
    };
    let mut lib0 = paths.libdir.clone();
    match &capi_config.library.install_subdir {
        Some(subdir) => {
            paths::push_join(&mut lib0, subdir.as_str());
        },
        None => {},
    }
    let install_path_bin = append_to_destdir(destdir, paths.bindir.as_str());
    let install_path_lib = append_to_destdir(destdir, lib0.as_str());
    let install_path_pc = append_to_destdir(destdir, paths.pkgconfigdir.as_str());
    let install_path_inc = append_to_destdir(destdir, paths.includedir.as_str());
    let install_path_dat = append_to_destdir(destdir, paths.datadir.as_str());
    proof {
        assert(install_path_lib@ == staged_lib_dir(*capi_config, *paths));
        assert(install_path_bin@ == staged(*paths, paths.bindir@));
        assert(install_path_pc@ == staged(*paths, paths.pkgconfigdir@));
        assert(install_path_inc@ == staged(*paths, paths.includedir@));
        assert(install_path_dat@ == staged(*paths, paths.datadir@));
    }
    let mut plan = plan_prefix(
        capi_config,
        build_targets,
        paths,
        install_path_lib.as_str(),
        install_path_pc.as_str(),
        install_path_inc.as_str(),
        install_path_dat.as_str(),
    );
    let mut shared = shared_segment(
        capi_config,
        build_targets,
        install_path_bin.as_str(),
        install_path_lib.as_str(),
    );
    let ghost pre1 = plan.deep_view();
    let ghost sharedv = shared.deep_view();
    plan.append(&mut shared);
    proof {
        assert(plan.deep_view() =~~= pre1 + sharedv);
    }
    let mut dbg_seg = debug_segment(
        capi_config,
        build_targets,
        dbg,
        install_path_bin.as_str(),
        install_path_lib.as_str(),
    );
    let ghost pre2 = plan.deep_view();
    let ghost dbgv = dbg_seg.deep_view();
    plan.append(&mut dbg_seg);
    proof {
        assert(plan.deep_view() =~~= pre2 + dbgv);
        assert(plan.deep_view() == cinstall_plan_spec(*capi_config, *build_targets, *paths, *dbg));
    }
    plan
}

} // verus!
