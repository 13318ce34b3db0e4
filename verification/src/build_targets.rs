//! The expected output files of a build: static and shared library,
//! import library, debug information, module-definition file,
//! pkg-config document and header, named by platform convention.

use vstd::prelude::*;

use crate::config::CApiConfig;
use crate::error::Error;
use crate::paths;
use crate::paths::join_spec;
use crate::strutil::str_eq;
use crate::target::{is_apple_os, Target};

verus! {

/// Operating systems whose artifacts follow the ELF `lib<name>.a` /
/// `lib<name>.so` convention.
pub open spec fn is_elf_os(os: Seq<char>) -> bool {
    os == "none"@ || os == "linux"@ || os == "freebsd"@ || os == "dragonfly"@ || os == "netbsd"@
        || os == "android"@ || os == "haiku"@ || os == "illumos"@ || os == "openbsd"@ || os
        == "emscripten"@
}

fn is_elf_os_exec(os: &str) -> (r: bool)
    ensures
        r == is_elf_os(os@),
{
    str_eq(os, "none") || str_eq(os, "linux") || str_eq(os, "freebsd") || str_eq(os, "dragonfly")
        || str_eq(os, "netbsd") || str_eq(os, "android") || str_eq(os, "haiku") || str_eq(
        os,
        "illumos",
    ) || str_eq(os, "openbsd") || str_eq(os, "emscripten")
}

fn is_apple_os_exec(os: &str) -> (r: bool)
    ensures
        r == is_apple_os(os@),
{
    str_eq(os, "macos") || str_eq(os, "ios") || str_eq(os, "tvos") || str_eq(os, "visionos")
}

/// True when the (os, env) pair stands in the artifact-naming table.
pub open spec fn is_known_target(os: Seq<char>, env: Seq<char>) -> bool {
    is_elf_os(os) || is_apple_os(os) || os == "windows"@
}

/// The spec-level shape of a [`FileNames`] value.
pub struct FileNamesV {
    pub static_lib: Seq<char>,
    pub shared_lib: Seq<char>,
    pub impl_lib: Option<Seq<char>>,
    pub debug_info: Option<Seq<char>>,
    pub def: Option<Seq<char>>,
}

/// The file names the naming table assigns to a known target.
pub open spec fn file_names_spec(
    os: Seq<char>,
    env: Seq<char>,
    name: Seq<char>,
    dir: Seq<char>,
) -> FileNamesV {
    if is_elf_os(os) {
        FileNamesV {
            static_lib: join_spec(dir, "lib"@ + name + ".a"@),
            shared_lib: join_spec(dir, "lib"@ + name + ".so"@),
            impl_lib: None,
            debug_info: None,
            def: None,
        }
    } else if is_apple_os(os) {
        FileNamesV {
            static_lib: join_spec(dir, "lib"@ + name + ".a"@),
            shared_lib: join_spec(dir, "lib"@ + name + ".dylib"@),
            impl_lib: None,
            debug_info: None,
            def: None,
        }
    } else if env == "msvc"@ {
        FileNamesV {
            static_lib: join_spec(dir, name + ".lib"@),
            shared_lib: join_spec(dir, name + ".dll"@),
            impl_lib: Some(join_spec(dir, name + ".dll.lib"@)),
            debug_info: Some(join_spec(dir, name + ".pdb"@)),
            def: Some(join_spec(dir, name + ".def"@)),
        }
    } else {
        FileNamesV {
            static_lib: join_spec(dir, "lib"@ + name + ".a"@),
            shared_lib: join_spec(dir, name + ".dll"@),
            impl_lib: Some(join_spec(dir, name + ".dll.a"@)),
            debug_info: None,
            def: Some(join_spec(dir, name + ".def"@)),
        }
    }
}

/// The per-platform names of the library artifacts in the build
/// output directory.
#[derive(Debug, PartialEq, Eq)]
pub struct FileNames {
    pub static_lib: String,
    pub shared_lib: String,
    pub impl_lib: Option<String>,
    pub debug_info: Option<String>,
    pub def: Option<String>,
}

impl View for FileNames {
    type V = FileNamesV;

    open spec fn view(&self) -> FileNamesV {
        FileNamesV {
            static_lib: self.static_lib@,
            shared_lib: self.shared_lib@,
            impl_lib: match self.impl_lib {
                Some(s) => Some(s@),
                None => None,
            },
            debug_info: match self.debug_info {
                Some(s) => Some(s@),
                None => None,
            },
            def: match self.def {
                Some(s) => Some(s@),
                None => None,
            },
        }
    }
}

impl FileNames {
    /// Name the artifacts of `lib_name` in `targetdir` by the table;
    /// a target outside the table yields nothing rather than a guess.
    pub fn from_target(target: &Target, lib_name: &str, targetdir: &str) -> (r: Option<FileNames>)
        ensures
            r is Some <==> is_known_target(target.os@, target.env@),
            r is Some ==> r->0@ == file_names_spec(target.os@, target.env@, lib_name@, targetdir@),
    {
        let os = target.os.as_str();
        if is_elf_os_exec(os) {
            let mut base = String::from_str("lib");
            base.append(lib_name);
            let mut st = base.clone();
            st.append(".a");
            let mut sh = base;
            sh.append(".so");
            proof {
                assert(st@ =~= "lib"@ + lib_name@ + ".a"@);
                assert(sh@ =~= "lib"@ + lib_name@ + ".so"@);
            }
            Some(
                FileNames {
                    static_lib: paths::join(targetdir, st.as_str()),
                    shared_lib: paths::join(targetdir, sh.as_str()),
                    impl_lib: None,
                    debug_info: None,
                    def: None,
                },
            )
        } else if is_apple_os_exec(os) {
            let mut base = String::from_str("lib");
            base.append(lib_name);
            let mut st = base.clone();
            st.append(".a");
            let mut sh = base;
            sh.append(".dylib");
            proof {
                assert(st@ =~= "lib"@ + lib_name@ + ".a"@);
                assert(sh@ =~= "lib"@ + lib_name@ + ".dylib"@);
            }
            Some(
                FileNames {
                    static_lib: paths::join(targetdir, st.as_str()),
                    shared_lib: paths::join(targetdir, sh.as_str()),
                    impl_lib: None,
                    debug_info: None,
                    def: None,
                },
            )
        } else if str_eq(os, "windows") {
            let mut sh = String::from_str(lib_name);
            sh.append(".dll");
            let mut def = String::from_str(lib_name);
            def.append(".def");
            proof {
                assert(sh@ =~= lib_name@ + ".dll"@);
                assert(def@ =~= lib_name@ + ".def"@);
            }
            if str_eq(target.env.as_str(), "msvc") {
                let mut st = String::from_str(lib_name);
                st.append(".lib");
                let mut il = String::from_str(lib_name);
                il.append(".dll.lib");
                let mut pdb = String::from_str(lib_name);
                pdb.append(".pdb");
                proof {
                    assert(st@ =~= lib_name@ + ".lib"@);
                    assert(il@ =~= lib_name@ + ".dll.lib"@);
                    assert(pdb@ =~= lib_name@ + ".pdb"@);
                }
                Some(
                    FileNames {
                        static_lib: paths::join(targetdir, st.as_str()),
                        shared_lib: paths::join(targetdir, sh.as_str()),
                        impl_lib: Some(paths::join(targetdir, il.as_str())),
                        debug_info: Some(paths::join(targetdir, pdb.as_str())),
                        def: Some(paths::join(targetdir, def.as_str())),
                    },
                )
            } else {
                let mut st = String::from_str("lib");
                st.append(lib_name);
                st.append(".a");
                let mut il = String::from_str(lib_name);
                il.append(".dll.a");
                proof {
                    assert(st@ =~= "lib"@ + lib_name@ + ".a"@);
                    assert(il@ =~= lib_name@ + ".dll.a"@);
                }
                Some(
                    FileNames {
                        static_lib: paths::join(targetdir, st.as_str()),
                        shared_lib: paths::join(targetdir, sh.as_str()),
                        impl_lib: Some(paths::join(targetdir, il.as_str())),
                        debug_info: None,
                        def: Some(paths::join(targetdir, def.as_str())),
                    },
                )
            }
        } else {
            None
        }
    }
}

/// The position of the last `.` in `s`, or `-1` when there is none.
pub open spec fn last_dot(s: Seq<char>) -> int
    decreases s.len(),
{
    if s.len() == 0 {
        -1
    } else if s.last() == '.' {
        s.len() - 1
    } else {
        last_dot(s.drop_last())
    }
}

/// A file name with its extension removed; a name whose only `.` is
/// the leading character counts as having no extension.
pub open spec fn stem_of(name: Seq<char>) -> Seq<char> {
    if last_dot(name) > 0 {
        name.take(last_dot(name))
    } else {
        name
    }
}

/// The header file name: the stem with `.h` appended.
pub open spec fn header_file_spec(name: Seq<char>) -> Seq<char> {
    stem_of(name) + ".h"@
}

/// Replace the extension of a configured header name with `.h`.
pub fn header_file_name(name: &str) -> (r: String)
    ensures
        r@ == header_file_spec(name@),
{
    let v = crate::strutil::chars_vec(name);
    let mut j: usize = v.len();
    proof {
        assert(v@.take(v.len() as int) =~= v@);
    }
    while j > 0 && v[j - 1] != '.'
        invariant
            j <= v.len(),
            v@ == name@,
            last_dot(name@) == last_dot(v@.take(j as int)),
        decreases j,
    {
        proof {
            assert(v@.take(j as int).drop_last() =~= v@.take(j - 1 as int));
            assert(v@.take(j as int).len() > 0 ==> v@.take(j as int).last() == v@[j - 1 as int]);
        }
        j = j - 1;
    }
    proof {
        if j > 0 {
            assert(v@.take(j as int).last() == v@[j - 1 as int]);
            assert(last_dot(name@) == j - 1);
        } else {
            assert(v@.take(0) =~= Seq::<char>::empty());
            assert(last_dot(name@) == -1);
        }
    }
    let cut: usize = if j > 0 && j - 1 > 0 {
        j - 1
    } else {
        v.len()
    };
    proof {
        assert(cut == if last_dot(name@) > 0 {
            last_dot(name@)
        } else {
            name@.len() as int
        });
    }
    let mut out = String::new();
    let mut i: usize = 0;
    while i < cut
        invariant
            i <= cut <= v.len(),
            v@ == name@,
            out@ == name@.take(i as int),
        decreases cut - i,
    {
        crate::strutil::push_char(&mut out, v[i]);
        proof {
            assert(out@ =~= name@.take(i + 1 as int));
        }
        i = i + 1;
    }
    out.append(".h");
    proof {
        if last_dot(name@) > 0 {
            assert(out@ =~= header_file_spec(name@));
        } else {
            assert(name@.take(name@.len() as int) =~= name@);
            assert(out@ =~= header_file_spec(name@));
        }
    }
    out
}

/// One file to install: its source and its destination sub-path.
#[derive(Clone, Debug)]
pub struct InstallPair {
    pub from: String,
    pub to: String,
}

impl View for InstallPair {
    type V = (Seq<char>, Seq<char>);

    open spec fn view(&self) -> (Seq<char>, Seq<char>) {
        (self.from@, self.to@)
    }
}

impl DeepView for InstallPair {
    type V = (Seq<char>, Seq<char>);

    open spec fn deep_view(&self) -> (Seq<char>, Seq<char>) {
        self.view()
    }
}

/// The extra header and data files a build installs.
#[derive(Clone, Debug)]
pub struct ExtraTargets {
    pub include_files: Vec<InstallPair>,
    pub data_files: Vec<InstallPair>,
}

impl Default for ExtraTargets {
    fn default() -> (r: ExtraTargets)
        ensures
            r.include_files@.len() == 0,
            r.data_files@.len() == 0,
    {
        ExtraTargets { include_files: Vec::new(), data_files: Vec::new() }
    }
}

/// True when the glob pattern descends into directories (`/**`).
pub open spec fn has_glob_marker(from: Seq<char>) -> bool {
    exists|i: int|
        0 <= i && i + 3 <= from.len() && from[i] == '/' && #[trigger] from[i + 1] == '*' && from[i
            + 2] == '*'
}

fn has_glob_marker_exec(from: &str) -> (r: bool)
    ensures
        r == has_glob_marker(from@),
{
    let v = crate::strutil::chars_vec(from);
    if v.len() < 3 {
        proof {
            assert(!has_glob_marker(from@));
        }
        return false;
    }
    let mut i: usize = 0;
    while i <= v.len() - 3
        invariant
            v@ == from@,
            v@.len() >= 3,
            i <= v.len() - 2,
            forall|k: int|
                0 <= k < i && k + 3 <= from@.len() ==> !(from@[k] == '/' && #[trigger] from@[k + 1]
                    == '*' && from@[k + 2] == '*'),
        decreases v.len() - i,
    {
        if v[i] == '/' && v[i + 1] == '*' && v[i + 2] == '*' {
            proof {
                assert(from@[i as int] == '/' && from@[i + 1 as int] == '*' && from@[i + 2 as int]
                    == '*');
            }
            return true;
        }
        i = i + 1;
    }
    proof {
        assert(!has_glob_marker(from@));
    }
    false
}

/// How many leading path tokens of a matched file belong to the
/// pattern's base directory rather than to the matched sub-path: up
/// to the `**` for a tree pattern, all but the file-name token
/// otherwise.
pub open spec fn base_token_count(root: Seq<char>, from: Seq<char>) -> int {
    let toks = paths::tokens_of(join_spec(root, from));
    if has_glob_marker(from) {
        paths::tokens_until_glob(toks).len() as int
    } else {
        toks.len() - 1
    }
}

/// The destination of a matched file: the configured subdirectory
/// joined with the file's path below the pattern base.
pub open spec fn pair_dest(to: Seq<char>, m: Seq<char>, n0: int) -> Seq<char> {
    join_spec(to, paths::join_tokens(paths::tokens_of(m).skip(n0)))
}

/// The install pairs of one target: each matched file mapped to
/// itself and its destination.
pub open spec fn pairs_for_target(
    from: Seq<char>,
    to: Seq<char>,
    root: Seq<char>,
    ms: Seq<Seq<char>>,
) -> Seq<(Seq<char>, Seq<char>)> {
    ms.map_values(|m: Seq<char>| (m, pair_dest(to, m, base_token_count(root, from))))
}

/// All install pairs of a target list: assets are rooted at the
/// source tree, generated files at the build output directory; a
/// generated target without a build output directory contributes
/// nothing.
pub open spec fn extra_pairs_spec(
    targets: Seq<crate::config::InstallTarget>,
    ms: Seq<Seq<Seq<char>>>,
    root_path: Seq<char>,
    root_output: Option<Seq<char>>,
) -> Seq<(Seq<char>, Seq<char>)>
    decreases targets.len(),
{
    if targets.len() == 0 {
        Seq::empty()
    } else {
        let head = match targets[0] {
            crate::config::InstallTarget::Asset(p) => pairs_for_target(
                p.from@,
                p.to@,
                root_path,
                ms[0],
            ),
            crate::config::InstallTarget::Generated(p) => match root_output {
                Some(ro) => pairs_for_target(p.from@, p.to@, ro, ms[0]),
                None => Seq::empty(),
            },
        };
        head + extra_pairs_spec(targets.drop_first(), ms.drop_first(), root_path, root_output)
    }
}

/// The matched files are consistent with the patterns: every match
/// has at least the base's number of leading tokens, and a pattern
/// without a glob marker names at least one token.
pub open spec fn matches_wf(
    targets: Seq<crate::config::InstallTarget>,
    ms: Seq<Seq<Seq<char>>>,
    root_path: Seq<char>,
    root_output: Option<Seq<char>>,
) -> bool {
    &&& ms.len() == targets.len()
    &&& forall|t: int|
        0 <= t < targets.len() ==> {
            let p = match #[trigger] targets[t] {
                crate::config::InstallTarget::Asset(p) => p,
                crate::config::InstallTarget::Generated(p) => p,
            };
            let root = match targets[t] {
                crate::config::InstallTarget::Asset(_) => root_path,
                crate::config::InstallTarget::Generated(_) => match root_output {
                    Some(ro) => ro,
                    None => root_path,
                },
            };
            &&& base_token_count(root, p.from@) >= 0
            &&& forall|k: int|
                0 <= k < ms[t].len() ==> paths::tokens_of(#[trigger] ms[t][k]).len()
                    >= base_token_count(root, p.from@)
        }
}

fn pairs_one_target(
    p: &crate::config::InstallTargetPaths,
    root: &str,
    ms: &Vec<String>,
    out: &mut Vec<InstallPair>,
)
    requires
        base_token_count(root@, p.from@) >= 0,
        forall|k: int|
            0 <= k < ms@.len() ==> paths::tokens_of(#[trigger] ms.deep_view()[k]).len()
                >= base_token_count(root@, p.from@),
    ensures
        final(out).deep_view() == old(out).deep_view() + pairs_for_target(
            p.from@,
            p.to@,
            root@,
            ms.deep_view(),
        ),
{
    let pattern = paths::join(root, p.from.as_str());
    let parsed = paths::parse_path(pattern.as_str());
    let n0: usize = if has_glob_marker_exec(p.from.as_str()) {
        let n = paths::glob_cut(&parsed.tokens);
        proof {
            assert(parsed.tokens.deep_view().take(n as int).len() == n as int);
        }
        n
    } else {
        proof {
            assert(paths::tokens_of(join_spec(root@, p.from@)).len() >= 1);
        }
        parsed.tokens.len() - 1
    };
    proof {
        assert(n0 == base_token_count(root@, p.from@));
    }
    let ghost target_pairs = pairs_for_target(p.from@, p.to@, root@, ms.deep_view());
    let mut k: usize = 0;
    while k < ms.len()
        invariant
            k <= ms@.len(),
            n0 == base_token_count(root@, p.from@),
            forall|j: int|
                0 <= j < ms@.len() ==> paths::tokens_of(#[trigger] ms.deep_view()[j]).len() >= n0,
            target_pairs == pairs_for_target(p.from@, p.to@, root@, ms.deep_view()),
            out.deep_view() == old(out).deep_view() + target_pairs.take(k as int),
        decreases ms@.len() - k,
    {
        proof {
            assert(ms.deep_view()[k as int] == ms@[k as int].deep_view());
            assert(ms@[k as int].deep_view() =~~= ms@[k as int]@);
        }
        let pm = paths::parse_path(ms[k].as_str());
        let ghost rest = paths::tokens_of(ms@[k as int]@).skip(n0 as int);
        let mut rel = String::new();
        proof {
            assert(paths::join_tokens(rest.take(0)) =~~= Seq::<char>::empty());
        }
        let mut j: usize = n0;
        while j < pm.tokens.len()
            invariant
                k < ms@.len(),
                n0 <= j <= pm.tokens@.len(),
                pm.matches(ms@[k as int]@),
                rest == paths::tokens_of(ms@[k as int]@).skip(n0 as int),
                rel@ == paths::join_tokens(rest.take(j - n0 as int)),
            decreases pm.tokens@.len() - j,
        {
            proof {
                assert(rest.take(j - n0 + 1 as int).drop_last() =~~= rest.take(j - n0 as int));
                assert(rest.take(j - n0 + 1 as int).last() == paths::tokens_of(
                    ms@[k as int]@,
                )[j as int]);
                assert(pm.tokens.deep_view()[j as int] == pm.tokens@[j as int].deep_view());
                assert(pm.tokens@[j as int].deep_view() =~~= pm.tokens@[j as int]@);
            }
            if j > n0 {
                crate::strutil::push_char(&mut rel, '/');
            }
            crate::strutil::push_chars(&mut rel, &pm.tokens[j]);
            proof {
                assert(rel@ =~~= paths::join_tokens(rest.take(j - n0 + 1 as int)));
            }
            j = j + 1;
        }
        proof {
            assert(rest.take(pm.tokens@.len() - n0 as int) =~~= rest);
        }
        let dest = paths::join(p.to.as_str(), rel.as_str());
        let mut from_copy = String::new();
        from_copy.append(ms[k].as_str());
        proof {
            assert(from_copy@ =~= ms@[k as int]@);
        }
        let ghost pre = out.deep_view();
        out.push(InstallPair { from: from_copy, to: dest });
        proof {
            assert(out.deep_view() =~~= pre.push((ms@[k as int]@, pair_dest(p.to@, ms@[k as int]@, n0 as int))));
            assert(target_pairs[k as int] == (ms@[k as int]@, pair_dest(
                p.to@,
                ms@[k as int]@,
                n0 as int,
            )));
            assert(out.deep_view() =~~= old(out).deep_view() + target_pairs.take(k + 1 as int));
        }
        k = k + 1;
    }
    proof {
        assert(target_pairs.take(ms@.len() as int) =~~= target_pairs);
    }
}

/// Compute the install pairs of a target list from the files each
/// pattern matched; the caller performs the matching itself.
pub fn extra_targets(
    targets: &Vec<crate::config::InstallTarget>,
    root_path: &str,
    root_output: Option<&String>,
    ms: &Vec<Vec<String>>,
) -> (r: Vec<InstallPair>)
    requires
        matches_wf(
            targets@,
            ms.deep_view(),
            root_path@,
            match root_output {
                Some(ro) => Some(ro@),
                None => None,
            },
        ),
    ensures
        r.deep_view() == extra_pairs_spec(
            targets@,
            ms.deep_view(),
            root_path@,
            match root_output {
                Some(ro) => Some(ro@),
                None => None,
            },
        ),
{
    let ghost rov: Option<Seq<char>> = match root_output {
        Some(ro) => Some(ro@),
        None => None,
    };
    let mut out: Vec<InstallPair> = Vec::new();
    let mut t: usize = 0;
    proof {
        assert(out.deep_view() =~~= Seq::<(Seq<char>, Seq<char>)>::empty());
        assert(targets@.skip(0) =~~= targets@);
        assert(ms.deep_view().skip(0) =~~= ms.deep_view());
        assert(out.deep_view() + extra_pairs_spec(targets@, ms.deep_view(), root_path@, rov)
            =~~= extra_pairs_spec(targets@, ms.deep_view(), root_path@, rov));
    }
    while t < targets.len()
        invariant
            t <= targets@.len(),
            matches_wf(targets@, ms.deep_view(), root_path@, rov),
            rov == (match root_output {
                Some(ro) => Some(ro@),
                None => None,
            }),
            extra_pairs_spec(targets@, ms.deep_view(), root_path@, rov) == out.deep_view()
                + extra_pairs_spec(
                targets@.skip(t as int),
                ms.deep_view().skip(t as int),
                root_path@,
                rov,
            ),
        decreases targets@.len() - t,
    {
        proof {
            assert(targets@.skip(t as int)[0] == targets@[t as int]);
            assert(targets@.skip(t as int).drop_first() =~~= targets@.skip(t + 1 as int));
            assert(ms.deep_view().skip(t as int)[0] == ms.deep_view()[t as int]);
            assert(ms.deep_view().skip(t as int).drop_first() =~~= ms.deep_view().skip(
                t + 1 as int,
            ));
            assert(ms.deep_view()[t as int] == ms@[t as int].deep_view());
        }
        let ghost pre = out.deep_view();
        match &targets[t] {
            crate::config::InstallTarget::Asset(p) => {
                pairs_one_target(p, root_path, &ms[t], &mut out);
            },
            crate::config::InstallTarget::Generated(p) => {
                match root_output {
                    Some(ro) => {
                        pairs_one_target(p, ro.as_str(), &ms[t], &mut out);
                    },
                    None => {},
                }
            },
        }
        proof {
            assert(extra_pairs_spec(targets@, ms.deep_view(), root_path@, rov) == out.deep_view()
                + extra_pairs_spec(
                targets@.skip(t + 1 as int),
                ms.deep_view().skip(t + 1 as int),
                root_path@,
                rov,
            ));
        }
        t = t + 1;
    }
    proof {
        assert(targets@.skip(targets@.len() as int) =~~= Seq::<crate::config::InstallTarget>::empty());
        assert(extra_pairs_spec(
            Seq::<crate::config::InstallTarget>::empty(),
            ms.deep_view().skip(targets@.len() as int),
            root_path@,
            rov,
        ) =~~= Seq::<(Seq<char>, Seq<char>)>::empty());
        assert(out.deep_view() + Seq::<(Seq<char>, Seq<char>)>::empty() =~~= out.deep_view());
    }
    out
}

impl ExtraTargets {
    /// Fill in the extra header and data files from the configured
    /// targets and the files their patterns matched.
    pub fn setup(
        &mut self,
        capi_config: &CApiConfig,
        root_dir: &str,
        out_dir: Option<&String>,
        include_matches: &Vec<Vec<String>>,
        data_matches: &Vec<Vec<String>>,
    )
        requires
            matches_wf(
                capi_config.install.include_targets@,
                include_matches.deep_view(),
                root_dir@,
                match out_dir {
                    Some(o) => Some(o@),
                    None => None,
                },
            ),
            matches_wf(
                capi_config.install.data_targets@,
                data_matches.deep_view(),
                root_dir@,
                match out_dir {
                    Some(o) => Some(o@),
                    None => None,
                },
            ),
        ensures
            final(self).include_files.deep_view() == extra_pairs_spec(
                capi_config.install.include_targets@,
                include_matches.deep_view(),
                root_dir@,
                match out_dir {
                    Some(o) => Some(o@),
                    None => None,
                },
            ),
            final(self).data_files.deep_view() == extra_pairs_spec(
                capi_config.install.data_targets@,
                data_matches.deep_view(),
                root_dir@,
                match out_dir {
                    Some(o) => Some(o@),
                    None => None,
                },
            ),
    {
        self.include_files = extra_targets(
            &capi_config.install.include_targets,
            root_dir,
            out_dir,
            include_matches,
        );
        self.data_files = extra_targets(
            &capi_config.install.data_targets,
            root_dir,
            out_dir,
            data_matches,
        );
    }
}

/// The view of an optional owned string.
pub open spec fn opt_view(o: Option<String>) -> Option<Seq<char>> {
    match o {
        Some(s) => Some(s@),
        None => None,
    }
}

/// The files a build is expected to produce, resolved for one library
/// on one target.
#[derive(Debug)]
pub struct BuildTargets {
    pub name: String,
    pub include_file: Option<String>,
    pub static_lib: Option<String>,
    pub shared_lib: Option<String>,
    pub impl_lib: Option<String>,
    pub debug_info: Option<String>,
    pub def: Option<String>,
    pub pc: String,
    pub target: Target,
    pub extra: ExtraTargets,
    pub use_meson_naming_convention: bool,
}

/// The reported name of the static library: its on-disk file name,
/// except that the alternate (Meson-style) convention reports
/// `lib<name>.a` on Windows.
pub open spec fn static_output_spec(
    os: Seq<char>,
    static_lib: Option<Seq<char>>,
    name: Seq<char>,
    meson: bool,
) -> Option<Seq<char>> {
    if crate::install::lib_type_of(os) == crate::install::LibType::Windows && static_lib is Some
        && meson {
        Some("lib"@ + name + ".a"@)
    } else {
        match static_lib {
            Some(p) => paths::file_name_opt(p),
            None => None,
        }
    }
}

/// The reported name of the shared library: its on-disk file name,
/// except that the alternate (Meson-style) convention reports
/// `lib<name>.dll`.
pub open spec fn shared_output_spec(
    shared_lib: Option<Seq<char>>,
    name: Seq<char>,
    meson: bool,
) -> Option<Seq<char>> {
    if shared_lib is Some && meson {
        Some("lib"@ + name + ".dll"@)
    } else {
        match shared_lib {
            Some(p) => paths::file_name_opt(p),
            None => None,
        }
    }
}

impl BuildTargets {
    /// Resolve the expected output files of `name` in `targetdir`; a
    /// target outside the naming table is an error, never a guess.
    pub fn new(
        name: &str,
        target: &Target,
        targetdir: &str,
        library_types: LibraryTypes,
        capi_config: &CApiConfig,
        use_meson_naming_convention: bool,
    ) -> (r: Result<BuildTargets, Error>)
        ensures
            r is Ok <==> is_known_target(target.os@, target.env@),
            r matches Err(e) ==> e matches Error::UnsupportedTarget { os, env } && os@ == target.os@
                && env@ == target.env@,
            r matches Ok(bt) ==> {
                let fns = file_names_spec(target.os@, target.env@, name@, targetdir@);
                &&& bt.name@ == name@
                &&& bt.pc@ == join_spec(targetdir@, capi_config.pkg_config.filename@ + ".pc"@)
                &&& opt_view(bt.include_file) == if capi_config.header.enabled
                    && capi_config.header.generation {
                    Some(join_spec(targetdir@, header_file_spec(capi_config.header.name@)))
                } else {
                    None
                }
                &&& opt_view(bt.static_lib) == if library_types.staticlib {
                    Some(fns.static_lib)
                } else {
                    None
                }
                &&& opt_view(bt.shared_lib) == if library_types.cdylib {
                    Some(fns.shared_lib)
                } else {
                    None
                }
                &&& opt_view(bt.impl_lib) == fns.impl_lib
                &&& opt_view(bt.debug_info) == fns.debug_info
                &&& opt_view(bt.def) == fns.def
                &&& bt.target.os@ == target.os@
                &&& bt.target.env@ == target.env@
                &&& bt.target.arch@ == target.arch@
                &&& bt.use_meson_naming_convention == use_meson_naming_convention
                &&& bt.extra.include_files@.len() == 0
                &&& bt.extra.data_files@.len() == 0
            },
    {
        let mut pc_name = String::new();
        pc_name.append(capi_config.pkg_config.filename.as_str());
        pc_name.append(".pc");
        proof {
            assert(pc_name@ =~= capi_config.pkg_config.filename@ + ".pc"@);
        }
        let pc = paths::join(targetdir, pc_name.as_str());
        let include_file: Option<String> = if capi_config.header.enabled
            && capi_config.header.generation {
            let h = header_file_name(capi_config.header.name.as_str());
            Some(paths::join(targetdir, h.as_str()))
        } else {
            None
        };
        let file_names = match FileNames::from_target(target, name, targetdir) {
            Some(f) => f,
            None => {
                return Err(
                    Error::UnsupportedTarget { os: target.os.clone(), env: target.env.clone() },
                );
            },
        };
        let target_copy = Target {
            is_target_overridden: target.is_target_overridden,
            arch: target.arch.clone(),
            os: target.os.clone(),
            env: target.env.clone(),
        };
        let static_lib: Option<String> = if library_types.staticlib {
            Some(file_names.static_lib)
        } else {
            None
        };
        let shared_lib: Option<String> = if library_types.cdylib {
            Some(file_names.shared_lib)
        } else {
            None
        };
        Ok(
            BuildTargets {
                name: String::from_str(name),
                include_file,
                static_lib,
                shared_lib,
                impl_lib: file_names.impl_lib,
                debug_info: file_names.debug_info,
                def: file_names.def,
                pc,
                target: target_copy,
                extra: ExtraTargets { include_files: Vec::new(), data_files: Vec::new() },
                use_meson_naming_convention,
            },
        )
    }

    /// The family of this build's target.
    pub fn lib_type(&self) -> (r: crate::install::LibType)
        requires
            crate::install::is_install_os(self.target.os@),
        ensures
            r == crate::install::lib_type_of(self.target.os@),
    {
        crate::install::LibType::from_build_targets(self)
    }

    /// The installed file name of the static library.
    pub fn static_output_file_name(&self) -> (r: Option<String>)
        requires
            crate::install::is_install_os(self.target.os@),
        ensures
            opt_view(r) == static_output_spec(
                self.target.os@,
                opt_view(self.static_lib),
                self.name@,
                self.use_meson_naming_convention,
            ),
    {
        let windows = match self.lib_type() {
            crate::install::LibType::Windows => true,
            _ => false,
        };
        if windows && self.static_lib.is_some() && self.use_meson_naming_convention {
            let mut s = String::from_str("lib");
            s.append(self.name.as_str());
            s.append(".a");
            proof {
                assert(s@ =~= "lib"@ + self.name@ + ".a"@);
            }
            Some(s)
        } else {
            match &self.static_lib {
                Some(p) => paths::file_name(p.as_str()),
                None => None,
            }
        }
    }

    /// The installed file name of the shared library.
    pub fn shared_output_file_name(&self) -> (r: Option<String>)
        requires
            self.shared_lib matches Some(p) ==> paths::file_name_opt(p@) is Some,
        ensures
            opt_view(r) == shared_output_spec(
                opt_view(self.shared_lib),
                self.name@,
                self.use_meson_naming_convention,
            ),
    {
        if self.shared_lib.is_some() && self.use_meson_naming_convention {
            let mut s = String::from_str("lib");
            s.append(self.name.as_str());
            s.append(".dll");
            proof {
                assert(s@ =~= "lib"@ + self.name@ + ".dll"@);
            }
            Some(s)
        } else {
            match &self.shared_lib {
                Some(p) => paths::file_name(p.as_str()),
                None => None,
            }
        }
    }

    /// Where debugging information is installed: beside the shared
    /// object in the binary directory on Windows, in the library
    /// directory elsewhere.
    pub fn debug_info_file_name(&self, bindir: &str, libdir: &str) -> (r: Option<String>)
        requires
            crate::install::is_install_os(self.target.os@),
        ensures
            opt_view(r) == match opt_view(self.debug_info) {
                Some(p) => match paths::file_name_opt(p) {
                    Some(f) => if crate::install::lib_type_of(self.target.os@)
                        == crate::install::LibType::Windows {
                        Some(join_spec(bindir@, f))
                    } else {
                        Some(join_spec(libdir@, f))
                    },
                    None => None,
                },
                None => None,
            },
    {
        let windows = match self.lib_type() {
            crate::install::LibType::Windows => true,
            _ => false,
        };
        match &self.debug_info {
            Some(p) => match paths::file_name(p.as_str()) {
                Some(f) => {
                    if windows {
                        Some(paths::join(bindir, f.as_str()))
                    } else {
                        Some(paths::join(libdir, f.as_str()))
                    }
                },
                None => None,
            },
            None => None,
        }
    }
}

/// Which library kinds a build produces.
#[derive(Clone, Copy, Debug, PartialEq, Eq, Structural)]
pub struct LibraryTypes {
    pub staticlib: bool,
    pub cdylib: bool,
}

impl LibraryTypes {
    /// The default kinds of a target: always the static library, and
    /// the shared one except on bare-metal targets, where no shared
    /// object can be produced.
    pub fn from_target(target: &Target) -> (r: LibraryTypes)
        ensures
            r.staticlib,
            r.cdylib == (target.os@ != "none"@),
    {
        LibraryTypes { staticlib: true, cdylib: !str_eq(target.os.as_str(), "none") }
    }

    /// The kinds explicitly requested; a shared library stays off on
    /// bare-metal targets whatever was asked for.
    pub fn from_library_types(target: &Target, library_types: &Vec<String>) -> (r: LibraryTypes)
        ensures
            r.staticlib == library_types.deep_view().contains("staticlib"@),
            r.cdylib == (library_types.deep_view().contains("cdylib"@) && target.os@ != "none"@),
    {
        let mut staticlib = false;
        let mut cdylib = false;
        let mut i: usize = 0;
        while i < library_types.len()
            invariant
                i <= library_types.len(),
                staticlib == exists|k: int|
                    0 <= k < i && library_types.deep_view()[k] == "staticlib"@,
                cdylib == exists|k: int| 0 <= k < i && library_types.deep_view()[k] == "cdylib"@,
            decreases library_types.len() - i,
        {
            proof {
                assert(library_types.deep_view()[i as int] == library_types@[i as int].deep_view());
                assert(library_types@[i as int].deep_view() =~= library_types@[i as int]@);
            }
            if str_eq(library_types[i].as_str(), "staticlib") {
                staticlib = true;
            }
            if str_eq(library_types[i].as_str(), "cdylib") {
                cdylib = true;
            }
            i = i + 1;
        }
        proof {
            if staticlib {
                assert(library_types.deep_view().contains("staticlib"@));
            }
            if library_types.deep_view().contains("staticlib"@) {
                let k = choose|k: int|
                    0 <= k < library_types.deep_view().len() && library_types.deep_view()[k]
                        == "staticlib"@;
                assert(0 <= k < library_types@.len());
            }
            if cdylib {
                assert(library_types.deep_view().contains("cdylib"@));
            }
            if library_types.deep_view().contains("cdylib"@) {
                let k = choose|k: int|
                    0 <= k < library_types.deep_view().len() && library_types.deep_view()[k]
                        == "cdylib"@;
                assert(0 <= k < library_types@.len());
            }
        }
        let cdylib_allowed = cdylib && !str_eq(target.os.as_str(), "none");
        LibraryTypes { staticlib, cdylib: cdylib_allowed }
    }

    /// True when only the static library is produced.
    pub fn only_staticlib(self) -> (r: bool)
        ensures
            r == (self.staticlib && !self.cdylib),
    {
        self.staticlib && !self.cdylib
    }

    /// True when only the shared library is produced.
    pub fn only_cdylib(self) -> (r: bool)
        ensures
            r == (self.cdylib && !self.staticlib),
    {
        self.cdylib && !self.staticlib
    }
}

} // verus!
