//! The pkg-config document: construction, flag deduplication against
//! what required packages already supply, and rendering.

use vstd::prelude::*;

use crate::config::CApiConfig;
use crate::install::InstallPaths;
use crate::paths;
use crate::paths::{ancestor_spec, canonicalize_spec, join_spec};
use crate::strutil;
use crate::strutil::{is_prefix_of, join_with, split_trim_commas, str_eq};

verus! {

/// A `-D` preprocessor definition reported by the resolver.
#[derive(Clone, Debug)]
pub struct Define {
    pub key: String,
    pub value: Option<String>,
}

/// What the system package-metadata resolver reports for one required
/// package, held as plain values.
#[derive(Debug)]
pub struct ResolvedLibrary {
    pub include_paths: Vec<String>,
    pub link_files: Vec<String>,
    pub libs: Vec<String>,
    pub link_paths: Vec<String>,
    pub frameworks: Vec<String>,
    pub framework_paths: Vec<String>,
    pub defines: Vec<Define>,
    pub ld_args: Vec<Vec<String>>,
}

/// Each item with a prefix attached.
pub open spec fn prefixed(pre: Seq<char>, items: Seq<Seq<char>>) -> Seq<Seq<char>> {
    items.map_values(|x: Seq<char>| pre + x)
}

/// The flag a definition contributes.
pub open spec fn define_flag(d: Define) -> Seq<char> {
    match d.value {
        Some(v) => "-D"@ + d.key@ + "="@ + v@,
        None => "D"@ + d.key@,
    }
}

/// The linker-directive flag of one `ld_args` group.
pub open spec fn ld_flag(args: Seq<Seq<char>>) -> Seq<char> {
    "-Wl,"@ + join_with(seq![','], args)
}

/// Every flag one resolved package already supplies, in report order.
pub open spec fn lib_known_flags(l: ResolvedLibrary) -> Seq<Seq<char>> {
    prefixed("-I"@, l.include_paths.deep_view()) + l.link_files.deep_view() + prefixed(
        "-l"@,
        l.libs.deep_view(),
    ) + prefixed("-L"@, l.link_paths.deep_view()) + prefixed(
        "-framework "@,
        l.frameworks.deep_view(),
    ) + prefixed("-F"@, l.framework_paths.deep_view()) + l.defines@.map_values(
        |d: Define| define_flag(d),
    )
}

/// The linker-directive flags one resolved package supplies.
pub open spec fn lib_ld_flags(l: ResolvedLibrary) -> Seq<Seq<char>> {
    l.ld_args.deep_view().map_values(|a: Seq<Seq<char>>| ld_flag(a))
}

/// Every flag a list of resolved packages supplies.
pub open spec fn known_flags(ls: Seq<ResolvedLibrary>) -> Seq<Seq<char>>
    decreases ls.len(),
{
    if ls.len() == 0 {
        Seq::empty()
    } else {
        lib_known_flags(ls[0]) + known_flags(ls.drop_first())
    }
}

/// Every linker-directive flag a list of resolved packages supplies.
pub open spec fn known_ld_flags(ls: Seq<ResolvedLibrary>) -> Seq<Seq<char>>
    decreases ls.len(),
{
    if ls.len() == 0 {
        Seq::empty()
    } else {
        lib_ld_flags(ls[0]) + known_ld_flags(ls.drop_first())
    }
}

fn push_prefixed(out: &mut Vec<String>, prefix: &str, items: &Vec<String>)
    ensures
        final(out).deep_view() == old(out).deep_view() + prefixed(prefix@, items.deep_view()),
{
    let mut i: usize = 0;
    proof {
        assert(out.deep_view() + prefixed(prefix@, items.deep_view()).take(0) =~~= out.deep_view());
    }
    while i < items.len()
        invariant
            i <= items@.len(),
            out.deep_view() == old(out).deep_view() + prefixed(
                prefix@,
                items.deep_view(),
            ).take(i as int),
        decreases items@.len() - i,
    {
        proof {
            assert(items.deep_view()[i as int] == items@[i as int].deep_view());
            assert(items@[i as int].deep_view() =~= items@[i as int]@);
        }
        let mut s = String::new();
        s.append(prefix);
        s.append(items[i].as_str());
        proof {
            assert(s@ =~= prefix@ + items.deep_view()[i as int]);
        }
        let ghost pre = out.deep_view();
        out.push(s);
        proof {
            assert(out.deep_view() =~~= pre.push(prefixed(prefix@, items.deep_view())[i as int]));
            assert(out.deep_view() =~~= old(out).deep_view() + prefixed(
                prefix@,
                items.deep_view(),
            ).take(i + 1 as int));
        }
        i = i + 1;
    }
    proof {
        assert(prefixed(prefix@, items.deep_view()).take(items@.len() as int) =~~= prefixed(
            prefix@,
            items.deep_view(),
        ));
    }
}

fn push_plain(out: &mut Vec<String>, items: &Vec<String>)
    ensures
        final(out).deep_view() == old(out).deep_view() + items.deep_view(),
{
    let mut i: usize = 0;
    proof {
        assert(out.deep_view() + items.deep_view().take(0) =~~= out.deep_view());
    }
    while i < items.len()
        invariant
            i <= items@.len(),
            out.deep_view() == old(out).deep_view() + items.deep_view().take(i as int),
        decreases items@.len() - i,
    {
        proof {
            assert(items.deep_view()[i as int] == items@[i as int].deep_view());
        }
        let ghost pre = out.deep_view();
        out.push(items[i].clone());
        proof {
            assert(out.deep_view() =~~= pre.push(items.deep_view()[i as int]));
            assert(out.deep_view() =~~= old(out).deep_view() + items.deep_view().take(
                i + 1 as int,
            ));
        }
        i = i + 1;
    }
    proof {
        assert(items.deep_view().take(items@.len() as int) =~~= items.deep_view());
    }
}

fn push_defines(out: &mut Vec<String>, defs: &Vec<Define>)
    ensures
        final(out).deep_view() == old(out).deep_view() + defs@.map_values(
            |d: Define| define_flag(d),
        ),
{
    let ghost mapped = defs@.map_values(|d: Define| define_flag(d));
    let mut i: usize = 0;
    proof {
        assert(out.deep_view() + mapped.take(0) =~~= out.deep_view());
    }
    while i < defs.len()
        invariant
            i <= defs@.len(),
            mapped == defs@.map_values(|d: Define| define_flag(d)),
            out.deep_view() == old(out).deep_view() + mapped.take(i as int),
        decreases defs@.len() - i,
    {
        let mut s = String::new();
        match &defs[i].value {
            Some(v) => {
                s.append("-D");
                s.append(defs[i].key.as_str());
                s.append("=");
                s.append(v.as_str());
                proof {
                    assert(s@ =~= define_flag(defs@[i as int]));
                }
            },
            None => {
                s.append("D");
                s.append(defs[i].key.as_str());
                proof {
                    assert(s@ =~= define_flag(defs@[i as int]));
                }
            },
        }
        let ghost pre = out.deep_view();
        out.push(s);
        proof {
            assert(out.deep_view() =~~= pre.push(mapped[i as int]));
            assert(out.deep_view() =~~= old(out).deep_view() + mapped.take(i + 1 as int));
        }
        i = i + 1;
    }
    proof {
        assert(mapped.take(defs@.len() as int) =~~= mapped);
    }
}

fn push_ld(out: &mut Vec<String>, ld: &Vec<Vec<String>>)
    ensures
        final(out).deep_view() == old(out).deep_view() + ld.deep_view().map_values(
            |a: Seq<Seq<char>>| ld_flag(a),
        ),
{
    let ghost mapped = ld.deep_view().map_values(|a: Seq<Seq<char>>| ld_flag(a));
    let mut i: usize = 0;
    proof {
        assert(out.deep_view() + mapped.take(0) =~~= out.deep_view());
    }
    while i < ld.len()
        invariant
            i <= ld@.len(),
            mapped == ld.deep_view().map_values(|a: Seq<Seq<char>>| ld_flag(a)),
            out.deep_view() == old(out).deep_view() + mapped.take(i as int),
        decreases ld@.len() - i,
    {
        proof {
            assert(ld.deep_view()[i as int] == ld@[i as int].deep_view());
        }
        let mut s = String::new();
        s.append("-Wl,");
        strutil::push_join_with(&mut s, &ld[i], ",");
        proof {
            assert(","@ =~= seq![',']) by {
                reveal_strlit(",");
            }
            assert(s@ =~= ld_flag(ld.deep_view()[i as int]));
        }
        let ghost pre = out.deep_view();
        out.push(s);
        proof {
            assert(out.deep_view() =~~= pre.push(mapped[i as int]));
            assert(out.deep_view() =~~= old(out).deep_view() + mapped.take(i + 1 as int));
        }
        i = i + 1;
    }
    proof {
        assert(mapped.take(ld@.len() as int) =~~= mapped);
    }
}

/// Collect the flags and the linker directives a list of resolved
/// packages already supplies.
pub fn get_libs_cflags(arg: &Vec<ResolvedLibrary>) -> (r: (Vec<String>, Vec<String>))
    ensures
        r.0.deep_view() == known_flags(arg@),
        r.1.deep_view() == known_ld_flags(arg@),
{
    let mut libs: Vec<String> = Vec::new();
    let mut cflags: Vec<String> = Vec::new();
    let mut i: usize = 0;
    proof {
        assert(arg@.skip(0) =~= arg@);
        assert(libs.deep_view() + known_flags(arg@) =~~= known_flags(arg@));
        assert(cflags.deep_view() + known_ld_flags(arg@) =~~= known_ld_flags(arg@));
    }
    while i < arg.len()
        invariant
            i <= arg@.len(),
            known_flags(arg@) == libs.deep_view() + known_flags(arg@.skip(i as int)),
            known_ld_flags(arg@) == cflags.deep_view() + known_ld_flags(arg@.skip(i as int)),
        decreases arg@.len() - i,
    {
        proof {
            assert(arg@.skip(i as int)[0] == arg@[i as int]);
            assert(arg@.skip(i as int).drop_first() =~= arg@.skip(i + 1 as int));
        }
        let lib = &arg[i];
        let ghost pre = libs.deep_view();
        push_prefixed(&mut libs, "-I", &lib.include_paths);
        push_plain(&mut libs, &lib.link_files);
        push_prefixed(&mut libs, "-l", &lib.libs);
        push_prefixed(&mut libs, "-L", &lib.link_paths);
        push_prefixed(&mut libs, "-framework ", &lib.frameworks);
        push_prefixed(&mut libs, "-F", &lib.framework_paths);
        push_defines(&mut libs, &lib.defines);
        proof {
            assert(libs.deep_view() =~~= pre + lib_known_flags(arg@[i as int]));
        }
        let ghost prec = cflags.deep_view();
        push_ld(&mut cflags, &lib.ld_args);
        proof {
            assert(cflags.deep_view() =~~= prec + lib_ld_flags(arg@[i as int]));
        }
        i = i + 1;
    }
    proof {
        assert(arg@.skip(arg@.len() as int) =~= Seq::<ResolvedLibrary>::empty());
        assert(libs.deep_view() + Seq::<Seq<char>>::empty() =~~= libs.deep_view());
        assert(cflags.deep_view() + Seq::<Seq<char>>::empty() =~~= cflags.deep_view());
    }
    (libs, cflags)
}

/// A flag survives deduplication when the required packages do not
/// already supply it, or when it is a linker directive, which must be
/// repeated at every use.
pub open spec fn kept(f: Seq<char>, known: Seq<Seq<char>>) -> bool {
    !known.contains(f) || is_prefix_of("-Wl,"@, f) || is_prefix_of("/LINK"@, f)
}

/// The flags that survive deduplication, in order.
pub open spec fn dedup_spec(known: Seq<Seq<char>>, flags: Seq<Seq<char>>) -> Seq<Seq<char>>
    decreases flags.len(),
{
    if flags.len() == 0 {
        Seq::empty()
    } else {
        (if kept(flags[0], known) {
            seq![flags[0]]
        } else {
            Seq::empty()
        }) + dedup_spec(known, flags.drop_first())
    }
}

fn contains_str(v: &Vec<String>, f: &str) -> (r: bool)
    ensures
        r == v.deep_view().contains(f@),
{
    let mut i: usize = 0;
    while i < v.len()
        invariant
            i <= v@.len(),
            forall|j: int| 0 <= j < i ==> v.deep_view()[j] != f@,
        decreases v@.len() - i,
    {
        proof {
            assert(v.deep_view()[i as int] == v@[i as int].deep_view());
        }
        if str_eq(v[i].as_str(), f) {
            proof {
                assert(v.deep_view().contains(f@));
            }
            return true;
        }
        i = i + 1;
    }
    proof {
        if v.deep_view().contains(f@) {
            let j = choose|j: int| 0 <= j < v.deep_view().len() && v.deep_view()[j] == f@;
            assert(false);
        }
    }
    false
}

/// Filter `flags` against the already-supplied `known_flags` and join
/// the survivors with single spaces.
pub fn dedup_flags(known_flags: &Vec<String>, flags: &Vec<String>) -> (r: String)
    ensures
        r@ == join_with(seq![' '], dedup_spec(known_flags.deep_view(), flags.deep_view())),
{
    let ghost knownv = known_flags.deep_view();
    let mut survivors: Vec<String> = Vec::new();
    let mut i: usize = 0;
    proof {
        assert(flags.deep_view().skip(0) =~~= flags.deep_view());
        assert(survivors.deep_view() + dedup_spec(knownv, flags.deep_view()) =~~= dedup_spec(
            knownv,
            flags.deep_view(),
        ));
    }
    while i < flags.len()
        invariant
            i <= flags@.len(),
            knownv == known_flags.deep_view(),
            dedup_spec(knownv, flags.deep_view()) == survivors.deep_view() + dedup_spec(
                knownv,
                flags.deep_view().skip(i as int),
            ),
        decreases flags@.len() - i,
    {
        proof {
            assert(flags.deep_view().skip(i as int)[0] == flags.deep_view()[i as int]);
            assert(flags.deep_view().skip(i as int).drop_first() =~~= flags.deep_view().skip(
                i + 1 as int,
            ));
            assert(flags.deep_view()[i as int] == flags@[i as int].deep_view());
            assert(flags@[i as int].deep_view() =~= flags@[i as int]@);
        }
        let f = &flags[i];
        let keep = !contains_str(known_flags, f.as_str()) || strutil::str_starts_with(
            f.as_str(),
            "-Wl,",
        ) || strutil::str_starts_with(f.as_str(), "/LINK");
        if keep {
            let ghost pre = survivors.deep_view();
            survivors.push(f.clone());
            proof {
                assert(survivors.deep_view() =~~= pre + seq![flags.deep_view()[i as int]]);
            }
        } else {
            proof {
                assert(survivors.deep_view() + Seq::<Seq<char>>::empty() =~~= survivors
                    .deep_view());
            }
        }
        i = i + 1;
    }
    proof {
        assert(flags.deep_view().skip(flags@.len() as int) =~~= Seq::<Seq<char>>::empty());
        assert(survivors.deep_view() + Seq::<Seq<char>>::empty() =~~= survivors.deep_view());
    }
    let mut out = String::new();
    strutil::push_join_with(&mut out, &survivors, " ");
    proof {
        assert(" "@ =~= seq![' ']) by {
            reveal_strlit(" ");
        }
        assert(out@ =~= join_with(seq![' '], dedup_spec(knownv, flags.deep_view())));
    }
    out
}

/// A flag that a required package already supplies is dropped from
/// the locally assembled list, while linker directives (the `-Wl,`
/// and `/LINK` forms) always survive, because linkers need every
/// occurrence of them.
pub proof fn lemma_dedup_drops_known(known: Seq<Seq<char>>, flags: Seq<Seq<char>>, f: Seq<char>)
    ensures
        known.contains(f) && !is_prefix_of("-Wl,"@, f) && !is_prefix_of("/LINK"@, f)
            ==> !dedup_spec(known, flags).contains(f),
        flags.contains(f) && is_prefix_of("-Wl,"@, f) ==> dedup_spec(known, flags).contains(f),
    decreases flags.len(),
{
    if flags.len() == 0 {
        assert(!dedup_spec(known, flags).contains(f));
        assert(!flags.contains(f));
    } else {
        lemma_dedup_drops_known(known, flags.drop_first(), f);
        let head: Seq<Seq<char>> = if kept(flags[0], known) {
            seq![flags[0]]
        } else {
            Seq::empty()
        };
        let rest = dedup_spec(known, flags.drop_first());
        assert(dedup_spec(known, flags) == head + rest);
        if known.contains(f) && !is_prefix_of("-Wl,"@, f) && !is_prefix_of("/LINK"@, f) {
            assert(!kept(f, known));
            assert forall|i: int| 0 <= i < dedup_spec(known, flags).len() implies dedup_spec(
                known,
                flags,
            )[i] != f by {
                if i < head.len() {
                    assert(dedup_spec(known, flags)[i] == flags[0]);
                    assert(kept(flags[0], known));
                } else {
                    assert(dedup_spec(known, flags)[i] == rest[i - head.len()]);
                    if rest[i - head.len()] == f {
                        assert(rest.contains(f));
                    }
                }
            }
            if dedup_spec(known, flags).contains(f) {
                let i = choose|i: int|
                    0 <= i < dedup_spec(known, flags).len() && dedup_spec(known, flags)[i] == f;
                assert(false);
            }
        }
        if flags.contains(f) && is_prefix_of("-Wl,"@, f) {
            assert(kept(f, known));
            let i = choose|i: int| 0 <= i < flags.len() && flags[i] == f;
            if i == 0 {
                assert(head == seq![f]);
                assert(dedup_spec(known, flags)[0] == f);
                assert(dedup_spec(known, flags).contains(f));
            } else {
                assert(flags.drop_first()[i - 1] == f);
                assert(flags.drop_first().contains(f));
                let k = choose|k: int| 0 <= k < rest.len() && rest[k] == f;
                assert(dedup_spec(known, flags)[head.len() + k] == f);
                assert(dedup_spec(known, flags).contains(f));
            }
        }
    }
}

/// A line break.
pub open spec fn nl() -> Seq<char> {
    seq!['\n']
}

/// Line breaks inside a description replaced by spaces, so the
/// rendered field stays on one line.
pub open spec fn replace_nl(s: Seq<char>) -> Seq<char> {
    s.map_values(
        |c: char|
            if c == '\n' {
                ' '
            } else {
                c
            },
    )
}

fn replace_nl_exec(s: &str) -> (r: String)
    ensures
        r@ == replace_nl(s@),
{
    let v = strutil::chars_vec(s);
    let mut out = String::new();
    let mut i: usize = 0;
    proof {
        assert(out@ =~= replace_nl(s@).take(0));
    }
    while i < v.len()
        invariant
            i <= v@.len(),
            v@ == s@,
            out@ == replace_nl(s@).take(i as int),
        decreases v@.len() - i,
    {
        let c = if v[i] == '\n' {
            ' '
        } else {
            v[i]
        };
        strutil::push_char(&mut out, c);
        proof {
            assert(out@ =~= replace_nl(s@).take(i + 1 as int));
        }
        i = i + 1;
    }
    proof {
        assert(replace_nl(s@).take(s@.len() as int) =~= replace_nl(s@));
    }
    out
}

/// The pkg-config document under construction.
///
/// The flags that required packages already supply are kept as plain
/// flag lists, flattened from what the resolver reported.
#[derive(Debug)]
pub struct PkgConfig {
    pub prefix: String,
    pub exec_prefix: String,
    pub includedir: String,
    pub libdir: String,
    pub name: String,
    pub description: String,
    pub version: String,
    pub requires: Vec<String>,
    pub requires_private: Vec<String>,
    pub libs: Vec<String>,
    pub libs_private: Vec<String>,
    pub cflags: Vec<String>,
    pub dedup_libs: Vec<String>,
    pub dedup_cflags: Vec<String>,
    pub dedup_libs_private: Vec<String>,
}

/// The library search directory written into `Libs`: the symbolic
/// `${libdir}`, extended by the configured install subdirectory.
pub open spec fn libdir_join(c: CApiConfig) -> Seq<char> {
    match c.library.install_subdir {
        Some(s) => join_spec("${libdir}"@, s@),
        None => "${libdir}"@,
    }
}

/// The `Cflags` entry: an include flag for the (possibly nested)
/// header directory, with the configured number of trailing
/// components stripped; empty when no header is shipped.
pub open spec fn cflag_spec(c: CApiConfig) -> Seq<char> {
    if c.header.enabled {
        "-I"@ + canonicalize_spec(
            ancestor_spec(
                join_spec("${includedir}"@, c.header.subdirectory@),
                c.pkg_config.strip_include_path_components as int,
            ),
        )
    } else {
        ""@
    }
}

/// The directory fields of two documents agree.
pub open spec fn same_dirs(a: PkgConfig, b: PkgConfig) -> bool {
    &&& a.prefix@ == b.prefix@
    &&& a.exec_prefix@ == b.exec_prefix@
    &&& a.includedir@ == b.includedir@
    &&& a.libdir@ == b.libdir@
}

/// The name, description and version fields of two documents agree.
pub open spec fn same_meta(a: PkgConfig, b: PkgConfig) -> bool {
    &&& a.name@ == b.name@
    &&& a.description@ == b.description@
    &&& a.version@ == b.version@
}

/// The requirement lists and the already-supplied flags of two
/// documents agree.
pub open spec fn same_reqs(a: PkgConfig, b: PkgConfig) -> bool {
    &&& a.requires.deep_view() == b.requires.deep_view()
    &&& a.requires_private.deep_view() == b.requires_private.deep_view()
    &&& a.dedup_libs.deep_view() == b.dedup_libs.deep_view()
    &&& a.dedup_cflags.deep_view() == b.dedup_cflags.deep_view()
    &&& a.dedup_libs_private.deep_view() == b.dedup_libs_private.deep_view()
}

/// The flag lists of two documents agree.
pub open spec fn same_flags(a: PkgConfig, b: PkgConfig) -> bool {
    &&& a.libs.deep_view() == b.libs.deep_view()
    &&& a.libs_private.deep_view() == b.libs_private.deep_view()
    &&& a.cflags.deep_view() == b.cflags.deep_view()
}

/// The rendered document: the canonicalized directory variables, the
/// metadata, the deduplicated flag lines, and the requirement lines,
/// each present only when it has content.
pub open spec fn render_spec(pc: PkgConfig) -> Seq<char> {
    "prefix="@ + canonicalize_spec(pc.prefix@) + nl() + "exec_prefix="@ + canonicalize_spec(
        pc.exec_prefix@,
    ) + nl() + "libdir="@ + canonicalize_spec(pc.libdir@) + nl() + "includedir="@
        + canonicalize_spec(pc.includedir@) + nl() + nl() + "Name: "@ + pc.name@ + nl()
        + "Description: "@ + replace_nl(pc.description@) + nl() + "Version: "@ + pc.version@ + nl()
        + "Libs: "@ + join_with(
        seq![' '],
        dedup_spec(pc.dedup_libs.deep_view(), pc.libs.deep_view()),
    ) + nl() + "Cflags: "@ + join_with(
        seq![' '],
        dedup_spec(pc.dedup_cflags.deep_view(), pc.cflags.deep_view()),
    ) + nl() + (if pc.libs_private@.len() > 0 {
        "Libs.private: "@ + join_with(
            seq![' '],
            dedup_spec(
                pc.dedup_libs_private.deep_view() + pc.libs.deep_view(),
                pc.libs_private.deep_view(),
            ),
        ) + nl()
    } else {
        Seq::empty()
    }) + (if pc.requires@.len() > 0 {
        "Requires: "@ + join_with(seq![',', ' '], pc.requires.deep_view()) + nl()
    } else {
        Seq::empty()
    }) + (if pc.requires_private@.len() > 0 {
        "Requires.private: "@ + join_with(seq![',', ' '], pc.requires_private.deep_view()) + nl()
    } else {
        Seq::empty()
    })
}

impl PkgConfig {
    /// Build a document from the configuration, with the standard
    /// symbolic directory defaults; the two lists are what the
    /// resolver reported for the `Requires` and `Requires.private`
    /// entries.
    pub fn new(
        _name: &str,
        capi_config: &CApiConfig,
        requires_libs: &Vec<ResolvedLibrary>,
        requires_private_libs: &Vec<ResolvedLibrary>,
    ) -> (r: PkgConfig)
        ensures
            r.name@ == capi_config.pkg_config.name@,
            r.description@ == capi_config.pkg_config.description@,
            r.version@ == capi_config.pkg_config.version@,
            r.prefix@ == "/usr/local"@,
            r.exec_prefix@ == "${prefix}"@,
            r.includedir@ == "${prefix}/include"@,
            r.libdir@ == "${exec_prefix}/lib"@,
            r.requires.deep_view() == match capi_config.pkg_config.requires {
                Some(s) => split_trim_commas(s@),
                None => Seq::<Seq<char>>::empty(),
            },
            r.requires_private.deep_view() == match capi_config.pkg_config.requires_private {
                Some(s) => split_trim_commas(s@),
                None => Seq::<Seq<char>>::empty(),
            },
            r.libs.deep_view() == seq![
                "-L"@ + canonicalize_spec(libdir_join(*capi_config)),
                "-l"@ + capi_config.library.name@,
            ],
            r.libs_private@.len() == 0,
            r.cflags.deep_view() == seq![cflag_spec(*capi_config)],
            r.dedup_libs.deep_view() == known_flags(requires_libs@),
            r.dedup_cflags.deep_view() == known_ld_flags(requires_libs@),
            r.dedup_libs_private.deep_view() == known_flags(requires_private_libs@),
    {
        let requires_list: Vec<String> = match &capi_config.pkg_config.requires {
            Some(reqs) => strutil::split_and_trim_commas(reqs.as_str()),
            None => Vec::new(),
        };
        let requires_private_list: Vec<String> = match &capi_config.pkg_config.requires_private {
            Some(reqs) => strutil::split_and_trim_commas(reqs.as_str()),
            None => Vec::new(),
        };
        proof {
            if requires_list@.len() == 0 {
                assert(requires_list.deep_view() =~~= Seq::<Seq<char>>::empty());
            }
            if requires_private_list@.len() == 0 {
                assert(requires_private_list.deep_view() =~~= Seq::<Seq<char>>::empty());
            }
        }
        let (dedup_libs, dedup_cflags) = get_libs_cflags(requires_libs);
        let (dedup_libs_private, _private_cflags) = get_libs_cflags(requires_private_libs);

        let libdir_path = match &capi_config.library.install_subdir {
            Some(subdir) => paths::join("${libdir}", subdir.as_str()),
            None => String::from_str("${libdir}"),
        };
        let mut search = String::from_str("-L");
        let canon_libdir = paths::canonicalize(libdir_path.as_str());
        search.append(canon_libdir.as_str());
        let mut link = String::from_str("-l");
        link.append(capi_config.library.name.as_str());
        let mut libs: Vec<String> = Vec::new();
        libs.push(search);
        libs.push(link);
        proof {
            assert(libs.deep_view() =~~= seq![
                "-L"@ + canonicalize_spec(libdir_join(*capi_config)),
                "-l"@ + capi_config.library.name@,
            ]);
        }

        let cflag: String = if capi_config.header.enabled {
            let joined = paths::join("${includedir}", capi_config.header.subdirectory.as_str());
            let anc = paths::ancestor(
                joined.as_str(),
                capi_config.pkg_config.strip_include_path_components,
            );
            let mut s = String::from_str("-I");
            let canon = paths::canonicalize(anc.as_str());
            s.append(canon.as_str());
            proof {
                assert(s@ =~= cflag_spec(*capi_config));
            }
            s
        } else {
            String::from_str("")
        };
        let mut cflags: Vec<String> = Vec::new();
        cflags.push(cflag);
        proof {
            assert(cflags.deep_view() =~~= seq![cflag_spec(*capi_config)]);
        }

        PkgConfig {
            name: capi_config.pkg_config.name.clone(),
            description: capi_config.pkg_config.description.clone(),
            version: capi_config.pkg_config.version.clone(),
            prefix: String::from_str("/usr/local"),
            exec_prefix: String::from_str("${prefix}"),
            includedir: String::from_str("${prefix}/include"),
            libdir: String::from_str("${exec_prefix}/lib"),
            libs,
            libs_private: Vec::new(),
            requires: requires_list,
            requires_private: requires_private_list,
            cflags,
            dedup_libs,
            dedup_cflags,
            dedup_libs_private,
        }
    }

    /// Replace the description.
    pub fn set_description(&mut self, descr: &str)
        ensures
            final(self).description@ == descr@,
            final(self).name@ == old(self).name@,
            final(self).version@ == old(self).version@,
            same_dirs(*final(self), *old(self)),
            same_reqs(*final(self), *old(self)),
            same_flags(*final(self), *old(self)),
    {
        let mut s = String::new();
        s.append(descr);
        proof {
            assert(s@ =~= descr@);
        }
        self.description = s;
    }

    /// Replace the `Libs` list with a single entry.
    pub fn set_libs(&mut self, lib: &str)
        ensures
            final(self).libs.deep_view() == seq![lib@],
            final(self).libs_private.deep_view() == old(self).libs_private.deep_view(),
            final(self).cflags.deep_view() == old(self).cflags.deep_view(),
            same_dirs(*final(self), *old(self)),
            same_meta(*final(self), *old(self)),
            same_reqs(*final(self), *old(self)),
    {
        let mut s = String::new();
        s.append(lib);
        proof {
            assert(s@ =~= lib@);
        }
        let mut libs: Vec<String> = Vec::new();
        libs.push(s);
        proof {
            assert(libs.deep_view() =~~= seq![lib@]);
        }
        self.libs = libs;
    }

    /// Add one entry to the `Libs` list.
    pub fn add_lib(&mut self, lib: &str)
        ensures
            final(self).libs.deep_view() == old(self).libs.deep_view().push(lib@),
            final(self).libs_private.deep_view() == old(self).libs_private.deep_view(),
            final(self).cflags.deep_view() == old(self).cflags.deep_view(),
            same_dirs(*final(self), *old(self)),
            same_meta(*final(self), *old(self)),
            same_reqs(*final(self), *old(self)),
    {
        let mut s = String::new();
        s.append(lib);
        proof {
            assert(s@ =~= lib@);
        }
        let ghost pre = self.libs.deep_view();
        self.libs.push(s);
        proof {
            assert(self.libs.deep_view() =~~= pre.push(lib@));
        }
    }

    /// Replace the `Libs.private` list with a single entry.
    pub fn set_libs_private(&mut self, lib: &str)
        ensures
            final(self).libs_private.deep_view() == seq![lib@],
            final(self).libs.deep_view() == old(self).libs.deep_view(),
            final(self).cflags.deep_view() == old(self).cflags.deep_view(),
            same_dirs(*final(self), *old(self)),
            same_meta(*final(self), *old(self)),
            same_reqs(*final(self), *old(self)),
    {
        let mut s = String::new();
        s.append(lib);
        proof {
            assert(s@ =~= lib@);
        }
        let mut libs: Vec<String> = Vec::new();
        libs.push(s);
        proof {
            assert(libs.deep_view() =~~= seq![lib@]);
        }
        self.libs_private = libs;
    }

    /// Add one entry to the `Libs.private` list.
    pub fn add_lib_private(&mut self, lib: &str)
        ensures
            final(self).libs_private.deep_view() == old(self).libs_private.deep_view().push(lib@),
            final(self).libs.deep_view() == old(self).libs.deep_view(),
            final(self).cflags.deep_view() == old(self).cflags.deep_view(),
            same_dirs(*final(self), *old(self)),
            same_meta(*final(self), *old(self)),
            same_reqs(*final(self), *old(self)),
    {
        let mut s = String::new();
        s.append(lib);
        proof {
            assert(s@ =~= lib@);
        }
        let ghost pre = self.libs_private.deep_view();
        self.libs_private.push(s);
        proof {
            assert(self.libs_private.deep_view() =~~= pre.push(lib@));
        }
    }

    /// Replace the `Cflags` list with a single entry.
    pub fn set_cflags(&mut self, flag: &str)
        ensures
            final(self).cflags.deep_view() == seq![flag@],
            final(self).libs.deep_view() == old(self).libs.deep_view(),
            final(self).libs_private.deep_view() == old(self).libs_private.deep_view(),
            same_dirs(*final(self), *old(self)),
            same_meta(*final(self), *old(self)),
            same_reqs(*final(self), *old(self)),
    {
        let mut s = String::new();
        s.append(flag);
        proof {
            assert(s@ =~= flag@);
        }
        let mut flags: Vec<String> = Vec::new();
        flags.push(s);
        proof {
            assert(flags.deep_view() =~~= seq![flag@]);
        }
        self.cflags = flags;
    }

    /// Add one entry to the `Cflags` list.
    pub fn add_cflag(&mut self, flag: &str)
        ensures
            final(self).cflags.deep_view() == old(self).cflags.deep_view().push(flag@),
            final(self).libs.deep_view() == old(self).libs.deep_view(),
            final(self).libs_private.deep_view() == old(self).libs_private.deep_view(),
            same_dirs(*final(self), *old(self)),
            same_meta(*final(self), *old(self)),
            same_reqs(*final(self), *old(self)),
    {
        let mut s = String::new();
        s.append(flag);
        proof {
            assert(s@ =~= flag@);
        }
        let ghost pre = self.cflags.deep_view();
        self.cflags.push(s);
        proof {
            assert(self.cflags.deep_view() =~~= pre.push(flag@));
        }
    }

    /// The document for use before installation: rooted at the build
    /// output directory, with the library search path pointing at the
    /// prefix itself.
    pub fn uninstalled(&self, output: &str) -> (r: PkgConfig)
        requires
            self.libs@.len() > 0,
        ensures
            r.prefix@ == output@,
            r.includedir@ == "${prefix}/include"@,
            r.libdir@ == "${prefix}"@,
            r.exec_prefix@ == self.exec_prefix@,
            same_meta(r, *self),
            same_reqs(r, *self),
            r.libs.deep_view() == self.libs.deep_view().update(0, "-L${prefix}"@),
            r.libs_private.deep_view() == self.libs_private.deep_view(),
            r.cflags.deep_view() == self.cflags.deep_view(),
    {
        let mut prefix = String::new();
        prefix.append(output);
        proof {
            assert(prefix@ =~= output@);
        }
        let mut libs = strutil::clone_strings(&self.libs);
        let ghost pre = libs.deep_view();
        proof {
            assert(libs.deep_view().len() == libs@.len());
            assert(self.libs.deep_view().len() == self.libs@.len());
        }
        libs[0] = String::from_str("-L${prefix}");
        proof {
            assert(libs.deep_view() =~~= pre.update(0, "-L${prefix}"@));
        }
        PkgConfig {
            prefix,
            exec_prefix: self.exec_prefix.clone(),
            includedir: String::from_str("${prefix}/include"),
            libdir: String::from_str("${prefix}"),
            name: self.name.clone(),
            description: self.description.clone(),
            version: self.version.clone(),
            requires: strutil::clone_strings(&self.requires),
            requires_private: strutil::clone_strings(&self.requires_private),
            libs,
            libs_private: strutil::clone_strings(&self.libs_private),
            cflags: strutil::clone_strings(&self.cflags),
            dedup_libs: strutil::clone_strings(&self.dedup_libs),
            dedup_cflags: strutil::clone_strings(&self.dedup_cflags),
            dedup_libs_private: strutil::clone_strings(&self.dedup_libs_private),
        }
    }

    /// Build the document for a concrete installation layout: the
    /// prefix comes from the layout, and directories given on the
    /// command line are re-expressed under `${prefix}` when they lie
    /// below it.
    pub fn from_workspace(
        name: &str,
        install_paths: &InstallPaths,
        has_includedir_arg: bool,
        has_libdir_arg: bool,
        capi_config: &CApiConfig,
        requires_libs: &Vec<ResolvedLibrary>,
        requires_private_libs: &Vec<ResolvedLibrary>,
    ) -> (r: PkgConfig)
        ensures
            r.prefix@ == install_paths.prefix@,
            r.includedir@ == if has_includedir_arg {
                if paths::is_model_prefix(install_paths.prefix@, install_paths.includedir@) {
                    join_spec(
                        "${prefix}"@,
                        paths::join_tokens(
                            paths::tokens_of(install_paths.includedir@).skip(
                                paths::tokens_of(install_paths.prefix@).len() as int,
                            ),
                        ),
                    )
                } else {
                    install_paths.includedir@
                }
            } else {
                "${prefix}/include"@
            },
            r.libdir@ == if has_libdir_arg {
                if paths::is_model_prefix(install_paths.prefix@, install_paths.libdir@) {
                    join_spec(
                        "${prefix}"@,
                        paths::join_tokens(
                            paths::tokens_of(install_paths.libdir@).skip(
                                paths::tokens_of(install_paths.prefix@).len() as int,
                            ),
                        ),
                    )
                } else {
                    install_paths.libdir@
                }
            } else {
                "${exec_prefix}/lib"@
            },
            r.exec_prefix@ == "${prefix}"@,
            r.name@ == capi_config.pkg_config.name@,
            r.description@ == capi_config.pkg_config.description@,
            r.version@ == capi_config.pkg_config.version@,
            r.requires.deep_view() == match capi_config.pkg_config.requires {
                Some(s) => split_trim_commas(s@),
                None => Seq::<Seq<char>>::empty(),
            },
            r.requires_private.deep_view() == match capi_config.pkg_config.requires_private {
                Some(s) => split_trim_commas(s@),
                None => Seq::<Seq<char>>::empty(),
            },
            r.libs.deep_view() == seq![
                "-L"@ + canonicalize_spec(libdir_join(*capi_config)),
                "-l"@ + capi_config.library.name@,
            ],
            r.libs_private@.len() == 0,
            r.cflags.deep_view() == seq![cflag_spec(*capi_config)],
            r.dedup_libs.deep_view() == known_flags(requires_libs@),
            r.dedup_cflags.deep_view() == known_ld_flags(requires_libs@),
            r.dedup_libs_private.deep_view() == known_flags(requires_private_libs@),
    {
        let mut pc = PkgConfig::new(name, capi_config, requires_libs, requires_private_libs);
        pc.prefix = install_paths.prefix.clone();
        if has_includedir_arg {
            match paths::rel_to_base(install_paths.includedir.as_str(), pc.prefix.as_str()) {
                Some(suffix) => {
                    pc.includedir = paths::join("${prefix}", suffix.as_str());
                },
                None => {
                    pc.includedir = install_paths.includedir.clone();
                },
            }
        }
        if has_libdir_arg {
            match paths::rel_to_base(install_paths.libdir.as_str(), pc.prefix.as_str()) {
                Some(suffix) => {
                    pc.libdir = paths::join("${prefix}", suffix.as_str());
                },
                None => {
                    pc.libdir = install_paths.libdir.clone();
                },
            }
        }
        pc
    }

    /// Render the document, as [`render_spec`] describes it.
    #[verifier::rlimit(60)]
    pub fn render(&self) -> (r: String)
        ensures
            r@ == render_spec(*self),
    {
        let mut known_libs_private = strutil::clone_strings(&self.dedup_libs_private);
        push_plain(&mut known_libs_private, &self.libs);

        let dedup_libs_line = dedup_flags(&self.dedup_libs, &self.libs);
        let dedup_cflags_line = dedup_flags(&self.dedup_cflags, &self.cflags);
        let dedup_libs_private_line = dedup_flags(&known_libs_private, &self.libs_private);

        let mut w = String::new();
        w.append("prefix=");
        let c1 = paths::canonicalize(self.prefix.as_str());
        w.append(c1.as_str());
        strutil::push_char(&mut w, '\n');
        w.append("exec_prefix=");
        let c2 = paths::canonicalize(self.exec_prefix.as_str());
        w.append(c2.as_str());
        strutil::push_char(&mut w, '\n');
        let ghost acc1 = "prefix="@ + canonicalize_spec(self.prefix@) + nl() + "exec_prefix="@
            + canonicalize_spec(self.exec_prefix@) + nl();
        proof {
            assert(w@ =~= acc1);
        }
        w.append("libdir=");
        let c3 = paths::canonicalize(self.libdir.as_str());
        w.append(c3.as_str());
        strutil::push_char(&mut w, '\n');
        w.append("includedir=");
        let c4 = paths::canonicalize(self.includedir.as_str());
        w.append(c4.as_str());
        strutil::push_char(&mut w, '\n');
        strutil::push_char(&mut w, '\n');
        let ghost acc2 = acc1 + "libdir="@ + canonicalize_spec(self.libdir@) + nl() + "includedir="@
            + canonicalize_spec(self.includedir@) + nl() + nl();
        proof {
            assert(w@ =~= acc2);
        }
        w.append("Name: ");
        w.append(self.name.as_str());
        strutil::push_char(&mut w, '\n');
        w.append("Description: ");
        let descr = replace_nl_exec(self.description.as_str());
        w.append(descr.as_str());
        strutil::push_char(&mut w, '\n');
        w.append("Version: ");
        w.append(self.version.as_str());
        strutil::push_char(&mut w, '\n');
        let ghost acc3 = acc2 + "Name: "@ + self.name@ + nl() + "Description: "@ + replace_nl(
            self.description@,
        ) + nl() + "Version: "@ + self.version@ + nl();
        proof {
            assert(w@ =~= acc3);
        }
        w.append("Libs: ");
        w.append(dedup_libs_line.as_str());
        strutil::push_char(&mut w, '\n');
        w.append("Cflags: ");
        w.append(dedup_cflags_line.as_str());
        strutil::push_char(&mut w, '\n');
        let ghost acc4 = acc3 + "Libs: "@ + join_with(
            seq![' '],
            dedup_spec(self.dedup_libs.deep_view(), self.libs.deep_view()),
        ) + nl() + "Cflags: "@ + join_with(
            seq![' '],
            dedup_spec(self.dedup_cflags.deep_view(), self.cflags.deep_view()),
        ) + nl();
        proof {
            assert(w@ =~= acc4);
        }
        if self.libs_private.len() > 0 {
            w.append("Libs.private: ");
            w.append(dedup_libs_private_line.as_str());
            strutil::push_char(&mut w, '\n');
        }
        let ghost acc5 = acc4 + (if self.libs_private@.len() > 0 {
            "Libs.private: "@ + join_with(
                seq![' '],
                dedup_spec(
                    self.dedup_libs_private.deep_view() + self.libs.deep_view(),
                    self.libs_private.deep_view(),
                ),
            ) + nl()
        } else {
            Seq::<char>::empty()
        });
        proof {
            assert(w@ =~= acc5);
        }
        if self.requires.len() > 0 {
            w.append("Requires: ");
            strutil::push_join_with(&mut w, &self.requires, ", ");
            strutil::push_char(&mut w, '\n');
            proof {
                assert(", "@ =~= seq![',', ' ']) by {
                    reveal_strlit(", ");
                }
            }
        }
        let ghost acc6 = acc5 + (if self.requires@.len() > 0 {
            "Requires: "@ + join_with(seq![',', ' '], self.requires.deep_view()) + nl()
        } else {
            Seq::<char>::empty()
        });
        proof {
            assert(w@ =~= acc6);
        }
        if self.requires_private.len() > 0 {
            w.append("Requires.private: ");
            strutil::push_join_with(&mut w, &self.requires_private, ", ");
            strutil::push_char(&mut w, '\n');
            proof {
                assert(", "@ =~= seq![',', ' ']) by {
                    reveal_strlit(", ");
                }
            }
        }
        proof {
            assert(w@ =~= acc6 + (if self.requires_private@.len() > 0 {
                "Requires.private: "@ + join_with(
                    seq![',', ' '],
                    self.requires_private.deep_view(),
                ) + nl()
            } else {
                Seq::<char>::empty()
            }));
            assert(w@ =~= render_spec(*self));
        }
        w
    }
}

} // verus!
