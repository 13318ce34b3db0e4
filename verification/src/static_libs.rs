//! The system-link-library list: normalize the single link-flag line
//! the compiler reports into pkg-config-ready flags.

use itertools::Itertools;
use vstd::prelude::*;

use crate::strutil;
use crate::strutil::{is_prefix_of, trim_spec};
use crate::target::Target;

verus! {

/// Split on single spaces, keeping empty pieces.
pub open spec fn split_sp(s: Seq<char>, cur: Seq<char>) -> Seq<Seq<char>>
    decreases s.len(),
{
    if s.len() == 0 {
        seq![cur]
    } else if s[0] == ' ' {
        seq![cur] + split_sp(s.drop_first(), Seq::empty())
    } else {
        split_sp(s.drop_first(), cur.push(s[0]))
    }
}

/// The `.lib` file suffix.
pub open spec fn lib_suffix() -> Seq<char> {
    seq!['.', 'l', 'i', 'b']
}

/// The `/defaultlib` directive prefix.
pub open spec fn defaultlib_prefix() -> Seq<char> {
    seq!['/', 'd', 'e', 'f', 'a', 'u', 'l', 't', 'l', 'i', 'b']
}

/// True when `s` ends in `.lib`.
pub open spec fn ends_lib(s: Seq<char>) -> bool {
    s.len() >= 4 && s.skip(s.len() - 4) == lib_suffix()
}

/// The name with every trailing `.lib` suffix removed.
pub open spec fn strip_lib(s: Seq<char>) -> Seq<char>
    decreases s.len(),
{
    if ends_lib(s) {
        strip_lib(s.take(s.len() - 4))
    } else {
        s
    }
}

/// Whether a raw part survives the first pass: `/defaultlib`
/// directives fall out on MSVC, and empty parts always fall out.
pub open spec fn keep_part(p: Seq<char>, msvc: bool) -> bool {
    if msvc && is_prefix_of(defaultlib_prefix(), p) {
        false
    } else {
        p.len() > 0
    }
}

/// A surviving part normalized: on MSVC a `.lib` file becomes a
/// `-l` flag; anything else is trimmed.
pub open spec fn map_part(p: Seq<char>, msvc: bool) -> Seq<char> {
    if msvc && ends_lib(p) {
        seq!['-', 'l'] + strip_lib(p)
    } else {
        trim_spec(p)
    }
}

/// The first pass over the raw parts: filter, normalize, and drop
/// what normalized to nothing.
pub open spec fn first_pass(parts: Seq<Seq<char>>, msvc: bool) -> Seq<Seq<char>>
    decreases parts.len(),
{
    if parts.len() == 0 {
        Seq::empty()
    } else {
        (if keep_part(parts[0], msvc) && map_part(parts[0], msvc).len() > 0 {
            seq![map_part(parts[0], msvc)]
        } else {
            Seq::<Seq<char>>::empty()
        }) + first_pass(parts.drop_first(), msvc)
    }
}

/// Rejoin flag pairs that the space split pulled apart, the way the
/// resolver's own parsing does: `-framework X`, the include-path
/// flags, and the `-undefined` directives.
pub open spec fn reconstitute(parts: Seq<Seq<char>>) -> Seq<Seq<char>>
    decreases parts.len(),
{
    if parts.len() == 0 {
        Seq::empty()
    } else if parts[0] == "-framework"@ {
        if parts.len() >= 2 {
            seq!["-framework "@ + parts[1]] + reconstitute(parts.skip(2))
        } else {
            Seq::empty()
        }
    } else if parts[0] == "-isystem"@ || parts[0] == "-iquote"@ || parts[0] == "-idirafter"@ {
        if parts.len() >= 2 {
            seq![parts[0] + seq![' '] + parts[1]] + reconstitute(parts.skip(2))
        } else {
            Seq::empty()
        }
    } else if parts[0] == "-undefined"@ || parts[0] == "--undefined"@ {
        if parts.len() >= 2 {
            seq!["-Wl,"@ + parts[0] + seq![','] + parts[1]] + reconstitute(parts.skip(2))
        } else {
            Seq::empty()
        }
    } else {
        seq![parts[0]] + reconstitute(parts.drop_first())
    }
}

/// Each distinct flag once, at its first occurrence, in order.
pub open spec fn dedup_first(s: Seq<Seq<char>>) -> Seq<Seq<char>>
    decreases s.len(),
{
    if s.len() == 0 {
        s
    } else {
        let rest = dedup_first(s.drop_last());
        if s.drop_last().contains(s.last()) {
            rest
        } else {
            rest.push(s.last())
        }
    }
}

/// The normalized link-library list of a reported link line.
pub open spec fn static_libraries_spec(link_line: Seq<char>, msvc: bool) -> Seq<Seq<char>> {
    dedup_first(
        reconstitute(first_pass(split_sp(trim_spec(link_line), Seq::empty()), msvc)),
    )
}

/// Relies on itertools' `unique`: it yields each distinct element
/// once, at its first occurrence, in the order of the input.
#[verifier::external_body]
fn unique_strings(v: Vec<String>) -> (r: Vec<String>)
    ensures
        r.deep_view() == dedup_first(v.deep_view()),
{
    v.into_iter().unique().collect()
}

fn ends_lib_exec(t: &Vec<char>) -> (r: bool)
    ensures
        r == ends_lib(t@),
{
    if t.len() >= 4 && t[t.len() - 4] == '.' && t[t.len() - 3] == 'l' && t[t.len() - 2] == 'i'
        && t[t.len() - 1] == 'b' {
        proof {
            assert(t@.skip(t@.len() - 4) =~= lib_suffix());
        }
        true
    } else {
        proof {
            if ends_lib(t@) {
                assert(t@.skip(t@.len() - 4)[0] == t@[t@.len() - 4]);
                assert(t@.skip(t@.len() - 4)[1] == t@[t@.len() - 3]);
                assert(t@.skip(t@.len() - 4)[2] == t@[t@.len() - 2]);
                assert(t@.skip(t@.len() - 4)[3] == t@[t@.len() - 1]);
            }
        }
        false
    }
}

fn strip_lib_exec(t: &Vec<char>) -> (r: Vec<char>)
    ensures
        r@ == strip_lib(t@),
{
    let mut keep: usize = t.len();
    proof {
        assert(t@.take(t@.len() as int) =~= t@);
    }
    loop
        invariant
            keep <= t@.len(),
            strip_lib(t@) == strip_lib(t@.take(keep as int)),
        ensures
            keep <= t@.len(),
            strip_lib(t@) == t@.take(keep as int),
        decreases keep,
    {
        if keep < 4 {
            proof {
                assert(!ends_lib(t@.take(keep as int)));
                assert(strip_lib(t@.take(keep as int)) == t@.take(keep as int));
            }
            break ;
        }
        let l4 = t[keep - 4] == '.' && t[keep - 3] == 'l' && t[keep - 2] == 'i' && t[keep - 1]
            == 'b';
        if l4 {
            proof {
                assert(t@.take(keep as int).skip(keep - 4) =~= lib_suffix());
                assert(ends_lib(t@.take(keep as int)));
                assert(t@.take(keep as int).take(keep - 4) =~= t@.take(keep - 4));
            }
            keep = keep - 4;
        } else {
            proof {
                if ends_lib(t@.take(keep as int)) {
                    assert(t@.take(keep as int).skip(keep - 4)[0] == t@[keep - 4]);
                    assert(t@.take(keep as int).skip(keep - 4)[1] == t@[keep - 3]);
                    assert(t@.take(keep as int).skip(keep - 4)[2] == t@[keep - 2]);
                    assert(t@.take(keep as int).skip(keep - 4)[3] == t@[keep - 1]);
                }
                assert(!ends_lib(t@.take(keep as int)));
                assert(strip_lib(t@.take(keep as int)) == t@.take(keep as int));
            }
            break ;
        }
    }
    let mut r: Vec<char> = Vec::new();
    let mut i: usize = 0;
    while i < keep
        invariant
            i <= keep <= t@.len(),
            r@ == t@.take(keep as int).take(i as int),
        decreases keep - i,
    {
        r.push(t[i]);
        proof {
            assert(r@ =~= t@.take(keep as int).take(i + 1 as int));
        }
        i = i + 1;
    }
    proof {
        assert(t@.take(keep as int).take(keep as int) =~= t@.take(keep as int));
    }
    r
}

/// Normalize the native-static-libs line the compiler reported, as
/// [`static_libraries_spec`] describes it.
#[verifier::rlimit(60)]
pub fn static_libraries(link_line: &str, rustc_target: &Target) -> (r: Vec<String>)
    ensures
        r.deep_view() == static_libraries_spec(
            link_line@,
            rustc_target.env@ == "msvc"@,
        ),
{
    let msvc = strutil::str_eq(rustc_target.env.as_str(), "msvc");
    let trimmed = strutil::trim(link_line);
    let tv = strutil::chars_vec(trimmed.as_str());
    let ghost t0 = trim_spec(link_line@);

    // split on spaces, keeping empty pieces
    let mut parts: Vec<Vec<char>> = Vec::new();
    let mut cur: Vec<char> = Vec::new();
    let mut i: usize = 0;
    proof {
        assert(tv@.skip(0) =~= tv@);
        assert(parts.deep_view() + split_sp(tv@, cur@) =~~= split_sp(tv@, cur@));
    }
    while i < tv.len()
        invariant
            i <= tv@.len(),
            tv@ == t0,
            split_sp(t0, Seq::empty()) == parts.deep_view() + split_sp(
                tv@.skip(i as int),
                cur@,
            ),
        decreases tv@.len() - i,
    {
        proof {
            assert(tv@.skip(i as int)[0] == tv@[i as int]);
            assert(tv@.skip(i as int).drop_first() =~= tv@.skip(i + 1 as int));
        }
        if tv[i] == ' ' {
            let ghost pre = parts.deep_view();
            let ghost curv = cur@;
            let done = cur;
            cur = Vec::new();
            parts.push(done);
            proof {
                assert(split_sp(tv@.skip(i as int), curv) == seq![curv] + split_sp(
                    tv@.skip(i + 1 as int),
                    Seq::empty(),
                ));
                assert(parts.deep_view() =~~= pre.push(curv));
                assert(pre.push(curv) + split_sp(tv@.skip(i + 1 as int), Seq::empty()) =~~= pre + (
                seq![curv] + split_sp(tv@.skip(i + 1 as int), Seq::empty())));
            }
        } else {
            let c = tv[i];
            cur.push(c);
        }
        i = i + 1;
    }
    proof {
        assert(tv@.skip(tv@.len() as int) =~= Seq::<char>::empty());
        assert(split_sp(tv@.skip(tv@.len() as int), cur@) == seq![cur@]);
    }
    let ghost pre0 = parts.deep_view();
    let ghost curv0 = cur@;
    parts.push(cur);
    proof {
        assert(parts.deep_view() =~~= pre0.push(curv0));
        assert(pre0.push(curv0) =~~= pre0 + seq![curv0]);
        assert(parts.deep_view() == split_sp(t0, Seq::empty()));
    }

    // first pass: filter and normalize
    let ghost raw = parts.deep_view();
    let mut libs: Vec<Vec<char>> = Vec::new();
    let mut k: usize = 0;
    proof {
        assert(raw.skip(0) =~~= raw);
        assert(libs.deep_view() + first_pass(raw, msvc) =~~= first_pass(raw, msvc));
    }
    while k < parts.len()
        invariant
            k <= parts@.len(),
            raw == parts.deep_view(),
            msvc == (rustc_target.env@ == "msvc"@),
            first_pass(raw, msvc) == libs.deep_view() + first_pass(raw.skip(k as int), msvc),
        decreases parts@.len() - k,
    {
        proof {
            assert(raw.skip(k as int)[0] == raw[k as int]);
            assert(raw.skip(k as int).drop_first() =~~= raw.skip(k + 1 as int));
            assert(raw[k as int] == parts@[k as int].deep_view());
            assert(parts@[k as int].deep_view() =~~= parts@[k as int]@);
        }
        let part = &parts[k];
        let mut dl: Vec<char> = Vec::new();
        dl.push('/');
        dl.push('d');
        dl.push('e');
        dl.push('f');
        dl.push('a');
        dl.push('u');
        dl.push('l');
        dl.push('t');
        dl.push('l');
        dl.push('i');
        dl.push('b');
        proof {
            assert(dl@ =~= defaultlib_prefix());
        }
        let dropped = msvc && strutil::starts_with_chars(part, &dl);
        let keep = !dropped && part.len() > 0;
        if keep {
            let mapped: Vec<char> = if msvc && ends_lib_exec(part) {
                let stripped = strip_lib_exec(part);
                let mut m: Vec<char> = Vec::new();
                m.push('-');
                m.push('l');
                let mut z: usize = 0;
                while z < stripped.len()
                    invariant
                        z <= stripped@.len(),
                        m@ == seq!['-', 'l'] + stripped@.take(z as int),
                    decreases stripped@.len() - z,
                {
                    m.push(stripped[z]);
                    proof {
                        assert(m@ =~= seq!['-', 'l'] + stripped@.take(z + 1 as int));
                    }
                    z = z + 1;
                }
                proof {
                    assert(stripped@.take(stripped@.len() as int) =~= stripped@);
                }
                m
            } else {
                strutil::trim_chars(part)
            };
            proof {
                assert(mapped@ == map_part(raw[k as int], msvc));
            }
            if mapped.len() > 0 {
                let ghost pre = libs.deep_view();
                let ghost mv = mapped@;
                libs.push(mapped);
                proof {
                    assert(libs.deep_view() =~~= pre.push(mv));
                    assert(pre.push(mv) =~~= pre + seq![mv]);
                }
            } else {
                proof {
                    assert(libs.deep_view() + Seq::<Seq<char>>::empty() =~~= libs.deep_view());
                }
            }
        } else {
            proof {
                assert(libs.deep_view() + Seq::<Seq<char>>::empty() =~~= libs.deep_view());
            }
        }
        k = k + 1;
    }
    proof {
        assert(raw.skip(parts@.len() as int) =~~= Seq::<Seq<char>>::empty());
        assert(libs.deep_view() + Seq::<Seq<char>>::empty() =~~= libs.deep_view());
        assert(libs.deep_view() == first_pass(raw, msvc));
    }

    // reconstitute improperly split pairs
    let ghost fp = libs.deep_view();
    let mut final_libs: Vec<String> = Vec::new();
    let mut j: usize = 0;
    let fw = strutil::chars_vec("-framework");
    let isys = strutil::chars_vec("-isystem");
    let iq = strutil::chars_vec("-iquote");
    let ida = strutil::chars_vec("-idirafter");
    let und = strutil::chars_vec("-undefined");
    let und2 = strutil::chars_vec("--undefined");
    proof {
        assert(fp.skip(0) =~~= fp);
        assert(final_libs.deep_view() + reconstitute(fp) =~~= reconstitute(fp));
    }
    while j < libs.len()
        invariant
            j <= libs@.len(),
            fp == libs.deep_view(),
            fw@ == "-framework"@,
            isys@ == "-isystem"@,
            iq@ == "-iquote"@,
            ida@ == "-idirafter"@,
            und@ == "-undefined"@,
            und2@ == "--undefined"@,
            reconstitute(fp) == final_libs.deep_view() + reconstitute(fp.skip(j as int)),
        decreases libs@.len() - j,
    {
        proof {
            assert(fp.skip(j as int)[0] == fp[j as int]);
            assert(fp.skip(j as int).drop_first() =~~= fp.skip(j + 1 as int));
            assert(fp[j as int] == libs@[j as int].deep_view());
            assert(libs@[j as int].deep_view() =~~= libs@[j as int]@);
            if j + 1 < libs@.len() {
                assert(fp.skip(j as int)[1] == fp[j + 1 as int]);
                assert(fp[j + 1 as int] == libs@[j + 1 as int].deep_view());
                assert(libs@[j + 1 as int].deep_view() =~~= libs@[j + 1 as int]@);
                assert(fp.skip(j as int).skip(2) =~~= fp.skip(j + 2 as int));
            }
        }
        if crate::paths::chars_eq(&libs[j], &fw) {
            if j + 1 < libs.len() {
                let mut s = String::from_str("-framework ");
                strutil::push_chars(&mut s, &libs[j + 1]);
                let ghost pre = final_libs.deep_view();
                final_libs.push(s);
                proof {
                    assert(final_libs.deep_view() =~~= pre + seq![
                        "-framework "@ + fp[j + 1 as int],
                    ]);
                }
                j = j + 2;
            } else {
                proof {
                    assert(reconstitute(fp.skip(j as int)) =~~= Seq::<Seq<char>>::empty());
                    assert(final_libs.deep_view() + Seq::<Seq<char>>::empty() =~~= final_libs
                        .deep_view());
                }
                j = j + 1;
                proof {
                    assert(reconstitute(fp.skip(j as int)) =~~= Seq::<Seq<char>>::empty());
                }
            }
        } else if crate::paths::chars_eq(&libs[j], &isys) || crate::paths::chars_eq(&libs[j], &iq) || crate::paths::chars_eq(
            &libs[j],
            &ida,
        ) {
            if j + 1 < libs.len() {
                let mut s = String::new();
                strutil::push_chars(&mut s, &libs[j]);
                strutil::push_char(&mut s, ' ');
                strutil::push_chars(&mut s, &libs[j + 1]);
                let ghost pre = final_libs.deep_view();
                final_libs.push(s);
                proof {
                    assert(final_libs.deep_view() =~~= pre + seq![
                        fp[j as int] + seq![' '] + fp[j + 1 as int],
                    ]);
                }
                j = j + 2;
            } else {
                proof {
                    assert(reconstitute(fp.skip(j as int)) =~~= Seq::<Seq<char>>::empty());
                    assert(final_libs.deep_view() + Seq::<Seq<char>>::empty() =~~= final_libs
                        .deep_view());
                }
                j = j + 1;
                proof {
                    assert(reconstitute(fp.skip(j as int)) =~~= Seq::<Seq<char>>::empty());
                }
            }
        } else if crate::paths::chars_eq(&libs[j], &und) || crate::paths::chars_eq(&libs[j], &und2) {
            if j + 1 < libs.len() {
                let mut s = String::from_str("-Wl,");
                strutil::push_chars(&mut s, &libs[j]);
                strutil::push_char(&mut s, ',');
                strutil::push_chars(&mut s, &libs[j + 1]);
                let ghost pre = final_libs.deep_view();
                final_libs.push(s);
                proof {
                    assert(final_libs.deep_view() =~~= pre + seq![
                        "-Wl,"@ + fp[j as int] + seq![','] + fp[j + 1 as int],
                    ]);
                }
                j = j + 2;
            } else {
                proof {
                    assert(reconstitute(fp.skip(j as int)) =~~= Seq::<Seq<char>>::empty());
                    assert(final_libs.deep_view() + Seq::<Seq<char>>::empty() =~~= final_libs
                        .deep_view());
                }
                j = j + 1;
                proof {
                    assert(reconstitute(fp.skip(j as int)) =~~= Seq::<Seq<char>>::empty());
                }
            }
        } else {
            let s = strutil::string_from_chars(&libs[j]);
            let ghost pre = final_libs.deep_view();
            final_libs.push(s);
            proof {
                assert(final_libs.deep_view() =~~= pre + seq![fp[j as int]]);
            }
            j = j + 1;
        }
    }
    proof {
        assert(fp.skip(libs@.len() as int) =~~= Seq::<Seq<char>>::empty());
        assert(final_libs.deep_view() + Seq::<Seq<char>>::empty() =~~= final_libs.deep_view());
        assert(final_libs.deep_view() == reconstitute(first_pass(
            split_sp(trim_spec(link_line@), Seq::empty()),
            msvc,
        )));
    }
    unique_strings(final_libs)
}

} // verus!
