//! Small string building blocks shared by the whole crate.
//!
//! Contracts speak about the character sequence view (`Seq<char>`) of
//! `String` and `&str`; executable code mostly manipulates `Vec<char>`
//! and converts at the boundary.

use vstd::prelude::*;

verus! {

/// Relies on `str::chars`: it yields the characters of the slice in order,
/// so collecting them reproduces the view of the slice.
#[verifier::external_body]
pub fn chars_vec(s: &str) -> (v: Vec<char>)
    ensures
        v@ == s@,
{
    s.chars().collect()
}

/// Relies on `String::push`: it appends exactly one character at the end.
#[verifier::external_body]
pub fn push_char(s: &mut String, c: char)
    ensures
        final(s)@ == old(s)@.push(c),
{
    s.push(c);
}

/// Relies on the standard `==` on string slices: it returns true exactly
/// when the two slices hold the same characters.
#[verifier::external_body]
pub fn str_eq(a: &str, b: &str) -> (r: bool)
    ensures
        r == (a@ == b@),
{
    a == b
}

/// Append every character of `v` to `s`, in order.
pub fn push_chars(s: &mut String, v: &Vec<char>)
    ensures
        final(s)@ == old(s)@ + v@,
{
    let mut i: usize = 0;
    while i < v.len()
        invariant
            i <= v.len(),
            s@ == old(s)@ + v@.take(i as int),
        decreases v.len() - i,
    {
        push_char(s, v[i]);
        proof {
            assert(s@ =~= old(s)@ + v@.take(i + 1 as int));
        }
        i = i + 1;
    }
    proof {
        assert(v@.take(v.len() as int) =~= v@);
    }
}

/// Build a `String` holding exactly the characters of `v`.
pub fn string_from_chars(v: &Vec<char>) -> (s: String)
    ensures
        s@ == v@,
{
    let mut s = String::new();
    push_chars(&mut s, v);
    proof {
        assert(s@ =~= v@);
    }
    s
}

/// The character for a single decimal digit.
pub open spec fn digit_char(d: nat) -> char {
    if d == 0 {
        '0'
    } else if d == 1 {
        '1'
    } else if d == 2 {
        '2'
    } else if d == 3 {
        '3'
    } else if d == 4 {
        '4'
    } else if d == 5 {
        '5'
    } else if d == 6 {
        '6'
    } else if d == 7 {
        '7'
    } else if d == 8 {
        '8'
    } else {
        '9'
    }
}

/// The decimal digits of `n`, most significant first, without leading
/// zeros (except for `n == 0` itself).
pub open spec fn dec_str(n: nat) -> Seq<char>
    decreases n,
{
    if n < 10 {
        seq![digit_char(n)]
    } else {
        dec_str(n / 10).push(digit_char(n % 10))
    }
}

/// Append the single digit `d` to `s`.
fn push_digit(s: &mut String, d: u64)
    requires
        d < 10,
    ensures
        final(s)@ == old(s)@.push(digit_char(d as nat)),
{
    let c = match d {
        0 => '0',
        1 => '1',
        2 => '2',
        3 => '3',
        4 => '4',
        5 => '5',
        6 => '6',
        7 => '7',
        8 => '8',
        _ => '9',
    };
    push_char(s, c);
}

/// Append the decimal rendering of `n` to `s`.
pub fn push_dec(s: &mut String, n: u64)
    ensures
        final(s)@ == old(s)@ + dec_str(n as nat),
    decreases n,
{
    if n < 10 {
        push_digit(s, n);
        proof {
            assert(old(s)@.push(digit_char(n as nat)) =~= old(s)@ + dec_str(n as nat));
        }
    } else {
        push_dec(s, n / 10);
        push_digit(s, n % 10);
        proof {
            assert(old(s)@ + dec_str((n / 10) as nat).push(digit_char((n % 10) as nat)) =~= (old(
                s,
            )@ + dec_str((n / 10) as nat)).push(digit_char((n % 10) as nat)));
        }
    }
}

/// The decimal rendering of `n` as a fresh string.
pub fn dec_string(n: u64) -> (s: String)
    ensures
        s@ == dec_str(n as nat),
{
    let mut s = String::new();
    push_dec(&mut s, n);
    proof {
        assert(s@ =~= dec_str(n as nat));
    }
    s
}

/// A fresh vector holding the same characters as `v`.
pub fn copy_chars(v: &Vec<char>) -> (r: Vec<char>)
    ensures
        r@ == v@,
{
    let mut r: Vec<char> = Vec::new();
    let mut i: usize = 0;
    while i < v.len()
        invariant
            i <= v.len(),
            r@ == v@.take(i as int),
        decreases v.len() - i,
    {
        r.push(v[i]);
        proof {
            assert(r@ =~= v@.take(i + 1 as int));
        }
        i = i + 1;
    }
    proof {
        assert(v@.take(v.len() as int) =~= v@);
    }
    r
}

/// An ASCII upper-case letter mapped to its lower-case form; any other
/// character is left as it is.
pub open spec fn lower_char(c: char) -> char {
    match c {
        'A' => 'a',
        'B' => 'b',
        'C' => 'c',
        'D' => 'd',
        'E' => 'e',
        'F' => 'f',
        'G' => 'g',
        'H' => 'h',
        'I' => 'i',
        'J' => 'j',
        'K' => 'k',
        'L' => 'l',
        'M' => 'm',
        'N' => 'n',
        'O' => 'o',
        'P' => 'p',
        'Q' => 'q',
        'R' => 'r',
        'S' => 's',
        'T' => 't',
        'U' => 'u',
        'V' => 'v',
        'W' => 'w',
        'X' => 'x',
        'Y' => 'y',
        'Z' => 'z',
        _ => c,
    }
}

/// The sequence with every character lowered as by [`lower_char`].
pub open spec fn lower_seq(s: Seq<char>) -> Seq<char> {
    s.map_values(|c: char| lower_char(c))
}

/// Executable form of [`lower_char`].
pub fn lower_char_exec(c: char) -> (r: char)
    ensures
        r == lower_char(c),
{
    match c {
        'A' => 'a',
        'B' => 'b',
        'C' => 'c',
        'D' => 'd',
        'E' => 'e',
        'F' => 'f',
        'G' => 'g',
        'H' => 'h',
        'I' => 'i',
        'J' => 'j',
        'K' => 'k',
        'L' => 'l',
        'M' => 'm',
        'N' => 'n',
        'O' => 'o',
        'P' => 'p',
        'Q' => 'q',
        'R' => 'r',
        'S' => 's',
        'T' => 't',
        'U' => 'u',
        'V' => 'v',
        'W' => 'w',
        'X' => 'x',
        'Y' => 'y',
        'Z' => 'z',
        _ => c,
    }
}

/// True when the two slices are equal up to ASCII case.
pub fn eq_ignore_ascii_case(a: &str, b: &str) -> (r: bool)
    ensures
        r == (lower_seq(a@) == lower_seq(b@)),
{
    let av = chars_vec(a);
    let bv = chars_vec(b);
    if av.len() != bv.len() {
        proof {
            assert(lower_seq(a@).len() == a@.len());
            assert(lower_seq(b@).len() == b@.len());
        }
        return false;
    }
    let mut i: usize = 0;
    while i < av.len()
        invariant
            i <= av.len(),
            av.len() == bv.len(),
            av@ == a@,
            bv@ == b@,
            forall|j: int| 0 <= j < i ==> lower_char(a@[j]) == lower_char(b@[j]),
        decreases av.len() - i,
    {
        if lower_char_exec(av[i]) != lower_char_exec(bv[i]) {
            proof {
                assert(lower_seq(a@)[i as int] != lower_seq(b@)[i as int]);
            }
            return false;
        }
        i = i + 1;
    }
    proof {
        assert(lower_seq(a@) =~= lower_seq(b@));
    }
    true
}

/// ASCII whitespace, as trimmed from the ends of configuration values.
pub open spec fn is_space(c: char) -> bool {
    c == ' ' || c == '\t' || c == '\n' || c == '\r'
}

fn is_space_exec(c: char) -> (r: bool)
    ensures
        r == is_space(c),
{
    c == ' ' || c == '\t' || c == '\n' || c == '\r'
}

/// The sequence with leading whitespace removed.
pub open spec fn trim_start_spec(s: Seq<char>) -> Seq<char>
    decreases s.len(),
{
    if s.len() > 0 && is_space(s[0]) {
        trim_start_spec(s.drop_first())
    } else {
        s
    }
}

/// The sequence with trailing whitespace removed.
pub open spec fn trim_end_spec(s: Seq<char>) -> Seq<char>
    decreases s.len(),
{
    if s.len() > 0 && is_space(s.last()) {
        trim_end_spec(s.drop_last())
    } else {
        s
    }
}

/// The sequence with whitespace removed from both ends.
pub open spec fn trim_spec(s: Seq<char>) -> Seq<char> {
    trim_end_spec(trim_start_spec(s))
}

/// Remove ASCII whitespace from both ends of the characters in `v`.
pub fn trim_chars(v: &Vec<char>) -> (r: Vec<char>)
    ensures
        r@ == trim_spec(v@),
{
    proof {
        assert(v@.skip(0) =~= v@);
    }
    let mut start: usize = 0;
    while start < v.len() && is_space_exec(v[start])
        invariant
            start <= v.len(),
            trim_start_spec(v@) == trim_start_spec(v@.skip(start as int)),
        decreases v.len() - start,
    {
        proof {
            assert(v@.skip(start as int).drop_first() =~= v@.skip(start + 1 as int));
            assert(v@.skip(start as int)[0] == v@[start as int]);
        }
        start = start + 1;
    }
    proof {
        if start < v.len() {
            assert(v@.skip(start as int)[0] == v@[start as int]);
        }
        assert(trim_start_spec(v@) == v@.skip(start as int));
    }
    let ghost m = v@.skip(start as int);
    proof {
        assert(m.take(v.len() - start as int) =~= m);
    }
    let mut end: usize = v.len();
    while end > start && is_space_exec(v[end - 1])
        invariant
            start <= end <= v.len(),
            m == v@.skip(start as int),
            trim_end_spec(m) == trim_end_spec(m.take(end - start as int)),
        decreases end,
    {
        proof {
            assert(m.take(end - start as int).drop_last() =~= m.take(end - 1 - start as int));
            assert(m.take(end - start as int).last() == v@[end - 1 as int]);
        }
        end = end - 1;
    }
    proof {
        if end > start {
            assert(m.take(end - start as int).last() == v@[end - 1 as int]);
        } else {
            assert(m.take(0) =~= Seq::<char>::empty());
        }
        assert(trim_end_spec(m) == m.take(end - start as int));
    }
    let mut r: Vec<char> = Vec::new();
    let mut i: usize = start;
    while i < end
        invariant
            start <= i <= end <= v.len(),
            m == v@.skip(start as int),
            r@ == m.take(i - start as int),
        decreases end - i,
    {
        r.push(v[i]);
        proof {
            assert(r@ =~= m.take(i + 1 - start as int));
        }
        i = i + 1;
    }
    r
}

/// Remove ASCII whitespace from both ends of a string slice.
pub fn trim(s: &str) -> (r: String)
    ensures
        r@ == trim_spec(s@),
{
    let v = chars_vec(s);
    let t = trim_chars(&v);
    string_from_chars(&t)
}

/// Split on commas, keeping empty pieces, accumulating in `cur`.
pub open spec fn split_commas_rec(s: Seq<char>, cur: Seq<char>) -> Seq<Seq<char>>
    decreases s.len(),
{
    if s.len() == 0 {
        seq![cur]
    } else if s[0] == ',' {
        seq![cur] + split_commas_rec(s.drop_first(), Seq::empty())
    } else {
        split_commas_rec(s.drop_first(), cur.push(s[0]))
    }
}

/// The comma-separated pieces of `s`, each trimmed of surrounding
/// whitespace.
pub open spec fn split_trim_commas(s: Seq<char>) -> Seq<Seq<char>> {
    split_commas_rec(s, Seq::empty()).map_values(|t: Seq<char>| trim_spec(t))
}

/// Split a configuration value on commas and trim every piece.
pub fn split_and_trim_commas(s: &str) -> (r: Vec<String>)
    ensures
        r.deep_view() == split_trim_commas(s@),
{
    let v = chars_vec(s);
    let mut pieces: Vec<Vec<char>> = Vec::new();
    let mut cur: Vec<char> = Vec::new();
    let mut i: usize = 0;
    proof {
        assert(v@.skip(0) =~= v@);
        assert(pieces.deep_view() + split_commas_rec(v@, cur@) =~~= split_commas_rec(
            v@,
            cur@,
        ));
    }
    while i < v.len()
        invariant
            i <= v.len(),
            v@ == s@,
            split_commas_rec(s@, Seq::empty()) == pieces.deep_view() + split_commas_rec(
                v@.skip(i as int),
                cur@,
            ),
        decreases v.len() - i,
    {
        proof {
            assert(v@.skip(i as int).drop_first() =~~= v@.skip(i + 1 as int));
            assert(v@.skip(i as int)[0] == v@[i as int]);
        }
        if v[i] == ',' {
            let ghost pre = pieces.deep_view();
            let ghost curv = cur@;
            let done = cur;
            cur = Vec::new();
            pieces.push(done);
            proof {
                assert(split_commas_rec(v@.skip(i as int), curv) == seq![curv] + split_commas_rec(
                    v@.skip(i + 1 as int),
                    Seq::empty(),
                ));
                assert(pieces.deep_view() =~~= pre.push(curv));
                assert(pre.push(curv) + split_commas_rec(v@.skip(i + 1 as int), Seq::empty())
                    =~~= pre + (seq![curv] + split_commas_rec(v@.skip(i + 1 as int), Seq::empty())));
            }
        } else {
            let ghost curv = cur@;
            let c = v[i];
            cur.push(c);
            proof {
                assert(split_commas_rec(v@.skip(i as int), curv) == split_commas_rec(
                    v@.skip(i + 1 as int),
                    curv.push(v@[i as int]),
                ));
            }
        }
        i = i + 1;
    }
    proof {
        assert(v@.skip(v.len() as int) =~~= Seq::<char>::empty());
        assert(split_commas_rec(v@.skip(v.len() as int), cur@) == seq![cur@]);
    }
    let ghost pre = pieces.deep_view();
    let ghost curv = cur@;
    pieces.push(cur);
    proof {
        assert(pieces.deep_view() =~~= pre.push(curv));
        assert(pre.push(curv) =~~= pre + seq![curv]);
        assert(pieces.deep_view() == split_commas_rec(s@, Seq::empty()));
    }
    let mut r: Vec<String> = Vec::new();
    let mut j: usize = 0;
    while j < pieces.len()
        invariant
            j <= pieces.len(),
            pieces.deep_view() == split_commas_rec(s@, Seq::empty()),
            r.deep_view() == pieces.deep_view().take(j as int).map_values(
                |t: Seq<char>| trim_spec(t),
            ),
        decreases pieces.len() - j,
    {
        let t = trim_chars(&pieces[j]);
        let st = string_from_chars(&t);
        let ghost pre = r.deep_view();
        r.push(st);
        proof {
            assert(pieces.deep_view()[j as int] == pieces@[j as int].deep_view());
            assert(pieces@[j as int].deep_view() =~~= pieces@[j as int]@);
            assert(r.deep_view() =~~= pre.push(trim_spec(pieces.deep_view()[j as int])));
            assert(pieces.deep_view().take(j + 1 as int).drop_last() =~~= pieces.deep_view().take(
                j as int,
            ));
            assert(pieces.deep_view().take(j + 1 as int).map_values(
                |t: Seq<char>| trim_spec(t),
            ) =~~= pieces.deep_view().take(j as int).map_values(|t: Seq<char>| trim_spec(t)).push(
                trim_spec(pieces.deep_view()[j as int]),
            ));
            assert(r.deep_view() =~~= pieces.deep_view().take(j + 1 as int).map_values(
                |t: Seq<char>| trim_spec(t),
            ));
        }
        j = j + 1;
    }
    proof {
        assert(pieces.deep_view().take(pieces@.len() as int) =~~= pieces.deep_view());
        assert(r.deep_view() =~~= split_trim_commas(s@));
    }
    r
}

/// Items joined with a separator between each pair.
pub open spec fn join_with(sep: Seq<char>, items: Seq<Seq<char>>) -> Seq<char>
    decreases items.len(),
{
    if items.len() == 0 {
        Seq::empty()
    } else if items.len() == 1 {
        items[0]
    } else {
        join_with(sep, items.drop_last()) + sep + items.last()
    }
}

/// Append the items to `s`, separated by `sep`.
pub fn push_join_with(s: &mut String, items: &Vec<String>, sep: &str)
    ensures
        final(s)@ == old(s)@ + join_with(sep@, items.deep_view()),
{
    let mut i: usize = 0;
    proof {
        assert(s@ + join_with(sep@, items.deep_view().take(0)) =~= s@);
    }
    while i < items.len()
        invariant
            i <= items@.len(),
            s@ == old(s)@ + join_with(sep@, items.deep_view().take(i as int)),
        decreases items@.len() - i,
    {
        proof {
            assert(items.deep_view().take(i + 1 as int).drop_last() =~~= items.deep_view().take(
                i as int,
            ));
            assert(items.deep_view().take(i + 1 as int).last() == items.deep_view()[i as int]);
            assert(items.deep_view()[i as int] == items@[i as int].deep_view());
            assert(items@[i as int].deep_view() =~= items@[i as int]@);
        }
        if i > 0 {
            s.append(sep);
        }
        s.append(items[i].as_str());
        proof {
            assert(s@ =~= old(s)@ + join_with(sep@, items.deep_view().take(i + 1 as int)));
        }
        i = i + 1;
    }
    proof {
        assert(items.deep_view().take(items@.len() as int) =~~= items.deep_view());
    }
}

/// A fresh copy of a string vector, element for element.
pub fn clone_strings(v: &Vec<String>) -> (r: Vec<String>)
    ensures
        r.deep_view() == v.deep_view(),
{
    let mut r: Vec<String> = Vec::new();
    let mut i: usize = 0;
    while i < v.len()
        invariant
            i <= v.len(),
            r.deep_view() == v.deep_view().take(i as int),
        decreases v.len() - i,
    {
        let c = v[i].clone();
        let ghost pre = r.deep_view();
        r.push(c);
        proof {
            assert(c@ == v@[i as int]@);
            assert(v.deep_view()[i as int] == v@[i as int].deep_view());
            assert(r.deep_view() =~~= pre.push(v@[i as int]@));
            assert(r.deep_view() =~~= v.deep_view().take(i + 1 as int));
        }
        i = i + 1;
    }
    proof {
        assert(v.deep_view().take(v@.len() as int) =~~= v.deep_view());
    }
    r
}

/// True when `p` is a prefix of `s`.
pub open spec fn is_prefix_of(p: Seq<char>, s: Seq<char>) -> bool {
    p.len() <= s.len() && s.take(p.len() as int) == p
}

/// True when the characters of `s` start with those of `p`.
pub fn starts_with_chars(s: &Vec<char>, p: &Vec<char>) -> (r: bool)
    ensures
        r == is_prefix_of(p@, s@),
{
    if p.len() > s.len() {
        proof {
            assert(!is_prefix_of(p@, s@));
        }
        return false;
    }
    let mut i: usize = 0;
    while i < p.len()
        invariant
            i <= p.len() <= s.len(),
            forall|j: int| 0 <= j < i ==> s@[j] == p@[j],
        decreases p.len() - i,
    {
        if s[i] != p[i] {
            proof {
                assert(s@.take(p@.len() as int)[i as int] != p@[i as int]);
            }
            return false;
        }
        i = i + 1;
    }
    proof {
        assert(s@.take(p@.len() as int) =~= p@);
    }
    true
}

/// True when a string slice starts with the given prefix slice.
pub fn str_starts_with(s: &str, p: &str) -> (r: bool)
    ensures
        r == is_prefix_of(p@, s@),
{
    let sv = chars_vec(s);
    let pv = chars_vec(p);
    starts_with_chars(&sv, &pv)
}

} // verus!
