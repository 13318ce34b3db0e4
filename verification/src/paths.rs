//! Lexical path manipulation.
//!
//! Paths are plain strings here.  They are modelled as an optional
//! drive prefix (`C:`), an optional root separator, and a sequence of
//! name tokens separated by `/` or `\`.  Canonicalization resolves
//! `.` and `..` tokens and renders with `/`, leaving symbolic
//! `${...}` placeholders untouched; nothing ever consults the
//! filesystem.

use vstd::prelude::*;

use crate::strutil;
use crate::strutil::chars_vec;

verus! {

/// Path separator characters.
pub open spec fn is_sep(c: char) -> bool {
    c == '/' || c == '\\'
}

fn is_sep_exec(c: char) -> (r: bool)
    ensures
        r == is_sep(c),
{
    c == '/' || c == '\\'
}

/// An ASCII letter, as accepted in a drive prefix.
pub open spec fn is_ascii_alpha(c: char) -> bool {
    lower_is_letter(strutil::lower_char(c))
}

/// True for the lower-case ASCII letters.
pub open spec fn lower_is_letter(c: char) -> bool {
    c == 'a' || c == 'b' || c == 'c' || c == 'd' || c == 'e' || c == 'f' || c == 'g' || c == 'h'
        || c == 'i' || c == 'j' || c == 'k' || c == 'l' || c == 'm' || c == 'n' || c == 'o' || c
        == 'p' || c == 'q' || c == 'r' || c == 's' || c == 't' || c == 'u' || c == 'v' || c == 'w'
        || c == 'x' || c == 'y' || c == 'z'
}

fn is_ascii_alpha_exec(c: char) -> (r: bool)
    ensures
        r == is_ascii_alpha(c),
{
    let l = strutil::lower_char_exec(c);
    l == 'a' || l == 'b' || l == 'c' || l == 'd' || l == 'e' || l == 'f' || l == 'g' || l == 'h'
        || l == 'i' || l == 'j' || l == 'k' || l == 'l' || l == 'm' || l == 'n' || l == 'o' || l
        == 'p' || l == 'q' || l == 'r' || l == 's' || l == 't' || l == 'u' || l == 'v' || l == 'w'
        || l == 'x' || l == 'y' || l == 'z'
}

/// True when the path starts with a drive prefix such as `C:`.
pub open spec fn has_drive(s: Seq<char>) -> bool {
    s.len() >= 2 && is_ascii_alpha(s[0]) && s[1] == ':'
}

/// The drive prefix of the path, two characters, when there is one.
pub open spec fn drive_of(s: Seq<char>) -> Seq<char> {
    s.take(2)
}

/// The path with its drive prefix removed.
pub open spec fn rest_of(s: Seq<char>) -> Seq<char> {
    if has_drive(s) {
        s.skip(2)
    } else {
        s
    }
}

/// True when the path (after any drive prefix) begins with a separator.
pub open spec fn has_root(s: Seq<char>) -> bool {
    rest_of(s).len() > 0 && is_sep(rest_of(s)[0])
}

/// Split on separators, accumulating the current token in `cur`;
/// empty tokens are dropped.
pub open spec fn split_rec(s: Seq<char>, cur: Seq<char>) -> Seq<Seq<char>>
    decreases s.len(),
{
    if s.len() == 0 {
        if cur.len() > 0 {
            seq![cur]
        } else {
            Seq::empty()
        }
    } else if is_sep(s[0]) {
        (if cur.len() > 0 {
            seq![cur]
        } else {
            Seq::empty()
        }) + split_rec(s.drop_first(), Seq::empty())
    } else {
        split_rec(s.drop_first(), cur.push(s[0]))
    }
}

/// The name tokens of the path, in order; `.` and `..` appear as
/// ordinary tokens here.
pub open spec fn tokens_of(s: Seq<char>) -> Seq<Seq<char>> {
    split_rec(rest_of(s), Seq::empty())
}

/// The token spelling the current directory.
pub open spec fn dot_tok() -> Seq<char> {
    seq!['.']
}

/// The token spelling the parent directory.
pub open spec fn dotdot_tok() -> Seq<char> {
    seq!['.', '.']
}

/// True when a relative path starts with a literal `.` token; only
/// there does the token survive canonicalization, mirroring how the
/// standard component iterator keeps a leading current-directory
/// component.
pub open spec fn leading_cur(s: Seq<char>) -> bool {
    !has_drive(s) && !has_root(s) && tokens_of(s).len() > 0 && tokens_of(s)[0] == dot_tok()
}

/// Split the characters of `v` from position `start` on into tokens.
fn split_tokens(v: &Vec<char>, start: usize) -> (toks: Vec<Vec<char>>)
    requires
        start <= v.len(),
    ensures
        toks.deep_view() == split_rec(v@.skip(start as int), Seq::empty()),
{
    let ghost full = v@.skip(start as int);
    let mut toks: Vec<Vec<char>> = Vec::new();
    let mut cur: Vec<char> = Vec::new();
    let mut i: usize = start;
    while i < v.len()
        invariant
            start <= i <= v.len(),
            full == v@.skip(start as int),
            split_rec(full, Seq::empty()) == toks.deep_view() + split_rec(
                v@.skip(i as int),
                cur@,
            ),
        decreases v.len() - i,
    {
        proof {
            assert(v@.skip(i as int).drop_first() =~~= v@.skip(i + 1 as int));
            assert(v@.skip(i as int)[0] == v@[i as int]);
        }
        if is_sep_exec(v[i]) {
            if cur.len() > 0 {
                let ghost pre = toks.deep_view();
                let ghost curv = cur@;
                let done = cur;
                cur = Vec::new();
                toks.push(done);
                proof {
                    assert(split_rec(v@.skip(i as int), curv) == seq![curv] + split_rec(
                        v@.skip(i + 1 as int),
                        Seq::empty(),
                    ));
                    assert(toks.deep_view() =~~= pre.push(curv));
                    assert(pre.push(curv) + split_rec(v@.skip(i + 1 as int), Seq::empty()) =~~= pre
                        + (seq![curv] + split_rec(v@.skip(i + 1 as int), Seq::empty())));
                }
            } else {
                proof {
                    assert(cur@ =~~= Seq::<char>::empty());
                    assert(split_rec(v@.skip(i as int), cur@) == Seq::<Seq<char>>::empty()
                        + split_rec(v@.skip(i + 1 as int), Seq::empty()));
                    assert(toks.deep_view() + (Seq::<Seq<char>>::empty() + split_rec(
                        v@.skip(i + 1 as int),
                        Seq::empty(),
                    )) =~~= toks.deep_view() + split_rec(v@.skip(i + 1 as int), Seq::empty()));
                }
            }
        } else {
            let ghost curv = cur@;
            let c = v[i];
            cur.push(c);
            proof {
                assert(split_rec(v@.skip(i as int), curv) == split_rec(
                    v@.skip(i + 1 as int),
                    curv.push(v@[i as int]),
                ));
                assert(cur@ == curv.push(v@[i as int]));
            }
        }
        proof {
            assert(split_rec(full, Seq::empty()) == toks.deep_view() + split_rec(
                v@.skip(i + 1 as int),
                cur@,
            ));
        }
        i = i + 1;
    }
    proof {
        assert(v@.skip(v.len() as int) =~~= Seq::<char>::empty());
    }
    if cur.len() > 0 {
        let ghost pre = toks.deep_view();
        let ghost curv = cur@;
        let done = cur;
        toks.push(done);
        proof {
            assert(toks.deep_view() =~~= pre.push(curv));
            assert(pre.push(curv) =~~= pre + seq![curv]);
        }
    } else {
        proof {
            assert(toks.deep_view() + Seq::<Seq<char>>::empty() =~~= toks.deep_view());
        }
    }
    toks
}

/// The parsed shape of a path: drive prefix, root flag, and tokens.
pub struct ParsedPath {
    pub drive: Option<Vec<char>>,
    pub root: bool,
    pub tokens: Vec<Vec<char>>,
}

impl ParsedPath {
    /// The parse agrees with the spec-level path model of `s`.
    pub open spec fn matches(&self, s: Seq<char>) -> bool {
        &&& self.drive is Some <==> has_drive(s)
        &&& has_drive(s) ==> self.drive->0@ == drive_of(s)
        &&& self.root == has_root(s)
        &&& self.tokens.deep_view() == tokens_of(s)
    }
}

/// Parse a path string into drive, root and tokens.
pub fn parse_path(path: &str) -> (p: ParsedPath)
    ensures
        p.matches(path@),
{
    let v = chars_vec(path);
    let mut drive: Option<Vec<char>> = None;
    let mut start: usize = 0;
    if v.len() >= 2 && is_ascii_alpha_exec(v[0]) && v[1] == ':' {
        let mut d: Vec<char> = Vec::new();
        d.push(v[0]);
        d.push(v[1]);
        proof {
            assert(d@ =~~= drive_of(path@));
        }
        drive = Some(d);
        start = 2;
    }
    proof {
        if start == 0 {
            assert(v@.skip(0) =~~= rest_of(path@));
        } else {
            assert(v@.skip(2) =~~= rest_of(path@));
        }
    }
    let root = start < v.len() && is_sep_exec(v[start]);
    let tokens = split_tokens(&v, start);
    ParsedPath { drive, root, tokens }
}

/// True when a token is the literal `.`.
pub fn tok_is_dot(t: &Vec<char>) -> (r: bool)
    ensures
        r == (t@ == dot_tok()),
{
    if t.len() == 1 && t[0] == '.' {
        proof {
            assert(t@ =~~= dot_tok());
        }
        true
    } else {
        proof {
            assert(t@ == dot_tok() ==> t@.len() == 1 && t@[0] == '.');
        }
        false
    }
}

/// True when a token is the literal `..`.
pub fn tok_is_dotdot(t: &Vec<char>) -> (r: bool)
    ensures
        r == (t@ == dotdot_tok()),
{
    if t.len() == 2 && t[0] == '.' && t[1] == '.' {
        proof {
            assert(t@ =~~= dotdot_tok());
        }
        true
    } else {
        proof {
            assert(t@ == dotdot_tok() ==> t@.len() == 2 && t@[0] == '.' && t@[1] == '.');
        }
        false
    }
}

/// One entry of the canonicalization stack: the token text and
/// whether a separator is printed before it.
#[verifier::ext_equal]
pub struct StackItem {
    pub sep: bool,
    pub text: Seq<char>,
}

/// Drop the top of the stack; popping an empty stack leaves it empty,
/// so `..` at the start of a path is absorbed.
pub open spec fn pop_stack(stack: Seq<StackItem>) -> Seq<StackItem> {
    if stack.len() > 0 {
        stack.drop_last()
    } else {
        stack
    }
}

/// Process the tokens left to right: `.` is dropped, `..` pops the
/// stack, and every other token is pushed, remembering whether a
/// separator precedes it.
pub open spec fn canon_fold(names: Seq<Seq<char>>, stack: Seq<StackItem>, sep: bool) -> Seq<
    StackItem,
>
    decreases names.len(),
{
    if names.len() == 0 {
        stack
    } else if names[0] == dot_tok() {
        canon_fold(names.drop_first(), stack, sep)
    } else if names[0] == dotdot_tok() {
        canon_fold(names.drop_first(), pop_stack(stack), sep)
    } else {
        canon_fold(names.drop_first(), stack.push(StackItem { sep, text: names[0] }), true)
    }
}

/// The stack the canonicalization of `s` starts from: the drive
/// prefix, then a kept leading `.` of a relative path.
pub open spec fn init_stack(s: Seq<char>) -> Seq<StackItem> {
    let base: Seq<StackItem> = if has_drive(s) {
        seq![StackItem { sep: false, text: drive_of(s) }]
    } else {
        Seq::empty()
    };
    if leading_cur(s) {
        base.push(StackItem { sep: false, text: dot_tok() })
    } else {
        base
    }
}

/// The canonicalization stack of a whole path.
pub open spec fn canon_stack(s: Seq<char>) -> Seq<StackItem> {
    let names = if leading_cur(s) {
        tokens_of(s).drop_first()
    } else {
        tokens_of(s)
    };
    canon_fold(names, init_stack(s), has_root(s))
}

/// Render the stack: each entry is preceded by `/` when it recorded a
/// separator.
pub open spec fn render_stack(stack: Seq<StackItem>) -> Seq<char>
    decreases stack.len(),
{
    if stack.len() == 0 {
        Seq::empty()
    } else {
        render_stack(stack.drop_last()) + (if stack.last().sep {
            seq!['/']
        } else {
            Seq::<char>::empty()
        }) + stack.last().text
    }
}

/// The lexical canonical form of a path: `.` and `..` resolved,
/// separators collapsed to single `/`, the empty result rendered as
/// `/`.
pub open spec fn canonicalize_spec(s: Seq<char>) -> Seq<char> {
    let stack = canon_stack(s);
    if stack.len() == 0 {
        seq!['/']
    } else {
        render_stack(stack)
    }
}

/// An exec-side stack entry.
struct ExecItem {
    sep: bool,
    text: Vec<char>,
}

impl ExecItem {
    spec fn view_item(&self) -> StackItem {
        StackItem { sep: self.sep, text: self.text@ }
    }
}

spec fn items_view(items: Seq<ExecItem>) -> Seq<StackItem> {
    items.map_values(|it: ExecItem| it.view_item())
}

/// Resolve `.` and `..` lexically and collapse separators, without
/// touching the filesystem; `${...}` placeholders pass through as
/// ordinary names.
pub fn canonicalize(path: &str) -> (r: String)
    ensures
        r@ == canonicalize_spec(path@),
{
    let parsed = parse_path(path);
    let has_drv = parsed.drive.is_some();
    let mut stack: Vec<ExecItem> = Vec::new();
    let mut sep: bool = parsed.root;
    let mut i: usize = 0;
    match parsed.drive {
        Some(d) => {
            stack.push(ExecItem { sep: false, text: d });
        },
        None => {},
    }
    let n = parsed.tokens.len();
    if !has_drv && !parsed.root && n > 0 && tok_is_dot(&parsed.tokens[0]) {
        let mut first: Vec<char> = Vec::new();
        first.push('.');
        proof {
            assert(first@ =~~= dot_tok());
        }
        stack.push(ExecItem { sep: false, text: first });
        i = 1;
    }
    proof {
        if parsed.tokens@.len() > 0 {
            assert(parsed.tokens.deep_view()[0] == parsed.tokens@[0].deep_view());
            assert(parsed.tokens@[0].deep_view() =~~= parsed.tokens@[0]@);
        }
        assert(items_view(stack@) =~~= init_stack(path@));
        if leading_cur(path@) {
            assert(parsed.tokens.deep_view().skip(1) =~~= tokens_of(path@).drop_first());
        } else {
            assert(parsed.tokens.deep_view().skip(0) =~~= tokens_of(path@));
        }
        assert(canon_stack(path@) == canon_fold(
            parsed.tokens.deep_view().skip(i as int),
            items_view(stack@),
            sep,
        ));
    }
    while i < parsed.tokens.len()
        invariant
            i <= parsed.tokens.len(),
            parsed.tokens.deep_view() == tokens_of(path@),
            canon_stack(path@) == canon_fold(
                parsed.tokens.deep_view().skip(i as int),
                items_view(stack@),
                sep,
            ),
        decreases parsed.tokens.len() - i,
    {
        proof {
            assert(parsed.tokens.deep_view().skip(i as int).drop_first() =~~= parsed.tokens
                .deep_view().skip(i + 1 as int));
            assert(parsed.tokens.deep_view().skip(i as int)[0] == parsed.tokens@[i as int]@);
        }
        if tok_is_dot(&parsed.tokens[i]) {
            // dropped by canonicalization
        } else if tok_is_dotdot(&parsed.tokens[i]) {
            let ghost pre = items_view(stack@);
            if stack.len() > 0 {
                let _ = stack.pop();
                proof {
                    assert(items_view(stack@) =~~= pre.drop_last());
                }
            }
            proof {
                assert(items_view(stack@) == pop_stack(pre));
            }
        } else {
            let ghost pre = items_view(stack@);
            let ghost oldsep = sep;
            let text = strutil::copy_chars(&parsed.tokens[i]);
            let ghost textv = text@;
            stack.push(ExecItem { sep, text });
            sep = true;
            proof {
                assert(items_view(stack@) =~~= pre.push(StackItem { sep: oldsep, text: textv }));
            }
        }
        i = i + 1;
    }
    proof {
        assert(parsed.tokens.deep_view().skip(parsed.tokens@.len() as int)
            =~~= Seq::<Seq<char>>::empty());
        assert(canon_stack(path@) == items_view(stack@));
    }
    let mut out = String::new();
    if stack.len() == 0 {
        strutil::push_char(&mut out, '/');
        proof {
            assert(out@ =~~= canonicalize_spec(path@));
        }
        return out;
    }
    let mut j: usize = 0;
    while j < stack.len()
        invariant
            j <= stack.len(),
            canon_stack(path@) == items_view(stack@),
            stack@.len() > 0,
            out@ == render_stack(items_view(stack@).take(j as int)),
        decreases stack.len() - j,
    {
        proof {
            assert(items_view(stack@).take(j + 1 as int).drop_last() =~~= items_view(stack@).take(
                j as int,
            ));
            assert(items_view(stack@).take(j + 1 as int).last() == stack@[j as int].view_item());
        }
        if stack[j].sep {
            strutil::push_char(&mut out, '/');
        }
        strutil::push_chars(&mut out, &stack[j].text);
        proof {
            assert(out@ =~~= render_stack(items_view(stack@).take(j + 1 as int)));
        }
        j = j + 1;
    }
    proof {
        assert(items_view(stack@).take(stack@.len() as int) =~~= items_view(stack@));
        assert(out@ == canonicalize_spec(path@));
    }
    out
}

/// `base` extended by one further path component, with a single `/`
/// inserted where needed; an absolute component replaces the base.
pub open spec fn join_spec(base: Seq<char>, comp: Seq<char>) -> Seq<char> {
    if comp.len() > 0 && is_sep(comp[0]) {
        comp
    } else if base.len() == 0 {
        comp
    } else if is_sep(base.last()) {
        base + comp
    } else {
        base + seq!['/'] + comp
    }
}

/// Append one component to a path held in a `String`.
pub fn push_join(base: &mut String, comp: &str)
    ensures
        final(base)@ == join_spec(old(base)@, comp@),
{
    let cv = chars_vec(comp);
    if cv.len() > 0 && is_sep_exec(cv[0]) {
        let mut out = String::new();
        strutil::push_chars(&mut out, &cv);
        proof {
            assert(out@ =~~= comp@);
        }
        *base = out;
        return ;
    }
    let bv = chars_vec(base.as_str());
    if bv.len() == 0 {
        strutil::push_chars(base, &cv);
        proof {
            assert(base@ =~~= join_spec(old(base)@, comp@));
        }
        return ;
    }
    if !is_sep_exec(bv[bv.len() - 1]) {
        strutil::push_char(base, '/');
        strutil::push_chars(base, &cv);
        proof {
            assert(base@ =~~= join_spec(old(base)@, comp@));
        }
    } else {
        strutil::push_chars(base, &cv);
        proof {
            assert(base@ =~~= join_spec(old(base)@, comp@));
        }
    }
}

/// Join a base path and a component into a fresh string.
pub fn join(base: &str, comp: &str) -> (r: String)
    ensures
        r@ == join_spec(base@, comp@),
{
    let mut out = String::new();
    out.append(base);
    proof {
        assert(out@ =~~= base@);
    }
    push_join(&mut out, comp);
    out
}

/// Name tokens joined with single `/` separators.
pub open spec fn join_tokens(toks: Seq<Seq<char>>) -> Seq<char>
    decreases toks.len(),
{
    if toks.len() == 0 {
        Seq::empty()
    } else if toks.len() == 1 {
        toks[0]
    } else {
        join_tokens(toks.drop_last()) + seq!['/'] + toks.last()
    }
}

/// A path rendered from its parts: drive prefix, root separator, and
/// tokens joined with `/`.
pub open spec fn render_parts(drive: Option<Seq<char>>, root: bool, toks: Seq<Seq<char>>) -> Seq<
    char,
> {
    (match drive {
        Some(d) => d,
        None => Seq::<char>::empty(),
    }) + (if root {
        seq!['/']
    } else {
        Seq::<char>::empty()
    }) + join_tokens(toks)
}

/// The view of an optional drive vector.
pub open spec fn drive_view(drive: Option<Vec<char>>) -> Option<Seq<char>> {
    match drive {
        Some(d) => Some(d@),
        None => None,
    }
}

impl ParsedPath {
    /// Render the first `upto` tokens of this parse back into a path.
    pub fn render_prefix(&self, upto: usize) -> (r: String)
        requires
            upto <= self.tokens@.len(),
        ensures
            r@ == render_parts(
                drive_view(self.drive),
                self.root,
                self.tokens.deep_view().take(upto as int),
            ),
    {
        let mut out = String::new();
        match &self.drive {
            Some(d) => {
                strutil::push_chars(&mut out, d);
            },
            None => {},
        }
        if self.root {
            strutil::push_char(&mut out, '/');
        }
        let ghost head = out@;
        proof {
            assert(head =~~= (match drive_view(self.drive) {
                Some(d) => d,
                None => Seq::<char>::empty(),
            }) + (if self.root {
                seq!['/']
            } else {
                Seq::<char>::empty()
            }));
            assert(head + join_tokens(self.tokens.deep_view().take(0)) =~~= head);
        }
        let mut j: usize = 0;
        while j < upto
            invariant
                j <= upto <= self.tokens@.len(),
                out@ == head + join_tokens(self.tokens.deep_view().take(j as int)),
                head + join_tokens(self.tokens.deep_view().take(upto as int)) == render_parts(
                    drive_view(self.drive),
                    self.root,
                    self.tokens.deep_view().take(upto as int),
                ),
            decreases upto - j,
        {
            proof {
                assert(self.tokens.deep_view().take(j + 1 as int).drop_last() =~~= self.tokens
                    .deep_view().take(j as int));
                assert(self.tokens.deep_view().take(j + 1 as int).last() == self.tokens
                    .deep_view()[j as int]);
                assert(self.tokens.deep_view()[j as int] == self.tokens@[j as int].deep_view());
                assert(self.tokens@[j as int].deep_view() =~~= self.tokens@[j as int]@);
            }
            if j > 0 {
                strutil::push_char(&mut out, '/');
            }
            strutil::push_chars(&mut out, &self.tokens[j]);
            proof {
                assert(out@ =~~= head + join_tokens(self.tokens.deep_view().take(j + 1 as int)));
            }
            j = j + 1;
        }
        out
    }
}

/// True when the two vectors hold the same characters.
pub fn chars_eq(a: &Vec<char>, b: &Vec<char>) -> (r: bool)
    ensures
        r == (a@ == b@),
{
    if a.len() != b.len() {
        return false;
    }
    let r = strutil::starts_with_chars(a, b);
    proof {
        assert(a@.take(b@.len() as int) =~= a@);
    }
    r
}

/// The drive prefix of a path as an option.
pub open spec fn drive_opt(s: Seq<char>) -> Option<Seq<char>> {
    if has_drive(s) {
        Some(drive_of(s))
    } else {
        None
    }
}

/// The directory part of a path: its parts rendered without the last
/// name token; a path without name tokens is its own parent here.
pub open spec fn parent_spec(p: Seq<char>) -> Seq<char> {
    if tokens_of(p).len() > 0 {
        render_parts(drive_opt(p), has_root(p), tokens_of(p).drop_last())
    } else {
        render_parts(drive_opt(p), has_root(p), tokens_of(p))
    }
}

/// The directory a path's file lives in, as [`parent_spec`] defines it.
pub fn parent_dir(p: &str) -> (r: String)
    ensures
        r@ == parent_spec(p@),
{
    let parsed = parse_path(p);
    let n = parsed.tokens.len();
    let upto: usize = if n > 0 {
        n - 1
    } else {
        0
    };
    let r = parsed.render_prefix(upto);
    proof {
        if n > 0 {
            assert(parsed.tokens.deep_view().take(n - 1 as int) =~~= tokens_of(p@).drop_last());
        } else {
            assert(parsed.tokens.deep_view().take(0) =~~= tokens_of(p@));
        }
        assert(drive_view(parsed.drive) == drive_opt(p@));
    }
    r
}

/// The path with its last `k` name tokens removed, keeping any drive
/// and root; dropping more tokens than the path has leaves nothing.
pub open spec fn ancestor_spec(p: Seq<char>, k: int) -> Seq<char> {
    if k <= tokens_of(p).len() {
        render_parts(drive_opt(p), has_root(p), tokens_of(p).take(tokens_of(p).len() - k))
    } else {
        Seq::empty()
    }
}

/// Remove the last `k` name tokens of a path, as [`ancestor_spec`]
/// defines it.
pub fn ancestor(p: &str, k: usize) -> (r: String)
    ensures
        r@ == ancestor_spec(p@, k as int),
{
    let parsed = parse_path(p);
    let n = parsed.tokens.len();
    if k <= n {
        let r = parsed.render_prefix(n - k);
        proof {
            assert(parsed.tokens.deep_view().take(n - k as int) =~~= tokens_of(p@).take(
                tokens_of(p@).len() - k,
            ));
            assert(drive_view(parsed.drive) == drive_opt(p@));
        }
        r
    } else {
        String::new()
    }
}

/// The final name token of a path, when it has one that names a real
/// file rather than `.` or `..`.
pub open spec fn file_name_opt(p: Seq<char>) -> Option<Seq<char>> {
    let toks = tokens_of(p);
    if toks.len() > 0 && toks.last() != dot_tok() && toks.last() != dotdot_tok() {
        Some(toks.last())
    } else {
        None
    }
}

/// The file name of a path, as [`file_name_opt`] defines it.
pub fn file_name(p: &str) -> (r: Option<String>)
    ensures
        r is Some <==> file_name_opt(p@) is Some,
        r is Some ==> r->0@ == file_name_opt(p@)->0,
{
    let parsed = parse_path(p);
    let n = parsed.tokens.len();
    if n == 0 {
        return None;
    }
    proof {
        assert(tokens_of(p@).last() == parsed.tokens.deep_view()[n - 1]);
        assert(parsed.tokens.deep_view()[n - 1] == parsed.tokens@[n - 1].deep_view());
        assert(parsed.tokens@[n - 1].deep_view() =~~= parsed.tokens@[n - 1]@);
    }
    if tok_is_dot(&parsed.tokens[n - 1]) || tok_is_dotdot(&parsed.tokens[n - 1]) {
        return None;
    }
    Some(strutil::string_from_chars(&parsed.tokens[n - 1]))
}

/// The glob token `**`, matching whole directory trees.
pub open spec fn glob_tok() -> Seq<char> {
    seq!['*', '*']
}

/// The tokens before the first `**` token.
pub open spec fn tokens_until_glob(toks: Seq<Seq<char>>) -> Seq<Seq<char>>
    decreases toks.len(),
{
    if toks.len() == 0 {
        toks
    } else if toks[0] == glob_tok() {
        Seq::empty()
    } else {
        seq![toks[0]] + tokens_until_glob(toks.drop_first())
    }
}

/// The number of leading tokens before the first `**` token.
pub fn glob_cut(toks: &Vec<Vec<char>>) -> (n: usize)
    ensures
        n <= toks@.len(),
        toks.deep_view().take(n as int) == tokens_until_glob(toks.deep_view()),
{
    let ghost full = toks.deep_view();
    let mut i: usize = 0;
    proof {
        assert(full.skip(0) =~~= full);
        assert(full.take(0) + tokens_until_glob(full.skip(0)) =~~= tokens_until_glob(full));
    }
    while i < toks.len()
        invariant
            i <= toks@.len(),
            full == toks.deep_view(),
            tokens_until_glob(full) == full.take(i as int) + tokens_until_glob(
                full.skip(i as int),
            ),
        decreases toks@.len() - i,
    {
        proof {
            assert(full.skip(i as int)[0] == full[i as int]);
            assert(full[i as int] == toks@[i as int].deep_view());
            assert(toks@[i as int].deep_view() =~~= toks@[i as int]@);
            assert(full.skip(i as int).drop_first() =~~= full.skip(i + 1 as int));
        }
        let mut g: Vec<char> = Vec::new();
        g.push('*');
        g.push('*');
        proof {
            assert(g@ =~~= glob_tok());
        }
        if chars_eq(&toks[i], &g) {
            proof {
                assert(tokens_until_glob(full.skip(i as int)) =~~= Seq::<Seq<char>>::empty());
                assert(full.take(i as int) + Seq::<Seq<char>>::empty() =~~= full.take(i as int));
            }
            return i;
        }
        proof {
            assert(full.take(i as int) + (seq![full[i as int]] + tokens_until_glob(
                full.skip(i + 1 as int),
            )) =~~= full.take(i + 1 as int) + tokens_until_glob(full.skip(i + 1 as int)));
        }
        i = i + 1;
    }
    proof {
        assert(full.skip(full.len() as int) =~~= Seq::<Seq<char>>::empty());
        assert(full.take(full.len() as int) + tokens_until_glob(Seq::<Seq<char>>::empty())
            =~~= full.take(full.len() as int));
    }
    toks.len()
}

/// True when the path model of `base` is a component-wise prefix of
/// the model of `m`: same drive, same root, and the tokens of `base`
/// lead those of `m`.
pub open spec fn is_model_prefix(base: Seq<char>, m: Seq<char>) -> bool {
    &&& has_drive(base) == has_drive(m)
    &&& has_drive(base) ==> drive_of(base) == drive_of(m)
    &&& has_root(base) == has_root(m)
    &&& tokens_of(base).len() <= tokens_of(m).len()
    &&& tokens_of(m).take(tokens_of(base).len() as int) == tokens_of(base)
}

/// The sub-path of `m` below `base`: the remaining tokens joined with
/// `/`, when the model of `base` is a prefix of the model of `m`.
pub fn rel_to_base(m: &str, base: &str) -> (r: Option<String>)
    ensures
        r is Some <==> is_model_prefix(base@, m@),
        r is Some ==> r->0@ == join_tokens(tokens_of(m@).skip(tokens_of(base@).len() as int)),
{
    let pm = parse_path(m);
    let pb = parse_path(base);
    let drive_ok: bool = match (&pm.drive, &pb.drive) {
        (Some(dm), Some(db)) => chars_eq(dm, db),
        (None, None) => true,
        _ => false,
    };
    if !drive_ok || pm.root != pb.root || pb.tokens.len() > pm.tokens.len() {
        proof {
            assert(!is_model_prefix(base@, m@));
        }
        return None;
    }
    let nb = pb.tokens.len();
    let mut k: usize = 0;
    while k < nb
        invariant
            k <= nb <= pm.tokens@.len(),
            nb == pb.tokens@.len(),
            pm.matches(m@),
            pb.matches(base@),
            forall|j: int| 0 <= j < k ==> tokens_of(m@)[j] == tokens_of(base@)[j],
        decreases nb - k,
    {
        proof {
            assert(pm.tokens.deep_view()[k as int] == pm.tokens@[k as int].deep_view());
            assert(pm.tokens@[k as int].deep_view() =~~= pm.tokens@[k as int]@);
            assert(pb.tokens.deep_view()[k as int] == pb.tokens@[k as int].deep_view());
            assert(pb.tokens@[k as int].deep_view() =~~= pb.tokens@[k as int]@);
        }
        if !chars_eq(&pm.tokens[k], &pb.tokens[k]) {
            proof {
                assert(tokens_of(m@).take(tokens_of(base@).len() as int)[k as int] != tokens_of(
                    base@,
                )[k as int]);
            }
            return None;
        }
        k = k + 1;
    }
    proof {
        assert(tokens_of(m@).take(tokens_of(base@).len() as int) =~~= tokens_of(base@));
        assert(is_model_prefix(base@, m@));
    }
    let mut out = String::new();
    let ghost restv = tokens_of(m@).skip(tokens_of(base@).len() as int);
    proof {
        assert(join_tokens(restv.take(0)) =~~= Seq::<char>::empty());
    }
    let mut j: usize = nb;
    while j < pm.tokens.len()
        invariant
            nb <= j <= pm.tokens@.len(),
            nb == pb.tokens@.len(),
            pm.matches(m@),
            pb.matches(base@),
            restv == tokens_of(m@).skip(tokens_of(base@).len() as int),
            out@ == join_tokens(restv.take(j - nb as int)),
        decreases pm.tokens@.len() - j,
    {
        proof {
            assert(restv.take(j - nb + 1 as int).drop_last() =~~= restv.take(j - nb as int));
            assert(restv.take(j - nb + 1 as int).last() == tokens_of(m@)[j as int]);
            assert(pm.tokens.deep_view()[j as int] == pm.tokens@[j as int].deep_view());
            assert(pm.tokens@[j as int].deep_view() =~~= pm.tokens@[j as int]@);
        }
        if j > nb {
            strutil::push_char(&mut out, '/');
        }
        strutil::push_chars(&mut out, &pm.tokens[j]);
        proof {
            assert(out@ =~~= join_tokens(restv.take(j - nb + 1 as int)));
        }
        j = j + 1;
    }
    proof {
        assert(restv.take(pm.tokens@.len() - nb as int) =~~= restv);
    }
    Some(out)
}

} // verus!
