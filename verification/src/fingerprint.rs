//! Content fingerprinting: decide whether derived artifacts can be
//! reused, and persist the record that carries the hash and the
//! discovered system-link libraries across runs.

use vstd::prelude::*;

use crate::build_targets::BuildTargets;
use crate::config::CApiConfig;
use crate::install::InstallPaths;
use crate::paths;
use crate::strutil;
use crate::strutil::{dec_str, join_with};
use crate::version::{LibraryVersion, VersionSuffix};

verus! {

/// One step of the 64-bit FNV-1a hash.
pub open spec fn fnv_step(h: u64, b: u8) -> u64 {
    ((((h ^ (b as u64)) as nat) * 0x100000001b3) % 0x10000000000000000) as u64
}

/// The running FNV-1a hash of `data` continued from `h`.
pub open spec fn fnv_rec(data: Seq<u8>, h: u64) -> u64
    decreases data.len(),
{
    if data.len() == 0 {
        h
    } else {
        fnv_rec(data.drop_first(), fnv_step(h, data[0]))
    }
}

/// The 64-bit FNV-1a hash of a byte sequence.
pub open spec fn fnv1a(data: Seq<u8>) -> u64 {
    fnv_rec(data, 0xcbf29ce484222325)
}

/// Hash a byte vector with 64-bit FNV-1a.
pub fn fnv1a_hash(data: &Vec<u8>) -> (r: u64)
    ensures
        r == fnv1a(data@),
{
    let mut h: u64 = 0xcbf29ce484222325;
    let mut i: usize = 0;
    proof {
        assert(data@.skip(0) =~= data@);
    }
    while i < data.len()
        invariant
            i <= data@.len(),
            fnv1a(data@) == fnv_rec(data@.skip(i as int), h),
        decreases data@.len() - i,
    {
        proof {
            assert(data@.skip(i as int)[0] == data@[i as int]);
            assert(data@.skip(i as int).drop_first() =~= data@.skip(i + 1 as int));
        }
        h = (h ^ (data[i] as u64)).wrapping_mul(0x100000001b3);
        i = i + 1;
    }
    proof {
        assert(data@.skip(data@.len() as int) =~= Seq::<u8>::empty());
    }
    h
}

/// A `u64` as eight little-endian bytes.
pub open spec fn enc_u64(n: u64) -> Seq<u8> {
    seq![
        (n & 0xff) as u8,
        ((n >> 8) & 0xff) as u8,
        ((n >> 16) & 0xff) as u8,
        ((n >> 24) & 0xff) as u8,
        ((n >> 32) & 0xff) as u8,
        ((n >> 40) & 0xff) as u8,
        ((n >> 48) & 0xff) as u8,
        ((n >> 56) & 0xff) as u8,
    ]
}

/// A character as four little-endian bytes of its code point.
pub open spec fn enc_char(c: char) -> Seq<u8> {
    seq![
        ((c as u32) & 0xff) as u8,
        (((c as u32) >> 8) & 0xff) as u8,
        (((c as u32) >> 16) & 0xff) as u8,
        (((c as u32) >> 24) & 0xff) as u8,
    ]
}

/// The characters of `s`, each encoded by [`enc_char`].
pub open spec fn enc_chars(s: Seq<char>) -> Seq<u8>
    decreases s.len(),
{
    if s.len() == 0 {
        Seq::empty()
    } else {
        enc_char(s[0]) + enc_chars(s.drop_first())
    }
}

/// A string encoded with its length in front, so that no two
/// sequences of fields share an encoding.
pub open spec fn enc_str(s: Seq<char>) -> Seq<u8> {
    enc_u64(s.len() as u64) + enc_chars(s)
}

/// A boolean as one byte.
pub open spec fn enc_bool(b: bool) -> Seq<u8> {
    if b {
        seq![1u8]
    } else {
        seq![0u8]
    }
}

/// An optional string: a presence byte, then the string itself.
pub open spec fn enc_opt_str(s: Option<Seq<char>>) -> Seq<u8> {
    match s {
        Some(v) => seq![1u8] + enc_str(v),
        None => seq![0u8],
    }
}

/// The version-suffix policy as one byte.
pub open spec fn enc_policy(p: Option<VersionSuffix>) -> Seq<u8> {
    match p {
        None => seq![0u8],
        Some(VersionSuffix::Major) => seq![1u8],
        Some(VersionSuffix::MajorMinor) => seq![2u8],
        Some(VersionSuffix::MajorMinorPatch) => seq![3u8],
    }
}

/// A semantic version as its three components.
pub open spec fn enc_version(v: LibraryVersion) -> Seq<u8> {
    enc_u64(v.major) + enc_u64(v.minor) + enc_u64(v.patch)
}

/// The encoding of everything in the configuration and the layout
/// that the fingerprint covers: a change to any of these fields
/// changes the stream.
pub open spec fn encode_config_spec(capi: CApiConfig, paths: InstallPaths) -> Seq<u8> {
    enc_str(capi.library.name@) + enc_version(capi.library.version) + enc_opt_str(
        match &capi.library.install_subdir {
            Some(s) => Some(s@),
            None => None,
        },
    ) + enc_bool(capi.library.versioning) + enc_policy(capi.library.version_suffix_components)
        + enc_bool(capi.library.import_library) + enc_str(capi.header.name@) + enc_str(
        capi.header.subdirectory@,
    ) + enc_bool(capi.header.generation) + enc_bool(capi.header.enabled) + enc_str(
        capi.pkg_config.name@,
    ) + enc_str(capi.pkg_config.filename@) + enc_str(capi.pkg_config.description@) + enc_str(
        capi.pkg_config.version@,
    ) + enc_opt_str(
        match &capi.pkg_config.requires {
            Some(s) => Some(s@),
            None => None,
        },
    ) + enc_opt_str(
        match &capi.pkg_config.requires_private {
            Some(s) => Some(s@),
            None => None,
        },
    ) + enc_u64(capi.pkg_config.strip_include_path_components as u64) + enc_opt_str(
        match &paths.destdir {
            Some(s) => Some(s@),
            None => None,
        },
    ) + enc_str(paths.prefix@) + enc_str(paths.libdir@) + enc_str(paths.includedir@) + enc_str(
        paths.datadir@,
    ) + enc_str(paths.bindir@) + enc_str(paths.pkgconfigdir@) + enc_str(paths.subdir_name@)
}

fn push_u64_bytes(out: &mut Vec<u8>, n: u64)
    ensures
        final(out)@ == old(out)@ + enc_u64(n),
{
    out.push((n & 0xff) as u8);
    out.push(((n >> 8) & 0xff) as u8);
    out.push(((n >> 16) & 0xff) as u8);
    out.push(((n >> 24) & 0xff) as u8);
    out.push(((n >> 32) & 0xff) as u8);
    out.push(((n >> 40) & 0xff) as u8);
    out.push(((n >> 48) & 0xff) as u8);
    out.push(((n >> 56) & 0xff) as u8);
    proof {
        assert(out@ =~= old(out)@ + enc_u64(n));
    }
}

fn push_str_bytes(out: &mut Vec<u8>, s: &str)
    ensures
        final(out)@ == old(out)@ + enc_str(s@),
{
    let v = strutil::chars_vec(s);
    push_u64_bytes(out, v.len() as u64);
    let ghost mid = out@;
    let mut i: usize = 0;
    proof {
        assert(v@.skip(0) =~= v@);
        assert(mid + Seq::<u8>::empty() =~= mid);
        assert(enc_chars(v@) == Seq::<u8>::empty() + enc_chars(v@.skip(0)));
    }
    while i < v.len()
        invariant
            i <= v@.len(),
            v@ == s@,
            enc_chars(v@) == out@.skip(mid.len() as int) + enc_chars(v@.skip(i as int)),
            out@.len() >= mid.len(),
            out@.take(mid.len() as int) == mid,
        decreases v@.len() - i,
    {
        proof {
            assert(v@.skip(i as int)[0] == v@[i as int]);
            assert(v@.skip(i as int).drop_first() =~= v@.skip(i + 1 as int));
        }
        let c = v[i];
        let code = c as u32;
        let ghost pre = out@;
        out.push((code & 0xff) as u8);
        out.push(((code >> 8) & 0xff) as u8);
        out.push(((code >> 16) & 0xff) as u8);
        out.push(((code >> 24) & 0xff) as u8);
        proof {
            assert(out@ =~= pre + enc_char(v@[i as int]));
            assert(out@.skip(mid.len() as int) =~= pre.skip(mid.len() as int) + enc_char(
                v@[i as int],
            ));
            assert(pre.skip(mid.len() as int) + enc_char(v@[i as int]) + enc_chars(
                v@.skip(i + 1 as int),
            ) =~= pre.skip(mid.len() as int) + (enc_char(v@[i as int]) + enc_chars(
                v@.skip(i + 1 as int),
            )));
            assert(out@.take(mid.len() as int) =~= mid);
        }
        i = i + 1;
    }
    proof {
        assert(v@.skip(v@.len() as int) =~= Seq::<char>::empty());
        assert(out@.skip(mid.len() as int) + Seq::<u8>::empty() =~= out@.skip(mid.len() as int));
        assert(out@ =~= out@.take(mid.len() as int) + out@.skip(mid.len() as int));
        assert(out@ =~= old(out)@ + enc_str(s@));
    }
}

fn push_bool_byte(out: &mut Vec<u8>, b: bool)
    ensures
        final(out)@ == old(out)@ + enc_bool(b),
{
    if b {
        out.push(1u8);
    } else {
        out.push(0u8);
    }
    proof {
        assert(out@ =~= old(out)@ + enc_bool(b));
    }
}

fn push_opt_str_bytes(out: &mut Vec<u8>, s: &Option<String>)
    ensures
        final(out)@ == old(out)@ + enc_opt_str(
            match s {
                Some(v) => Some(v@),
                None => None,
            },
        ),
{
    match s {
        Some(v) => {
            let ghost pre = out@;
            out.push(1u8);
            push_str_bytes(out, v.as_str());
            proof {
                assert(out@ =~= pre + enc_opt_str(Some(v@)));
            }
        },
        None => {
            out.push(0u8);
            proof {
                assert(out@ =~= old(out)@ + enc_opt_str(None));
            }
        },
    }
}

/// Encode the configuration and layout, as [`encode_config_spec`]
/// lays the fields out.
#[verifier::rlimit(60)]
pub fn encode_config(capi: &CApiConfig, paths: &InstallPaths) -> (r: Vec<u8>)
    ensures
        r@ == encode_config_spec(*capi, *paths),
{
    let mut out: Vec<u8> = Vec::new();
    push_str_bytes(&mut out, capi.library.name.as_str());
    push_u64_bytes(&mut out, capi.library.version.major);
    push_u64_bytes(&mut out, capi.library.version.minor);
    push_u64_bytes(&mut out, capi.library.version.patch);
    push_opt_str_bytes(&mut out, &capi.library.install_subdir);
    push_bool_byte(&mut out, capi.library.versioning);
    let policy_byte: u8 = match capi.library.version_suffix_components {
        None => 0,
        Some(VersionSuffix::Major) => 1,
        Some(VersionSuffix::MajorMinor) => 2,
        Some(VersionSuffix::MajorMinorPatch) => 3,
    };
    out.push(policy_byte);
    push_bool_byte(&mut out, capi.library.import_library);
    let ghost acc1 = enc_str(capi.library.name@) + enc_version(capi.library.version) + enc_opt_str(
        match &capi.library.install_subdir {
            Some(s) => Some(s@),
            None => None,
        },
    ) + enc_bool(capi.library.versioning) + enc_policy(capi.library.version_suffix_components)
        + enc_bool(capi.library.import_library);
    proof {
        assert(out@ =~= acc1);
    }
    push_str_bytes(&mut out, capi.header.name.as_str());
    push_str_bytes(&mut out, capi.header.subdirectory.as_str());
    push_bool_byte(&mut out, capi.header.generation);
    push_bool_byte(&mut out, capi.header.enabled);
    let ghost acc2 = acc1 + enc_str(capi.header.name@) + enc_str(capi.header.subdirectory@)
        + enc_bool(capi.header.generation) + enc_bool(capi.header.enabled);
    proof {
        assert(out@ =~= acc2);
    }
    push_str_bytes(&mut out, capi.pkg_config.name.as_str());
    push_str_bytes(&mut out, capi.pkg_config.filename.as_str());
    push_str_bytes(&mut out, capi.pkg_config.description.as_str());
    push_str_bytes(&mut out, capi.pkg_config.version.as_str());
    push_opt_str_bytes(&mut out, &capi.pkg_config.requires);
    push_opt_str_bytes(&mut out, &capi.pkg_config.requires_private);
    push_u64_bytes(&mut out, capi.pkg_config.strip_include_path_components as u64);
    let ghost acc3 = acc2 + enc_str(capi.pkg_config.name@) + enc_str(capi.pkg_config.filename@)
        + enc_str(capi.pkg_config.description@) + enc_str(capi.pkg_config.version@) + enc_opt_str(
        match &capi.pkg_config.requires {
            Some(s) => Some(s@),
            None => None,
        },
    ) + enc_opt_str(
        match &capi.pkg_config.requires_private {
            Some(s) => Some(s@),
            None => None,
        },
    ) + enc_u64(capi.pkg_config.strip_include_path_components as u64);
    proof {
        assert(out@ =~= acc3);
    }
    push_opt_str_bytes(&mut out, &paths.destdir);
    push_str_bytes(&mut out, paths.prefix.as_str());
    push_str_bytes(&mut out, paths.libdir.as_str());
    push_str_bytes(&mut out, paths.includedir.as_str());
    push_str_bytes(&mut out, paths.datadir.as_str());
    push_str_bytes(&mut out, paths.bindir.as_str());
    push_str_bytes(&mut out, paths.pkgconfigdir.as_str());
    push_str_bytes(&mut out, paths.subdir_name.as_str());
    proof {
        assert(out@ =~= encode_config_spec(*capi, *paths));
    }
    out
}

/// The bytes of one tracked artifact, or nothing when the build does
/// not produce it.
pub open spec fn tracked_bytes(path: Option<String>, bytes: Option<Seq<u8>>) -> Seq<u8> {
    if path is Some {
        bytes->0
    } else {
        Seq::empty()
    }
}

/// The fingerprint over configuration and artifact content: the
/// encoded configuration, then the bytes of header, static library
/// and shared library in that fixed order.  A tracked artifact whose
/// bytes could not be read leaves the fingerprint undefined, which
/// forces a cache miss rather than a false match.
pub open spec fn fingerprint_spec(
    capi: CApiConfig,
    paths: InstallPaths,
    bt: BuildTargets,
    header_bytes: Option<Seq<u8>>,
    static_bytes: Option<Seq<u8>>,
    shared_bytes: Option<Seq<u8>>,
) -> Option<u64> {
    if (bt.include_file is Some && header_bytes is None) || (bt.static_lib is Some && static_bytes
        is None) || (bt.shared_lib is Some && shared_bytes is None) {
        None
    } else {
        Some(
            fnv1a(
                encode_config_spec(capi, paths) + tracked_bytes(bt.include_file, header_bytes)
                    + tracked_bytes(bt.static_lib, static_bytes) + tracked_bytes(
                    bt.shared_lib,
                    shared_bytes,
                ),
            ),
        )
    }
}

/// Compute the fingerprint of a build; each `Option<&Vec<u8>>` is the
/// content of the corresponding artifact, `None` when it could not be
/// read.
pub fn fingerprint(
    capi: &CApiConfig,
    paths: &InstallPaths,
    bt: &BuildTargets,
    header_bytes: Option<&Vec<u8>>,
    static_bytes: Option<&Vec<u8>>,
    shared_bytes: Option<&Vec<u8>>,
) -> (r: Option<u64>)
    ensures
        r == fingerprint_spec(
            *capi,
            *paths,
            *bt,
            match header_bytes {
                Some(b) => Some(b@),
                None => None,
            },
            match static_bytes {
                Some(b) => Some(b@),
                None => None,
            },
            match shared_bytes {
                Some(b) => Some(b@),
                None => None,
            },
        ),
{
    let mut stream = encode_config(capi, paths);
    let ghost cfg_bytes = stream@;
    if bt.include_file.is_some() {
        match header_bytes {
            Some(b) => {
                let mut i: usize = 0;
                while i < b.len()
                    invariant
                        i <= b@.len(),
                        stream@ == cfg_bytes + b@.take(i as int),
                    decreases b@.len() - i,
                {
                    stream.push(b[i]);
                    proof {
                        assert(stream@ =~= cfg_bytes + b@.take(i + 1 as int));
                    }
                    i = i + 1;
                }
                proof {
                    assert(b@.take(b@.len() as int) =~= b@);
                }
            },
            None => {
                return None;
            },
        }
    }
    let ghost after_header = stream@;
    if bt.static_lib.is_some() {
        match static_bytes {
            Some(b) => {
                let mut i: usize = 0;
                while i < b.len()
                    invariant
                        i <= b@.len(),
                        stream@ == after_header + b@.take(i as int),
                    decreases b@.len() - i,
                {
                    stream.push(b[i]);
                    proof {
                        assert(stream@ =~= after_header + b@.take(i + 1 as int));
                    }
                    i = i + 1;
                }
                proof {
                    assert(b@.take(b@.len() as int) =~= b@);
                }
            },
            None => {
                return None;
            },
        }
    }
    let ghost after_static = stream@;
    if bt.shared_lib.is_some() {
        match shared_bytes {
            Some(b) => {
                let mut i: usize = 0;
                while i < b.len()
                    invariant
                        i <= b@.len(),
                        stream@ == after_static + b@.take(i as int),
                    decreases b@.len() - i,
                {
                    stream.push(b[i]);
                    proof {
                        assert(stream@ =~= after_static + b@.take(i + 1 as int));
                    }
                    i = i + 1;
                }
                proof {
                    assert(b@.take(b@.len() as int) =~= b@);
                }
            },
            None => {
                return None;
            },
        }
    }
    let h = fnv1a_hash(&stream);
    proof {
        assert(stream@ =~= encode_config_spec(*capi, *paths) + tracked_bytes(
            bt.include_file,
            match header_bytes {
                Some(b) => Some(b@),
                None => None,
            },
        ) + tracked_bytes(
            bt.static_lib,
            match static_bytes {
                Some(b) => Some(b@),
                None => None,
            },
        ) + tracked_bytes(
            bt.shared_lib,
            match shared_bytes {
                Some(b) => Some(b@),
                None => None,
            },
        ));
    }
    Some(h)
}

/// The fingerprint is a function of its inputs alone: two runs over
/// the same configuration, layout, targets and artifact bytes yield
/// the same value.
pub proof fn lemma_fingerprint_deterministic(
    capi: CApiConfig,
    paths: InstallPaths,
    bt: BuildTargets,
    h1: Option<Seq<u8>>,
    s1: Option<Seq<u8>>,
    d1: Option<Seq<u8>>,
    h2: Option<Seq<u8>>,
    s2: Option<Seq<u8>>,
    d2: Option<Seq<u8>>,
)
    requires
        h1 == h2,
        s1 == s2,
        d1 == d2,
    ensures
        fingerprint_spec(capi, paths, bt, h1, s1, d1) == fingerprint_spec(
            capi,
            paths,
            bt,
            h2,
            s2,
            d2,
        ),
{
}

/// A tracked artifact that cannot be read leaves the fingerprint
/// undefined rather than producing a stale value.
pub proof fn lemma_missing_artifact_no_fingerprint(
    capi: CApiConfig,
    paths: InstallPaths,
    bt: BuildTargets,
    header_bytes: Option<Seq<u8>>,
    static_bytes: Option<Seq<u8>>,
    shared_bytes: Option<Seq<u8>>,
)
    requires
        (bt.include_file is Some && header_bytes is None) || (bt.static_lib is Some && static_bytes
            is None) || (bt.shared_lib is Some && shared_bytes is None),
    ensures
        fingerprint_spec(capi, paths, bt, header_bytes, static_bytes, shared_bytes) is None,
{
}

/// The name of the per-library cache file; the library name keeps
/// several libraries sharing one output directory apart.
pub fn cache_path(root_output: &str, name: &str) -> (r: String)
    ensures
        r@ == paths::join_spec(root_output@, "cargo-c-"@ + name@ + ".cache"@),
{
    let mut file = String::from_str("cargo-c-");
    file.append(name);
    file.append(".cache");
    proof {
        assert(file@ =~= "cargo-c-"@ + name@ + ".cache"@);
    }
    paths::join(root_output, file.as_str())
}

/// The persisted record of one successful run: the content hash,
/// kept as a string to survive the numeric limits of the persisted
/// format, and the discovered system-link libraries.
#[derive(Debug)]
pub struct FingerprintRecord {
    pub hash: String,
    pub static_libs: Vec<String>,
}

/// One character of a stored string, escaped: backslash, quote and
/// the line-control characters hide behind a backslash so that a
/// record stays one line per field.
pub open spec fn esc_char(c: char) -> Seq<char> {
    if c == '\\' {
        seq!['\\', '\\']
    } else if c == '"' {
        seq!['\\', '"']
    } else if c == '\n' {
        seq!['\\', 'n']
    } else if c == '\r' {
        seq!['\\', 'r']
    } else if c == '\t' {
        seq!['\\', 't']
    } else {
        seq![c]
    }
}

/// A whole string escaped character by character.
pub open spec fn esc(s: Seq<char>) -> Seq<char>
    decreases s.len(),
{
    if s.len() == 0 {
        Seq::empty()
    } else {
        esc_char(s[0]) + esc(s.drop_first())
    }
}

/// The character an escape code stands for, when it is a valid code.
pub open spec fn unesc_char(c: char) -> Option<char> {
    if c == '\\' {
        Some('\\')
    } else if c == '"' {
        Some('"')
    } else if c == 'n' {
        Some('\n')
    } else if c == 'r' {
        Some('\r')
    } else if c == 't' {
        Some('\t')
    } else {
        None
    }
}

/// Read an escaped string up to its closing quote: the decoded
/// content and what follows the quote.
pub open spec fn scan_str(s: Seq<char>) -> Option<(Seq<char>, Seq<char>)>
    decreases s.len(),
{
    if s.len() == 0 {
        None
    } else if s[0] == '"' {
        Some((Seq::empty(), s.drop_first()))
    } else if s[0] == '\\' {
        if s.len() < 2 {
            None
        } else {
            match unesc_char(s[1]) {
                None => None,
                Some(d) => match scan_str(s.skip(2)) {
                    None => None,
                    Some(p) => Some((seq![d] + p.0, p.1)),
                },
            }
        }
    } else {
        match scan_str(s.drop_first()) {
            None => None,
            Some(p) => Some((seq![s[0]] + p.0, p.1)),
        }
    }
}

/// A successful scan consumes at least the closing quote.
pub proof fn lemma_scan_len(s: Seq<char>)
    ensures
        scan_str(s) is Some ==> (scan_str(s)->0).1.len() < s.len(),
    decreases s.len(),
{
    if s.len() == 0 {
    } else if s[0] == '"' {
    } else if s[0] == '\\' {
        if s.len() >= 2 {
            lemma_scan_len(s.skip(2));
        }
    } else {
        lemma_scan_len(s.drop_first());
    }
}

/// Scanning an escaped string finds exactly the original content and
/// leaves exactly what followed the closing quote.
pub proof fn lemma_scan_esc(content: Seq<char>, rest: Seq<char>)
    ensures
        scan_str(esc(content) + seq!['"'] + rest) == Some((content, rest)),
    decreases content.len(),
{
    let s = esc(content) + seq!['"'] + rest;
    if content.len() == 0 {
        assert(s =~= seq!['"'] + rest);
        assert(s[0] == '"');
        assert(s.drop_first() =~= rest);
    } else {
        let c = content[0];
        lemma_scan_esc(content.drop_first(), rest);
        let tail = esc(content.drop_first()) + seq!['"'] + rest;
        assert(s =~= esc_char(c) + tail);
        if c == '\\' || c == '"' || c == '\n' || c == '\r' || c == '\t' {
            assert(esc_char(c).len() == 2);
            assert(s[0] == '\\');
            assert(unesc_char(s[1]) == Some(c));
            assert(s.skip(2) =~= tail);
            assert(seq![c] + content.drop_first() =~= content);
        } else {
            assert(esc_char(c) =~= seq![c]);
            assert(s[0] == c);
            assert(s.drop_first() =~= tail);
            assert(seq![c] + content.drop_first() =~= content);
        }
    }
}

/// Read a bracketed list of quoted strings; returns the items and
/// what follows the closing bracket.
pub open spec fn parse_items(s: Seq<char>) -> Option<(Seq<Seq<char>>, Seq<char>)>
    decreases s.len(),
    via parse_items_dec
{
    if s.len() == 0 {
        None
    } else if s[0] == '"' {
        match scan_str(s.drop_first()) {
            None => None,
            Some(p) => {
                if p.1.len() >= 2 && p.1[0] == ',' && p.1[1] == ' ' {
                    match parse_items(p.1.skip(2)) {
                        None => None,
                        Some(q) => Some((seq![p.0] + q.0, q.1)),
                    }
                } else if p.1.len() >= 1 && p.1[0] == ']' {
                    Some((seq![p.0], p.1.drop_first()))
                } else {
                    None
                }
            },
        }
    } else {
        None
    }
}

#[via_fn]
proof fn parse_items_dec(s: Seq<char>) {
    if s.len() > 0 && s[0] == '"' {
        lemma_scan_len(s.drop_first());
    }
}

/// The leading text of the hash line.
pub open spec fn hash_prefix() -> Seq<char> {
    "hash = "@
}

/// The leading text of the list line.
pub open spec fn libs_prefix() -> Seq<char> {
    "static_libs = ["@
}

/// A string in quotes, escaped.
pub open spec fn quoted(s: Seq<char>) -> Seq<char> {
    seq!['"'] + esc(s) + seq!['"']
}

/// The stored form of a record: the hash string and the list of
/// system-link libraries, one line each.
pub open spec fn render_record_spec(hash: Seq<char>, static_libs: Seq<Seq<char>>) -> Seq<char> {
    hash_prefix() + quoted(hash) + seq!['\n'] + libs_prefix() + join_with(
        seq![',', ' '],
        static_libs.map_values(|x: Seq<char>| quoted(x)),
    ) + seq![']'] + seq!['\n']
}

/// Read a stored record back: the hash string and the list.
pub open spec fn parse_record_spec(s: Seq<char>) -> Option<(Seq<char>, Seq<Seq<char>>)> {
    if strutil::is_prefix_of(hash_prefix(), s) {
        let t = s.skip(hash_prefix().len() as int);
        if t.len() > 0 && t[0] == '"' {
            match scan_str(t.drop_first()) {
                None => None,
                Some(p) => {
                    if p.1.len() > 0 && p.1[0] == '\n' && strutil::is_prefix_of(
                        libs_prefix(),
                        p.1.drop_first(),
                    ) {
                        let u = p.1.drop_first().skip(libs_prefix().len() as int);
                        if u.len() == 2 && u[0] == ']' && u[1] == '\n' {
                            Some((p.0, Seq::empty()))
                        } else {
                            match parse_items(u) {
                                None => None,
                                Some(q) => {
                                    if q.1.len() == 1 && q.1[0] == '\n' {
                                        Some((p.0, q.0))
                                    } else {
                                        None
                                    }
                                },
                            }
                        }
                    } else {
                        None
                    }
                },
            }
        } else {
            None
        }
    } else {
        None
    }
}

/// A joined list decomposes at the front as well.
proof fn lemma_join_front(sep: Seq<char>, items: Seq<Seq<char>>)
    requires
        items.len() >= 2,
    ensures
        join_with(sep, items) == items[0] + sep + join_with(sep, items.drop_first()),
    decreases items.len(),
{
    if items.len() == 2 {
        assert(items.drop_last() =~~= seq![items[0]]);
        assert(items.drop_first() =~~= seq![items[1]]);
        assert(join_with(sep, items) == join_with(sep, items.drop_last()) + sep + items.last());
        assert(join_with(sep, items.drop_last()) == items[0]);
        assert(join_with(sep, items.drop_first()) == items[1]);
    } else {
        lemma_join_front(sep, items.drop_last());
        assert(items.drop_last().drop_first() =~~= items.drop_first().drop_last());
        assert(items.drop_first().last() == items.last());
        assert(join_with(sep, items) == join_with(sep, items.drop_last()) + sep + items.last());
        assert(join_with(sep, items.drop_last()) == items[0] + sep + join_with(
            sep,
            items.drop_last().drop_first(),
        ));
        assert(join_with(sep, items.drop_first()) == join_with(
            sep,
            items.drop_first().drop_last(),
        ) + sep + items.last());
        assert(items[0] + sep + (join_with(sep, items.drop_first().drop_last()) + sep
            + items.last()) =~= (items[0] + sep + join_with(sep, items.drop_first().drop_last()))
            + sep + items.last());
    }
}

/// Reading back a rendered non-empty list yields the list and the
/// text after the bracket.
proof fn lemma_parse_items_render(items: Seq<Seq<char>>, tail: Seq<char>)
    requires
        items.len() >= 1,
    ensures
        parse_items(
            join_with(seq![',', ' '], items.map_values(|x: Seq<char>| quoted(x))) + seq![']']
                + tail,
        ) == Some((items, tail)),
    decreases items.len(),
{
    let rendered = join_with(seq![',', ' '], items.map_values(|x: Seq<char>| quoted(x)));
    let s = rendered + seq![']'] + tail;
    if items.len() == 1 {
        assert(rendered == quoted(items[0]));
        assert(s =~= seq!['"'] + (esc(items[0]) + seq!['"'] + (seq![']'] + tail)));
        assert(s[0] == '"');
        assert(s.drop_first() =~= esc(items[0]) + seq!['"'] + (seq![']'] + tail));
        lemma_scan_esc(items[0], seq![']'] + tail);
        let p = scan_str(s.drop_first())->0;
        assert(p.0 == items[0]);
        assert(p.1 == seq![']'] + tail);
        assert(p.1[0] == ']');
        assert(!(p.1.len() >= 2 && p.1[0] == ',' && p.1[1] == ' '));
        assert(p.1.drop_first() =~= tail);
        assert(seq![items[0]] =~~= items);
    } else {
        lemma_parse_items_render(items.drop_first(), tail);
        lemma_join_front(
            seq![',', ' '],
            items.map_values(|x: Seq<char>| quoted(x)),
        );
        assert(items.map_values(|x: Seq<char>| quoted(x)).drop_first() =~~= items.drop_first()
            .map_values(|x: Seq<char>| quoted(x)));
        let rest_rendered = join_with(
            seq![',', ' '],
            items.drop_first().map_values(|x: Seq<char>| quoted(x)),
        );
        assert(rendered == quoted(items[0]) + seq![',', ' '] + rest_rendered);
        let after = seq![',', ' '] + rest_rendered + seq![']'] + tail;
        assert(s =~= seq!['"'] + (esc(items[0]) + seq!['"'] + after));
        assert(s[0] == '"');
        assert(s.drop_first() =~= esc(items[0]) + seq!['"'] + after);
        lemma_scan_esc(items[0], after);
        let p = scan_str(s.drop_first())->0;
        assert(p.0 == items[0]);
        assert(p.1 == after);
        assert(p.1.len() >= 2 && p.1[0] == ',' && p.1[1] == ' ');
        assert(p.1.skip(2) =~= rest_rendered + seq![']'] + tail);
        let q = parse_items(p.1.skip(2))->0;
        assert(q.0 == items.drop_first());
        assert(q.1 == tail);
        assert(seq![items[0]] + items.drop_first() =~~= items);
    }
}

/// Storing a record and reading it back preserves the hash and the
/// list of system-link libraries exactly, order and content.
pub proof fn lemma_record_round_trip(hash: Seq<char>, static_libs: Seq<Seq<char>>)
    ensures
        parse_record_spec(render_record_spec(hash, static_libs)) == Some((hash, static_libs)),
{
    let rendered = render_record_spec(hash, static_libs);
    let items_rendered = join_with(
        seq![',', ' '],
        static_libs.map_values(|x: Seq<char>| quoted(x)),
    );
    assert(strutil::is_prefix_of(hash_prefix(), rendered)) by {
        assert(rendered.take(hash_prefix().len() as int) =~= hash_prefix());
    }
    let t = rendered.skip(hash_prefix().len() as int);
    assert(t =~= seq!['"'] + (esc(hash) + seq!['"'] + (seq!['\n'] + libs_prefix() + items_rendered
        + seq![']'] + seq!['\n'])));
    assert(t[0] == '"');
    let after_hash = seq!['\n'] + libs_prefix() + items_rendered + seq![']'] + seq!['\n'];
    assert(t.drop_first() =~= esc(hash) + seq!['"'] + after_hash);
    lemma_scan_esc(hash, after_hash);
    let p = scan_str(t.drop_first())->0;
    assert(p.0 == hash);
    assert(p.1 == after_hash);
    assert(p.1[0] == '\n');
    assert(p.1.drop_first() =~= libs_prefix() + items_rendered + seq![']'] + seq!['\n']);
    assert(strutil::is_prefix_of(libs_prefix(), p.1.drop_first())) by {
        assert(p.1.drop_first().take(libs_prefix().len() as int) =~= libs_prefix());
    }
    let u = p.1.drop_first().skip(libs_prefix().len() as int);
    assert(u =~= items_rendered + seq![']'] + seq!['\n']);
    if static_libs.len() == 0 {
        assert(items_rendered == Seq::<char>::empty());
        assert(u =~= seq![']', '\n']);
        assert(u.len() == 2 && u[0] == ']' && u[1] == '\n');
    } else {
        lemma_parse_items_render(static_libs, seq!['\n']);
        assert(u == items_rendered + seq![']'] + seq!['\n']);
        let q = parse_items(u)->0;
        assert(q.0 == static_libs);
        assert(q.1 == seq!['\n']);
        assert(q.1.len() == 1 && q.1[0] == '\n');
        assert(!(u.len() == 2 && u[0] == ']' && u[1] == '\n')) by {
            assert(items_rendered.len() > 0) by {
                assert(items_rendered == join_with(
                    seq![',', ' '],
                    static_libs.map_values(|x: Seq<char>| quoted(x)),
                ));
                if static_libs.len() == 1 {
                    assert(items_rendered == quoted(static_libs[0]));
                } else {
                    lemma_join_front(
                        seq![',', ' '],
                        static_libs.map_values(|x: Seq<char>| quoted(x)),
                    );
                }
            }
            assert(u.len() > 2);
        }
    }
}

/// Append the escaped form of `x` to `w`.
fn push_escaped(w: &mut String, x: &str)
    ensures
        final(w)@ == old(w)@ + esc(x@),
{
    let v = strutil::chars_vec(x);
    let ghost base = w@;
    let mut i: usize = 0;
    proof {
        assert(v@.skip(0) =~= v@);
        assert(w@.skip(base.len() as int) =~= Seq::<char>::empty());
        assert(Seq::<char>::empty() + esc(v@) =~= esc(v@));
        assert(w@.take(base.len() as int) =~= base);
    }
    while i < v.len()
        invariant
            i <= v@.len(),
            v@ == x@,
            w@.len() >= base.len(),
            w@.take(base.len() as int) == base,
            esc(v@) == w@.skip(base.len() as int) + esc(v@.skip(i as int)),
        decreases v@.len() - i,
    {
        proof {
            assert(v@.skip(i as int)[0] == v@[i as int]);
            assert(v@.skip(i as int).drop_first() =~= v@.skip(i + 1 as int));
        }
        let c = v[i];
        let ghost pre = w@;
        if c == '\\' {
            strutil::push_char(w, '\\');
            strutil::push_char(w, '\\');
        } else if c == '"' {
            strutil::push_char(w, '\\');
            strutil::push_char(w, '"');
        } else if c == '\n' {
            strutil::push_char(w, '\\');
            strutil::push_char(w, 'n');
        } else if c == '\r' {
            strutil::push_char(w, '\\');
            strutil::push_char(w, 'r');
        } else if c == '\t' {
            strutil::push_char(w, '\\');
            strutil::push_char(w, 't');
        } else {
            strutil::push_char(w, c);
        }
        proof {
            assert(w@ =~= pre + esc_char(v@[i as int]));
            assert(w@.skip(base.len() as int) =~= pre.skip(base.len() as int) + esc_char(
                v@[i as int],
            ));
            assert(pre.skip(base.len() as int) + esc_char(v@[i as int]) + esc(
                v@.skip(i + 1 as int),
            ) =~= pre.skip(base.len() as int) + (esc_char(v@[i as int]) + esc(
                v@.skip(i + 1 as int),
            )));
            assert(w@.take(base.len() as int) =~= base);
        }
        i = i + 1;
    }
    proof {
        assert(v@.skip(v@.len() as int) =~= Seq::<char>::empty());
        assert(w@.skip(base.len() as int) + Seq::<char>::empty() =~= w@.skip(base.len() as int));
        assert(w@ =~= w@.take(base.len() as int) + w@.skip(base.len() as int));
    }
}

/// Render a record for storage, as [`render_record_spec`] lays it
/// out.
pub fn render_record(rec: &FingerprintRecord) -> (r: String)
    ensures
        r@ == render_record_spec(rec.hash@, rec.static_libs.deep_view()),
{
    let mut w = String::new();
    w.append("hash = ");
    strutil::push_char(&mut w, '"');
    push_escaped(&mut w, rec.hash.as_str());
    strutil::push_char(&mut w, '"');
    strutil::push_char(&mut w, '\n');
    w.append("static_libs = [");
    let ghost head = hash_prefix() + quoted(rec.hash@) + seq!['\n'] + libs_prefix();
    proof {
        assert(w@ =~= head);
    }
    let ghost mapped = rec.static_libs.deep_view().map_values(|x: Seq<char>| quoted(x));
    let mut i: usize = 0;
    proof {
        assert(head + join_with(seq![',', ' '], mapped.take(0)) =~= head);
    }
    while i < rec.static_libs.len()
        invariant
            i <= rec.static_libs@.len(),
            mapped == rec.static_libs.deep_view().map_values(|x: Seq<char>| quoted(x)),
            head == hash_prefix() + quoted(rec.hash@) + seq!['\n'] + libs_prefix(),
            w@ == head + join_with(seq![',', ' '], mapped.take(i as int)),
        decreases rec.static_libs@.len() - i,
    {
        proof {
            assert(mapped.take(i + 1 as int).drop_last() =~~= mapped.take(i as int));
            assert(mapped.take(i + 1 as int).last() == mapped[i as int]);
            assert(rec.static_libs.deep_view()[i as int] == rec.static_libs@[i as int].deep_view());
            assert(rec.static_libs@[i as int].deep_view() =~= rec.static_libs@[i as int]@);
        }
        if i > 0 {
            strutil::push_char(&mut w, ',');
            strutil::push_char(&mut w, ' ');
        }
        strutil::push_char(&mut w, '"');
        push_escaped(&mut w, rec.static_libs[i].as_str());
        strutil::push_char(&mut w, '"');
        proof {
            assert(w@ =~= head + join_with(seq![',', ' '], mapped.take(i + 1 as int)));
        }
        i = i + 1;
    }
    proof {
        assert(mapped.take(rec.static_libs@.len() as int) =~~= mapped);
    }
    strutil::push_char(&mut w, ']');
    strutil::push_char(&mut w, '\n');
    proof {
        assert(w@ =~= render_record_spec(rec.hash@, rec.static_libs.deep_view()));
    }
    w
}

fn unesc_char_exec(c: char) -> (r: Option<char>)
    ensures
        r == unesc_char(c),
{
    if c == '\\' {
        Some('\\')
    } else if c == '"' {
        Some('"')
    } else if c == 'n' {
        Some('\n')
    } else if c == 'r' {
        Some('\r')
    } else if c == 't' {
        Some('\t')
    } else {
        None
    }
}

/// Read an escaped string from position `start`, as [`scan_str`]
/// defines it; returns the content and the position after the
/// closing quote.
fn scan_from(v: &Vec<char>, start: usize) -> (r: Option<(Vec<char>, usize)>)
    requires
        start <= v@.len(),
    ensures
        r is Some <==> scan_str(v@.skip(start as int)) is Some,
        r matches Some(p) ==> {
            &&& start < p.1 <= v@.len()
            &&& scan_str(v@.skip(start as int)) == Some((p.0@, v@.skip(p.1 as int)))
        },
{
    let mut content: Vec<char> = Vec::new();
    let mut i: usize = start;
    while i < v.len()
        invariant
            start <= i <= v@.len(),
            (scan_str(v@.skip(start as int)) is Some <==> scan_str(v@.skip(i as int)) is Some),
            scan_str(v@.skip(i as int)) matches Some(p) ==> scan_str(v@.skip(start as int))
                == Some((content@ + p.0, p.1)),
        decreases v@.len() - i,
    {
        proof {
            assert(v@.skip(i as int)[0] == v@[i as int]);
            assert(v@.skip(i as int).drop_first() =~= v@.skip(i + 1 as int));
        }
        let c = v[i];
        if c == '"' {
            proof {
                assert(scan_str(v@.skip(i as int)) == Some(
                    (Seq::<char>::empty(), v@.skip(i + 1 as int)),
                ));
                assert(content@ + Seq::<char>::empty() =~= content@);
            }
            return Some((content, i + 1));
        } else if c == '\\' {
            if i + 1 >= v.len() {
                proof {
                    assert(v@.skip(i as int).len() < 2);
                    assert(scan_str(v@.skip(i as int)) is None);
                }
                return None;
            }
            proof {
                assert(v@.skip(i as int)[1] == v@[i + 1 as int]);
                assert(v@.skip(i as int).skip(2) =~= v@.skip(i + 2 as int));
            }
            match unesc_char_exec(v[i + 1]) {
                Some(d) => {
                    let ghost pre = content@;
                    content.push(d);
                    proof {
                        if scan_str(v@.skip(i + 2 as int)) is Some {
                            let p = scan_str(v@.skip(i + 2 as int))->0;
                            assert(pre + (seq![d] + p.0) =~= content@ + p.0);
                        }
                    }
                    i = i + 2;
                },
                None => {
                    proof {
                        assert(scan_str(v@.skip(i as int)) is None);
                    }
                    return None;
                },
            }
        } else {
            let ghost pre = content@;
            content.push(c);
            proof {
                if scan_str(v@.skip(i + 1 as int)) is Some {
                    let p = scan_str(v@.skip(i + 1 as int))->0;
                    assert(pre + (seq![c] + p.0) =~= content@ + p.0);
                }
            }
            i = i + 1;
        }
    }
    proof {
        assert(v@.skip(v@.len() as int) =~= Seq::<char>::empty());
        assert(scan_str(v@.skip(i as int)) is None);
    }
    None
}

fn chars_match_at(v: &Vec<char>, pos: usize, p: &Vec<char>) -> (r: bool)
    requires
        pos <= v@.len(),
    ensures
        r == strutil::is_prefix_of(p@, v@.skip(pos as int)),
{
    if p.len() > v.len() - pos {
        proof {
            assert(v@.skip(pos as int).len() < p@.len());
        }
        return false;
    }
    let vn = v.len();
    let pn = p.len();
    let mut j: usize = 0;
    while j < pn
        invariant
            j <= pn,
            pn == p@.len(),
            vn == v@.len(),
            pos + pn <= vn,
            forall|k: int| 0 <= k < j ==> v@.skip(pos as int)[k] == p@[k],
        decreases pn - j,
    {
        proof {
            assert(pos + j < v@.len());
            assert(v@.skip(pos as int)[j as int] == v@[pos + j as int]);
        }
        if v[pos + j] != p[j] {
            proof {
                assert(v@.skip(pos as int).take(p@.len() as int)[j as int] != p@[j as int]);
            }
            return false;
        }
        j = j + 1;
    }
    proof {
        assert(v@.skip(pos as int).take(p@.len() as int) =~= p@);
    }
    true
}

/// Read a stored record back; a missing or malformed file yields
/// nothing, which the caller treats as a pristine state.
#[verifier::rlimit(100)]
#[verifier::spinoff_prover]
pub fn parse_record(s: &str) -> (r: Option<FingerprintRecord>)
    ensures
        r is Some <==> parse_record_spec(s@) is Some,
        r matches Some(rec) ==> {
            &&& rec.hash@ == (parse_record_spec(s@)->0).0
            &&& rec.static_libs.deep_view() == (parse_record_spec(s@)->0).1
        },
{
    let v = strutil::chars_vec(s);
    let hp = strutil::chars_vec("hash = ");
    proof {
        assert(v@.skip(0) =~= v@);
    }
    if !chars_match_at(&v, 0, &hp) {
        return None;
    }
    let pos0 = hp.len();
    proof {
        assert(pos0 <= v@.len()) by {
            assert(strutil::is_prefix_of(hp@, v@));
        }
    }
    let ghost t = s@.skip(hash_prefix().len() as int);
    if pos0 >= v.len() {
        proof {
            assert(t.len() == 0);
        }
        return None;
    }
    proof {
        assert(t[0] == v@[pos0 as int]);
    }
    if v[pos0] != '"' {
        return None;
    }
    proof {
        assert(t.drop_first() =~= v@.skip(pos0 + 1 as int));
    }
    let (hash_chars, pos1) = match scan_from(&v, pos0 + 1) {
        Some(p) => p,
        None => {
            return None;
        },
    };
    let ghost sp = scan_str(t.drop_first())->0;
    proof {
        assert(sp.0 == hash_chars@);
        assert(sp.1 == v@.skip(pos1 as int));
    }
    if pos1 >= v.len() {
        proof {
            assert(sp.1.len() == 0);
        }
        return None;
    }
    proof {
        assert(sp.1[0] == v@[pos1 as int]);
    }
    if v[pos1] != '\n' {
        return None;
    }
    let lp = strutil::chars_vec("static_libs = [");
    proof {
        assert(sp.1.drop_first() =~= v@.skip(pos1 + 1 as int));
    }
    if !chars_match_at(&v, pos1 + 1, &lp) {
        return None;
    }
    let pos2 = pos1 + 1 + lp.len();
    proof {
        assert(pos2 <= v@.len()) by {
            assert(strutil::is_prefix_of(lp@, v@.skip(pos1 + 1 as int)));
        }
    }
    let ghost u = sp.1.drop_first().skip(libs_prefix().len() as int);
    proof {
        assert(u =~= v@.skip(pos2 as int));
    }
    if v.len() - pos2 == 2 && v[pos2] == ']' && v[pos2 + 1] == '\n' {
        proof {
            assert(u.len() == 2 && u[0] == ']' && u[1] == '\n');
        }
        let hash = strutil::string_from_chars(&hash_chars);
        let empty_libs: Vec<String> = Vec::new();
        proof {
            assert(empty_libs.deep_view() =~~= Seq::<Seq<char>>::empty());
        }
        return Some(FingerprintRecord { hash, static_libs: empty_libs });
    }
    proof {
        if u.len() == 2 && u[0] == ']' && u[1] == '\n' {
            assert(v@.len() - pos2 == 2 && v@[pos2 as int] == ']' && v@[pos2 + 1] == '\n');
        }
    }
    let mut items: Vec<String> = Vec::new();
    let mut i: usize = pos2;
    let ghost istart = pos2;
    proof {
        assert(items.deep_view() =~~= Seq::<Seq<char>>::empty());
    }
    #[verifier::loop_isolation(false)]
    loop
        invariant
            istart <= i <= v@.len(),
            istart == pos2,
            u == v@.skip(istart as int),
            (parse_items(v@.skip(istart as int)) is Some <==> parse_items(v@.skip(i as int))
                is Some),
            parse_items(v@.skip(i as int)) matches Some(q) ==> parse_items(
                v@.skip(istart as int),
            ) == Some((items.deep_view() + q.0, q.1)),
        decreases v@.len() - i,
    {
        if i >= v.len() {
            proof {
                assert(v@.skip(i as int).len() == 0);
                assert(parse_items(v@.skip(i as int)) is None);
            }
            return None;
        }
        proof {
            assert(v@.skip(i as int)[0] == v@[i as int]);
            assert(v@.skip(i as int).drop_first() =~= v@.skip(i + 1 as int));
        }
        if v[i] != '"' {
            proof {
                assert(parse_items(v@.skip(i as int)) is None);
            }
            return None;
        }
        let (item_chars, posn) = match scan_from(&v, i + 1) {
            Some(p) => p,
            None => {
                proof {
                    assert(parse_items(v@.skip(i as int)) is None);
                }
                return None;
            },
        };
        let ghost ip = scan_str(v@.skip(i + 1 as int))->0;
        proof {
            assert(ip.0 == item_chars@);
            assert(ip.1 == v@.skip(posn as int));
        }
        if posn < v.len() && v[posn] == ',' && posn + 1 < v.len() && v[posn + 1] == ' ' {
            proof {
                assert(ip.1.len() >= 2 && ip.1[0] == ',' && ip.1[1] == ' ');
                assert(ip.1.skip(2) =~= v@.skip(posn + 2 as int));
            }
            let ghost pre = items.deep_view();
            items.push(strutil::string_from_chars(&item_chars));
            proof {
                assert(items.deep_view() =~~= pre.push(item_chars@));
                if parse_items(v@.skip(posn + 2 as int)) is Some {
                    let q = parse_items(v@.skip(posn + 2 as int))->0;
                    assert(pre + (seq![item_chars@] + q.0) =~~= items.deep_view() + q.0);
                }
            }
            i = posn + 2;
        } else if posn < v.len() && v[posn] == ']' {
            proof {
                assert(ip.1.len() >= 1 && ip.1[0] == ']');
                assert(!(ip.1.len() >= 2 && ip.1[0] == ',' && ip.1[1] == ' '));
                assert(ip.1.drop_first() =~= v@.skip(posn + 1 as int));
            }
            let ghost pre = items.deep_view();
            items.push(strutil::string_from_chars(&item_chars));
            proof {
                assert(items.deep_view() =~~= pre.push(item_chars@));
                assert(pre + seq![item_chars@] =~~= items.deep_view());
                assert(parse_items(v@.skip(istart as int)) == Some(
                    (items.deep_view(), v@.skip(posn + 1 as int)),
                ));
            }
            let after = posn + 1;
            if after < v.len() && v.len() - 1 == after && v[after] == '\n' {
                proof {
                    let q = parse_items(u)->0;
                    assert(q.1 =~= v@.skip(after as int));
                    assert(q.1.len() == 1 && q.1[0] == '\n');
                }
                let hash = strutil::string_from_chars(&hash_chars);
                return Some(FingerprintRecord { hash, static_libs: items });
            } else {
                proof {
                    let q = parse_items(u)->0;
                    assert(q.1 =~= v@.skip(after as int));
                    assert(!(q.1.len() == 1 && q.1[0] == '\n'));
                }
                return None;
            }
        } else {
            proof {
                if ip.1.len() >= 2 && ip.1[0] == ',' && ip.1[1] == ' ' {
                    assert(v@[posn as int] == ',' && v@[posn + 1] == ' ');
                    assert(posn + 1 < v@.len());
                }
                if ip.1.len() >= 1 && ip.1[0] == ']' {
                    assert(v@[posn as int] == ']');
                    assert(posn < v@.len());
                }
                assert(parse_items(v@.skip(i as int)) is None);
            }
            return None;
        }
    }
}

/// The previous record is valid only when both fingerprints exist and
/// agree exactly.
pub fn is_valid(previous: Option<&FingerprintRecord>, current: Option<u64>) -> (r: bool)
    ensures
        r == match (previous, current) {
            (Some(p), Some(c)) => p.hash@ == dec_str(c as nat),
            _ => false,
        },
{
    match (previous, current) {
        (Some(p), Some(c)) => {
            let cur = strutil::dec_string(c);
            strutil::str_eq(p.hash.as_str(), cur.as_str())
        },
        _ => false,
    }
}

} // verus!
