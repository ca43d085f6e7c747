//! The resolved invocation configuration: the values the collaborators hand
//! the core, the log level parser, the derived position-record file name,
//! and the instance fingerprint that keys duplicate-run detection.

use vstd::prelude::*;
use vstd::string::StrSliceExecFns;
use vstd::string::StringSliceAdditionalSpecFns;

use crate::position::dec_digits;

verus! {

/// The fully resolved invocation configuration of one session.
#[derive(Clone, Debug)]
pub struct Config {
    /// Path of the file to tail.
    pub input: String,
    /// Path of the file the decoded text is appended to.
    pub output: String,
    /// Label of the source byte encoding.
    pub encoding: String,
    /// Initial offset hint; resumption itself uses the position record.
    pub position: u64,
    /// Explicit path of the position record, when one was given.
    pub position_path: Option<String>,
    /// Requested log verbosity label.
    pub log_level: String,
}

// ------------------------------------------------------------------------
// Log level
// ------------------------------------------------------------------------

/// The log verbosity levels a session can run at.
#[derive(Clone, Copy, Debug, PartialEq, Eq, Structural)]
pub enum LevelFilter {
    Off,
    Error,
    Warn,
    Info,
    Debug,
    Trace,
}

/// A character's code with an upper-case ASCII letter folded to lower case.
pub open spec fn lower_code(c: char) -> u32 {
    if 65 <= c as u32 && c as u32 <= 90 {
        (c as u32 + 32) as u32
    } else {
        c as u32
    }
}

/// Equality of two texts up to ASCII case.
pub open spec fn eq_ignore_ascii_case(a: Seq<char>, b: Seq<char>) -> bool {
    a.len() == b.len() && forall|i: int|
        0 <= i < a.len() ==> lower_code(a[i]) == lower_code(b[i])
}

/// The level a label selects: the six level names, compared without regard
/// to ASCII case, with anything else defaulting to Info.
pub open spec fn level_of(s: Seq<char>) -> LevelFilter {
    if eq_ignore_ascii_case(s, "off"@) {
        LevelFilter::Off
    } else if eq_ignore_ascii_case(s, "error"@) {
        LevelFilter::Error
    } else if eq_ignore_ascii_case(s, "warn"@) {
        LevelFilter::Warn
    } else if eq_ignore_ascii_case(s, "info"@) {
        LevelFilter::Info
    } else if eq_ignore_ascii_case(s, "debug"@) {
        LevelFilter::Debug
    } else if eq_ignore_ascii_case(s, "trace"@) {
        LevelFilter::Trace
    } else {
        LevelFilter::Info
    }
}

fn str_eq_ignore_ascii_case(a: &str, b: &str) -> (r: bool)
    ensures
        r == eq_ignore_ascii_case(a@, b@),
{
    let alen = a.unicode_len();
    let blen = b.unicode_len();
    if alen != blen {
        return false;
    }
    let mut i: usize = 0;
    while i < alen
        invariant
            alen == a@.len(),
            blen == b@.len(),
            alen == blen,
            i <= alen,
            forall|j: int| 0 <= j < i ==> lower_code(a@[j]) == lower_code(b@[j]),
        decreases alen - i,
    {
        let ca = a.get_char(i) as u32;
        let cb = b.get_char(i) as u32;
        let la = if 65 <= ca && ca <= 90 {
            ca + 32
        } else {
            ca
        };
        let lb = if 65 <= cb && cb <= 90 {
            cb + 32
        } else {
            cb
        };
        if la != lb {
            return false;
        }
        i = i + 1;
    }
    true
}

/// Maps a log level label to the level it selects, without regard to ASCII
/// case; an unrecognized label selects the default, Info.
pub fn parse_level_filter(value: &str) -> (r: LevelFilter)
    ensures
        r == level_of(value@),
{
    if str_eq_ignore_ascii_case(value, "off") {
        LevelFilter::Off
    } else if str_eq_ignore_ascii_case(value, "error") {
        LevelFilter::Error
    } else if str_eq_ignore_ascii_case(value, "warn") {
        LevelFilter::Warn
    } else if str_eq_ignore_ascii_case(value, "info") {
        LevelFilter::Info
    } else if str_eq_ignore_ascii_case(value, "debug") {
        LevelFilter::Debug
    } else if str_eq_ignore_ascii_case(value, "trace") {
        LevelFilter::Trace
    } else {
        LevelFilter::Info
    }
}

// ------------------------------------------------------------------------
// Derived position-record file name
// ------------------------------------------------------------------------

/// The file name the position record is stored under when no explicit path
/// was configured: the input path with every `:` replaced by the host's path
/// separator. Stated over UTF-8 bytes; `:` and the separators are ASCII, so
/// no multi-byte sequence is touched.
pub open spec fn position_file_name(name: Seq<u8>, sep: u8) -> Seq<u8> {
    name.map(|i: int, b: u8| if b == 58 { sep } else { b })
}

/// Derives the position record's file name from the input path, normalizing
/// `:` to the host's path separator.
pub fn derive_position_file_name(input: &str, sep: u8) -> (r: Vec<u8>)
    ensures
        r@ == position_file_name(input.spec_bytes(), sep),
{
    let bytes = input.as_bytes();
    let mut out: Vec<u8> = Vec::new();
    let n = bytes.len();
    let mut i: usize = 0;
    while i < n
        invariant
            n == bytes@.len(),
            i <= n,
            out@.len() == i,
            forall|j: int|
                0 <= j < i ==> out@[j] == (if bytes@[j] == 58 {
                    sep
                } else {
                    bytes@[j]
                }),
        decreases n - i,
    {
        let b = bytes[i];
        if b == 58 {
            out.push(sep);
        } else {
            out.push(b);
        }
        i = i + 1;
    }
    proof {
        assert(out@ =~= position_file_name(bytes@, sep));
    }
    out
}

// ------------------------------------------------------------------------
// Instance fingerprint
// ------------------------------------------------------------------------

/// The hexadecimal SHA-256 digest of `data`, as crypto_hash computes it: a
/// function of the bytes alone, identical across processes and machines.
pub uninterp spec fn sha256_hex(data: Seq<u8>) -> Seq<char>;

/// Relies on crypto_hash::hex_digest with Algorithm::SHA256: the digest is
/// deterministic in the input bytes, so repeated invocations with the same
/// configuration produce the identical fingerprint.
#[verifier::external_body]
fn sha256_hex_digest(data: &[u8]) -> (r: String)
    ensures
        r@ == sha256_hex(data@),
{
    crypto_hash::hex_digest(crypto_hash::Algorithm::SHA256, data)
}

/// One field of the fingerprint's preimage: the field's byte length in
/// decimal, a `:`, then the bytes, so that field boundaries are unambiguous.
pub open spec fn framed(bytes: Seq<u8>) -> Seq<u8> {
    dec_digits(bytes.len()) + seq![58u8] + bytes
}

/// The optional position-path field: a presence tag, then the framed path
/// when one was given.
pub open spec fn path_field(c: Config) -> Seq<u8> {
    match c.position_path {
        Option::None => seq![48u8],
        Option::Some(p) => seq![49u8] + framed(vstd::utf8::encode_utf8(p@)),
    }
}

/// The preimage's fields from the position-path field on.
pub open spec fn fields_from_path(c: Config) -> Seq<u8> {
    path_field(c) + framed(vstd::utf8::encode_utf8(c.log_level@))
}

/// The preimage's fields from the position field on.
pub open spec fn fields_from_position(c: Config) -> Seq<u8> {
    framed(dec_digits(c.position as nat)) + fields_from_path(c)
}

/// The preimage's fields from the encoding field on.
pub open spec fn fields_from_encoding(c: Config) -> Seq<u8> {
    framed(vstd::utf8::encode_utf8(c.encoding@)) + fields_from_position(c)
}

/// The preimage's fields from the output field on.
pub open spec fn fields_from_output(c: Config) -> Seq<u8> {
    framed(vstd::utf8::encode_utf8(c.output@)) + fields_from_encoding(c)
}

/// The fingerprint's preimage: every resolved configuration field, framed,
/// in a fixed order. Identical configurations give identical preimages.
pub open spec fn fingerprint_bytes(c: Config) -> Seq<u8> {
    framed(vstd::utf8::encode_utf8(c.input@)) + fields_from_output(c)
}

fn push_bytes(out: &mut Vec<u8>, bytes: &[u8])
    ensures
        final(out)@ == old(out)@ + bytes@,
{
    let n = bytes.len();
    let mut i: usize = 0;
    while i < n
        invariant
            n == bytes@.len(),
            i <= n,
            out@ =~= old(out)@ + bytes@.take(i as int),
        decreases n - i,
    {
        let b = bytes[i];
        out.push(b);
        proof {
            assert(old(out)@ + bytes@.take(i as int) + seq![bytes@[i as int]] =~= old(out)@
                + bytes@.take(i + 1));
        }
        i = i + 1;
    }
    proof {
        assert(old(out)@ + bytes@.take(n as int) =~= old(out)@ + bytes@);
    }
}

fn push_framed(out: &mut Vec<u8>, bytes: &[u8])
    ensures
        final(out)@ == old(out)@ + framed(bytes@),
{
    let mut len_digits = crate::position::encode_position(bytes.len() as u64);
    let ghost mid = out@;
    out.append(&mut len_digits);
    out.push(58);
    push_bytes(out, bytes);
    proof {
        assert(mid + dec_digits(bytes@.len()) + seq![58u8] + bytes@ =~= mid + framed(bytes@));
    }
}

/// The framed configuration fields, the exact preimage the fingerprint
/// hashes.
pub fn fingerprint_input(cfg: &Config) -> (r: Vec<u8>)
    ensures
        r@ == fingerprint_bytes(*cfg),
{
    let mut out: Vec<u8> = Vec::new();
    push_framed(&mut out, cfg.input.as_str().as_bytes());
    push_framed(&mut out, cfg.output.as_str().as_bytes());
    push_framed(&mut out, cfg.encoding.as_str().as_bytes());
    let pos = crate::position::encode_position(cfg.position);
    push_framed(&mut out, pos.as_slice());
    match &cfg.position_path {
        Option::None => {
            out.push(48);
        },
        Option::Some(p) => {
            out.push(49);
            push_framed(&mut out, p.as_str().as_bytes());
        },
    }
    push_framed(&mut out, cfg.log_level.as_str().as_bytes());
    proof {
        assert(out@ =~= fingerprint_bytes(*cfg));
    }
    out
}

/// The instance fingerprint: the deterministic hash of the full resolved
/// configuration that keys the single-instance guard.
pub fn fingerprint(cfg: &Config) -> (r: String)
    ensures
        r@ == sha256_hex(fingerprint_bytes(*cfg)),
{
    let bytes = fingerprint_input(cfg);
    sha256_hex_digest(bytes.as_slice())
}

/// A frame is self-delimiting: its length prefix holds no `:`, so equal
/// concatenations that both begin with a frame split identically.
proof fn lemma_framed_prefix(a: Seq<u8>, b: Seq<u8>, x: Seq<u8>, y: Seq<u8>)
    requires
        framed(a) + x == framed(b) + y,
    ensures
        a == b,
        x == y,
{
    let s = framed(a) + x;
    let ka = dec_digits(a.len()).len() as int;
    let kb = dec_digits(b.len()).len() as int;
    crate::position::lemma_dec_digits_shape(a.len());
    crate::position::lemma_dec_digits_shape(b.len());
    assert(s[ka] == 58);
    assert(forall|j: int| 0 <= j < ka ==> crate::position::is_dec_digit(#[trigger] s[j])) by {
        assert(forall|j: int|
            0 <= j < ka ==> #[trigger] s[j] == dec_digits(a.len())[j]);
    }
    assert((framed(b) + y)[kb] == 58);
    assert(forall|j: int|
        0 <= j < kb ==> crate::position::is_dec_digit(#[trigger] (framed(b) + y)[j])) by {
        assert(forall|j: int|
            0 <= j < kb ==> #[trigger] (framed(b) + y)[j] == dec_digits(b.len())[j]);
    }
    assert(ka == kb) by {
        if ka < kb {
            assert(crate::position::is_dec_digit(s[ka]));
        } else if kb < ka {
            assert(crate::position::is_dec_digit(s[kb]));
        }
    }
    assert(dec_digits(a.len()) =~= s.take(ka));
    assert(dec_digits(b.len()) =~= s.take(kb));
    assert(a.len() == b.len()) by {
        assert(crate::position::digits_val(dec_digits(a.len())) == a.len());
        assert(crate::position::digits_val(dec_digits(b.len())) == b.len());
    }
    assert(a =~= s.subrange(ka + 1, ka + 1 + a.len()));
    assert(b =~= s.subrange(ka + 1, ka + 1 + a.len()));
    assert(x =~= s.skip(ka + 1 + a.len()));
    assert(y =~= s.skip(ka + 1 + a.len()));
}

/// Duplicate detection's other direction: the framed preimage is injective in
/// the configuration, so two invocations can share a fingerprint only if
/// their resolved fields are equal or the hash itself collides.
pub proof fn lemma_fingerprint_input_injective(a: Config, b: Config)
    requires
        fingerprint_bytes(a) == fingerprint_bytes(b),
    ensures
        a.input@ == b.input@,
        a.output@ == b.output@,
        a.encoding@ == b.encoding@,
        a.position == b.position,
        a.position_path is Some <==> b.position_path is Some,
        a.position_path matches Option::Some(p) ==> (b.position_path matches Option::Some(q)
            && p@ == q@),
        a.log_level@ == b.log_level@,
{
    lemma_framed_prefix(
        vstd::utf8::encode_utf8(a.input@),
        vstd::utf8::encode_utf8(b.input@),
        fields_from_output(a),
        fields_from_output(b),
    );
    vstd::utf8::encode_utf8_decode_utf8(a.input@);
    vstd::utf8::encode_utf8_decode_utf8(b.input@);
    lemma_framed_prefix(
        vstd::utf8::encode_utf8(a.output@),
        vstd::utf8::encode_utf8(b.output@),
        fields_from_encoding(a),
        fields_from_encoding(b),
    );
    vstd::utf8::encode_utf8_decode_utf8(a.output@);
    vstd::utf8::encode_utf8_decode_utf8(b.output@);
    lemma_framed_prefix(
        vstd::utf8::encode_utf8(a.encoding@),
        vstd::utf8::encode_utf8(b.encoding@),
        fields_from_position(a),
        fields_from_position(b),
    );
    vstd::utf8::encode_utf8_decode_utf8(a.encoding@);
    vstd::utf8::encode_utf8_decode_utf8(b.encoding@);
    lemma_framed_prefix(
        dec_digits(a.position as nat),
        dec_digits(b.position as nat),
        fields_from_path(a),
        fields_from_path(b),
    );
    crate::position::lemma_dec_digits_shape(a.position as nat);
    crate::position::lemma_dec_digits_shape(b.position as nat);
    let la = framed(vstd::utf8::encode_utf8(a.log_level@));
    let lb = framed(vstd::utf8::encode_utf8(b.log_level@));
    match (a.position_path, b.position_path) {
        (Option::None, Option::None) => {
            assert(fields_from_path(a).drop_first() =~= la + Seq::<u8>::empty());
            assert(fields_from_path(b).drop_first() =~= lb + Seq::<u8>::empty());
            lemma_framed_prefix(
                vstd::utf8::encode_utf8(a.log_level@),
                vstd::utf8::encode_utf8(b.log_level@),
                Seq::empty(),
                Seq::empty(),
            );
            vstd::utf8::encode_utf8_decode_utf8(a.log_level@);
            vstd::utf8::encode_utf8_decode_utf8(b.log_level@);
        },
        (Option::Some(p), Option::Some(q)) => {
            assert(fields_from_path(a).drop_first() =~= framed(vstd::utf8::encode_utf8(p@)) + la);
            assert(fields_from_path(b).drop_first() =~= framed(vstd::utf8::encode_utf8(q@)) + lb);
            lemma_framed_prefix(vstd::utf8::encode_utf8(p@), vstd::utf8::encode_utf8(q@), la, lb);
            vstd::utf8::encode_utf8_decode_utf8(p@);
            vstd::utf8::encode_utf8_decode_utf8(q@);
            assert(la + Seq::<u8>::empty() =~= la);
            assert(lb + Seq::<u8>::empty() =~= lb);
            lemma_framed_prefix(
                vstd::utf8::encode_utf8(a.log_level@),
                vstd::utf8::encode_utf8(b.log_level@),
                Seq::empty(),
                Seq::empty(),
            );
            vstd::utf8::encode_utf8_decode_utf8(a.log_level@);
            vstd::utf8::encode_utf8_decode_utf8(b.log_level@);
        },
        (Option::None, Option::Some(_)) => {
            assert(fields_from_path(a)[0] == 48);
            assert(fields_from_path(b)[0] == 49);
        },
        (Option::Some(_), Option::None) => {
            assert(fields_from_path(a)[0] == 49);
            assert(fields_from_path(b)[0] == 48);
        },
    }
}

/// Duplicate detection's footing: two invocations whose resolved fields are
/// equal hash the identical preimage, so the guard sees the identical
/// fingerprint.
pub proof fn lemma_fingerprint_deterministic(a: Config, b: Config)
    requires
        a.input@ == b.input@,
        a.output@ == b.output@,
        a.encoding@ == b.encoding@,
        a.position == b.position,
        match (a.position_path, b.position_path) {
            (Option::None, Option::None) => true,
            (Option::Some(p), Option::Some(q)) => p@ == q@,
            _ => false,
        },
        a.log_level@ == b.log_level@,
    ensures
        fingerprint_bytes(a) == fingerprint_bytes(b),
{
}

} // verus!
