//! Wire codec: the self-describing structured-binary encoding used on the
//! telemetry stream and for command payloads.
//!
//! A value starts with a head byte holding a major kind (top three bits) and a
//! five-bit argument code. Argument codes below 24 carry the argument inline;
//! codes 24..=27 announce 1, 2, 4 or 8 following big-endian argument bytes.
//! The argument is the value itself for unsigned integers (major 0), the
//! payload length for byte strings (major 2) and text strings (major 3), and
//! the entry count for maps (major 5).
//!
//! Every decoder distinguishes `Truncated` (the bytes read so far are a valid
//! proper prefix of some encoding: more input may complete it) from
//! `Malformed` (no continuation of the input can be a valid encoding).

use vstd::prelude::*;
use vstd::slice::slice_subrange;
use vstd::slice::slice_to_vec;

verus! {

#[derive(Clone, Copy, PartialEq, Eq, Structural, Debug)]
pub enum DecodeErr {
    /// The input ended in the middle of a value; more bytes may complete it.
    Truncated,
    /// The input is structurally invalid and no further bytes can mend it.
    Malformed,
}

/// An exec parse result (positions as `usize`) agrees with a spec-level parse
/// result (positions as `int`), for parsers returning a plain copy type.
pub open spec fn parses_to<T>(sr: Result<(T, int), DecodeErr>, r: Result<(T, usize), DecodeErr>) -> bool {
    match sr {
        Ok((v, n)) => r matches Ok(p) && p.0 == v && p.1 as int == n,
        Err(e) => r == Err::<(T, usize), DecodeErr>(e),
    }
}

/// As `parses_to`, for parsers returning a byte payload.
pub open spec fn parses_to_bytes(sr: Result<(Seq<u8>, int), DecodeErr>, r: Result<(Vec<u8>, usize), DecodeErr>) -> bool {
    match sr {
        Ok((v, n)) => r matches Ok(p) && p.0@ == v && p.1 as int == n,
        Err(e) => r matches Err(f) && f == e,
    }
}

/// The byte sequence `e` occurs in `s` starting at position `i`.
pub open spec fn at(s: Seq<u8>, i: int, e: Seq<u8>) -> bool {
    0 <= i && i + e.len() <= s.len() && s.subrange(i, i + e.len()) == e
}

/// Splitting an occurrence of a concatenation into occurrences of its parts.
pub proof fn lemma_at_concat(s: Seq<u8>, i: int, a: Seq<u8>, b: Seq<u8>)
    requires
        at(s, i, a + b),
    ensures
        at(s, i, a),
        at(s, i + a.len(), b),
{
    let ab = a + b;
    assert(s.subrange(i, i + a.len()) =~= a) by {
        assert forall|k: int| 0 <= k < a.len() implies s.subrange(i, i + a.len())[k] == a[k] by {
            assert(s.subrange(i, i + ab.len())[k] == s[i + k]);
            assert(ab[k] == a[k]);
        }
    }
    assert(s.subrange(i + a.len(), i + a.len() + b.len()) =~= b) by {
        assert forall|k: int| 0 <= k < b.len() implies s.subrange(i + a.len(), i + a.len() + b.len())[k] == b[k] by {
            assert(s.subrange(i, i + ab.len())[a.len() + k] == s[i + a.len() + k]);
            assert(ab[a.len() + k] == b[k]);
        }
    }
}

/// A whole sequence occurs in itself at its start.
pub proof fn lemma_at_self(s: Seq<u8>)
    ensures
        at(s, 0, s),
{
    assert(s.subrange(0, s.len() as int) =~= s);
}

/// An occurrence of `e` pins down the bytes of `s` over its extent.
pub proof fn lemma_at_index(s: Seq<u8>, i: int, e: Seq<u8>, k: int)
    requires
        at(s, i, e),
        0 <= k < e.len(),
    ensures
        s[i + k] == e[k],
{
    assert(s.subrange(i, i + e.len())[k] == s[i + k]);
}

// ---------------------------------------------------------------------------
// Head: major kind plus argument.
// ---------------------------------------------------------------------------

/// Decode one head at `i`: the major kind and its argument.
#[verifier::opaque]
pub open spec fn spec_parse_head(s: Seq<u8>, i: int) -> Result<((u8, u64), int), DecodeErr>
    recommends
        0 <= i <= s.len(),
{
    if i < 0 || i >= s.len() {
        Err(DecodeErr::Truncated)
    } else {
        let major = s[i] >> 5;
        let ai = s[i] & 31;
        if ai < 24 {
            Ok(((major, ai as u64), i + 1))
        } else if ai == 24 {
            if i + 2 <= s.len() {
                Ok(((major, s[i + 1] as u64), i + 2))
            } else {
                Err(DecodeErr::Truncated)
            }
        } else if ai == 25 {
            if i + 3 <= s.len() {
                Ok(((major, ((s[i + 1] as u64) << 8) | (s[i + 2] as u64)), i + 3))
            } else {
                Err(DecodeErr::Truncated)
            }
        } else if ai == 26 {
            if i + 5 <= s.len() {
                Ok(((
                    major,
                    ((s[i + 1] as u64) << 24) | ((s[i + 2] as u64) << 16) | ((s[i + 3] as u64) << 8)
                        | (s[i + 4] as u64),
                ), i + 5))
            } else {
                Err(DecodeErr::Truncated)
            }
        } else if ai == 27 {
            if i + 9 <= s.len() {
                Ok(((
                    major,
                    ((s[i + 1] as u64) << 56) | ((s[i + 2] as u64) << 48) | ((s[i + 3] as u64) << 40)
                        | ((s[i + 4] as u64) << 32) | ((s[i + 5] as u64) << 24) | ((s[i + 6] as u64) << 16)
                        | ((s[i + 7] as u64) << 8) | (s[i + 8] as u64),
                ), i + 9))
            } else {
                Err(DecodeErr::Truncated)
            }
        } else {
            Err(DecodeErr::Malformed)
        }
    }
}

/// The canonical (shortest-form) encoding of a head.
#[verifier::opaque]
pub open spec fn spec_enc_head(major: u8, arg: u64) -> Seq<u8>
    recommends
        major < 8,
{
    if arg < 24 {
        seq![((major as u64 * 32 + arg) as u8)]
    } else if arg < 256 {
        seq![((major as u64 * 32 + 24) as u8), (arg as u8)]
    } else if arg < 65536 {
        seq![((major as u64 * 32 + 25) as u8), ((arg >> 8) as u8), (arg as u8)]
    } else if arg < 4294967296 {
        seq![
            ((major as u64 * 32 + 26) as u8),
            ((arg >> 24) as u8),
            ((arg >> 16) as u8),
            ((arg >> 8) as u8),
            (arg as u8),
        ]
    } else {
        seq![
            ((major as u64 * 32 + 27) as u8),
            ((arg >> 56) as u8),
            ((arg >> 48) as u8),
            ((arg >> 40) as u8),
            ((arg >> 32) as u8),
            ((arg >> 24) as u8),
            ((arg >> 16) as u8),
            ((arg >> 8) as u8),
            (arg as u8),
        ]
    }
}

/// Decoding an encoded head, at any position and whatever follows it, yields
/// back exactly the encoded major kind and argument.
pub proof fn lemma_head_round_trip(s: Seq<u8>, i: int, major: u8, arg: u64)
    requires
        major < 8,
        at(s, i, spec_enc_head(major, arg)),
    ensures
        spec_parse_head(s, i) == Ok::<((u8, u64), int), DecodeErr>(
            ((major, arg), i + spec_enc_head(major, arg).len()),
        ),
{
    reveal(spec_parse_head);
    reveal(spec_enc_head);
    let e = spec_enc_head(major, arg);
    assert forall|k: int| 0 <= k < e.len() implies s[i + k] == e[k] by {
        lemma_at_index(s, i, e, k);
    }
    if arg < 24 {
        let b = (major as u64 * 32 + arg) as u8;
        assert(s[i] == e[0]);
        assert(s[i] == b);
        assert(b >> 5 == major && b & 31 < 24 && (b & 31) as u64 == arg) by (bit_vector)
            requires
                major < 8,
                arg < 24,
                b == (major as u64 * 32 + arg) as u8,
        ;
    } else if arg < 256 {
        let b = (major as u64 * 32 + 24) as u8;
        assert(b >> 5 == major && b & 31 == 24) by (bit_vector)
            requires
                major < 8,
                b == (major as u64 * 32 + 24) as u8,
        ;
        assert(((arg as u8) as u64) == arg) by (bit_vector)
            requires
                arg < 256,
        ;
    } else if arg < 65536 {
        let b = (major as u64 * 32 + 25) as u8;
        assert(b >> 5 == major && b & 31 == 25) by (bit_vector)
            requires
                major < 8,
                b == (major as u64 * 32 + 25) as u8,
        ;
        assert(((((arg >> 8) as u8) as u64) << 8) | ((arg as u8) as u64) == arg) by (bit_vector)
            requires
                arg < 65536,
        ;
    } else if arg < 4294967296 {
        let b = (major as u64 * 32 + 26) as u8;
        assert(b >> 5 == major && b & 31 == 26) by (bit_vector)
            requires
                major < 8,
                b == (major as u64 * 32 + 26) as u8,
        ;
        assert(((((arg >> 24) as u8) as u64) << 24) | ((((arg >> 16) as u8) as u64) << 16)
            | ((((arg >> 8) as u8) as u64) << 8) | ((arg as u8) as u64) == arg) by (bit_vector)
            requires
                arg < 4294967296,
        ;
    } else {
        let b = (major as u64 * 32 + 27) as u8;
        assert(b >> 5 == major && b & 31 == 27) by (bit_vector)
            requires
                major < 8,
                b == (major as u64 * 32 + 27) as u8,
        ;
        assert(((((arg >> 56) as u8) as u64) << 56) | ((((arg >> 48) as u8) as u64) << 48)
            | ((((arg >> 40) as u8) as u64) << 40) | ((((arg >> 32) as u8) as u64) << 32)
            | ((((arg >> 24) as u8) as u64) << 24) | ((((arg >> 16) as u8) as u64) << 16)
            | ((((arg >> 8) as u8) as u64) << 8) | ((arg as u8) as u64) == arg) by (bit_vector);
    }
}

/// Decode one head.
pub fn parse_head(s: &[u8], pos: usize) -> (r: Result<((u8, u64), usize), DecodeErr>)
    requires
        pos <= s@.len(),
    ensures
        parses_to(spec_parse_head(s@, pos as int), r),
        r matches Ok(p) ==> pos < p.1 <= s@.len(),
{
    proof {
        reveal(spec_parse_head);
    }
    if pos >= s.len() {
        return Err(DecodeErr::Truncated);
    }
    let b: u8 = s[pos];
    let major: u8 = b >> 5;
    let ai: u8 = b & 31;
    if ai < 24 {
        Ok(((major, ai as u64), pos + 1))
    } else if ai == 24 {
        if s.len() - pos >= 2 {
            Ok(((major, s[pos + 1] as u64), pos + 2))
        } else {
            Err(DecodeErr::Truncated)
        }
    } else if ai == 25 {
        if s.len() - pos >= 3 {
            Ok(((major, ((s[pos + 1] as u64) << 8u64) | (s[pos + 2] as u64)), pos + 3))
        } else {
            Err(DecodeErr::Truncated)
        }
    } else if ai == 26 {
        if s.len() - pos >= 5 {
            Ok(((
                major,
                ((s[pos + 1] as u64) << 24u64) | ((s[pos + 2] as u64) << 16u64)
                    | ((s[pos + 3] as u64) << 8u64) | (s[pos + 4] as u64),
            ), pos + 5))
        } else {
            Err(DecodeErr::Truncated)
        }
    } else if ai == 27 {
        if s.len() - pos >= 9 {
            Ok(((
                major,
                ((s[pos + 1] as u64) << 56u64) | ((s[pos + 2] as u64) << 48u64)
                    | ((s[pos + 3] as u64) << 40u64) | ((s[pos + 4] as u64) << 32u64)
                    | ((s[pos + 5] as u64) << 24u64) | ((s[pos + 6] as u64) << 16u64)
                    | ((s[pos + 7] as u64) << 8u64) | (s[pos + 8] as u64),
            ), pos + 9))
        } else {
            Err(DecodeErr::Truncated)
        }
    } else {
        Err(DecodeErr::Malformed)
    }
}

/// Append the canonical encoding of a head.
pub fn enc_head_into(out: &mut Vec<u8>, major: u8, arg: u64)
    requires
        major < 8,
    ensures
        final(out)@ == old(out)@ + spec_enc_head(major, arg),
{
    proof {
        reveal(spec_enc_head);
    }
    let base: u8 = major * 32;
    if arg < 24 {
        out.push(base + (arg as u8));
        assert(base + (arg as u8) == (major as u64 * 32 + arg) as u8) by (bit_vector)
            requires
                major < 8,
                arg < 24,
                base == major * 32,
        ;
        assert(out@ =~= old(out)@ + spec_enc_head(major, arg));
    } else if arg < 256 {
        out.push(base + 24);
        out.push(arg as u8);
        assert(base + 24 == (major as u64 * 32 + 24) as u8) by (bit_vector)
            requires
                major < 8,
                base == major * 32,
        ;
        assert(out@ =~= old(out)@ + spec_enc_head(major, arg));
    } else if arg < 65536 {
        out.push(base + 25);
        out.push((arg >> 8u64) as u8);
        out.push(arg as u8);
        assert(base + 25 == (major as u64 * 32 + 25) as u8) by (bit_vector)
            requires
                major < 8,
                base == major * 32,
        ;
        assert(out@ =~= old(out)@ + spec_enc_head(major, arg));
    } else if arg < 4294967296 {
        out.push(base + 26);
        out.push((arg >> 24u64) as u8);
        out.push((arg >> 16u64) as u8);
        out.push((arg >> 8u64) as u8);
        out.push(arg as u8);
        assert(base + 26 == (major as u64 * 32 + 26) as u8) by (bit_vector)
            requires
                major < 8,
                base == major * 32,
        ;
        assert(out@ =~= old(out)@ + spec_enc_head(major, arg));
    } else {
        out.push(base + 27);
        out.push((arg >> 56u64) as u8);
        out.push((arg >> 48u64) as u8);
        out.push((arg >> 40u64) as u8);
        out.push((arg >> 32u64) as u8);
        out.push((arg >> 24u64) as u8);
        out.push((arg >> 16u64) as u8);
        out.push((arg >> 8u64) as u8);
        out.push(arg as u8);
        assert(base + 27 == (major as u64 * 32 + 27) as u8) by (bit_vector)
            requires
                major < 8,
                base == major * 32,
        ;
        assert(out@ =~= old(out)@ + spec_enc_head(major, arg));
    }
}

// ---------------------------------------------------------------------------
// Unsigned integers (major 0).
// ---------------------------------------------------------------------------

/// Decode one unsigned integer at `i`.
pub open spec fn spec_parse_uint(s: Seq<u8>, i: int) -> Result<(u64, int), DecodeErr> {
    match spec_parse_head(s, i) {
        Ok(((major, v), n)) => if major == 0 {
            Ok((v, n))
        } else {
            Err(DecodeErr::Malformed)
        },
        Err(e) => Err(e),
    }
}

/// The canonical encoding of an unsigned integer.
pub open spec fn spec_enc_uint(v: u64) -> Seq<u8> {
    spec_enc_head(0, v)
}

pub proof fn lemma_uint_round_trip(s: Seq<u8>, i: int, v: u64)
    requires
        at(s, i, spec_enc_uint(v)),
    ensures
        spec_parse_uint(s, i) == Ok::<(u64, int), DecodeErr>((v, i + spec_enc_uint(v).len())),
{
    lemma_head_round_trip(s, i, 0, v);
}

/// Decode one unsigned integer.
pub fn parse_uint(s: &[u8], pos: usize) -> (r: Result<(u64, usize), DecodeErr>)
    requires
        pos <= s@.len(),
    ensures
        parses_to(spec_parse_uint(s@, pos as int), r),
        r matches Ok(p) ==> pos < p.1 <= s@.len(),
{
    match parse_head(s, pos) {
        Ok(((major, v), n)) => if major == 0 {
            Ok((v, n))
        } else {
            Err(DecodeErr::Malformed)
        },
        Err(e) => Err(e),
    }
}

/// Append the canonical encoding of an unsigned integer.
pub fn enc_uint_into(out: &mut Vec<u8>, v: u64)
    ensures
        final(out)@ == old(out)@ + spec_enc_uint(v),
{
    enc_head_into(out, 0, v);
}

// ---------------------------------------------------------------------------
// Byte strings (major 2) and text strings (major 3).
// ---------------------------------------------------------------------------

/// Decode one length-prefixed payload of the given major kind at `i`.
#[verifier::opaque]
pub open spec fn spec_parse_payload(s: Seq<u8>, i: int, major: u8) -> Result<(Seq<u8>, int), DecodeErr> {
    match spec_parse_head(s, i) {
        Ok(((m, len), n)) => if m != major {
            Err(DecodeErr::Malformed)
        } else if n + len <= s.len() {
            Ok((s.subrange(n, n + len), n + len))
        } else {
            Err(DecodeErr::Truncated)
        },
        Err(e) => Err(e),
    }
}

/// Decode one byte string at `i`.
pub open spec fn spec_parse_bytes(s: Seq<u8>, i: int) -> Result<(Seq<u8>, int), DecodeErr> {
    spec_parse_payload(s, i, 2)
}

/// Decode one text string at `i`; the payload is kept as its raw bytes.
pub open spec fn spec_parse_text(s: Seq<u8>, i: int) -> Result<(Seq<u8>, int), DecodeErr> {
    spec_parse_payload(s, i, 3)
}

/// The canonical encoding of a length-prefixed payload.
#[verifier::opaque]
pub open spec fn spec_enc_payload(major: u8, b: Seq<u8>) -> Seq<u8>
    recommends
        major < 8,
        b.len() <= u64::MAX,
{
    spec_enc_head(major, b.len() as u64) + b
}

pub open spec fn spec_enc_bytes(b: Seq<u8>) -> Seq<u8> {
    spec_enc_payload(2, b)
}

pub open spec fn spec_enc_text(b: Seq<u8>) -> Seq<u8> {
    spec_enc_payload(3, b)
}

pub proof fn lemma_payload_round_trip(s: Seq<u8>, i: int, major: u8, b: Seq<u8>)
    requires
        major == 2 || major == 3,
        b.len() <= u64::MAX,
        at(s, i, spec_enc_payload(major, b)),
    ensures
        spec_parse_payload(s, i, major) == Ok::<(Seq<u8>, int), DecodeErr>(
            (b, i + spec_enc_payload(major, b).len()),
        ),
{
    reveal(spec_enc_payload);
    reveal(spec_parse_payload);
    let h = spec_enc_head(major, b.len() as u64);
    lemma_at_concat(s, i, h, b);
    lemma_head_round_trip(s, i, major, b.len() as u64);
    let n = i + h.len();
    assert(s.subrange(n, n + b.len()) == b);
}

pub proof fn lemma_bytes_round_trip(s: Seq<u8>, i: int, b: Seq<u8>)
    requires
        b.len() <= u64::MAX,
        at(s, i, spec_enc_bytes(b)),
    ensures
        spec_parse_bytes(s, i) == Ok::<(Seq<u8>, int), DecodeErr>(
            (b, i + spec_enc_bytes(b).len()),
        ),
{
    lemma_payload_round_trip(s, i, 2, b);
}

pub proof fn lemma_text_round_trip(s: Seq<u8>, i: int, b: Seq<u8>)
    requires
        b.len() <= u64::MAX,
        at(s, i, spec_enc_text(b)),
    ensures
        spec_parse_text(s, i) == Ok::<(Seq<u8>, int), DecodeErr>(
            (b, i + spec_enc_text(b).len()),
        ),
{
    lemma_payload_round_trip(s, i, 3, b);
}

/// Decode one length-prefixed payload of the given major kind.
pub fn parse_payload(s: &[u8], pos: usize, major: u8) -> (r: Result<(Vec<u8>, usize), DecodeErr>)
    requires
        pos <= s@.len(),
    ensures
        parses_to_bytes(spec_parse_payload(s@, pos as int, major), r),
        r matches Ok(p) ==> pos < p.1 <= s@.len(),
{
    proof {
        reveal(spec_parse_payload);
    }
    match parse_head(s, pos) {
        Ok(((m, len), n)) => {
            if m != major {
                Err(DecodeErr::Malformed)
            } else if len <= (s.len() - n) as u64 {
                let l: usize = len as usize;
                let sub: &[u8] = slice_subrange(s, n, n + l);
                let v: Vec<u8> = slice_to_vec(sub);
                Ok((v, n + l))
            } else {
                Err(DecodeErr::Truncated)
            }
        },
        Err(e) => Err(e),
    }
}

/// Decode one byte string.
pub fn parse_bytes(s: &[u8], pos: usize) -> (r: Result<(Vec<u8>, usize), DecodeErr>)
    requires
        pos <= s@.len(),
    ensures
        parses_to_bytes(spec_parse_bytes(s@, pos as int), r),
        r matches Ok(p) ==> pos < p.1 <= s@.len(),
{
    parse_payload(s, pos, 2)
}

/// Decode one text string, kept as its raw bytes.
pub fn parse_text(s: &[u8], pos: usize) -> (r: Result<(Vec<u8>, usize), DecodeErr>)
    requires
        pos <= s@.len(),
    ensures
        parses_to_bytes(spec_parse_text(s@, pos as int), r),
        r matches Ok(p) ==> pos < p.1 <= s@.len(),
{
    parse_payload(s, pos, 3)
}

/// Append the canonical encoding of a length-prefixed payload.
pub fn enc_payload_into(out: &mut Vec<u8>, major: u8, b: &[u8])
    requires
        major < 8,
    ensures
        final(out)@ == old(out)@ + spec_enc_payload(major, b@),
{
    proof {
        reveal(spec_enc_payload);
    }
    enc_head_into(out, major, b.len() as u64);
    let ghost mid = out@;
    let mut k: usize = 0;
    while k < b.len()
        invariant
            k <= b@.len(),
            out@ == mid + b@.take(k as int),
        decreases b@.len() - k,
    {
        out.push(b[k]);
        assert(mid + b@.take(k as int) + seq![b@[k as int]] =~= mid + b@.take(k as int + 1));
        k = k + 1;
    }
    assert(b@.take(b@.len() as int) =~= b@);
}

/// Append the canonical encoding of a byte string.
pub fn enc_bytes_into(out: &mut Vec<u8>, b: &[u8])
    ensures
        final(out)@ == old(out)@ + spec_enc_bytes(b@),
{
    enc_payload_into(out, 2, b);
}

/// Append the canonical encoding of a text string given as its raw bytes.
pub fn enc_text_into(out: &mut Vec<u8>, b: &[u8])
    ensures
        final(out)@ == old(out)@ + spec_enc_text(b@),
{
    enc_payload_into(out, 3, b);
}

// ---------------------------------------------------------------------------
// Map heads (major 5): the entry count; entries follow as key-value pairs.
// ---------------------------------------------------------------------------

/// Decode one map head at `i`, yielding the entry count.
pub open spec fn spec_parse_map_head(s: Seq<u8>, i: int) -> Result<(u64, int), DecodeErr> {
    match spec_parse_head(s, i) {
        Ok(((major, count), n)) => if major == 5 {
            Ok((count, n))
        } else {
            Err(DecodeErr::Malformed)
        },
        Err(e) => Err(e),
    }
}

/// The canonical encoding of a map head.
pub open spec fn spec_enc_map_head(count: u64) -> Seq<u8> {
    spec_enc_head(5, count)
}

pub proof fn lemma_map_head_round_trip(s: Seq<u8>, i: int, count: u64)
    requires
        at(s, i, spec_enc_map_head(count)),
    ensures
        spec_parse_map_head(s, i) == Ok::<(u64, int), DecodeErr>(
            (count, i + spec_enc_map_head(count).len()),
        ),
{
    lemma_head_round_trip(s, i, 5, count);
}

/// Decode one map head, yielding the entry count.
pub fn parse_map_head(s: &[u8], pos: usize) -> (r: Result<(u64, usize), DecodeErr>)
    requires
        pos <= s@.len(),
    ensures
        parses_to(spec_parse_map_head(s@, pos as int), r),
        r matches Ok(p) ==> pos < p.1 <= s@.len(),
{
    match parse_head(s, pos) {
        Ok(((major, count), n)) => if major == 5 {
            Ok((count, n))
        } else {
            Err(DecodeErr::Malformed)
        },
        Err(e) => Err(e),
    }
}

/// Append the canonical encoding of a map head.
pub fn enc_map_head_into(out: &mut Vec<u8>, count: u64)
    ensures
        final(out)@ == old(out)@ + spec_enc_map_head(count),
{
    enc_head_into(out, 5, count);
}

// ---------------------------------------------------------------------------
// Map fields: a text key followed by a typed value.
// ---------------------------------------------------------------------------

/// Decode one map entry at `i` whose key must be `name` and whose value is an
/// unsigned integer.
#[verifier::opaque]
pub open spec fn spec_parse_field_uint(s: Seq<u8>, i: int, name: Seq<u8>) -> Result<(u64, int), DecodeErr> {
    match spec_parse_text(s, i) {
        Ok((k, n)) => if k == name {
            spec_parse_uint(s, n)
        } else {
            Err(DecodeErr::Malformed)
        },
        Err(e) => Err(e),
    }
}

/// As `spec_parse_field_uint`, with the value bounded to fit in `u8`.
#[verifier::opaque]
pub open spec fn spec_parse_field_u8(s: Seq<u8>, i: int, name: Seq<u8>) -> Result<(u8, int), DecodeErr> {
    match spec_parse_field_uint(s, i, name) {
        Ok((v, n)) => if v <= u8::MAX as u64 {
            Ok((v as u8, n))
        } else {
            Err(DecodeErr::Malformed)
        },
        Err(e) => Err(e),
    }
}

/// As `spec_parse_field_uint`, with the value bounded to fit in `u16`.
#[verifier::opaque]
pub open spec fn spec_parse_field_u16(s: Seq<u8>, i: int, name: Seq<u8>) -> Result<(u16, int), DecodeErr> {
    match spec_parse_field_uint(s, i, name) {
        Ok((v, n)) => if v <= u16::MAX as u64 {
            Ok((v as u16, n))
        } else {
            Err(DecodeErr::Malformed)
        },
        Err(e) => Err(e),
    }
}

/// Decode one map entry at `i` whose key must be `name` and whose value is a
/// byte string.
#[verifier::opaque]
pub open spec fn spec_parse_field_bytes(s: Seq<u8>, i: int, name: Seq<u8>) -> Result<(Seq<u8>, int), DecodeErr> {
    match spec_parse_text(s, i) {
        Ok((k, n)) => if k == name {
            spec_parse_bytes(s, n)
        } else {
            Err(DecodeErr::Malformed)
        },
        Err(e) => Err(e),
    }
}

/// Decode one map entry at `i` whose key must be `name` and whose value is a
/// text string.
#[verifier::opaque]
pub open spec fn spec_parse_field_text(s: Seq<u8>, i: int, name: Seq<u8>) -> Result<(Seq<u8>, int), DecodeErr> {
    match spec_parse_text(s, i) {
        Ok((k, n)) => if k == name {
            spec_parse_text(s, n)
        } else {
            Err(DecodeErr::Malformed)
        },
        Err(e) => Err(e),
    }
}

#[verifier::opaque]
pub open spec fn spec_enc_field_uint(name: Seq<u8>, v: u64) -> Seq<u8> {
    spec_enc_text(name) + spec_enc_uint(v)
}

#[verifier::opaque]
pub open spec fn spec_enc_field_bytes(name: Seq<u8>, b: Seq<u8>) -> Seq<u8> {
    spec_enc_text(name) + spec_enc_bytes(b)
}

#[verifier::opaque]
pub open spec fn spec_enc_field_text(name: Seq<u8>, b: Seq<u8>) -> Seq<u8> {
    spec_enc_text(name) + spec_enc_text(b)
}

pub proof fn lemma_field_uint_round_trip(s: Seq<u8>, i: int, name: Seq<u8>, v: u64)
    requires
        name.len() <= u64::MAX,
        at(s, i, spec_enc_field_uint(name, v)),
    ensures
        spec_parse_field_uint(s, i, name) == Ok::<(u64, int), DecodeErr>(
            (v, i + spec_enc_field_uint(name, v).len()),
        ),
{
    reveal(spec_enc_field_uint);
    reveal(spec_parse_field_uint);
    lemma_at_concat(s, i, spec_enc_text(name), spec_enc_uint(v));
    lemma_text_round_trip(s, i, name);
    lemma_uint_round_trip(s, i + spec_enc_text(name).len() as int, v);
}

pub proof fn lemma_field_u8_round_trip(s: Seq<u8>, i: int, name: Seq<u8>, v: u8)
    requires
        name.len() <= u64::MAX,
        at(s, i, spec_enc_field_uint(name, v as u64)),
    ensures
        spec_parse_field_u8(s, i, name) == Ok::<(u8, int), DecodeErr>(
            (v, i + spec_enc_field_uint(name, v as u64).len()),
        ),
{
    reveal(spec_parse_field_u8);
    lemma_field_uint_round_trip(s, i, name, v as u64);
}

pub proof fn lemma_field_u16_round_trip(s: Seq<u8>, i: int, name: Seq<u8>, v: u16)
    requires
        name.len() <= u64::MAX,
        at(s, i, spec_enc_field_uint(name, v as u64)),
    ensures
        spec_parse_field_u16(s, i, name) == Ok::<(u16, int), DecodeErr>(
            (v, i + spec_enc_field_uint(name, v as u64).len()),
        ),
{
    reveal(spec_parse_field_u16);
    lemma_field_uint_round_trip(s, i, name, v as u64);
}

pub proof fn lemma_field_bytes_round_trip(s: Seq<u8>, i: int, name: Seq<u8>, b: Seq<u8>)
    requires
        name.len() <= u64::MAX,
        b.len() <= u64::MAX,
        at(s, i, spec_enc_field_bytes(name, b)),
    ensures
        spec_parse_field_bytes(s, i, name) == Ok::<(Seq<u8>, int), DecodeErr>(
            (b, i + spec_enc_field_bytes(name, b).len()),
        ),
{
    reveal(spec_enc_field_bytes);
    reveal(spec_parse_field_bytes);
    lemma_at_concat(s, i, spec_enc_text(name), spec_enc_bytes(b));
    lemma_text_round_trip(s, i, name);
    lemma_bytes_round_trip(s, i + spec_enc_text(name).len() as int, b);
}

pub proof fn lemma_field_text_round_trip(s: Seq<u8>, i: int, name: Seq<u8>, b: Seq<u8>)
    requires
        name.len() <= u64::MAX,
        b.len() <= u64::MAX,
        at(s, i, spec_enc_field_text(name, b)),
    ensures
        spec_parse_field_text(s, i, name) == Ok::<(Seq<u8>, int), DecodeErr>(
            (b, i + spec_enc_field_text(name, b).len()),
        ),
{
    reveal(spec_enc_field_text);
    reveal(spec_parse_field_text);
    lemma_at_concat(s, i, spec_enc_text(name), spec_enc_text(b));
    lemma_text_round_trip(s, i, name);
    lemma_text_round_trip(s, i + spec_enc_text(name).len() as int, b);
}

/// Decode one map entry with key `name` and an unsigned-integer value.
pub fn parse_field_uint(s: &[u8], pos: usize, name: &[u8]) -> (r: Result<(u64, usize), DecodeErr>)
    requires
        pos <= s@.len(),
    ensures
        parses_to(spec_parse_field_uint(s@, pos as int, name@), r),
        r matches Ok(p) ==> pos < p.1 <= s@.len(),
{
    proof {
        reveal(spec_parse_field_uint);
    }
    match parse_text(s, pos) {
        Ok((k, n)) => if bytes_eq(k.as_slice(), name) {
            parse_uint(s, n)
        } else {
            Err(DecodeErr::Malformed)
        },
        Err(e) => Err(e),
    }
}

/// Decode one map entry with key `name` and a value that must fit in `u8`.
pub fn parse_field_u8(s: &[u8], pos: usize, name: &[u8]) -> (r: Result<(u8, usize), DecodeErr>)
    requires
        pos <= s@.len(),
    ensures
        parses_to(spec_parse_field_u8(s@, pos as int, name@), r),
        r matches Ok(p) ==> pos < p.1 <= s@.len(),
{
    proof {
        reveal(spec_parse_field_u8);
    }
    match parse_field_uint(s, pos, name) {
        Ok((v, n)) => if v <= u8::MAX as u64 {
            Ok((v as u8, n))
        } else {
            Err(DecodeErr::Malformed)
        },
        Err(e) => Err(e),
    }
}

/// Decode one map entry with key `name` and a value that must fit in `u16`.
pub fn parse_field_u16(s: &[u8], pos: usize, name: &[u8]) -> (r: Result<(u16, usize), DecodeErr>)
    requires
        pos <= s@.len(),
    ensures
        parses_to(spec_parse_field_u16(s@, pos as int, name@), r),
        r matches Ok(p) ==> pos < p.1 <= s@.len(),
{
    proof {
        reveal(spec_parse_field_u16);
    }
    match parse_field_uint(s, pos, name) {
        Ok((v, n)) => if v <= u16::MAX as u64 {
            Ok((v as u16, n))
        } else {
            Err(DecodeErr::Malformed)
        },
        Err(e) => Err(e),
    }
}

/// Decode one map entry with key `name` and a byte-string value.
pub fn parse_field_bytes(s: &[u8], pos: usize, name: &[u8]) -> (r: Result<(Vec<u8>, usize), DecodeErr>)
    requires
        pos <= s@.len(),
    ensures
        parses_to_bytes(spec_parse_field_bytes(s@, pos as int, name@), r),
        r matches Ok(p) ==> pos < p.1 <= s@.len(),
{
    proof {
        reveal(spec_parse_field_bytes);
    }
    match parse_text(s, pos) {
        Ok((k, n)) => if bytes_eq(k.as_slice(), name) {
            parse_bytes(s, n)
        } else {
            Err(DecodeErr::Malformed)
        },
        Err(e) => Err(e),
    }
}

/// Decode one map entry with key `name` and a text-string value.
pub fn parse_field_text(s: &[u8], pos: usize, name: &[u8]) -> (r: Result<(Vec<u8>, usize), DecodeErr>)
    requires
        pos <= s@.len(),
    ensures
        parses_to_bytes(spec_parse_field_text(s@, pos as int, name@), r),
        r matches Ok(p) ==> pos < p.1 <= s@.len(),
{
    proof {
        reveal(spec_parse_field_text);
    }
    match parse_text(s, pos) {
        Ok((k, n)) => if bytes_eq(k.as_slice(), name) {
            parse_text(s, n)
        } else {
            Err(DecodeErr::Malformed)
        },
        Err(e) => Err(e),
    }
}

/// Append one map entry with key `name` and an unsigned-integer value.
pub fn enc_field_uint_into(out: &mut Vec<u8>, name: &[u8], v: u64)
    ensures
        final(out)@ == old(out)@ + spec_enc_field_uint(name@, v),
{
    proof {
        reveal(spec_enc_field_uint);
    }
    let ghost o0 = out@;
    enc_text_into(out, name);
    enc_uint_into(out, v);
    assert(out@ =~= o0 + spec_enc_field_uint(name@, v));
}

/// Append one map entry with key `name` and a byte-string value.
pub fn enc_field_bytes_into(out: &mut Vec<u8>, name: &[u8], b: &[u8])
    ensures
        final(out)@ == old(out)@ + spec_enc_field_bytes(name@, b@),
{
    proof {
        reveal(spec_enc_field_bytes);
    }
    let ghost o0 = out@;
    enc_text_into(out, name);
    enc_bytes_into(out, b);
    assert(out@ =~= o0 + spec_enc_field_bytes(name@, b@));
}

/// Append one map entry with key `name` and a text-string value.
pub fn enc_field_text_into(out: &mut Vec<u8>, name: &[u8], b: &[u8])
    ensures
        final(out)@ == old(out)@ + spec_enc_field_text(name@, b@),
{
    proof {
        reveal(spec_enc_field_text);
    }
    let ghost o0 = out@;
    enc_text_into(out, name);
    enc_text_into(out, b);
    assert(out@ =~= o0 + spec_enc_field_text(name@, b@));
}

// ---------------------------------------------------------------------------
// Byte-sequence equality.
// ---------------------------------------------------------------------------

/// Compare two byte slices for equality of their contents.
pub fn bytes_eq(a: &[u8], b: &[u8]) -> (r: bool)
    ensures
        r == (a@ == b@),
{
    if a.len() != b.len() {
        return false;
    }
    let mut k: usize = 0;
    while k < a.len()
        invariant
            k <= a@.len(),
            a@.len() == b@.len(),
            forall|j: int| 0 <= j < k ==> a@[j] == b@[j],
        decreases a@.len() - k,
    {
        if a[k] != b[k] {
            return false;
        }
        k = k + 1;
    }
    assert(a@ =~= b@);
    true
}

} // verus!
