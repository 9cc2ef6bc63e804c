//! Lowercase hexadecimal formatting: batch archive keys and command
//! payloads are rendered as hex digit strings.

use vstd::prelude::*;

verus! {

/// The lowercase hex digit for a nibble.
pub open spec fn hexdig(d: u8) -> u8
    recommends
        d < 16,
{
    if d < 10 {
        (48 + d) as u8
    } else {
        (87 + d) as u8
    }
}

/// The lowercase hex rendering of a byte sequence, two digits per byte.
pub open spec fn spec_hex_of(s: Seq<u8>) -> Seq<u8>
    decreases s.len(),
{
    if s.len() == 0 {
        Seq::empty()
    } else {
        spec_hex_of(s.drop_last()) + seq![hexdig(s.last() / 16), hexdig(s.last() % 16)]
    }
}

/// The fixed-width key of a batch: its id as 8 zero-padded lowercase hex
/// digits.
pub open spec fn spec_hex8(id: u32) -> Seq<u8> {
    spec_hex_of(
        seq![
            (id >> 24) as u8,
            ((id >> 16) & 255) as u8,
            ((id >> 8) & 255) as u8,
            (id & 255) as u8,
        ],
    )
}

/// One lowercase hex digit.
pub fn hex_digit(d: u8) -> (r: u8)
    requires
        d < 16,
    ensures
        r == hexdig(d),
{
    if d < 10 {
        48 + d
    } else {
        87 + d
    }
}

/// Render a byte sequence as lowercase hex, two digits per byte.
pub fn hex_encode(b: &[u8]) -> (r: Vec<u8>)
    ensures
        r@ == spec_hex_of(b@),
{
    let mut out: Vec<u8> = Vec::new();
    let mut k: usize = 0;
    while k < b.len()
        invariant
            k <= b@.len(),
            out@ == spec_hex_of(b@.take(k as int)),
        decreases b@.len() - k,
    {
        let x: u8 = b[k];
        out.push(hex_digit(x / 16));
        out.push(hex_digit(x % 16));
        proof {
            let taken = b@.take(k as int + 1);
            assert(taken.drop_last() =~= b@.take(k as int));
            assert(taken.last() == b@[k as int]);
            assert(out@ =~= spec_hex_of(taken));
        }
        k = k + 1;
    }
    assert(b@.take(b@.len() as int) =~= b@);
    out
}

/// Render a batch id as its fixed-width archive key.
pub fn hex8(id: u32) -> (r: Vec<u8>)
    ensures
        r@ == spec_hex8(id),
{
    let b0: u8 = (id >> 24u32) as u8;
    let b1: u8 = ((id >> 16u32) & 255) as u8;
    let b2: u8 = ((id >> 8u32) & 255) as u8;
    let b3: u8 = (id & 255) as u8;
    let mut bytes: Vec<u8> = Vec::new();
    bytes.push(b0);
    bytes.push(b1);
    bytes.push(b2);
    bytes.push(b3);
    let r = hex_encode(bytes.as_slice());
    assert(bytes@ =~= seq![
        (id >> 24) as u8,
        ((id >> 16) & 255) as u8,
        ((id >> 8) & 255) as u8,
        (id & 255) as u8,
    ]);
    r
}

/// Hex rendering doubles the length; a batch key is always exactly eight
/// digits, zero-padded.
pub proof fn lemma_hex_of_len(s: Seq<u8>)
    ensures
        spec_hex_of(s).len() == 2 * s.len(),
    decreases s.len(),
{
    if s.len() > 0 {
        lemma_hex_of_len(s.drop_last());
    }
}

pub proof fn lemma_hex8_len(id: u32)
    ensures
        spec_hex8(id).len() == 8,
{
    lemma_hex_of_len(
        seq![
            (id >> 24) as u8,
            ((id >> 16) & 255) as u8,
            ((id >> 8) & 255) as u8,
            (id & 255) as u8,
        ],
    );
}

} // verus!
