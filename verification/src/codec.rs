//! The wire format of cached embedding vectors: each 32-bit component is laid
//! out as four little-endian bytes, and the byte string is carried through
//! the cache as standard base64 text.
//!
//! Components are held as the raw 32-bit patterns of the provider's values,
//! so the codec is exact and a round trip returns the vector unchanged.

use vstd::prelude::*;
use base64::Engine;

verus! {

/// The four little-endian bytes of one 32-bit component.
pub open spec fn le_bytes_of_unit(x: u32) -> Seq<u8> {
    seq![
        (x % 256) as u8,
        ((x / 256) % 256) as u8,
        ((x / 65536) % 256) as u8,
        ((x / 16777216) % 256) as u8,
    ]
}

/// The component encoded by four little-endian bytes.
pub open spec fn unit_of_le_bytes(b0: u8, b1: u8, b2: u8, b3: u8) -> u32 {
    (b0 + b1 * 256 + b2 * 65536 + b3 * 16777216) as u32
}

/// A whole vector, four bytes per component, in order.
pub open spec fn bytes_of_units(v: Seq<u32>) -> Seq<u8>
    decreases v.len(),
{
    if v.len() == 0 {
        Seq::empty()
    } else {
        le_bytes_of_unit(v[0]) + bytes_of_units(v.drop_first())
    }
}

/// The components read back from a byte string, four bytes at a time;
/// a trailing fragment shorter than four bytes is ignored.
pub open spec fn units_of_bytes(b: Seq<u8>) -> Seq<u32>
    decreases b.len(),
{
    if b.len() < 4 {
        Seq::empty()
    } else {
        seq![unit_of_le_bytes(b[0], b[1], b[2], b[3])] + units_of_bytes(b.skip(4))
    }
}

proof fn lemma_unit_le_round_trip(x: u32)
    ensures
        unit_of_le_bytes(
            (x % 256) as u8,
            ((x / 256) % 256) as u8,
            ((x / 65536) % 256) as u8,
            ((x / 16777216) % 256) as u8,
        ) == x,
{
}

pub proof fn lemma_bytes_of_units_len(v: Seq<u32>)
    ensures
        bytes_of_units(v).len() == 4 * v.len(),
    decreases v.len(),
{
    if v.len() > 0 {
        lemma_bytes_of_units_len(v.drop_first());
    }
}

/// Decoding inverts encoding: reading a vector's byte layout back yields the
/// vector itself.
pub proof fn lemma_units_round_trip(v: Seq<u32>)
    ensures
        units_of_bytes(bytes_of_units(v)) == v,
    decreases v.len(),
{
    if v.len() == 0 {
        assert(units_of_bytes(bytes_of_units(v)) =~= v);
    } else {
        let b = bytes_of_units(v);
        lemma_bytes_of_units_len(v);
        lemma_bytes_of_units_len(v.drop_first());
        assert(b.skip(4) =~= bytes_of_units(v.drop_first()));
        lemma_unit_le_round_trip(v[0]);
        lemma_units_round_trip(v.drop_first());
        assert(units_of_bytes(b) =~= v);
    }
}

/// Serializes a vector of 32-bit components into little-endian bytes.
pub fn units_to_bytes(v: &Vec<u32>) -> (r: Vec<u8>)
    requires
        4 * v@.len() <= usize::MAX,
    ensures
        r@ == bytes_of_units(v@),
{
    let mut r: Vec<u8> = Vec::new();
    for i in it: 0..v.len()
        invariant
            4 * v@.len() <= usize::MAX,
            r@ == bytes_of_units(v@.take(i as int)),
            r@.len() == 4 * i,
    {
        let x = v[i];
        proof {
            let pre = v@.take(i as int);
            assert(v@.take(i + 1) =~= pre.push(v@[i as int]));
            lemma_bytes_of_units_snoc(pre, v@[i as int]);
        }
        let ghost r0 = r@;
        r.push((x % 256) as u8);
        r.push(((x / 256) % 256) as u8);
        r.push(((x / 65536) % 256) as u8);
        r.push(((x / 16777216) % 256) as u8);
        proof {
            assert(r@ =~= r0 + le_bytes_of_unit(x));
        }
    }
    proof {
        assert(v@.take(v@.len() as int) =~= v@);
    }
    r
}

/// Appending one component appends its four bytes.
proof fn lemma_bytes_of_units_snoc(v: Seq<u32>, x: u32)
    ensures
        bytes_of_units(v.push(x)) == bytes_of_units(v) + le_bytes_of_unit(x),
    decreases v.len(),
{
    let s = v.push(x);
    if v.len() == 0 {
        assert(s[0] == x);
        assert(s.drop_first() =~= Seq::<u32>::empty());
        assert(bytes_of_units(s.drop_first()) == Seq::<u8>::empty());
        assert(bytes_of_units(s) =~= bytes_of_units(v) + le_bytes_of_unit(x));
    } else {
        assert(s[0] == v[0]);
        assert(s.drop_first() =~= v.drop_first().push(x));
        lemma_bytes_of_units_snoc(v.drop_first(), x);
        assert(bytes_of_units(s) == le_bytes_of_unit(s[0]) + bytes_of_units(s.drop_first()));
        assert(bytes_of_units(s) =~= bytes_of_units(v) + le_bytes_of_unit(x));
    }
}

/// Reads components back out of a byte string, four bytes at a time; a
/// trailing fragment shorter than four bytes is ignored, as a corrupt cache
/// entry must never become an error.
pub fn bytes_to_units(b: &Vec<u8>) -> (r: Vec<u32>)
    ensures
        r@ == units_of_bytes(b@),
{
    let mut r: Vec<u32> = Vec::new();
    let mut at: usize = 0;
    let len = b.len();
    if len < 4 {
        return r;
    }
    proof {
        assert(b@.skip(0) =~= b@);
        assert(r@ + units_of_bytes(b@) =~= units_of_bytes(b@));
    }
    while at <= len - 4
        invariant
            4 <= len == b@.len(),
            at <= len,
            units_of_bytes(b@) == r@ + units_of_bytes(b@.skip(at as int)),
        decreases len - at,
    {
        let b0 = b[at];
        let b1 = b[at + 1];
        let b2 = b[at + 2];
        let b3 = b[at + 3];
        let x: u32 = b0 as u32 + (b1 as u32) * 256 + (b2 as u32) * 65536 + (b3 as u32)
            * 16777216;
        proof {
            let rest = b@.skip(at as int);
            assert(rest.len() >= 4);
            assert(rest[0] == b@[at as int]);
            assert(rest[1] == b@[at as int + 1]);
            assert(rest[2] == b@[at as int + 2]);
            assert(rest[3] == b@[at as int + 3]);
            assert(rest.skip(4) =~= b@.skip(at as int + 4));
            assert(x == unit_of_le_bytes(b@[at as int], b@[at as int + 1], b@[at as int + 2],
                b@[at as int + 3]));
            assert(units_of_bytes(rest) == seq![x] + units_of_bytes(b@.skip(at as int + 4)));
            assert(r@.push(x) + units_of_bytes(b@.skip(at as int + 4)) =~= r@ + units_of_bytes(
                rest));
        }
        r.push(x);
        at = at + 4;
    }
    proof {
        assert(b@.skip(at as int).len() < 4);
        assert(r@ + Seq::<u32>::empty() =~= r@);
    }
    r
}

/// What base64's standard alphabet makes of the given bytes; a function of
/// the bytes alone.
pub uninterp spec fn b64_of(bytes: Seq<u8>) -> Seq<char>;

/// Relies on base64's standard engine: the encoding is determined by the
/// input bytes alone.
#[verifier::external_body]
pub fn b64_encode(bytes: &[u8]) -> (r: String)
    ensures
        r@ == b64_of(bytes@),
{
    base64::engine::general_purpose::STANDARD.encode(bytes)
}

/// Relies on base64's standard engine decode: it accepts exactly the
/// canonically padded encodings, and on the encoding of any byte string it
/// returns those bytes.
#[verifier::external_body]
pub fn b64_decode(s: &str) -> (r: Option<Vec<u8>>)
    ensures
        r matches Some(v) ==> s@ == b64_of(v@),
        forall|b: Seq<u8>| r is Some && s@ == b64_of(b) ==> r->Some_0@ == b,
        r is None ==> forall|b: Seq<u8>| s@ != b64_of(b),
{
    match base64::engine::general_purpose::STANDARD.decode(s) {
        Ok(v) => Some(v),
        Err(_) => None,
    }
}

} // verus!
