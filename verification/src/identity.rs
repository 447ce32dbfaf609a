//! Device identity: a 128-bit value derived from the identity-defining
//! hardware fields (bus type, vendor, product, version), and the GUID text
//! form under which mapping definitions index it.
//!
//! The packed layout follows the mapping-definition convention: each 16-bit
//! field is stored least-significant byte first in its own four-byte group,
//! so the GUID text of a device reads bus, vendor, product, version in that
//! order.

use vstd::arithmetic::power2::pow2;
use vstd::prelude::*;

verus! {

/// A 16-bit value with its two bytes exchanged.
pub open spec fn spec_swap16(x: u16) -> u16 {
    (((x & 0xff) << 8) | (x >> 8)) as u16
}

/// The identity value packed from the four identity-defining fields.
pub open spec fn spec_identity(bustype: u16, vendor: u16, product: u16, version: u16) -> u128 {
    ((spec_swap16(bustype) as u128) << 112) | ((spec_swap16(vendor) as u128) << 80) | ((
    spec_swap16(product) as u128) << 48) | ((spec_swap16(version) as u128) << 16)
}

/// Packs (bus type, vendor, product, version) into the 128-bit identity of
/// the device model. Two devices with identical fields get identical
/// identities; `lemma_identity_injective` states the converse.
pub fn create_uuid(bustype: u16, vendor: u16, product: u16, version: u16) -> (r: u128)
    ensures
        r == spec_identity(bustype, vendor, product, version),
{
    let bus_sw: u16 = ((bustype & 0xff) << 8) | (bustype >> 8);
    let vendor_sw: u16 = ((vendor & 0xff) << 8) | (vendor >> 8);
    let product_sw: u16 = ((product & 0xff) << 8) | (product >> 8);
    let version_sw: u16 = ((version & 0xff) << 8) | (version >> 8);
    ((bus_sw as u128) << 112) | ((vendor_sw as u128) << 80) | ((product_sw as u128) << 48) | ((
    version_sw as u128) << 16)
}

proof fn lemma_swap16_involutive(x: u16)
    ensures
        spec_swap16(spec_swap16(x)) == x,
{
    assert(((((((x & 0xff) << 8) | (x >> 8)) as u16) & 0xff) << 8) | ((((x & 0xff) << 8) | (x
        >> 8)) as u16 >> 8) == x) by (bit_vector);
}

proof fn lemma_identity_fields(bustype: u16, vendor: u16, product: u16, version: u16)
    ensures
        (spec_identity(bustype, vendor, product, version) >> 112) as u16 == spec_swap16(bustype),
        (spec_identity(bustype, vendor, product, version) >> 80) as u16 == spec_swap16(vendor),
        (spec_identity(bustype, vendor, product, version) >> 48) as u16 == spec_swap16(product),
        (spec_identity(bustype, vendor, product, version) >> 16) as u16 == spec_swap16(version),
{
    let b = spec_swap16(bustype) as u128;
    let v = spec_swap16(vendor) as u128;
    let p = spec_swap16(product) as u128;
    let w = spec_swap16(version) as u128;
    assert(b < 0x10000 && v < 0x10000 && p < 0x10000 && w < 0x10000);
    assert(b < 0x10000 && v < 0x10000 && p < 0x10000 && w < 0x10000 ==> (((b << 112) | (v << 80) | (
    p << 48) | (w << 16)) >> 112) as u16 == b as u16) by (bit_vector);
    assert(b < 0x10000 && v < 0x10000 && p < 0x10000 && w < 0x10000 ==> (((b << 112) | (v << 80) | (
    p << 48) | (w << 16)) >> 80) as u16 == v as u16) by (bit_vector);
    assert(b < 0x10000 && v < 0x10000 && p < 0x10000 && w < 0x10000 ==> (((b << 112) | (v << 80) | (
    p << 48) | (w << 16)) >> 48) as u16 == p as u16) by (bit_vector);
    assert(b < 0x10000 && v < 0x10000 && p < 0x10000 && w < 0x10000 ==> (((b << 112) | (v << 80) | (
    p << 48) | (w << 16)) >> 16) as u16 == w as u16) by (bit_vector);
}

/// Identity is determined by, and determines, the four hardware fields:
/// equal fields give equal identities, and changing any one field changes
/// the identity.
pub proof fn lemma_identity_injective(
    b1: u16,
    v1: u16,
    p1: u16,
    w1: u16,
    b2: u16,
    v2: u16,
    p2: u16,
    w2: u16,
)
    ensures
        spec_identity(b1, v1, p1, w1) == spec_identity(b2, v2, p2, w2) <==> (b1 == b2 && v1 == v2
            && p1 == p2 && w1 == w2),
{
    if spec_identity(b1, v1, p1, w1) == spec_identity(b2, v2, p2, w2) {
        lemma_identity_fields(b1, v1, p1, w1);
        lemma_identity_fields(b2, v2, p2, w2);
        lemma_swap16_involutive(b1);
        lemma_swap16_involutive(b2);
        lemma_swap16_involutive(v1);
        lemma_swap16_involutive(v2);
        lemma_swap16_involutive(p1);
        lemma_swap16_involutive(p2);
        lemma_swap16_involutive(w1);
        lemma_swap16_involutive(w2);
    }
}

/// The numeric value of a hexadecimal digit, or `None`.
pub open spec fn spec_hex_val(c: char) -> Option<u8> {
    let n = c as u32;
    if 48 <= n && n <= 57 {
        Some((n - 48) as u8)
    } else if 97 <= n && n <= 102 {
        Some((n - 97 + 10) as u8)
    } else if 65 <= n && n <= 70 {
        Some((n - 65 + 10) as u8)
    } else {
        None
    }
}

/// Whether every character of `s` is a hexadecimal digit.
pub open spec fn spec_all_hex(s: Seq<char>) -> bool {
    forall|i: int| 0 <= i < s.len() ==> spec_hex_val(s[i]) is Some
}

/// The value of a sequence of hexadecimal digits, most significant first.
/// Characters that are not hexadecimal digits count as zero; under
/// `spec_all_hex` there are none.
pub open spec fn spec_hex_seq_val(s: Seq<char>) -> nat
    decreases s.len(),
{
    if s.len() == 0 {
        0
    } else {
        spec_hex_seq_val(s.drop_last()) * 16 + match spec_hex_val(s.last()) {
            Some(d) => d as nat,
            None => 0,
        }
    }
}

/// What a well-formed GUID string denotes: exactly 32 hexadecimal digits,
/// read as one big-endian 128-bit value.
pub open spec fn spec_parse_guid(s: Seq<char>) -> Option<u128> {
    if s.len() == 32 && spec_all_hex(s) {
        Some(spec_hex_seq_val(s) as u128)
    } else {
        None
    }
}

proof fn lemma_hex_seq_val_bound(s: Seq<char>)
    ensures
        spec_hex_seq_val(s) < pow2(4 * s.len()),
    decreases s.len(),
{
    vstd::arithmetic::power2::lemma2_to64();
    if s.len() == 0 {
    } else {
        lemma_hex_seq_val_bound(s.drop_last());
        vstd::arithmetic::power2::lemma_pow2_adds(4 * (s.len() - 1) as nat, 4);
    }
}

/// The numeric value of one hexadecimal digit character.
fn hex_val(c: char) -> (r: Option<u8>)
    ensures
        r == spec_hex_val(c),
{
    let n = c as u32;
    if 48 <= n && n <= 57 {
        Some((n - 48) as u8)
    } else if 97 <= n && n <= 102 {
        Some((n - 97 + 10) as u8)
    } else if 65 <= n && n <= 70 {
        Some((n - 65 + 10) as u8)
    } else {
        None
    }
}

/// Parses the GUID text form of an identity: exactly 32 hexadecimal digits
/// (either letter case), read big-endian. Anything else is `None`.
pub fn parse_guid(chars: &Vec<char>) -> (r: Option<u128>)
    ensures
        r == spec_parse_guid(chars@),
{
    if chars.len() != 32 {
        return None;
    }
    let mut acc: u128 = 0;
    let mut i: usize = 0;
    while i < 32
        invariant
            0 <= i <= 32,
            chars@.len() == 32,
            spec_all_hex(chars@.take(i as int)),
            acc == spec_hex_seq_val(chars@.take(i as int)),
        decreases 32 - i,
    {
        proof {
            lemma_hex_seq_val_bound(chars@.take(i as int));
            vstd::arithmetic::power2::lemma2_to64();
            if 4 * i < 124 {
                vstd::arithmetic::power2::lemma_pow2_strictly_increases(4 * i as nat, 124);
            }
            vstd::arithmetic::power2::lemma_pow2_adds(64, 64);
            vstd::arithmetic::power2::lemma_pow2_adds(124, 4);
            assert(acc < pow2(124));
        }
        match hex_val(chars[i]) {
            None => {
                return None;
            },
            Some(d) => {
                acc = acc * 16 + (d as u128);
            },
        }
        i = i + 1;
        proof {
            assert(chars@.take(i as int).drop_last() =~= chars@.take(i - 1));
            assert(chars@.take(i as int).last() == chars@[i - 1]);
        }
    }
    proof {
        assert(chars@.take(32) =~= chars@);
    }
    Some(acc)
}

} // verus!
