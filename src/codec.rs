//! The reversible masking transform between a time-ordered identifier
//! (version 7) and its facade (version 4).
//!
//! Only the 48-bit timestamp field is masked. The mask is the low 48 bits of
//! SipHash-2-4, under the caller's key, of the identifier's random payload:
//! the bits that both forms share. So the mask can be rebuilt from either
//! form, and XOR undoes itself.

use vstd::prelude::*;

use crate::siphash::{siphash24, siphash_spec};
use crate::uuid::{
    be48_bytes, be48_value, lemma_be48_bytes_of_value, lemma_be48_round_trip,
    lemma_be48_value_bound, variant_of, version_of, with_head, with_rfc4122_variant, with_version,
    Uuid128,
};

verus! {

/// The 128-bit SipHash key, as two 64-bit words.
#[derive(Debug, Clone, Copy)]
pub struct Uuidv47Key {
    pub k0: u64,
    pub k1: u64,
}

/// The random payload of an identifier, as the 10-byte hash message: the
/// low nibble of byte 6, byte 7, the low six bits of byte 8, bytes 9 to 15.
/// It does not depend on the version or variant bits.
pub open spec fn stable_bits(b: Seq<u8>) -> Seq<u8> {
    seq![b[6] & 0x0Fu8, b[7], b[8] & 0x3Fu8] + b.subrange(9, 16)
}

/// The 48-bit mask for an identifier under `key`.
pub open spec fn mask48(b: Seq<u8>, key: Uuidv47Key) -> u64 {
    siphash_spec(stable_bits(b), key.k0, key.k1) & 0x0000_FFFF_FFFF_FFFFu64
}

/// `b` with timestamp `ts`, version `ver` and the RFC-4122 variant.
pub open spec fn retag(b: Seq<u8>, ts: u64, ver: u8) -> Seq<u8> {
    with_head(b, be48_bytes(ts)).update(6, with_version(b[6], ver)).update(
        8,
        with_rfc4122_variant(b[8]),
    )
}

/// The facade of `b`: timestamp masked, version 4, RFC-4122 variant.
pub open spec fn encode_spec(b: Seq<u8>, key: Uuidv47Key) -> Seq<u8> {
    retag(b, be48_value(b) ^ mask48(b, key), 4)
}

/// The time-ordered form of `b`: timestamp unmasked, version 7, RFC-4122 variant.
pub open spec fn decode_spec(b: Seq<u8>, key: Uuidv47Key) -> Seq<u8> {
    retag(b, be48_value(b) ^ mask48(b, key), 7)
}

/// The hash message of `u`: its random payload, whatever its version.
pub fn build_sip_input(u: &Uuid128) -> (r: [u8; 10])
    ensures
        r@ == stable_bits(u@),
{
    let mut msg = [0u8; 10];
    msg[0] = u.bytes[6] & 0x0Fu8;
    msg[1] = u.bytes[7];
    msg[2] = u.bytes[8] & 0x3Fu8;
    let mut i: usize = 0;
    while i < 7
        invariant
            i <= 7,
            msg@[0] == u@[6] & 0x0Fu8,
            msg@[1] == u@[7],
            msg@[2] == u@[8] & 0x3Fu8,
            forall|k: int| 0 <= k < i ==> #[trigger] msg@[3 + k] == u@[9 + k],
        decreases 7 - i,
    {
        msg[3 + i] = u.bytes[9 + i];
        i = i + 1;
    }
    assert(msg@ =~= stable_bits(u@)) by {
        assert forall|k: int| 3 <= k < 10 implies msg@[k] == stable_bits(u@)[k] by {
            assert(msg@[3 + (k - 3)] == u@[9 + (k - 3)]);
        }
    }
    msg
}

/// The low 48 bits of the keyed hash of `u`'s random payload.
fn mask_of(u: &Uuid128, key: Uuidv47Key) -> (r: u64)
    ensures
        r == mask48(u@, key),
        r < 0x1_0000_0000_0000,
{
    let sipmsg = build_sip_input(u);
    let h = siphash24(&sipmsg, key.k0, key.k1);
    assert(h & 0x0000_FFFF_FFFF_FFFFu64 < 0x1_0000_0000_0000u64) by (bit_vector);
    h & 0x0000_FFFF_FFFF_FFFFu64
}

/// Turns a time-ordered identifier into its facade: the timestamp is XORed
/// with the mask, the version set to 4 and the variant to RFC-4122; the
/// random payload is kept.
pub fn encode_v4_facade(v7: Uuid128, key: Uuidv47Key) -> (r: Uuid128)
    ensures
        r@ == encode_spec(v7@, key),
        version_of(r@) == 4,
        variant_of(r@) == 0x80,
        be48_value(r@) == be48_value(v7@) ^ mask48(v7@, key),
        stable_bits(r@) == stable_bits(v7@),
{
    let mask = mask_of(&v7, key);
    let ts48 = v7.timestamp();
    let enc_ts = ts48 ^ mask;

    let mut out = v7;
    out.set_timestamp(enc_ts);
    out.set_version(4);
    out.set_variant_rfc4122();
    proof {
        assert(out@ =~= encode_spec(v7@, key));
        lemma_xor_48(ts48, mask);
        lemma_retag(v7@, enc_ts, 4);
    }
    out
}

/// Turns a facade back into the time-ordered identifier: the timestamp is
/// XORed with the mask rebuilt from the payload, the version set to 7 and the
/// variant to RFC-4122; the random payload is kept.
pub fn decode_v4_facade(v4_facade: Uuid128, key: Uuidv47Key) -> (r: Uuid128)
    ensures
        r@ == decode_spec(v4_facade@, key),
        version_of(r@) == 7,
        variant_of(r@) == 0x80,
        be48_value(r@) == be48_value(v4_facade@) ^ mask48(v4_facade@, key),
        stable_bits(r@) == stable_bits(v4_facade@),
{
    let mask = mask_of(&v4_facade, key);
    let enc_ts = v4_facade.timestamp();
    let ts48 = enc_ts ^ mask;

    let mut out = v4_facade;
    out.set_timestamp(ts48);
    out.set_version(7);
    out.set_variant_rfc4122();
    proof {
        assert(out@ =~= decode_spec(v4_facade@, key));
        lemma_xor_48(enc_ts, mask);
        lemma_retag(v4_facade@, ts48, 7);
    }
    out
}

/// XOR of two 48-bit values is a 48-bit value, and XOR with the same mask
/// twice gives the value back.
pub proof fn lemma_xor_48(a: u64, m: u64)
    requires
        a < 0x1_0000_0000_0000,
        m < 0x1_0000_0000_0000,
    ensures
        a ^ m < 0x1_0000_0000_0000,
        (a ^ m) ^ m == a,
{
    assert(a ^ m < 0x1_0000_0000_0000u64) by (bit_vector)
        requires
            a < 0x1_0000_0000_0000u64,
            m < 0x1_0000_0000_0000u64,
    ;
    assert((a ^ m) ^ m == a) by (bit_vector);
}

/// What retagging does to each field: the timestamp is the new one, the
/// version and variant are set, the random payload is kept.
pub proof fn lemma_retag(b: Seq<u8>, ts: u64, ver: u8)
    requires
        b.len() == 16,
        ts < 0x1_0000_0000_0000,
        ver < 16,
    ensures
        be48_value(retag(b, ts, ver)) == ts,
        version_of(retag(b, ts, ver)) == ver,
        variant_of(retag(b, ts, ver)) == 0x80,
        stable_bits(retag(b, ts, ver)) == stable_bits(b),
{
    let r = retag(b, ts, ver);
    lemma_be48_round_trip(ts);
    assert(be48_value(r) == be48_value(be48_bytes(ts)));
    let (b6, b8) = (b[6], b[8]);
    assert((((b6 & 0x0Fu8) | ((ver & 0x0Fu8) << 4u8)) >> 4u8) & 0x0Fu8 == ver) by (bit_vector)
        requires
            ver < 16u8,
    ;
    assert(((b6 & 0x0Fu8) | ((ver & 0x0Fu8) << 4u8)) & 0x0Fu8 == b6 & 0x0Fu8) by (bit_vector);
    assert(((b8 & 0x3Fu8) | 0x80u8) & 0xC0u8 == 0x80u8) by (bit_vector);
    assert(((b8 & 0x3Fu8) | 0x80u8) & 0x3Fu8 == b8 & 0x3Fu8) by (bit_vector);
    assert(stable_bits(r) =~= stable_bits(b));
}

/// The mask fits in 48 bits.
pub proof fn lemma_mask48_bound(b: Seq<u8>, key: Uuidv47Key)
    ensures
        mask48(b, key) < 0x1_0000_0000_0000,
{
    let h = siphash_spec(stable_bits(b), key.k0, key.k1);
    assert(h & 0x0000_FFFF_FFFF_FFFFu64 < 0x1_0000_0000_0000u64) by (bit_vector);
}

/// Every facade has version 4 and every decoded identifier version 7, both
/// with the RFC-4122 variant `10`, whatever the input and the key.
pub proof fn lemma_tags(u: Uuid128, key: Uuidv47Key)
    ensures
        version_of(encode_spec(u@, key)) == 4,
        variant_of(encode_spec(u@, key)) == 0x80,
        version_of(decode_spec(u@, key)) == 7,
        variant_of(decode_spec(u@, key)) == 0x80,
{
    lemma_be48_value_bound(u@);
    lemma_mask48_bound(u@, key);
    lemma_xor_48(be48_value(u@), mask48(u@, key));
    lemma_retag(u@, be48_value(u@) ^ mask48(u@, key), 4);
    lemma_retag(u@, be48_value(u@) ^ mask48(u@, key), 7);
}

/// Decoding the facade of `u` under the same key gives back `u`'s timestamp
/// and random payload exactly, with version 7 and the RFC-4122 variant; so an
/// identifier that already had version 7 and that variant comes back
/// byte for byte.
pub proof fn lemma_round_trip(u: Uuid128, key: Uuidv47Key)
    ensures
        decode_spec(encode_spec(u@, key), key) == u@.update(6, with_version(u@[6], 7)).update(
            8,
            with_rfc4122_variant(u@[8]),
        ),
        be48_value(decode_spec(encode_spec(u@, key), key)) == be48_value(u@),
        stable_bits(decode_spec(encode_spec(u@, key), key)) == stable_bits(u@),
        version_of(u@) == 7 && variant_of(u@) == 0x80 ==> decode_spec(encode_spec(u@, key), key)
            == u@,
{
    let b = u@;
    let ts = be48_value(b);
    let m = mask48(b, key);
    lemma_be48_value_bound(b);
    lemma_mask48_bound(b, key);
    lemma_xor_48(ts, m);
    let e = encode_spec(b, key);
    lemma_retag(b, ts ^ m, 4);
    assert(mask48(e, key) == m);
    let d = decode_spec(e, key);
    assert(d == retag(e, ts, 7));
    lemma_retag(e, ts, 7);
    lemma_be48_bytes_of_value(b);
    let (b6, b8) = (b[6], b[8]);
    assert((((b6 & 0x0Fu8) | ((4u8 & 0x0Fu8) << 4u8)) & 0x0Fu8) | ((7u8 & 0x0Fu8) << 4u8) == (b6
        & 0x0Fu8) | ((7u8 & 0x0Fu8) << 4u8)) by (bit_vector);
    assert((((b8 & 0x3Fu8) | 0x80u8) & 0x3Fu8) | 0x80u8 == (b8 & 0x3Fu8) | 0x80u8) by (bit_vector);
    let want = b.update(6, with_version(b[6], 7)).update(8, with_rfc4122_variant(b[8]));
    assert(d =~= want);
    if version_of(b) == 7 && variant_of(b) == 0x80 {
        assert((b6 >> 4u8) & 0x0Fu8 == 7u8 ==> (b6 & 0x0Fu8) | ((7u8 & 0x0Fu8) << 4u8) == b6)
            by (bit_vector);
        assert(b8 & 0xC0u8 == 0x80u8 ==> (b8 & 0x3Fu8) | 0x80u8 == b8) by (bit_vector);
        assert(want =~= b);
    }
}

} // verus!
