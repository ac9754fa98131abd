//! SipHash-2-4: a keyed 64-bit pseudorandom function over byte strings.

use vstd::prelude::*;

verus! {

/// The four-word mixing state.
pub type SipState = (u64, u64, u64, u64);

/// 64-bit addition modulo 2^64.
pub open spec fn wadd(a: u64, b: u64) -> u64 {
    if a + b > u64::MAX {
        (a + b - 0x1_0000_0000_0000_0000) as u64
    } else {
        (a + b) as u64
    }
}

/// Rotation to the left by `n` bits, `0 < n < 64`.
pub open spec fn rotl(x: u64, n: u64) -> u64 {
    (x << n) | (x >> (64 - n) as u64)
}

/// One SipRound over the state.
pub open spec fn sip_round_spec(v: SipState) -> SipState {
    let v0 = wadd(v.0, v.1);
    let v2 = wadd(v.2, v.3);
    let v1 = rotl(v.1, 13) ^ v0;
    let v3 = rotl(v.3, 16) ^ v2;
    let v0 = rotl(v0, 32);
    let v2 = wadd(v2, v1);
    let v0 = wadd(v0, v3);
    let v1 = rotl(v1, 17) ^ v2;
    let v3 = rotl(v3, 21) ^ v0;
    let v2 = rotl(v2, 32);
    (v0, v1, v2, v3)
}

/// Mixes one 64-bit message word into the state: XOR into `v3`, two rounds,
/// XOR into `v0`.
pub open spec fn compress_spec(v: SipState, m: u64) -> SipState {
    let w = sip_round_spec(sip_round_spec((v.0, v.1, v.2, v.3 ^ m)));
    (w.0 ^ m, w.1, w.2, w.3)
}

/// The initial state for key `(k0, k1)`.
pub open spec fn init_spec(k0: u64, k1: u64) -> SipState {
    (0x736f6d6570736575u64 ^ k0, 0x646f72616e646f6du64 ^ k1, 0x6c7967656e657261u64 ^ k0,
        0x7465646279746573u64 ^ k1)
}

/// The little-endian value of the first eight bytes of `s`.
pub open spec fn le_u64(s: Seq<u8>) -> u64
    recommends
        s.len() >= 8,
{
    (s[0] as u64) | ((s[1] as u64) << 8u64) | ((s[2] as u64) << 16u64) | ((s[3] as u64)
        << 24u64) | ((s[4] as u64) << 32u64) | ((s[5] as u64) << 40u64) | ((s[6] as u64)
        << 48u64) | ((s[7] as u64) << 56u64)
}

/// The little-endian value of the first `n` bytes of `s` (`n <= 7`).
pub open spec fn tail_word(s: Seq<u8>, n: nat) -> u64
    decreases n,
{
    if n == 0 {
        0
    } else {
        tail_word(s, (n - 1) as nat) | ((s[n - 1] as u64) << ((8 * (n - 1)) as u64))
    }
}

/// The `i`-th full 8-byte block of `msg`, as a little-endian word.
pub open spec fn block_word(msg: Seq<u8>, i: nat) -> u64 {
    le_u64(msg.subrange(8 * i as int, 8 * i + 8 as int))
}

/// The state after the first `n` full blocks of `msg` were mixed in.
pub open spec fn absorb(v: SipState, msg: Seq<u8>, n: nat) -> SipState
    decreases n,
{
    if n == 0 {
        v
    } else {
        compress_spec(absorb(v, msg, (n - 1) as nat), block_word(msg, (n - 1) as nat))
    }
}

/// The final block: the trailing 0..=7 bytes in the low bytes, the length
/// modulo 256 in the top byte.
pub open spec fn last_block(msg: Seq<u8>) -> u64 {
    let end = msg.len() - msg.len() % 8;
    ((msg.len() as u64) << 56u64) | tail_word(msg.subrange(end, msg.len() as int), (msg.len() % 8) as nat)
}

/// `x` with its eight bytes in reverse order.
pub open spec fn byte_swap(x: u64) -> u64 {
    ((x & 0xFFu64) << 56u64) | (((x >> 8u64) & 0xFFu64) << 48u64) | (((x >> 16u64) & 0xFFu64)
        << 40u64) | (((x >> 24u64) & 0xFFu64) << 32u64) | (((x >> 32u64) & 0xFFu64) << 24u64) | (((x
        >> 40u64) & 0xFFu64) << 16u64) | (((x >> 48u64) & 0xFFu64) << 8u64) | (x >> 56u64)
}

/// SipHash-2-4 of `msg` under the key `(k0, k1)`: the XOR of the four final
/// state words, taken in the byte order of the published test vectors (the
/// eight output bytes read as a big-endian number).
pub open spec fn siphash_spec(msg: Seq<u8>, k0: u64, k1: u64) -> u64 {
    let v = absorb(init_spec(k0, k1), msg, msg.len() / 8);
    let v = compress_spec(v, last_block(msg));
    let v = (v.0, v.1, v.2 ^ 0xffu64, v.3);
    let v = sip_round_spec(sip_round_spec(sip_round_spec(sip_round_spec(v))));
    byte_swap(v.0 ^ v.1 ^ v.2 ^ v.3)
}

/// `x` with its eight bytes in reverse order.
pub fn reverse_bytes(x: u64) -> (r: u64)
    ensures
        r == byte_swap(x),
{
    ((x & 0xFFu64) << 56u64) | (((x >> 8u64) & 0xFFu64) << 48u64) | (((x >> 16u64) & 0xFFu64)
        << 40u64) | (((x >> 24u64) & 0xFFu64) << 32u64) | (((x >> 32u64) & 0xFFu64) << 24u64) | (((x
        >> 40u64) & 0xFFu64) << 16u64) | (((x >> 48u64) & 0xFFu64) << 8u64) | (x >> 56u64)
}

fn sip_round(v: SipState) -> (r: SipState)
    ensures
        r == sip_round_spec(v),
{
    let (mut v0, mut v1, mut v2, mut v3) = v;
    v0 = v0.wrapping_add(v1);
    v2 = v2.wrapping_add(v3);
    v1 = (v1 << 13u64) | (v1 >> 51u64);
    v3 = (v3 << 16u64) | (v3 >> 48u64);
    v1 = v1 ^ v0;
    v3 = v3 ^ v2;
    v0 = (v0 << 32u64) | (v0 >> 32u64);
    v2 = v2.wrapping_add(v1);
    v0 = v0.wrapping_add(v3);
    v1 = (v1 << 17u64) | (v1 >> 47u64);
    v3 = (v3 << 21u64) | (v3 >> 43u64);
    v1 = v1 ^ v2;
    v3 = v3 ^ v0;
    v2 = (v2 << 32u64) | (v2 >> 32u64);
    (v0, v1, v2, v3)
}

fn compress(v: SipState, m: u64) -> (r: SipState)
    ensures
        r == compress_spec(v, m),
{
    let w = sip_round(sip_round((v.0, v.1, v.2, v.3 ^ m)));
    (w.0 ^ m, w.1, w.2, w.3)
}

/// Reads the first eight bytes of `src` as a little-endian word.
pub fn read_64le(src: &[u8]) -> (r: u64)
    requires
        src@.len() >= 8,
    ensures
        r == le_u64(src@),
{
    (src[0] as u64) | ((src[1] as u64) << 8u64) | ((src[2] as u64) << 16u64) | ((src[3] as u64)
        << 24u64) | ((src[4] as u64) << 32u64) | ((src[5] as u64) << 40u64) | ((src[6] as u64)
        << 48u64) | ((src[7] as u64) << 56u64)
}

/// SipHash-2-4 of `input` under the key `(k0, k1)`, in the byte order of
/// the published test vectors.
pub fn siphash24(input: &[u8], k0: u64, k1: u64) -> (r: u64)
    ensures
        r == siphash_spec(input@, k0, k1),
{
    let mut v: SipState = (0x736f6d6570736575u64 ^ k0, 0x646f72616e646f6du64 ^ k1,
        0x6c7967656e657261u64 ^ k0, 0x7465646279746573u64 ^ k1);
    let len = input.len();
    let nblocks = len / 8;
    let end = nblocks * 8;

    let mut i: usize = 0;
    while i < nblocks
        invariant
            len == input@.len(),
            nblocks == len / 8,
            i <= nblocks,
            v == absorb(init_spec(k0, k1), input@, i as nat),
        decreases nblocks - i,
    {
        let m = read_64le(&input[8 * i..8 * i + 8]);
        v = compress(v, m);
        i = i + 1;
    }

    let rem = len - end;
    let mut t: u64 = 0;
    let mut j: usize = 0;
    while j < rem
        invariant
            len == input@.len(),
            end == len - len % 8,
            rem == len % 8,
            j <= rem,
            t == tail_word(input@.subrange(end as int, len as int), j as nat),
        decreases rem - j,
    {
        t = t | ((input[end + j] as u64) << (8 * j) as u64);
        j = j + 1;
    }
    let b = ((len as u64) << 56u64) | t;

    v = compress(v, b);
    v = (v.0, v.1, v.2 ^ 0xffu64, v.3);
    v = sip_round(sip_round(sip_round(sip_round(v))));
    reverse_bytes(v.0 ^ v.1 ^ v.2 ^ v.3)
}

} // verus!
