//! The 128-bit identifier: byte layout, version and variant fields, the
//! 48-bit big-endian timestamp, and the canonical `8-4-4-4-12` text form.

use vstd::prelude::*;
use vstd::string::StringSliceAdditionalSpecFns;

verus! {

/// A 128-bit identifier, stored as 16 bytes in network order.
#[derive(Debug, Clone, Copy, PartialEq, Eq)]
pub struct Uuid128 {
    pub bytes: [u8; 16],
}

impl View for Uuid128 {
    type V = Seq<u8>;

    open spec fn view(&self) -> Seq<u8> {
        self.bytes@
    }
}

/// Why a text could not be read as an identifier.
#[derive(Debug, Clone, Copy, PartialEq, Eq)]
pub enum ParseError {
    InvalidLength,
    InvalidFormat,
    InvalidHexChar,
}

/// The version field: the high nibble of byte 6.
pub open spec fn version_of(b: Seq<u8>) -> u8 {
    (b[6] >> 4u8) & 0x0Fu8
}

/// The variant field: the top two bits of byte 8, in place.
pub open spec fn variant_of(b: Seq<u8>) -> u8 {
    b[8] & 0xC0u8
}

/// The 48-bit big-endian value of the first six bytes of `b`.
pub open spec fn be48_value(b: Seq<u8>) -> u64 {
    ((b[0] as u64) << 40u64) | ((b[1] as u64) << 32u64) | ((b[2] as u64) << 24u64) | ((b[3] as u64)
        << 16u64) | ((b[4] as u64) << 8u64) | (b[5] as u64)
}

/// The six big-endian bytes of the low 48 bits of `v`.
pub open spec fn be48_bytes(v: u64) -> Seq<u8> {
    seq![
        (v >> 40u64) as u8,
        (v >> 32u64) as u8,
        (v >> 24u64) as u8,
        (v >> 16u64) as u8,
        (v >> 8u64) as u8,
        v as u8,
    ]
}

/// Byte 6 with its high nibble replaced by the low nibble of `ver`.
pub open spec fn with_version(b6: u8, ver: u8) -> u8 {
    (b6 & 0x0Fu8) | ((ver & 0x0Fu8) << 4u8)
}

/// Byte 8 with its top two bits replaced by `10`.
pub open spec fn with_rfc4122_variant(b8: u8) -> u8 {
    (b8 & 0x3Fu8) | 0x80u8
}

/// The bytes that `craft_v7` builds from a timestamp and the two random fields.
pub open spec fn craft_v7_bytes(ts: u64, rand_a: u16, rand_b: u64) -> Seq<u8> {
    let t = ts & 0x0000_FFFF_FFFF_FFFFu64;
    let rb = rand_b & 0x3FFF_FFFF_FFFF_FFFFu64;
    be48_bytes(t) + seq![
        0x70u8 | (((rand_a >> 8u16) as u8) & 0x0Fu8),
        (rand_a & 0xFFu16) as u8,
        0x80u8 | (((rb >> 56u64) as u8) & 0x3Fu8),
        ((rb >> 48u64) & 0xFFu64) as u8,
        ((rb >> 40u64) & 0xFFu64) as u8,
        ((rb >> 32u64) & 0xFFu64) as u8,
        ((rb >> 24u64) & 0xFFu64) as u8,
        ((rb >> 16u64) & 0xFFu64) as u8,
        ((rb >> 8u64) & 0xFFu64) as u8,
        (rb & 0xFFu64) as u8,
    ]
}

// ----- canonical text -----

/// Positions of the four dashes in the 36-character text.
pub open spec fn is_dash_pos(i: int) -> bool {
    i == 8 || i == 13 || i == 18 || i == 23
}

/// Text position of the `k`-th hex digit (`0 <= k < 32`).
pub open spec fn hex_pos(k: int) -> int {
    k + if k >= 20 {
        4int
    } else if k >= 16 {
        3int
    } else if k >= 12 {
        2int
    } else if k >= 8 {
        1int
    } else {
        0int
    }
}

/// Which hex digit stands at text position `i` (not a dash position).
pub open spec fn hex_index(i: int) -> int {
    i - if i > 23 {
        4int
    } else if i > 18 {
        3int
    } else if i > 13 {
        2int
    } else if i > 8 {
        1int
    } else {
        0int
    }
}

pub open spec fn is_hex_char(c: char) -> bool {
    ('0' <= c && c <= '9') || ('a' <= c && c <= 'f') || ('A' <= c && c <= 'F')
}

/// The value of a hex digit, either case.
pub open spec fn nibble_value(c: char) -> u8 {
    if '0' <= c && c <= '9' {
        (c as u8 - 48) as u8
    } else if 'a' <= c && c <= 'f' {
        (c as u8 - 97 + 10) as u8
    } else {
        (c as u8 - 65 + 10) as u8
    }
}

/// The lowercase hex digit of `n < 16`.
pub open spec fn hex_digit(n: u8) -> char {
    if n < 10 {
        (n + 48) as char
    } else {
        (n + 87) as char
    }
}

/// The `k`-th nibble of `b`, most significant first.
pub open spec fn nibble_at(b: Seq<u8>, k: int) -> u8 {
    if k % 2 == 0 {
        b[k / 2] >> 4u8
    } else {
        b[k / 2] & 0x0Fu8
    }
}

/// The canonical text of 16 bytes: lowercase hex in groups 8-4-4-4-12.
pub open spec fn format_spec(b: Seq<u8>) -> Seq<char> {
    Seq::new(36, |i: int| if is_dash_pos(i) { '-' } else { hex_digit(nibble_at(b, hex_index(i))) })
}

/// Whether text byte `i` is what the canonical layout asks for there.
pub open spec fn byte_fits(t: Seq<u8>, i: int) -> bool {
    if is_dash_pos(i) {
        t[i] == 0x2Du8
    } else {
        is_hex_char(t[i] as char)
    }
}

/// The error for the first byte at or after `i` that does not fit the layout.
pub open spec fn first_error(t: Seq<u8>, i: nat) -> Option<ParseError>
    decreases 36 - i,
{
    if i >= 36 {
        None
    } else if !byte_fits(t, i as int) {
        Some(if is_dash_pos(i as int) { ParseError::InvalidFormat } else { ParseError::InvalidHexChar })
    } else {
        first_error(t, i + 1)
    }
}

/// The 16 bytes spelled by a well-formed 36-byte text.
pub open spec fn decoded_bytes(t: Seq<u8>) -> Seq<u8> {
    Seq::new(
        16,
        |j: int|
            (nibble_value(t[hex_pos(2 * j)] as char) << 4u8) | nibble_value(t[hex_pos(2 * j + 1)] as char),
    )
}

/// What reading the text bytes `t` gives.
pub open spec fn parse_spec(t: Seq<u8>) -> Result<Seq<u8>, ParseError> {
    if t.len() != 36 {
        Err(ParseError::InvalidLength)
    } else {
        match first_error(t, 0) {
            Some(e) => Err(e),
            None => Ok(decoded_bytes(t)),
        }
    }
}

/// The value of a hex digit, or `InvalidHexChar`.
pub fn hex_char_to_nibble(c: char) -> (r: Result<u8, ParseError>)
    ensures
        is_hex_char(c) ==> r == Ok::<u8, ParseError>(nibble_value(c)),
        !is_hex_char(c) ==> r == Err::<u8, ParseError>(ParseError::InvalidHexChar),
        r matches Ok(n) ==> n < 16,
{
    if '0' <= c && c <= '9' {
        Ok((c as u8) - 48)
    } else if 'a' <= c && c <= 'f' {
        Ok((c as u8) - 97 + 10)
    } else if 'A' <= c && c <= 'F' {
        Ok((c as u8) - 65 + 10)
    } else {
        Err(ParseError::InvalidHexChar)
    }
}

/// Writes the low 48 bits of `v48` into `dst`, big-endian.
pub fn write_48be(dst: &mut [u8; 6], v48: u64)
    ensures
        final(dst)@ == be48_bytes(v48),
{
    dst[0] = (v48 >> 40u64) as u8;
    dst[1] = (v48 >> 32u64) as u8;
    dst[2] = (v48 >> 24u64) as u8;
    dst[3] = (v48 >> 16u64) as u8;
    dst[4] = (v48 >> 8u64) as u8;
    dst[5] = v48 as u8;
    assert(dst@ =~= be48_bytes(v48));
}

/// Reads the first six bytes of `src` as a big-endian 48-bit value.
pub fn read_48be(src: &[u8]) -> (r: u64)
    requires
        src@.len() >= 6,
    ensures
        r == be48_value(src@),
        r < 0x1_0000_0000_0000,
{
    let r = ((src[0] as u64) << 40u64) | ((src[1] as u64) << 32u64) | ((src[2] as u64) << 24u64)
        | ((src[3] as u64) << 16u64) | ((src[4] as u64) << 8u64) | (src[5] as u64);
    proof {
        lemma_be48_value_bound(src@);
    }
    r
}

/// A 48-bit big-endian value fits in 48 bits.
pub proof fn lemma_be48_value_bound(b: Seq<u8>)
    requires
        b.len() >= 6,
    ensures
        be48_value(b) < 0x1_0000_0000_0000,
{
    let (b0, b1, b2, b3, b4, b5) = (b[0], b[1], b[2], b[3], b[4], b[5]);
    assert(((b0 as u64) << 40u64) | ((b1 as u64) << 32u64) | ((b2 as u64) << 24u64) | ((b3 as u64)
        << 16u64) | ((b4 as u64) << 8u64) | (b5 as u64) < 0x1_0000_0000_0000u64) by (bit_vector);
}

/// Writing a 48-bit value and reading it back gives the value.
pub proof fn lemma_be48_round_trip(v: u64)
    requires
        v < 0x1_0000_0000_0000,
    ensures
        be48_value(be48_bytes(v)) == v,
{
    assert(((((v >> 40u64) as u8) as u64) << 40u64) | ((((v >> 32u64) as u8) as u64) << 32u64) | ((((v
        >> 24u64) as u8) as u64) << 24u64) | ((((v >> 16u64) as u8) as u64) << 16u64) | ((((v
        >> 8u64) as u8) as u64) << 8u64) | ((v as u8) as u64) == v) by (bit_vector)
        requires
            v < 0x1_0000_0000_0000u64,
    ;
}

impl Uuid128 {
    /// The identifier with the given bytes.
    pub fn from_bytes(bytes: [u8; 16]) -> (r: Self)
        ensures
            r.bytes == bytes,
    {
        Uuid128 { bytes }
    }

    /// The version field: the high nibble of byte 6.
    pub fn version(&self) -> (r: u8)
        ensures
            r == version_of(self@),
            r < 16,
    {
        let b6 = self.bytes[6];
        assert((b6 >> 4u8) & 0x0Fu8 < 16) by (bit_vector);
        (b6 >> 4u8) & 0x0Fu8
    }

    /// Replaces the version field by the low nibble of `ver`; every other bit
    /// is kept.
    pub fn set_version(&mut self, ver: u8)
        ensures
            final(self)@ == old(self)@.update(6, with_version(old(self)@[6], ver)),
            version_of(final(self)@) == ver & 0x0F,
            final(self)@[6] & 0x0F == old(self)@[6] & 0x0F,
    {
        let b6 = self.bytes[6];
        self.bytes[6] = (b6 & 0x0Fu8) | ((ver & 0x0Fu8) << 4u8);
        assert((((b6 & 0x0Fu8) | ((ver & 0x0Fu8) << 4u8)) >> 4u8) & 0x0Fu8 == ver & 0x0Fu8)
            by (bit_vector);
        assert(((b6 & 0x0Fu8) | ((ver & 0x0Fu8) << 4u8)) & 0x0Fu8 == b6 & 0x0Fu8) by (bit_vector);
        assert(self@ =~= old(self)@.update(6, with_version(old(self)@[6], ver)));
    }

    /// Sets the top two bits of byte 8 to `10`; every other bit is kept.
    pub fn set_variant_rfc4122(&mut self)
        ensures
            final(self)@ == old(self)@.update(8, with_rfc4122_variant(old(self)@[8])),
            variant_of(final(self)@) == 0x80,
            final(self)@[8] & 0x3F == old(self)@[8] & 0x3F,
    {
        let b8 = self.bytes[8];
        self.bytes[8] = (b8 & 0x3Fu8) | 0x80u8;
        assert(((b8 & 0x3Fu8) | 0x80u8) & 0xC0u8 == 0x80u8) by (bit_vector);
        assert(((b8 & 0x3Fu8) | 0x80u8) & 0x3Fu8 == b8 & 0x3Fu8) by (bit_vector);
        assert(self@ =~= old(self)@.update(8, with_rfc4122_variant(old(self)@[8])));
    }
}

/// How a parse outcome relates to what `parse_spec` describes.
pub open spec fn parse_outcome(r: Result<Uuid128, ParseError>, m: Result<Seq<u8>, ParseError>) -> bool {
    match (r, m) {
        (Ok(u), Ok(b)) => u@ == b,
        (Err(e), Err(f)) => e == f,
        _ => false,
    }
}

/// If no byte from `i` on is out of place, every byte from `i` to the end fits.
pub proof fn lemma_no_error_all_fit(t: Seq<u8>, i: nat)
    requires
        first_error(t, i) is None,
    ensures
        forall|k: int| i <= k < 36 ==> #[trigger] byte_fits(t, k),
    decreases 36 - i,
{
    if i < 36 {
        lemma_no_error_all_fit(t, i + 1);
    }
}

impl Uuid128 {
    /// Reads the canonical text form `xxxxxxxx-xxxx-xxxx-xxxx-xxxxxxxxxxxx`
    /// (hex digits in either case). A text of a length other than 36 gives
    /// `InvalidLength`; otherwise the first position, from the left, that
    /// does not fit the layout decides: `InvalidFormat` at a dash position,
    /// `InvalidHexChar` at a hex position.
    pub fn parse(s: &str) -> (r: Result<Self, ParseError>)
        ensures
            parse_outcome(r, parse_spec(s.spec_bytes())),
            s.spec_bytes().len() != 36 ==> r == Err::<Self, ParseError>(ParseError::InvalidLength),
    {
        let t = s.as_bytes();
        if t.len() != 36 {
            return Err(ParseError::InvalidLength);
        }
        let mut i: usize = 0;
        while i < 36
            invariant
                t@ == s.spec_bytes(),
                t@.len() == 36,
                i <= 36,
                first_error(t@, 0) == first_error(t@, i as nat),
            decreases 36 - i,
        {
            if i == 8 || i == 13 || i == 18 || i == 23 {
                if t[i] != 0x2Du8 {
                    return Err(ParseError::InvalidFormat);
                }
            } else {
                match hex_char_to_nibble(t[i] as char) {
                    Ok(_) => {},
                    Err(e) => {
                        return Err(e);
                    },
                }
            }
            i = i + 1;
        }
        proof {
            lemma_no_error_all_fit(t@, 0);
        }
        let mut bytes = [0u8; 16];
        let mut j: usize = 0;
        while j < 16
            invariant
                t@ == s.spec_bytes(),
                t@.len() == 36,
                first_error(t@, 0) is None,
                forall|k: int| 0 <= k < 36 ==> #[trigger] byte_fits(t@, k),
                j <= 16,
                forall|k: int| 0 <= k < j ==> bytes@[k] == #[trigger] decoded_bytes(t@)[k],
            decreases 16 - j,
        {
            let k = 2 * j;
            let p = k + if k >= 20 {
                4
            } else if k >= 16 {
                3
            } else if k >= 12 {
                2
            } else if k >= 8 {
                1
            } else {
                0
            };
            assert(p == hex_pos(k as int) && p + 1 == hex_pos(k + 1));
            assert(byte_fits(t@, p as int) && byte_fits(t@, p + 1));
            let high = match hex_char_to_nibble(t[p] as char) {
                Ok(n) => n,
                Err(e) => {
                    return Err(e);
                },
            };
            let low = match hex_char_to_nibble(t[p + 1] as char) {
                Ok(n) => n,
                Err(e) => {
                    return Err(e);
                },
            };
            bytes[j] = (high << 4u8) | low;
            j = j + 1;
        }
        assert(bytes@ =~= decoded_bytes(t@));
        Ok(Uuid128 { bytes })
    }

    /// The canonical text form: lowercase hex, dashes at 8, 13, 18 and 23.
    pub fn format(&self) -> (r: String)
        ensures
            r@ == format_spec(self@),
    {
        let digits = "0123456789abcdef";
        let dash = "-";
        proof {
            reveal_strlit("0123456789abcdef");
            reveal_strlit("-");
        }
        assert(digits@ =~= seq![
            '0', '1', '2', '3', '4', '5', '6', '7', '8', '9', 'a', 'b', 'c', 'd', 'e', 'f'
        ]);
        assert(digits.is_ascii());
        assert(digits@ =~= Seq::new(16, |n: int| hex_digit(n as u8)));
        let mut out = String::new();
        let mut i: usize = 0;
        while i < 36
            invariant
                i <= 36,
                digits@ == Seq::new(16, |n: int| hex_digit(n as u8)),
                digits.is_ascii(),
                dash@ == seq!['-'],
                out@ == format_spec(self@).subrange(0, i as int),
            decreases 36 - i,
        {
            if i == 8 || i == 13 || i == 18 || i == 23 {
                out.append(dash);
            } else {
                let k = i - if i > 23 {
                    4
                } else if i > 18 {
                    3
                } else if i > 13 {
                    2
                } else if i > 8 {
                    1
                } else {
                    0
                };
                assert(k == hex_index(i as int));
                let byte = self.bytes[k / 2];
                let n = if k % 2 == 0 {
                    byte >> 4u8
                } else {
                    byte & 0x0Fu8
                };
                assert(byte >> 4u8 < 16 && byte & 0x0Fu8 < 16) by (bit_vector);
                out.append(digits.substring_ascii(n as usize, n as usize + 1));
            }
            assert(out@ =~= format_spec(self@).subrange(0, i + 1));
            i = i + 1;
        }
        assert(out@ =~= format_spec(self@));
        out
    }
}

/// `bytes` with its first six bytes replaced by `head`.
pub open spec fn with_head(bytes: Seq<u8>, head: Seq<u8>) -> Seq<u8> {
    head + bytes.subrange(6, 16)
}

impl Uuid128 {
    /// The 48-bit big-endian timestamp field (bytes 0 to 5).
    pub fn timestamp(&self) -> (r: u64)
        ensures
            r == be48_value(self@),
            r < 0x1_0000_0000_0000,
    {
        read_48be(&self.bytes[0..6])
    }

    /// Overwrites the timestamp field (bytes 0 to 5) with the low 48 bits of
    /// `v48`, big-endian; bytes 6 to 15 are kept.
    pub fn set_timestamp(&mut self, v48: u64)
        ensures
            final(self)@ == with_head(old(self)@, be48_bytes(v48)),
    {
        let mut head = [0u8; 6];
        write_48be(&mut head, v48);
        self.bytes[0] = head[0];
        self.bytes[1] = head[1];
        self.bytes[2] = head[2];
        self.bytes[3] = head[3];
        self.bytes[4] = head[4];
        self.bytes[5] = head[5];
        assert(self@ =~= with_head(old(self)@, be48_bytes(v48)));
    }

    /// A version-7 identifier from a timestamp (low 48 bits kept), 12 random
    /// bits (`rand_a_12`, low 12 bits kept) and 62 random bits (`rand_b_62`,
    /// low 62 bits kept), with the RFC-4122 variant.
    pub fn craft_v7(ts_ms_48: u64, rand_a_12: u16, rand_b_62: u64) -> (r: Self)
        ensures
            r@ == craft_v7_bytes(ts_ms_48, rand_a_12, rand_b_62),
            version_of(r@) == 7,
            variant_of(r@) == 0x80,
            be48_value(r@) == ts_ms_48 & 0x0000_FFFF_FFFF_FFFF,
    {
        let mut u = Uuid128 { bytes: [0u8; 16] };

        let ts = ts_ms_48 & 0x0000_FFFF_FFFF_FFFFu64;
        u.set_timestamp(ts);
        u.set_version(7);
        assert(with_version(0u8, 7u8) == 0x70u8) by (bit_vector);

        u.bytes[6] = (u.bytes[6] & 0xF0u8) | (((rand_a_12 >> 8u16) as u8) & 0x0Fu8);
        u.bytes[7] = (rand_a_12 & 0xFFu16) as u8;
        let a = ((rand_a_12 >> 8u16) as u8) & 0x0Fu8;
        assert((0x70u8 & 0xF0u8) | a == 0x70u8 | a) by (bit_vector);

        u.set_variant_rfc4122();
        assert(with_rfc4122_variant(0u8) == 0x80u8) by (bit_vector);

        assert((1u64 << 62u64) - 1 == 0x3FFF_FFFF_FFFF_FFFFu64) by (bit_vector);
        let rand_b = rand_b_62 & ((1u64 << 62u64) - 1);
        u.bytes[8] = (u.bytes[8] & 0xC0u8) | (((rand_b >> 56u64) as u8) & 0x3Fu8);
        let c = ((rand_b >> 56u64) as u8) & 0x3Fu8;
        assert((0x80u8 & 0xC0u8) | c == 0x80u8 | c) by (bit_vector);

        let ghost before = u@;
        let mut i: usize = 0;
        while i < 7
            invariant
                i <= 7,
                u@.len() == 16,
                forall|k: int| 0 <= k < 9 ==> #[trigger] u@[k] == before[k],
                forall|k: int|
                    0 <= k < i ==> #[trigger] u@[9 + k] == ((rand_b >> (8 * (6 - k)) as u64)
                        & 0xFFu64) as u8,
            decreases 7 - i,
        {
            u.bytes[9 + i] = ((rand_b >> (8 * (6 - i)) as u64) & 0xFFu64) as u8;
            i = i + 1;
        }
        let ghost want = craft_v7_bytes(ts_ms_48, rand_a_12, rand_b_62);
        assert(u@.subrange(0, 6) =~= want.subrange(0, 6));
        assert(u@[6] == want[6]);
        assert(u@[7] == want[7]);
        assert(u@[8] == want[8]);
        assert(rand_b == rand_b_62 & 0x3FFF_FFFF_FFFF_FFFFu64);
        assert(u@[9 + 0int] == ((rand_b >> 48u64) & 0xFFu64) as u8);
        assert(u@[9 + 1int] == ((rand_b >> 40u64) & 0xFFu64) as u8);
        assert(u@[9 + 2int] == ((rand_b >> 32u64) & 0xFFu64) as u8);
        assert(u@[9 + 3int] == ((rand_b >> 24u64) & 0xFFu64) as u8);
        assert(u@[9 + 4int] == ((rand_b >> 16u64) & 0xFFu64) as u8);
        assert(u@[9 + 5int] == ((rand_b >> 8u64) & 0xFFu64) as u8);
        assert(u@[9 + 6int] == ((rand_b >> 0u64) & 0xFFu64) as u8);
        assert(rand_b >> 0u64 == rand_b) by (bit_vector);
        assert(u@ =~= want);
        assert((((0x70u8 | a) >> 4u8) & 0x0Fu8) == 7u8) by (bit_vector)
            requires
                a == ((rand_a_12 >> 8u16) as u8) & 0x0Fu8,
        ;
        assert((0x80u8 | c) & 0xC0u8 == 0x80u8) by (bit_vector)
            requires
                c == ((rand_b >> 56u64) as u8) & 0x3Fu8,
        ;
        assert(ts < 0x1_0000_0000_0000u64) by (bit_vector)
            requires
                ts == ts_ms_48 & 0x0000_FFFF_FFFF_FFFFu64,
        ;
        proof {
            lemma_be48_round_trip(ts);
        }
        assert(be48_value(u@) == be48_value(be48_bytes(ts)));
        u
    }
}

/// Reading six bytes as a 48-bit value and writing it back gives the bytes.
pub proof fn lemma_be48_bytes_of_value(b: Seq<u8>)
    requires
        b.len() >= 6,
    ensures
        be48_bytes(be48_value(b)) == b.subrange(0, 6),
{
    let (b0, b1, b2, b3, b4, b5) = (b[0], b[1], b[2], b[3], b[4], b[5]);
    let v = be48_value(b);
    assert(v == ((b0 as u64) << 40u64) | ((b1 as u64) << 32u64) | ((b2 as u64) << 24u64) | ((b3
        as u64) << 16u64) | ((b4 as u64) << 8u64) | (b5 as u64));
    assert((v >> 40u64) as u8 == b0 && (v >> 32u64) as u8 == b1 && (v >> 24u64) as u8 == b2 && (v
        >> 16u64) as u8 == b3 && (v >> 8u64) as u8 == b4 && v as u8 == b5) by (bit_vector)
        requires
            v == ((b0 as u64) << 40u64) | ((b1 as u64) << 32u64) | ((b2 as u64) << 24u64) | ((b3
                as u64) << 16u64) | ((b4 as u64) << 8u64) | (b5 as u64),
    ;
    assert(be48_bytes(v) =~= b.subrange(0, 6));
}

/// The bytes of a text made of the characters `t`, all ASCII.
pub open spec fn ascii_bytes(t: Seq<char>) -> Seq<u8> {
    Seq::new(t.len(), |i: int| t[i] as u8)
}

/// A 36-character text in the canonical layout, hex digits in either case.
pub open spec fn is_canonical_text(t: Seq<char>) -> bool {
    &&& t.len() == 36
    &&& forall|i: int|
        0 <= i < 36 ==> if is_dash_pos(i) {
            #[trigger] t[i] == '-'
        } else {
            is_hex_char(t[i])
        }
}

/// A hex digit or dash in lower case.
pub open spec fn to_lower(c: char) -> char {
    if 'A' <= c && c <= 'F' {
        ((c as u8) + 32) as char
    } else {
        c
    }
}

/// The characters of `t` in lower case.
pub open spec fn lowercase(t: Seq<char>) -> Seq<char> {
    Seq::new(t.len(), |i: int| to_lower(t[i]))
}

/// A hex digit is the digit of its own value, up to case.
proof fn lemma_hex_digit_of_nibble(c: char)
    requires
        is_hex_char(c),
    ensures
        nibble_value(c) < 16,
        hex_digit(nibble_value(c)) == to_lower(c),
{
}

/// Every nibble is the value of its own digit.
proof fn lemma_nibble_of_hex_digit(n: u8)
    requires
        n < 16,
    ensures
        is_hex_char(hex_digit(n)),
        nibble_value(hex_digit(n)) == n,
        (hex_digit(n) as u8) as char == hex_digit(n),
{
}

/// High and low nibble of a byte put together from two nibbles.
proof fn lemma_nibbles(hi: u8, lo: u8)
    requires
        hi < 16,
        lo < 16,
    ensures
        ((hi << 4u8) | lo) >> 4u8 == hi,
        ((hi << 4u8) | lo) & 0x0Fu8 == lo,
{
    assert(((hi << 4u8) | lo) >> 4u8 == hi) by (bit_vector)
        requires
            hi < 16u8,
            lo < 16u8,
    ;
    assert(((hi << 4u8) | lo) & 0x0Fu8 == lo) by (bit_vector)
        requires
            hi < 16u8,
            lo < 16u8,
    ;
}

/// A byte put together from its own two nibbles.
proof fn lemma_byte_from_nibbles(b: u8)
    ensures
        ((b >> 4u8) << 4u8) | (b & 0x0Fu8) == b,
        b >> 4u8 < 16,
        b & 0x0Fu8 < 16,
{
    assert(((b >> 4u8) << 4u8) | (b & 0x0Fu8) == b) by (bit_vector);
    assert(b >> 4u8 < 16u8) by (bit_vector);
    assert(b & 0x0Fu8 < 16u8) by (bit_vector);
}

/// Formatting and then reading gives back any 16 bytes.
pub proof fn lemma_parse_format(b: Seq<u8>)
    requires
        b.len() == 16,
    ensures
        parse_spec(ascii_bytes(format_spec(b))) == Ok::<Seq<u8>, ParseError>(b),
{
    let f = format_spec(b);
    let t = ascii_bytes(f);
    assert forall|i: int| 0 <= i < 36 && !is_dash_pos(i) implies nibble_at(b, hex_index(i)) < 16 && (
    #[trigger] t[i]) as char == f[i] && byte_fits(t, i) && nibble_value(t[i] as char) == nibble_at(
        b,
        hex_index(i),
    ) by {
        lemma_byte_from_nibbles(b[hex_index(i) / 2]);
        lemma_nibble_of_hex_digit(nibble_at(b, hex_index(i)));
    }
    assert forall|i: nat| i <= 36 implies #[trigger] first_error(t, i) is None by {
        lemma_all_fit_no_error(t, i);
    }
    assert forall|j: int| 0 <= j < 16 implies #[trigger] decoded_bytes(t)[j] == b[j] by {
        assert(hex_index(hex_pos(2 * j)) == 2 * j && !is_dash_pos(hex_pos(2 * j)));
        assert(hex_index(hex_pos(2 * j + 1)) == 2 * j + 1 && !is_dash_pos(hex_pos(2 * j + 1)));
        lemma_byte_from_nibbles(b[j]);
    }
    assert(decoded_bytes(t) =~= b);
}

/// No byte of a canonical text from `i` on is out of place.
proof fn lemma_all_fit_no_error(t: Seq<u8>, i: nat)
    requires
        i <= 36,
        forall|k: int| i <= k < 36 ==> #[trigger] byte_fits(t, k),
    ensures
        first_error(t, i) is None,
    decreases 36 - i,
{
    if i < 36 {
        lemma_all_fit_no_error(t, i + 1);
    }
}

/// Reading a canonical text succeeds, and formatting the result gives the
/// text in lower case.
pub proof fn lemma_format_parse(t: Seq<char>)
    requires
        is_canonical_text(t),
    ensures
        parse_spec(ascii_bytes(t)) == Ok::<Seq<u8>, ParseError>(decoded_bytes(ascii_bytes(t))),
        format_spec(decoded_bytes(ascii_bytes(t))) == lowercase(t),
{
    let a = ascii_bytes(t);
    assert forall|k: int| 0 <= k < 36 implies #[trigger] byte_fits(a, k) by {
        assert((a[k] as char) == t[k]);
    }
    lemma_all_fit_no_error(a, 0);
    let b = decoded_bytes(a);
    assert forall|i: int| 0 <= i < 36 implies #[trigger] format_spec(b)[i] == lowercase(t)[i] by {
        if !is_dash_pos(i) {
            let k = hex_index(i);
            let j = k / 2;
            assert(hex_pos(2 * j) == i || hex_pos(2 * j + 1) == i);
            let hi = nibble_value(t[hex_pos(2 * j)]);
            let lo = nibble_value(t[hex_pos(2 * j + 1)]);
            assert((a[hex_pos(2 * j)] as char) == t[hex_pos(2 * j)]);
            assert((a[hex_pos(2 * j + 1)] as char) == t[hex_pos(2 * j + 1)]);
            lemma_hex_digit_of_nibble(t[hex_pos(2 * j)]);
            lemma_hex_digit_of_nibble(t[hex_pos(2 * j + 1)]);
            lemma_nibbles(hi, lo);
            lemma_hex_digit_of_nibble(t[i]);
        }
    }
    assert(format_spec(b) =~= lowercase(t));
}

impl ParseError {
    /// A sentence for the error.
    pub fn message(&self) -> (r: String)
        ensures
            r@ == match *self {
                ParseError::InvalidLength => "Invalid UUID string length"@,
                ParseError::InvalidFormat => "Invalid UUID string format"@,
                ParseError::InvalidHexChar => "Invalid hexadecimal character"@,
            },
    {
        match self {
            ParseError::InvalidLength => String::from_str("Invalid UUID string length"),
            ParseError::InvalidFormat => String::from_str("Invalid UUID string format"),
            ParseError::InvalidHexChar => String::from_str("Invalid hexadecimal character"),
        }
    }
}

impl std::str::FromStr for Uuid128 {
    type Err = ParseError;

    /// `Uuid128::parse`.
    fn from_str(s: &str) -> Result<Self, Self::Err> {
        Uuid128::parse(s)
    }
}

} // verus!
