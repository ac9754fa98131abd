//! Text helpers: numbers as decimal and hex text, character search, case
//! mapping and reading small integers.

use vstd::prelude::*;

verus! {

/// The decimal digit of `d < 10`.
pub open spec fn digit_char(d: nat) -> char {
    (d + 48) as char
}

/// The decimal text of `n`, without leading zeros.
pub open spec fn decimal_spec(n: nat) -> Seq<char>
    decreases n,
{
    if n < 10 {
        seq![digit_char(n)]
    } else {
        decimal_spec(n / 10).push(digit_char(n % 10))
    }
}

/// The decimal text of `n`, with a leading `-` when negative.
pub open spec fn signed_decimal_spec(n: int) -> Seq<char> {
    if n < 0 {
        seq!['-'] + decimal_spec((-n) as nat)
    } else {
        decimal_spec(n as nat)
    }
}

/// The lowercase hex digit of `n < 16`.
pub open spec fn hex_char(n: nat) -> char {
    if n < 10 {
        (n + 48) as char
    } else {
        (n + 87) as char
    }
}

/// The two lowercase hex digits of a byte.
pub open spec fn hex2_spec(b: u8) -> Seq<char> {
    seq![hex_char(b as nat / 16), hex_char(b as nat % 16)]
}

/// The text of `n`, appended to `out`.
pub fn push_decimal(out: &mut String, n: u64)
    ensures
        final(out)@ == old(out)@ + decimal_spec(n as nat),
    decreases n,
{
    let digits = "0123456789";
    proof {
        reveal_strlit("0123456789");
    }
    assert(digits@ =~= Seq::new(10, |d: int| digit_char(d as nat)));
    assert(digits.is_ascii());
    if n >= 10 {
        push_decimal(out, n / 10);
    }
    let d = (n % 10) as usize;
    out.append(digits.substring_ascii(d, d + 1));
    assert(decimal_spec(n as nat) == if n < 10 {
        seq![digit_char(n as nat)]
    } else {
        decimal_spec(n as nat / 10).push(digit_char(n as nat % 10))
    });
    assert(out@ =~= old(out)@ + decimal_spec(n as nat));
}

/// The text of `n`, with `-` when negative, appended to `out`.
pub fn push_signed_decimal(out: &mut String, n: i64)
    ensures
        final(out)@ == old(out)@ + signed_decimal_spec(n as int),
{
    if n < 0 {
        out.append("-");
        proof {
            reveal_strlit("-");
        }
        let m: u64 = if n == i64::MIN {
            0x8000_0000_0000_0000u64
        } else {
            (-n) as u64
        };
        push_decimal(out, m);
        assert(out@ =~= old(out)@ + signed_decimal_spec(n as int));
    } else {
        push_decimal(out, n as u64);
    }
}

/// The two hex digits of `b`, appended to `out`.
pub fn push_hex2(out: &mut String, b: u8)
    ensures
        final(out)@ == old(out)@ + hex2_spec(b),
{
    let digits = "0123456789abcdef";
    proof {
        reveal_strlit("0123456789abcdef");
    }
    assert(digits@ =~= Seq::new(16, |d: int| hex_char(d as nat)));
    assert(digits.is_ascii());
    let hi = (b / 16) as usize;
    let lo = (b % 16) as usize;
    out.append(digits.substring_ascii(hi, hi + 1));
    out.append(digits.substring_ascii(lo, lo + 1));
    assert(out@ =~= old(out)@ + hex2_spec(b));
}

/// The index of the first `c` in `t` at or after `from`, or `t.len()`.
pub open spec fn find_from(t: Seq<char>, c: char, from: int) -> int
    decreases t.len() - from,
{
    if from >= t.len() {
        t.len() as int
    } else if t[from] == c {
        from
    } else {
        find_from(t, c, from + 1)
    }
}

/// The index of the first `c` in `line` at or after `from`, or its length.
pub fn find_char(line: &str, c: char, from: usize) -> (r: usize)
    requires
        from <= line@.len(),
    ensures
        r == find_from(line@, c, from as int),
{
    let n = line.unicode_len();
    let mut i: usize = from;
    while i < n
        invariant
            n == line@.len(),
            from <= i <= n,
            find_from(line@, c, from as int) == find_from(line@, c, i as int),
        decreases n - i,
    {
        if line.get_char(i) == c {
            return i;
        }
        i = i + 1;
    }
    i
}

/// `find_from` lies between its start and the length.
pub proof fn lemma_find_from_bounds(t: Seq<char>, c: char, from: int)
    requires
        0 <= from <= t.len(),
    ensures
        from <= find_from(t, c, from) <= t.len(),
    decreases t.len() - from,
{
    if from < t.len() && t[from] != c {
        lemma_find_from_bounds(t, c, from + 1);
    }
}

/// What `str::to_uppercase` gives for the characters `s`.
pub uninterp spec fn upper_of(s: Seq<char>) -> Seq<char>;

/// Relies on `str::to_uppercase`: the result depends on the characters
/// alone, and every ASCII letter in it is uppercase.
#[verifier::external_body]
pub(crate) fn to_uppercase(s: &str) -> (r: String)
    ensures
        r@ == upper_of(s@),
        forall|i: int| 0 <= i < r@.len() ==> !('a' <= #[trigger] r@[i] && r@[i] <= 'z'),
{
    s.to_uppercase()
}

/// What `str::to_lowercase` gives for the characters `s`.
pub uninterp spec fn lower_of(s: Seq<char>) -> Seq<char>;

/// Relies on `str::to_lowercase`: the result depends on the characters
/// alone.
#[verifier::external_body]
pub(crate) fn to_lowercase(s: &str) -> (r: String)
    ensures
        r@ == lower_of(s@),
{
    s.to_lowercase()
}

/// Whether every character of `s` is an ASCII digit.
pub open spec fn all_digits(s: Seq<char>) -> bool {
    forall|i: int| 0 <= i < s.len() ==> '0' <= #[trigger] s[i] && s[i] <= '9'
}

/// The value of a string of ASCII digits.
pub open spec fn digits_value(s: Seq<char>) -> int
    decreases s.len(),
{
    if s.len() == 0 {
        0
    } else {
        digits_value(s.drop_last()) * 10 + (s.last() as int - 48)
    }
}

/// The `i16` that `s` spells: an optional `+` or `-`, then one or more ASCII
/// digits, with a value in range.
pub open spec fn i16_of_text(s: Seq<char>) -> Option<i16> {
    let neg = s.len() > 0 && s[0] == '-';
    let digits = if s.len() > 0 && (s[0] == '-' || s[0] == '+') {
        s.drop_first()
    } else {
        s
    };
    let v = if neg {
        -digits_value(digits)
    } else {
        digits_value(digits)
    };
    if digits.len() > 0 && all_digits(digits) && -32768 <= v <= 32767 {
        Some(v as i16)
    } else {
        None
    }
}

/// Relies on `<i16 as FromStr>::from_str`: an optional sign and decimal
/// digits, in range, and nothing else.
#[verifier::external_body]
pub(crate) fn parse_i16(s: &str) -> (r: Option<i16>)
    ensures
        r == i16_of_text(s@),
{
    s.parse::<i16>().ok()
}

} // verus!
