//! The Vigenère cipher over ASCII letters. The key's letters, read as
//! shifts `A = 0 .. Z = 25`, are applied in turn to the letters of the text;
//! every other character passes through and does not use up a shift.

use vstd::prelude::*;

use crate::text::{to_uppercase, upper_of};

verus! {

pub open spec fn is_upper(c: char) -> bool {
    'A' <= c && c <= 'Z'
}

pub open spec fn is_lower(c: char) -> bool {
    'a' <= c && c <= 'z'
}

pub open spec fn is_letter(c: char) -> bool {
    is_upper(c) || is_lower(c)
}

/// The number of ASCII letters in `t`.
pub open spec fn letter_count(t: Seq<char>) -> nat
    decreases t.len(),
{
    if t.len() == 0 {
        0
    } else {
        letter_count(t.drop_last()) + if is_letter(t.last()) {
            1nat
        } else {
            0nat
        }
    }
}

/// The shifts of the ASCII letters of an uppercased key, in order.
pub open spec fn key_shifts(k: Seq<char>) -> Seq<u8>
    decreases k.len(),
{
    if k.len() == 0 {
        seq![]
    } else if is_letter(k.last()) {
        key_shifts(k.drop_last()).push((k.last() as u8 - 65) as u8)
    } else {
        key_shifts(k.drop_last())
    }
}

/// One character enciphered with shift `s`. A lowercase letter, like an
/// uppercase one, is counted from `A` before the shift (so `a` enciphers
/// like the 33rd letter).
pub open spec fn encrypt_char(c: char, s: u8) -> char {
    if is_upper(c) {
        ((c as int - 65 + s) % 26 + 65) as char
    } else if is_lower(c) {
        ((c as int - 65 + s) % 26 + 97) as char
    } else {
        c
    }
}

/// One character deciphered with shift `s <= 25`.
pub open spec fn decrypt_char(c: char, s: u8) -> char {
    if is_upper(c) {
        ((c as int - 65 + 26 - s) % 26 + 65) as char
    } else if is_lower(c) {
        ((c as int - 97 + 26 - s) % 26 + 97) as char
    } else {
        c
    }
}

/// `t` enciphered with the shifts `ks`; unchanged when there are none.
pub open spec fn encrypt_spec(t: Seq<char>, ks: Seq<u8>) -> Seq<char> {
    if ks.len() == 0 {
        t
    } else {
        Seq::new(t.len(), |i: int| encrypt_char(t[i], ks[(letter_count(t.take(i)) % ks.len()) as int]))
    }
}

/// `t` deciphered with the shifts `ks`; unchanged when there are none.
pub open spec fn decrypt_spec(t: Seq<char>, ks: Seq<u8>) -> Seq<char> {
    if ks.len() == 0 {
        t
    } else {
        Seq::new(t.len(), |i: int| decrypt_char(t[i], ks[(letter_count(t.take(i)) % ks.len()) as int]))
    }
}

/// The shifts of the ASCII letters of `upper_key`.
fn shifts_of(upper_key: &str) -> (r: Vec<u8>)
    ensures
        r@ == key_shifts(upper_key@),
{
    let n = upper_key.unicode_len();
    let mut r: Vec<u8> = Vec::new();
    let mut i: usize = 0;
    while i < n
        invariant
            n == upper_key@.len(),
            i <= n,
            r@ == key_shifts(upper_key@.take(i as int)),
        decreases n - i,
    {
        let c = upper_key.get_char(i);
        assert(upper_key@.take(i + 1).drop_last() =~= upper_key@.take(i as int));
        if ('A' <= c && c <= 'Z') || ('a' <= c && c <= 'z') {
            r.push((c as u8) - 65);
        }
        i = i + 1;
    }
    assert(upper_key@.take(n as int) =~= upper_key@);
    r
}

/// The one-character text of the letter `65 + k` (`is_upper`) or `97 + k`.
fn push_letter(out: &mut String, k: u8, upper: bool)
    requires
        k < 26,
    ensures
        final(out)@ == old(out)@.push(
            if upper {
                (k + 65) as char
            } else {
                (k + 97) as char
            },
        ),
{
    let alphabet = if upper {
        "ABCDEFGHIJKLMNOPQRSTUVWXYZ"
    } else {
        "abcdefghijklmnopqrstuvwxyz"
    };
    proof {
        reveal_strlit("ABCDEFGHIJKLMNOPQRSTUVWXYZ");
        reveal_strlit("abcdefghijklmnopqrstuvwxyz");
    }
    if upper {
        assert(alphabet@ =~= Seq::new(26, |j: int| (j + 65) as char));
    } else {
        assert(alphabet@ =~= Seq::new(26, |j: int| (j + 97) as char));
    }
    assert(alphabet.is_ascii());
    out.append(alphabet.substring_ascii(k as usize, k as usize + 1));
    assert(alphabet@.subrange(k as int, k + 1) =~= seq![alphabet@[k as int]]);
}

/// Enciphers `text` with the key `upper_key`, already uppercased.
pub fn encrypt_with_uppercased_key(text: &str, upper_key: &str) -> (r: String)
    ensures
        r@ == encrypt_spec(text@, key_shifts(upper_key@)),
{
    let shifts = shifts_of(upper_key);
    if shifts.len() == 0 {
        return String::from_str(text);
    }
    let n = text.unicode_len();
    let mut out = String::new();
    let mut key_index: usize = 0;
    let mut i: usize = 0;
    while i < n
        invariant
            n == text@.len(),
            i <= n,
            shifts@.len() > 0,
            shifts@ == key_shifts(upper_key@),
            key_index == letter_count(text@.take(i as int)),
            key_index <= i,
            out@ == encrypt_spec(text@, shifts@).take(i as int),
        decreases n - i,
    {
        let c = text.get_char(i);
        assert(text@.take(i + 1).drop_last() =~= text@.take(i as int));
        if 'A' <= c && c <= 'Z' {
            let shift = shifts[key_index % shifts.len()];
            proof { lemma_shift_bound(upper_key@, (key_index % shifts.len()) as int); }
            key_index += 1;
            push_letter(&mut out, ((c as u8) - 65 + shift) % 26, true);
        } else if 'a' <= c && c <= 'z' {
            let shift = shifts[key_index % shifts.len()];
            proof { lemma_shift_bound(upper_key@, (key_index % shifts.len()) as int); }
            key_index += 1;
            push_letter(&mut out, ((c as u8) - 65 + shift) % 26, false);
        } else {
            out.append(text.substring_char(i, i + 1));
        }
        assert(out@ =~= encrypt_spec(text@, shifts@).take(i + 1));
        i = i + 1;
    }
    assert(out@ =~= encrypt_spec(text@, shifts@));
    out
}

/// Every shift of a key is at most 57 (`z - A`).
proof fn lemma_shift_bound(k: Seq<char>, j: int)
    requires
        0 <= j < key_shifts(k).len(),
    ensures
        key_shifts(k)[j] <= 57,
    decreases k.len(),
{
    if k.len() > 0 {
        if j < key_shifts(k.drop_last()).len() {
            lemma_shift_bound(k.drop_last(), j);
        }
    }
}

/// A key with no ASCII lowercase letter gives shifts of at most 25.
proof fn lemma_upper_shift_bound(k: Seq<char>, j: int)
    requires
        0 <= j < key_shifts(k).len(),
        forall|i: int| 0 <= i < k.len() ==> !is_lower(#[trigger] k[i]),
    ensures
        key_shifts(k)[j] <= 25,
    decreases k.len(),
{
    if k.len() > 0 {
        assert(!is_lower(k[k.len() - 1]));
        if j < key_shifts(k.drop_last()).len() {
            lemma_upper_shift_bound(k.drop_last(), j);
        }
    }
}

/// Deciphers `text` with the key `upper_key`, already uppercased (no ASCII
/// lowercase letter in it).
pub fn decrypt_with_uppercased_key(text: &str, upper_key: &str) -> (r: String)
    requires
        forall|i: int| 0 <= i < upper_key@.len() ==> !is_lower(#[trigger] upper_key@[i]),
    ensures
        r@ == decrypt_spec(text@, key_shifts(upper_key@)),
{
    let shifts = shifts_of(upper_key);
    if shifts.len() == 0 {
        return String::from_str(text);
    }
    let n = text.unicode_len();
    let mut out = String::new();
    let mut key_index: usize = 0;
    let mut i: usize = 0;
    while i < n
        invariant
            n == text@.len(),
            i <= n,
            shifts@.len() > 0,
            shifts@ == key_shifts(upper_key@),
            forall|i: int| 0 <= i < upper_key@.len() ==> !is_lower(#[trigger] upper_key@[i]),
            key_index == letter_count(text@.take(i as int)),
            key_index <= i,
            out@ == decrypt_spec(text@, shifts@).take(i as int),
        decreases n - i,
    {
        let c = text.get_char(i);
        assert(text@.take(i + 1).drop_last() =~= text@.take(i as int));
        if 'A' <= c && c <= 'Z' {
            let shift = shifts[key_index % shifts.len()];
            proof { lemma_upper_shift_bound(upper_key@, (key_index % shifts.len()) as int); }
            key_index += 1;
            push_letter(&mut out, ((c as u8) - 65 + 26 - shift) % 26, true);
        } else if 'a' <= c && c <= 'z' {
            let shift = shifts[key_index % shifts.len()];
            proof { lemma_upper_shift_bound(upper_key@, (key_index % shifts.len()) as int); }
            key_index += 1;
            push_letter(&mut out, ((c as u8) - 97 + 26 - shift) % 26, false);
        } else {
            out.append(text.substring_char(i, i + 1));
        }
        assert(out@ =~= decrypt_spec(text@, shifts@).take(i + 1));
        i = i + 1;
    }
    assert(out@ =~= decrypt_spec(text@, shifts@));
    out
}

/// Enciphers `text` with the ASCII letters of `key` after uppercasing it; a
/// key without letters leaves the text as it is.
pub fn vigenere_cipher_encrypt(text: &str, key: &str) -> (r: String)
    ensures
        r@ == encrypt_spec(text@, key_shifts(upper_of(key@))),
{
    let upper = to_uppercase(key);
    encrypt_with_uppercased_key(text, upper.as_str())
}

/// Deciphers `text` with the ASCII letters of `key` after uppercasing it; a
/// key without letters leaves the text as it is.
pub fn vigenere_cipher_decrypt(text: &str, key: &str) -> (r: String)
    ensures
        r@ == decrypt_spec(text@, key_shifts(upper_of(key@))),
{
    let upper = to_uppercase(key);
    decrypt_with_uppercased_key(text, upper.as_str())
}

} // verus!
