//! Descriptions chosen by pattern matching on numbers, tuples, enums,
//! structs and text.

use vstd::prelude::*;

use crate::text::{decimal_spec, hex2_spec, push_decimal, push_hex2, push_signed_decimal, signed_decimal_spec};

verus! {

pub enum Background {
    Color(u8, u8, u8),
    Image(&'static str),
}

pub enum UserType {
    Casual,
    Power,
}

pub struct MyApp {
    pub theme: Background,
    pub user_type: UserType,
    pub sercret_user_id: usize,
}

/// Whether two texts have the same characters.
pub fn same_text(a: &str, b: &str) -> (r: bool)
    ensures
        r == (a@ == b@),
{
    let n = a.unicode_len();
    if n != b.unicode_len() {
        return false;
    }
    let mut i: usize = 0;
    while i < n
        invariant
            n == a@.len() == b@.len(),
            i <= n,
            a@.take(i as int) == b@.take(i as int),
        decreases n - i,
    {
        if a.get_char(i) != b.get_char(i) {
            assert(a@[i as int] != b@[i as int]);
            return false;
        }
        assert(a@.take(i + 1) =~= a@.take(i as int).push(a@[i as int]));
        assert(b@.take(i + 1) =~= b@.take(i as int).push(b@[i as int]));
        i = i + 1;
    }
    assert(a@ =~= a@.take(n as int));
    assert(b@ =~= b@.take(n as int));
    true
}

/// A word for a small number.
pub open spec fn literal_match_spec(choice: usize) -> Seq<char> {
    if choice <= 1 {
        "zero or two"@
    } else if choice <= 9 {
        "two to nine"@
    } else if choice == 10 {
        "ten"@
    } else {
        "anything else"@
    }
}

/// A word for a small number: 0 and 1, 2 to 9, 10, or anything else.
pub fn literal_match(choice: usize) -> (r: String)
    ensures
        r@ == literal_match_spec(choice),
{
    match choice {
        0 | 1 => String::from_str("zero or two"),
        2..=9 => String::from_str("two to nine"),
        10 => String::from_str("ten"),
        _ => String::from_str("anything else"),
    }
}

/// Names the numbers at positions 1 and 3 of a 4-tuple.
pub fn tuple_match(choices: (i32, i32, i32, i32)) -> (r: String)
    ensures
        r@ == "Numbers at positions 1 and 3 are "@ + signed_decimal_spec(choices.1 as int) + " and "@
            + signed_decimal_spec(choices.3 as int) + " respectively"@,
{
    match choices {
        (_, second, _, fourth) => {
            let mut out = String::from_str("Numbers at positions 1 and 3 are ");
            push_signed_decimal(&mut out, second as i64);
            out.append(" and ");
            push_signed_decimal(&mut out, fourth as i64);
            out.append(" respectively");
            out
        },
    }
}

/// The description of an app's user and theme.
pub open spec fn describe_spec(app: MyApp) -> Seq<char> {
    let uid = decimal_spec(app.sercret_user_id as nat);
    match (app.user_type, app.theme) {
        (UserType::Power, Background::Color(b1, b2, b3)) => "A power user with id >"@ + uid
            + "< and color background (#"@ + hex2_spec(b1) + hex2_spec(b2) + hex2_spec(b3) + "))"@,
        (UserType::Power, Background::Image(path)) => "A power user with id >"@ + uid
            + "< and image background (path: "@ + path@ + ")"@,
        (UserType::Casual, Background::Color(b1, b2, b3)) => "A casual user with id >"@ + uid
            + "< and color background (#"@ + hex2_spec(b1) + hex2_spec(b2) + hex2_spec(b3) + ")"@,
        (UserType::Casual, Background::Image(path)) => "A casual user with id >"@ + uid
            + "< and image background (path: "@ + path@ + ")"@,
    }
}

/// Appends the color `#rrggbb` in hex.
fn push_color(out: &mut String, b1: u8, b2: u8, b3: u8)
    ensures
        final(out)@ == old(out)@ + hex2_spec(b1) + hex2_spec(b2) + hex2_spec(b3),
{
    push_hex2(out, b1);
    push_hex2(out, b2);
    push_hex2(out, b3);
    assert(out@ =~= old(out)@ + hex2_spec(b1) + hex2_spec(b2) + hex2_spec(b3));
}

/// Describes the user type, id and theme of `app`.
pub fn destructuring_match(app: MyApp) -> (r: String)
    ensures
        r@ == describe_spec(app),
{
    let ghost uid_text = decimal_spec(app.sercret_user_id as nat);
    match app {
        MyApp {
            user_type: UserType::Power,
            sercret_user_id: uid,
            theme: Background::Color(b1, b2, b3),
        } => {
            let mut out = String::from_str("A power user with id >");
            push_decimal(&mut out, uid as u64);
            out.append("< and color background (#");
            push_color(&mut out, b1, b2, b3);
            out.append("))");
            assert(out@ =~= "A power user with id >"@ + uid_text + "< and color background (#"@
                + hex2_spec(b1) + hex2_spec(b2) + hex2_spec(b3) + "))"@);
            out
        },
        MyApp { user_type: UserType::Power, sercret_user_id: uid, theme: Background::Image(path) } => {
            let mut out = String::from_str("A power user with id >");
            push_decimal(&mut out, uid as u64);
            out.append("< and image background (path: ");
            out.append(path);
            out.append(")");
            assert(out@ =~= "A power user with id >"@ + uid_text + "< and image background (path: "@
                + path@ + ")"@);
            out
        },
        MyApp {
            user_type: UserType::Casual,
            sercret_user_id: uid,
            theme: Background::Color(b1, b2, b3),
        } => {
            let mut out = String::from_str("A casual user with id >");
            push_decimal(&mut out, uid as u64);
            out.append("< and color background (#");
            push_color(&mut out, b1, b2, b3);
            out.append(")");
            assert(out@ =~= "A casual user with id >"@ + uid_text + "< and color background (#"@
                + hex2_spec(b1) + hex2_spec(b2) + hex2_spec(b3) + ")"@);
            out
        },
        MyApp {
            user_type: UserType::Casual,
            sercret_user_id: uid,
            theme: Background::Image(path),
        } => {
            let mut out = String::from_str("A casual user with id >");
            push_decimal(&mut out, uid as u64);
            out.append("< and image background (path: ");
            out.append(path);
            out.append(")");
            assert(out@ =~= "A casual user with id >"@ + uid_text + "< and image background (path: "@
                + path@ + ")"@);
            out
        },
    }
}

/// A greeting for power users with a color theme, by how early they joined.
pub open spec fn guarded_spec(app: MyApp) -> Seq<char> {
    match (app.user_type, app.theme) {
        (UserType::Power, Background::Color(_, _, _)) => if app.sercret_user_id <= 100 {
            "You are an early bird!"@
        } else {
            "You are a late comer!"@
        },
        _ => "Thank you for joining!"@,
    }
}

/// Greets a power user with a color theme by how early they joined (id at
/// most 100 or not); thanks everyone else.
pub fn guarded_match(app: MyApp) -> (r: String)
    ensures
        r@ == guarded_spec(app),
{
    match app {
        MyApp {
            user_type: UserType::Power,
            sercret_user_id: uid,
            theme: Background::Color(_b1, _b2, _b3),
        } if uid <= 100 => String::from_str("You are an early bird!"),
        MyApp {
            user_type: UserType::Power,
            sercret_user_id: uid,
            theme: Background::Color(_b1, _b2, _b3),
        } if uid > 100 => String::from_str("You are a late comer!"),
        _ => String::from_str("Thank you for joining!"),
    }
}

/// The text held, or "Nothing".
pub fn reference_match(m: &Option<&str>) -> (r: String)
    ensures
        r@ == match *m {
            Some(s) => s@,
            None => "Nothing"@,
        },
{
    match m {
        Some(s) => String::from_str(s),
        _ => String::from_str("Nothing"),
    }
}

/// "world" for "hello", else "anything else".
pub fn literal_str_match(choice: &str) -> (r: String)
    ensures
        r@ == if choice@ == "hello"@ {
            "world"@
        } else {
            "anything else"@
        },
{
    if same_text(choice, "hello") {
        String::from_str("world")
    } else {
        String::from_str("anything else")
    }
}

} // verus!
