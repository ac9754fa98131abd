use rustlab::arith::{add, divide};
use rustlab::errors::{do_work, ApplicationError};
use rustlab::matching::{
    destructuring_match, guarded_match, literal_match, literal_str_match, reference_match,
    tuple_match, Background, MyApp, UserType,
};
use rustlab::vigenere::{vigenere_cipher_decrypt, vigenere_cipher_encrypt};
use std::io;

#[test]
fn lib_it_works() {
    let result = add(2, 2);
    assert_eq!(result, 4);
}

#[test]
fn test_do_work() {
    let choice = 10;
    if let Err(error) = do_work(choice) {
        match error {
            ApplicationError::Code {
                full: code,
                short: _,
            } => assert_eq!(choice as usize, code),
            ApplicationError::Unknown | ApplicationError::IOWrapper(_) => assert!(choice < 42),
            ApplicationError::Message(msg) => {
                assert_eq!(format!("{} lead to a terrible error", choice), msg)
            }
        }
    }
}

#[test]
fn do_work_message_for_large_choice() {
    match do_work(1234) {
        Err(ApplicationError::Message(msg)) => assert_eq!(msg, "1234 lead to a terrible error"),
        _ => panic!("expected a message"),
    }
    assert!(matches!(do_work(42), Err(ApplicationError::IOWrapper(_))));
    assert!(matches!(do_work(-5), Err(ApplicationError::IOWrapper(_))));
}

#[test]
fn test_application_error_kind() {
    let mut target = vec![];

    let _ = ApplicationError::Code {
        full: 100,
        short: 100,
    }
    .print_kind(&mut target);
    assert_eq!(String::from_utf8(target).unwrap(), "Code");

    let mut target = vec![];
    let _ = ApplicationError::Message("0".to_string()).print_kind(&mut target);
    assert_eq!(String::from_utf8(target).unwrap(), "Message");

    let mut target = vec![];
    let _ = ApplicationError::Unknown.print_kind(&mut target);
    assert_eq!(String::from_utf8(target).unwrap(), "Unknown");

    let mut target = vec![];
    let _ = ApplicationError::IOWrapper(io::Error::from(io::ErrorKind::Other))
        .print_kind(&mut target);
    assert_eq!(String::from_utf8(target).unwrap(), "IOWrapper");
}

#[test]
fn divide_rounds_toward_zero() {
    assert_eq!(divide(10, 3), 3);
    assert_eq!(divide(-10, 3), -3);
    assert_eq!(divide(10, -3), -3);
    assert_eq!(divide(-10, -3), 3);
    assert_eq!(divide(0, 5), 0);
    assert_eq!(divide(7, 1), 7);
    assert_eq!(divide(2, 7), 0);
    assert_eq!(divide(i32::MIN, -1), i32::MAX);
    assert_eq!(divide(i32::MIN, 2), -1073741824);
}

#[test]
fn vigenere_round_trip_uppercase() {
    let encrypted = vigenere_cipher_encrypt("HELLO, WORLD!", "key");
    assert_eq!(encrypted, "RIJVS, UYVJN!");
    assert_eq!(vigenere_cipher_decrypt(&encrypted, "KEY"), "HELLO, WORLD!");
}

#[test]
fn vigenere_lowercase_counts_from_upper_a() {
    assert_eq!(vigenere_cipher_encrypt("a", "A"), "g");
    assert_eq!(vigenere_cipher_decrypt("g", "A"), "g");
    assert_eq!(vigenere_cipher_encrypt("Hello, world!", "KEY"), "Ropby, aebpt!");
}

#[test]
fn vigenere_without_key_letters_keeps_text() {
    assert_eq!(vigenere_cipher_encrypt("Hello", "123"), "Hello");
    assert_eq!(vigenere_cipher_decrypt("Hello", ""), "Hello");
}

#[test]
fn literal_and_tuple_matches() {
    assert_eq!(literal_match(0), "zero or two");
    assert_eq!(literal_match(5), "two to nine");
    assert_eq!(literal_match(10), "ten");
    assert_eq!(literal_match(100), "anything else");
    assert_eq!(
        tuple_match((0, 10, 0, -100)),
        "Numbers at positions 1 and 3 are 10 and -100 respectively"
    );
}

#[test]
fn destructuring_and_guarded_matches() {
    let power = MyApp {
        sercret_user_id: 99,
        theme: Background::Color(255, 255, 0),
        user_type: UserType::Power,
    };
    assert_eq!(
        destructuring_match(power),
        "A power user with id >99< and color background (#ffff00))"
    );
    let casual = MyApp {
        sercret_user_id: 10,
        theme: Background::Image("path/to/image.png"),
        user_type: UserType::Casual,
    };
    assert_eq!(
        destructuring_match(casual),
        "A casual user with id >10< and image background (path: path/to/image.png)"
    );
    let early = MyApp { sercret_user_id: 99, theme: Background::Color(1, 2, 3), user_type: UserType::Power };
    assert_eq!(guarded_match(early), "You are an early bird!");
    let late = MyApp { sercret_user_id: 101, theme: Background::Color(1, 2, 3), user_type: UserType::Power };
    assert_eq!(guarded_match(late), "You are a late comer!");
    let other = MyApp { sercret_user_id: 1, theme: Background::Image("x"), user_type: UserType::Power };
    assert_eq!(guarded_match(other), "Thank you for joining!");
}

#[test]
fn reference_and_str_matches() {
    assert_eq!(reference_match(&Some("Hello")), "Hello");
    assert_eq!(reference_match(&None), "Nothing");
    assert_eq!(literal_str_match("hello"), "world");
    assert_eq!(literal_str_match("hello!"), "anything else");
}
