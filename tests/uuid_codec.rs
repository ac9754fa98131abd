use rustlab::codec::build_sip_input;
use rustlab::uuid::{read_48be, write_48be};
use rustlab::{decode_v4_facade, encode_v4_facade, siphash24, ParseError, Uuid128, Uuidv47Key};

#[test]
fn test_read_write_48() {
    let mut buf = [0u8; 6];
    let v = 0x0123456789ABu64;
    write_48be(&mut buf, v);
    let r = read_48be(&buf);
    assert_eq!(r, v);
}

#[test]
fn test_uuid_parse_format_roundtrip() {
    let s = "00000000-0000-7000-8000-000000000000";
    let u = Uuid128::parse(s).unwrap();
    assert_eq!(u.version(), 7);

    let formatted = u.format();
    let u2 = Uuid128::parse(&formatted).unwrap();
    assert_eq!(u.bytes, u2.bytes);

    let bad = "zzzzzzzz-zzzz-zzzz-zzzz-zzzzzzzzzzzz";
    assert!(Uuid128::parse(bad).is_err());
}

#[test]
fn test_version_variant() {
    let mut u = Uuid128::from_bytes([0; 16]);
    u.set_version(7);
    assert_eq!(u.version(), 7);
    u.set_variant_rfc4122();
    assert_eq!(u.bytes[8] & 0xC0, 0x80);
}

#[test]
fn test_siphash_vectors() {
    let k0 = 0x0706050403020100u64;
    let k1 = 0x0f0e0d0c0b0a0908u64;

    let vectors = [
        (0, 0x310e0edd47db6f72u64),
        (1, 0xfd67dc93c539f874u64),
        (2, 0x5a4fa9d909806c0du64),
        (3, 0x2d7efbd796666785u64),
        (4, 0xb7877127e09427cfu64),
        (5, 0x8da699cd64557618u64),
        (6, 0xcee3fe586e46c9cbu64),
        (7, 0x37d1018bf50002abu64),
        (8, 0x6224939a79f5f593u64),
        (9, 0xb0e4a90bdf82009eu64),
        (10, 0xf3b9dd94c5bb5d7au64),
    ];

    let mut msg = Vec::new();
    for i in 0..64 {
        msg.push(i as u8);
    }

    for (len, expected) in vectors.iter() {
        let result = siphash24(&msg[..*len], k0, k1);
        assert_eq!(result, *expected, "Failed for length {}", len);
    }
}

#[test]
fn test_encode_decode_roundtrip() {
    let key = Uuidv47Key {
        k0: 0x0123456789abcdefu64,
        k1: 0xfedcba9876543210u64,
    };

    for i in 0..16 {
        let ts = (0x100000u64 * i as u64) + 123;
        let ra = ((0x0AAA ^ (i * 7)) & 0x0FFF) as u16;
        let rb = (0x0123456789ABCDEFu64 ^ (0x1111111111111111u64 * i as u64)) & ((1u64 << 62) - 1);

        let u7 = Uuid128::craft_v7(ts, ra, rb);

        let facade = encode_v4_facade(u7, key);
        assert_eq!(facade.version(), 4);
        assert_eq!(facade.bytes[8] & 0xC0, 0x80);

        let back = decode_v4_facade(facade, key);
        assert_eq!(u7.bytes, back.bytes);

        let wrong_key = Uuidv47Key {
            k0: key.k0 ^ 0xdeadbeef,
            k1: key.k1 ^ 0x1337,
        };
        let bad = decode_v4_facade(facade, wrong_key);
        assert_ne!(u7.bytes, bad.bytes);
    }
}

#[test]
fn test_build_sip_input_stability() {
    let u7 = Uuid128::craft_v7(0x123456789ABC, 0x0ABC, 0x0123456789ABCDEF & ((1u64 << 62) - 1));
    let key = Uuidv47Key {
        k0: 0x0123456789abcdef,
        k1: 0xfedcba9876543210,
    };

    let facade = encode_v4_facade(u7, key);

    let m1 = build_sip_input(&u7);
    let m2 = build_sip_input(&facade);
    assert_eq!(m1, m2);
}

#[test]
fn test_demo_example() {
    let s = "018f2d9f-9a2a-7def-8c3f-7b1a2c4d5e6f";
    let id_v7 = Uuid128::parse(s).unwrap();
    let key = Uuidv47Key {
        k0: 0x0123456789abcdef,
        k1: 0xfedcba9876543210,
    };

    let facade = encode_v4_facade(id_v7, key);
    let back = decode_v4_facade(facade, key);

    assert_eq!(id_v7.bytes, back.bytes);
    assert_eq!(facade.version(), 4);
    assert_eq!(back.version(), 7);
}

#[test]
fn demo_facade_text_has_version_nibble_four() {
    let s = "018f2d9f-9a2a-7def-8c3f-7b1a2c4d5e6f";
    let id_v7 = Uuid128::parse(s).unwrap();
    assert_eq!(id_v7.version(), 7);
    let key = Uuidv47Key { k0: 0x0123456789abcdef, k1: 0xfedcba9876543210 };
    let facade = encode_v4_facade(id_v7, key);
    let text = facade.format();
    assert_eq!(text.len(), 36);
    assert_eq!(text.as_bytes()[14], b'4');
    assert_eq!(&text[14..], "4def-8c3f-7b1a2c4d5e6f");
    let back = decode_v4_facade(Uuid128::parse(&text).unwrap(), key);
    assert_eq!(back.format(), s);
}

#[test]
fn facade_payload_is_kept_and_timestamp_masked() {
    let key = Uuidv47Key { k0: 7, k1: 9 };
    let u7 = Uuid128::craft_v7(0x0000_0102_0304_0506, 0x0ABC, 0x1234_5678_9ABC_DEF0);
    let facade = encode_v4_facade(u7, key);
    assert_eq!(facade.bytes[6] & 0x0F, u7.bytes[6] & 0x0F);
    assert_eq!(facade.bytes[7], u7.bytes[7]);
    assert_eq!(facade.bytes[8] & 0x3F, u7.bytes[8] & 0x3F);
    assert_eq!(facade.bytes[9..], u7.bytes[9..]);
    let mask = siphash24(&build_sip_input(&u7), 7, 9) & 0x0000_FFFF_FFFF_FFFF;
    assert_eq!(read_48be(&facade.bytes[0..6]), 0x0102_0304_0506 ^ mask);
    assert_ne!(facade.bytes[0..6], u7.bytes[0..6]);
}

#[test]
fn decode_always_tags_version_seven() {
    let key = Uuidv47Key { k0: 1, k1: 2 };
    let u = Uuid128::from_bytes([0xFF; 16]);
    let d = decode_v4_facade(u, key);
    assert_eq!(d.version(), 7);
    assert_eq!(d.bytes[8] & 0xC0, 0x80);
    let e = encode_v4_facade(u, key);
    assert_eq!(e.version(), 4);
    assert_eq!(e.bytes[8] & 0xC0, 0x80);
}

#[test]
fn round_trip_normalizes_tags_of_any_input() {
    let key = Uuidv47Key { k0: 0x1111, k1: 0x2222 };
    let u = Uuid128::from_bytes([0xAB; 16]);
    let back = decode_v4_facade(encode_v4_facade(u, key), key);
    let mut want = u;
    want.set_version(7);
    want.set_variant_rfc4122();
    assert_eq!(back.bytes, want.bytes);
}

#[test]
fn wrong_key_changes_timestamp_for_samples() {
    let key = Uuidv47Key { k0: 0x0123456789abcdef, k1: 0xfedcba9876543210 };
    let others = [
        Uuidv47Key { k0: key.k0 ^ 1, k1: key.k1 },
        Uuidv47Key { k0: key.k0, k1: key.k1 ^ 1 },
        Uuidv47Key { k0: 0, k1: 0 },
    ];
    for i in 0..8u64 {
        let u7 = Uuid128::craft_v7(0x0001_0000_0000 + i, (i * 11) as u16, i * 0x0101_0101);
        let facade = encode_v4_facade(u7, key);
        for other in others.iter() {
            let bad = decode_v4_facade(facade, *other);
            assert_ne!(bad.bytes[0..6], u7.bytes[0..6]);
        }
    }
}

#[test]
fn siphash_known_vectors() {
    let k0 = 0x0706050403020100u64;
    let k1 = 0x0f0e0d0c0b0a0908u64;
    let msg: Vec<u8> = (0..16u8).collect();
    assert_eq!(siphash24(&msg[..0], k0, k1), 0x310e0edd47db6f72);
    assert_eq!(siphash24(&msg[..1], k0, k1), 0xfd67dc93c539f874);
    assert_eq!(siphash24(&msg[..4], k0, k1), 0xb7877127e09427cf);
    assert_eq!(siphash24(&msg[..10], k0, k1), 0xf3b9dd94c5bb5d7a);
    assert_eq!(siphash24(&msg[..15], k0, k1), 0xe545be4961ca29a1);
}

#[test]
fn parse_reports_each_error() {
    assert_eq!(Uuid128::parse(""), Err(ParseError::InvalidLength));
    assert_eq!(Uuid128::parse("018f2d9f-9a2a-7def-8c3f-7b1a2c4d5e6"), Err(ParseError::InvalidLength));
    assert_eq!(Uuid128::parse("018f2d9f-9a2a-7def-8c3f-7b1a2c4d5e6f0"), Err(ParseError::InvalidLength));
    assert_eq!(Uuid128::parse("018f2d9f09a2a-7def-8c3f-7b1a2c4d5e6f"), Err(ParseError::InvalidFormat));
    assert_eq!(Uuid128::parse("018f2d9f-9a2a-7def-8c3f07b1a2c4d5e6f"), Err(ParseError::InvalidFormat));
    assert_eq!(Uuid128::parse("zzzzzzzz-zzzz-zzzz-zzzz-zzzzzzzzzzzz"), Err(ParseError::InvalidHexChar));
    assert_eq!(Uuid128::parse("018f2d9f-9a2a-7deg-8c3f-7b1a2c4d5e6f"), Err(ParseError::InvalidHexChar));
    assert_eq!(Uuid128::parse("018f2d9fx9a2a-7deg-8c3f-7b1a2c4d5e6f"), Err(ParseError::InvalidFormat));
}

#[test]
fn parse_is_case_insensitive_and_format_lowercases() {
    let upper = "018F2D9F-9A2A-7DEF-8C3F-7B1A2C4D5E6F";
    let u = Uuid128::parse(upper).unwrap();
    assert_eq!(u.bytes[0], 0x01);
    assert_eq!(u.bytes[1], 0x8F);
    assert_eq!(u.bytes[15], 0x6F);
    assert_eq!(u.format(), upper.to_lowercase());
}

#[test]
fn format_renders_all_bytes() {
    let mut b = [0u8; 16];
    for i in 0..16 {
        b[i] = (i as u8) * 17;
    }
    let u = Uuid128::from_bytes(b);
    assert_eq!(u.format(), "00112233-4455-6677-8899-aabbccddeeff");
    assert_eq!(Uuid128::parse(&u.format()).unwrap(), u);
}

#[test]
fn craft_v7_lays_out_fields() {
    let u = Uuid128::craft_v7(0xFFFF_0123_4567_89AB, 0xFABC, 0xFFFF_FFFF_FFFF_FFFF);
    assert_eq!(u.format(), "01234567-89ab-7abc-bfff-ffffffffffff");
    assert_eq!(u.version(), 7);
}

#[test]
fn set_version_keeps_low_nibble() {
    let mut u = Uuid128::from_bytes([0x5A; 16]);
    u.set_version(0x14);
    assert_eq!(u.bytes[6], 0x4A);
    assert_eq!(u.version(), 4);
    u.set_variant_rfc4122();
    assert_eq!(u.bytes[8], 0x9A);
}

#[test]
fn from_str_and_error_messages() {
    let u: Uuid128 = "018f2d9f-9a2a-7def-8c3f-7b1a2c4d5e6f".parse().unwrap();
    assert_eq!(u.version(), 7);
    let e = "nope".parse::<Uuid128>().unwrap_err();
    assert_eq!(e, ParseError::InvalidLength);
    assert_eq!(e.message(), "Invalid UUID string length");
    assert_eq!(ParseError::InvalidHexChar.message(), "Invalid hexadecimal character");
}
