use std::borrow::Cow;

use yengine::format::{decode, encode, DecodeError};

#[test]
fn zc_decoding() {
    assert!(matches!(decode("123456"), Ok(Cow::Borrowed(_))));
    assert!(matches!(decode("engine.timer"), Ok(Cow::Borrowed(_))));
}

#[test]
fn zc_encoding() {
    assert!(matches!(encode("123456"), Cow::Borrowed(_)));
    assert!(matches!(encode("engine.timer"), Cow::Borrowed(_)));
}

#[test]
fn it_decodes() {
    assert_eq!(
        decode("a%%null%%separated%%string").unwrap(),
        "a%null%separated%string"
    );

    assert_eq!(
        decode("a%@null%@separated%@string").unwrap(),
        "a\0null\0separated\0string"
    );

    assert_eq!(
        decode("a%znull%zseparated%zstring").unwrap(),
        "a:null:separated:string"
    );

    assert_eq!(
        decode("a%\x7fnull%\x7fseparated%\x7fstring").unwrap(),
        "a?null?separated?string"
    );
}

#[test]
fn it_encodes() {
    assert_eq!(
        encode("a%null%separated%string"),
        "a%%null%%separated%%string"
    );

    assert_eq!(
        encode("a\0null\0separated\0string"),
        "a%@null%@separated%@string"
    );

    assert_eq!(
        encode("a:null:separated:string"),
        "a%znull%zseparated%zstring"
    );
}

#[test]
fn its_consistent() {
    assert_eq!(encode(&decode("engine.timer").unwrap()), "engine.timer");
    assert_eq!(decode(&encode("engine.timer")).unwrap(), "engine.timer");

    assert_eq!(encode(&decode("some Ùtf̵-8").unwrap()), "some Ùtf̵-8");
    assert_eq!(decode(&encode("some Ùtf̵-8")).unwrap(), "some Ùtf̵-8");

    assert_eq!(encode(&decode("%@%%%z%\\?").unwrap()), "%@%%%z%\\?");
    assert_eq!(decode(&encode("\0%:\\?")).unwrap(), "\0%:\\?");
}

#[test]
fn it_rejects_bad_upcodes() {
    assert!(decode("%\n").is_err());
    assert!(decode("%\0").is_err());
    assert!(decode("%:").is_err());
    assert!(decode("%0").is_err());
    assert!(decode("%™").is_err());
    assert!(decode("% ").is_err());
}

#[test]
fn bad_upcode_is_named() {
    assert_eq!(decode("ab%0cd").unwrap_err(), DecodeError('0'));
    assert_eq!(decode("%A%\n%0").unwrap_err(), DecodeError('\n'));
}

#[test]
fn trailing_percent_stands_for_nothing() {
    assert_eq!(decode("abc%").unwrap(), "abc");
}

#[test]
fn delete_is_not_escaped() {
    assert!(matches!(encode("a\x7fb"), Cow::Borrowed(_)));
    assert_eq!(decode(&encode("a\x7fb")).unwrap(), "a\x7fb");
}

#[test]
fn every_control_character_round_trips() {
    for code in 0u8..32 {
        let plain = format!("x{}y", code as char);
        let escaped = encode(&plain).into_owned();
        assert_eq!(escaped, format!("x%{}y", (code + 64) as char));
        assert_eq!(decode(&escaped).unwrap(), plain);
    }
}
