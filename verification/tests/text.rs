use hana_backend::connection::{resolve_tls, TlsChoice};
use hana_backend::json::{from_bytes, to_text, Json, JsonNumber};
use hana_backend::text::{
    ascii_lowercase, contains, decimal, is_blank, is_whitespace, parse_u64, same_ignoring_case,
    trim,
};

#[test]
fn white_space_is_that_of_unicode() {
    for u in 0..=0x10ffffu32 {
        if let Some(c) = char::from_u32(u) {
            assert_eq!(is_whitespace(c), c.is_whitespace(), "{u:x}");
        }
    }
}

#[test]
fn text_functions_agree_with_the_standard_library() {
    for s in ["", " ", " a ", "\u{3000}x y\u{85}", "Ärger TIMED Out", "aaab"] {
        assert_eq!(trim(s), s.trim());
        assert_eq!(is_blank(s), s.trim().is_empty());
        assert_eq!(ascii_lowercase(s), s.to_ascii_lowercase());
        for needle in ["", "a", "aab", "timed", "TIMED Out", "zz"] {
            assert_eq!(contains(s, needle), s.contains(needle), "{s:?} {needle:?}");
        }
    }
    assert!(same_ignoring_case("URI", "uRi"));
    assert!(!same_ignoring_case("É", "é"));
}

#[test]
fn numerals_read_back() {
    for n in [0u64, 9, 10, 41, 1_000, u64::MAX] {
        assert_eq!(decimal(n as u128), n.to_string());
        assert_eq!(parse_u64(&n.to_string()), Some(n));
    }
    assert_eq!(decimal(u128::MAX), u128::MAX.to_string());
    for s in ["", "+", "+7", "007", "-1", " 1", "1a", "18446744073709551616", "+18446744073709551615"]
    {
        assert_eq!(parse_u64(s), s.parse::<u64>().ok(), "{s:?}");
    }
}

#[test]
fn tls_choice_follows_the_knobs() {
    let pem = Some(" PEM ".to_owned());
    assert_eq!(resolve_tls(false, true, &pem), TlsChoice::Plaintext);
    assert_eq!(resolve_tls(true, false, &pem), TlsChoice::NoVerify);
    assert_eq!(resolve_tls(true, true, &pem), TlsChoice::Ca("PEM".into()));
    assert_eq!(resolve_tls(true, true, &Some(" ".into())), TlsChoice::SystemRoots);
    assert_eq!(resolve_tls(true, true, &None), TlsChoice::SystemRoots);
}

#[test]
fn json_text_is_compact_and_reads_back() {
    let text = "{\"z\":[1,-2,2.5,1e300,null,true,\"\\u0000é\\\"\"],\"a\":{\"n\":18446744073709551615}}";
    let value = from_bytes(text.as_bytes()).unwrap();
    match &value {
        Json::Object(members) => {
            assert_eq!(members[0].0, "z");
            match &members[0].1 {
                Json::Array(items) => {
                    assert_eq!(items[0], Json::integer(1));
                    assert_eq!(items[1], Json::integer(-2));
                    assert_eq!(items[2], Json::Number(JsonNumber::Float("2.5".into())));
                    assert_eq!(items[6], Json::text("\u{0}é\""));
                }
                other => panic!("{other:?}"),
            }
            assert_eq!(members[1].1.get("n"), Some(&Json::count(u64::MAX)));
        }
        other => panic!("{other:?}"),
    }
    let written = to_text(&value).unwrap();
    assert_eq!(from_bytes(written.as_bytes()), Ok(value));
}

#[test]
fn repeated_names_are_written_once() {
    let value = Json::Object(vec![
        ("a".to_owned(), Json::integer(1)),
        ("b".to_owned(), Json::integer(2)),
        ("a".to_owned(), Json::integer(3)),
    ]);
    assert_eq!(to_text(&value), Ok("{\"a\":3,\"b\":2}".to_owned()));
    assert_eq!(to_text(&Json::Number(JsonNumber::Float("?".into()))), Ok("null".to_owned()));
}

#[test]
fn floats_are_held_by_their_shortest_text() {
    assert_eq!(from_bytes(b"1.50"), Ok(Json::Number(JsonNumber::Float("1.5".into()))));
    assert_eq!(from_bytes(b"5.0"), Ok(Json::Number(JsonNumber::Float("5.0".into()))));
    assert_eq!(to_text(&Json::Number(JsonNumber::Float("5.0".into()))), Ok("5.0".to_owned()));
    let tenth = from_bytes(b"0.1").unwrap();
    assert_eq!(to_text(&tenth), Ok("0.1".to_owned()));
}

#[test]
fn nesting_is_read_to_its_limit() {
    let nested = |depth: usize| {
        let mut value = Json::Null;
        for _ in 0..depth {
            value = Json::Array(vec![value]);
        }
        value
    };
    let deep = to_text(&nested(127)).unwrap();
    assert_eq!(from_bytes(deep.as_bytes()), Ok(nested(127)));
    let deeper = to_text(&nested(128)).unwrap();
    assert!(from_bytes(deeper.as_bytes()).is_err());
}

#[test]
fn bytes_that_are_no_json_have_an_error() {
    assert!(from_bytes(b"").is_err());
    assert!(from_bytes(b"{}x").is_err());
    assert!(from_bytes(&[0xff]).is_err());
}
