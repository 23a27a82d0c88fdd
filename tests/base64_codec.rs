use ox_core::codec::{
    convert, decode, encode, text_from_decoded, Base64Error, Base64Mode, DecodeFailure,
};

#[test]
fn encodes_standard_alphabet_with_padding() {
    assert_eq!(encode("hello"), "aGVsbG8=");
    assert_eq!(encode("hi?>"), "aGk/Pg==");
    assert_eq!(encode("\u{e9}"), "w6k=");
}

#[test]
fn decodes_back() {
    assert_eq!(decode("aGVsbG8=").unwrap(), "hello");
    assert_eq!(decode("w6k=").unwrap(), "\u{e9}");
}

#[test]
fn round_trip_of_non_blank_texts() {
    for s in [
        "a",
        "hello world",
        " leading and trailing ",
        "line one\nline two\n",
        "h\u{e9}llo w\u{f6}rld \u{2713} \u{1f980}",
        "{\"json\": [1, 2, 3]}",
    ] {
        let e = encode(s);
        assert_eq!(decode(&e).unwrap(), s);
    }
}

#[test]
fn blank_base64_input_gives_empty_output() {
    assert_eq!(encode(""), "");
    assert_eq!(encode("  \n\t"), "");
    assert_eq!(decode("").unwrap(), "");
    assert_eq!(decode("   \n").unwrap(), "");
}

#[test]
fn invalid_base64_is_a_decode_error() {
    assert!(matches!(decode("not-valid-base64!"), Err(Base64Error::Decode(_))));
    assert!(matches!(decode("abc"), Err(Base64Error::Decode(_))));
    assert!(matches!(decode("a==="), Err(Base64Error::Decode(_))));
}

#[test]
fn non_utf8_payload_is_an_encoding_error() {
    assert_eq!(decode("/w=="), Err(Base64Error::Encoding));
    assert_eq!(decode("wyg="), Err(Base64Error::Encoding));
}

#[test]
fn mode_selects_direction() {
    assert_eq!(convert(Base64Mode::Encode, "hello").unwrap(), "aGVsbG8=");
    assert_eq!(convert(Base64Mode::Decode, "aGVsbG8=").unwrap(), "hello");
    assert!(matches!(
        convert(Base64Mode::Decode, "not-valid-base64!"),
        Err(Base64Error::Decode(_))
    ));
}

#[test]
fn decoded_bytes_become_text() {
    assert_eq!(text_from_decoded(Ok(b"hi".to_vec())).unwrap(), "hi");
    assert_eq!(text_from_decoded(Ok(vec![0xc3, 0xa9])).unwrap(), "\u{e9}");
    assert_eq!(text_from_decoded(Ok(vec![0xff])), Err(Base64Error::Encoding));
    assert_eq!(text_from_decoded(Ok(vec![0xed, 0xa0, 0x80])), Err(Base64Error::Encoding));
    assert_eq!(
        text_from_decoded(Err(DecodeFailure::InvalidPadding)),
        Err(Base64Error::Decode(DecodeFailure::InvalidPadding))
    );
}

#[test]
fn padding_follows_the_partial_group() {
    for (s, pads) in [("abc", 0), ("abcd", 2), ("abcde", 1), ("\u{e9}", 1)] {
        let e = encode(s);
        assert_eq!(e.len(), 4 * ((s.len() + 2) / 3));
        assert_eq!(e.chars().filter(|c| *c == '=').count(), pads);
        assert!(e.trim_end_matches('=').chars().all(|c| c.is_ascii_alphanumeric() || c == '+' || c == '/'));
    }
}

#[test]
fn non_canonical_padding_is_refused() {
    assert!(matches!(decode("aGk"), Err(Base64Error::Decode(_))));
    assert!(matches!(decode("aGl="), Err(Base64Error::Decode(_))));
}

#[test]
fn decoded_text_encodes_back_to_its_input() {
    for t in ["aGVsbG8=", "w6k=", "YSBiIGM="] {
        let d = decode(t).unwrap();
        assert_eq!(encode(&d), t);
    }
}

#[test]
fn symbols_outside_the_alphabet_are_decode_errors() {
    assert!(matches!(decode("aGVs bG8="), Err(Base64Error::Decode(_))));
    assert!(matches!(decode("aGVsbG8-"), Err(Base64Error::Decode(_))));
}
