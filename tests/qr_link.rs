use ox_core::qr::{content_kind, content_preview, generate_qr_code, ContentKind, QrError};

#[test]
fn empty_text_is_refused() {
    assert_eq!(generate_qr_code(""), Err(QrError::Empty));
    assert_eq!(generate_qr_code("  \n"), Err(QrError::Empty));
    assert_eq!(generate_qr_code(&" ".repeat(2001)), Err(QrError::Empty));
}

#[test]
fn long_text_is_refused() {
    assert_eq!(generate_qr_code(&"x".repeat(2001)), Err(QrError::TooLong));
    assert!(generate_qr_code(&"x".repeat(2000)).is_ok());
    assert!(generate_qr_code(&"\u{e9}".repeat(2000)).is_ok());
}

#[test]
fn url_holds_encoded_text() {
    let url = generate_qr_code("hello").unwrap();
    assert!(url.contains("hello"));
    assert_eq!(
        url,
        "https://api.qrserver.com/v1/create-qr-code/?size=200x200&data=hello"
    );
}

#[test]
fn reserved_characters_are_percent_encoded() {
    let url = generate_qr_code("a b&c=d/\u{e9}~-._").unwrap();
    assert_eq!(
        url,
        "https://api.qrserver.com/v1/create-qr-code/?size=200x200&data=a%20b%26c%3Dd%2F%C3%A9~-._"
    );
}

#[test]
fn error_messages() {
    assert_eq!(QrError::Empty.message(), "Text cannot be empty");
    assert_eq!(QrError::TooLong.message(), "Text too long (max 2000 chars)");
}

#[test]
fn content_kinds() {
    assert_eq!(content_kind("https://example.com"), ContentKind::Url);
    assert_eq!(content_kind("http://a"), ContentKind::Url);
    assert_eq!(content_kind("me@example.com"), ContentKind::Email);
    assert_eq!(content_kind("me@example"), ContentKind::Text);
    assert_eq!(content_kind("http:/x.y"), ContentKind::Text);
}

#[test]
fn previews_cut_after_thirty_bytes() {
    assert_eq!(content_preview("short"), "short");
    assert_eq!(content_preview(&"a".repeat(30)), "a".repeat(30));
    assert_eq!(content_preview(&"a".repeat(31)), format!("{}...", "a".repeat(30)));
    assert_eq!(
        content_preview(&"\u{e9}".repeat(20)),
        format!("{}...", "\u{e9}".repeat(15))
    );
    assert_eq!(
        content_preview(&format!("a{}", "\u{e9}".repeat(20))),
        format!("a{}...", "\u{e9}".repeat(14))
    );
    assert_eq!(content_preview(&"\u{e9}".repeat(15)), "\u{e9}".repeat(15));
}
