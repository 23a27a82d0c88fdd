use ox_core::site::{echo_server, not_found_path};
use ox_core::tools::{get_tool_description, get_tool_title, Tab, ToolsState};

#[test]
fn echo_prefixes_input() {
    assert_eq!(echo_server("hi"), "You said: hi");
    assert_eq!(echo_server(""), "You said: ");
}

#[test]
fn not_found_path_joins_segments() {
    assert_eq!(not_found_path(&vec![]), "/");
    assert_eq!(
        not_found_path(&vec!["a".to_string(), "b c".to_string()]),
        "/a/b c"
    );
}

#[test]
fn tool_headings() {
    assert_eq!(get_tool_title("json"), "JSON Formatter & Validator");
    assert_eq!(get_tool_title("text"), "Text Utilities");
    assert_eq!(get_tool_title("qr"), "QR Code Generator");
    assert_eq!(get_tool_title("base64"), "Base64 Encoder/Decoder");
    assert_eq!(get_tool_title("jsonx"), "Unknown Tool");
    assert_eq!(
        get_tool_description("qr"),
        "Generate sleek QR codes for text, URLs, and any data"
    );
    assert_eq!(get_tool_description(""), "Tool description not available");
}

#[test]
fn tabs_by_id() {
    for t in [Tab::Json, Tab::Text, Tab::Qr, Tab::Base64] {
        assert_eq!(Tab::from_id(t.id()), Some(t));
    }
    assert_eq!(Tab::from_id("JSON"), None);
}

#[test]
fn state_starts_on_json_and_initializes() {
    let mut s = ToolsState::new();
    assert_eq!(s.get_active_tab(), Tab::Json);
    assert!(!s.is_initialized());
    s.select(Tab::Qr);
    s.initialize();
    assert_eq!(s.get_active_tab(), Tab::Qr);
    assert!(s.is_initialized());
}
