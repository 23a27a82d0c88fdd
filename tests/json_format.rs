use ox_core::json::{cat_url_from_response, CatError, JsonError};

#[test]
fn formats_and_is_idempotent() {
    let once = ox_core::json::format("{\"a\":1,\"b\":[1,2]}").unwrap();
    assert_eq!(once, "{\n  \"a\": 1,\n  \"b\": [\n    1,\n    2\n  ]\n}");
    let twice = ox_core::json::format(&once).unwrap();
    assert_eq!(once, twice);
}

#[test]
fn keeps_key_order() {
    let out = ox_core::json::format("{\"zeta\":1,\"alpha\":{\"y\":true,\"x\":null}}").unwrap();
    assert_eq!(
        out,
        "{\n  \"zeta\": 1,\n  \"alpha\": {\n    \"y\": true,\n    \"x\": null\n  }\n}"
    );
}

#[test]
fn leading_whitespace_does_not_matter() {
    assert_eq!(ox_core::json::format("  \n [1]").unwrap(), ox_core::json::format("[1]").unwrap());
}

#[test]
fn numbers_survive_a_second_pass() {
    let once = ox_core::json::format("[0.1, 1e300, -0.0, 18446744073709551615, -9223372036854775809, 2.5e-8]")
        .unwrap();
    assert_eq!(ox_core::json::format(&once).unwrap(), once);
}

#[test]
fn invalid_json_is_a_parse_error() {
    assert!(matches!(ox_core::json::format("{invalid"), Err(JsonError::Parse(_))));
    assert!(matches!(ox_core::json::format("[1,]"), Err(JsonError::Parse(_))));
}

#[test]
fn blank_json_gives_empty_output() {
    assert_eq!(ox_core::json::format("").unwrap(), "");
    assert_eq!(ox_core::json::format(" \n\t ").unwrap(), "");
}

#[test]
fn cat_url_is_read_from_first_item() {
    let body = "[{\"id\":\"abc\",\"url\":\"https://cdn2.thecatapi.com/images/abc.jpg\",\"width\":500}]";
    assert_eq!(
        cat_url_from_response(body).unwrap(),
        "https://cdn2.thecatapi.com/images/abc.jpg"
    );
}

#[test]
fn cat_url_missing_is_not_found() {
    assert!(matches!(cat_url_from_response("[]"), Err(CatError::NotFound)));
    assert!(matches!(cat_url_from_response("[{\"id\":1}]"), Err(CatError::NotFound)));
    assert!(matches!(cat_url_from_response("[{\"url\":5}]"), Err(CatError::NotFound)));
    assert!(matches!(cat_url_from_response("{\"url\":\"x\"}"), Err(CatError::NotFound)));
}

#[test]
fn cat_reply_that_is_not_json_is_a_parse_error() {
    assert!(matches!(cat_url_from_response("<html>"), Err(CatError::Parse(_))));
}

#[test]
fn formatted_text_reads_as_the_same_value() {
    let input = "{\"k\":[true,{\"n\":-1.5e3}],\"s\":\"x\\ny\"}";
    let out = ox_core::json::format(input).unwrap();
    let a: serde_json::Value = serde_json::from_str(input).unwrap();
    let b: serde_json::Value = serde_json::from_str(&out).unwrap();
    assert_eq!(a, b);
}
