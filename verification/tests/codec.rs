//! JSON text read and written.

use unidpp_trust::api::parse_body;
use unidpp_trust::codec::{body_text, one_line, read_text, RESERVED_NAME};
use unidpp_trust::json::Json;

fn sample() -> Json {
    Json::object()
        .with("name", Json::text("line\nbreak \"quoted\""))
        .with("count", Json::Uint(18446744073709551615))
        .with("below", Json::Int(-3))
        .with("none", Json::Null)
        .with("flag", Json::Bool(true))
        .with("list", Json::list(vec![Json::Uint(1), Json::object()]))
}

#[test]
fn bodies_are_indented() {
    let d = Json::object()
        .with("b", Json::list(vec![Json::Uint(1), Json::Null]))
        .with("a", Json::text("x"));
    assert_eq!(
        body_text(&d),
        "{\n  \"a\": \"x\",\n  \"b\": [\n    1,\n    null\n  ]\n}"
    );
}

#[test]
fn lines_hold_no_break() {
    let d = Json::object().with("a", Json::text("x\ny")).with("n", Json::Int(-7));
    assert_eq!(one_line(&d), "{\"a\":\"x\\ny\",\"n\":-7}");
}

#[test]
fn a_written_document_is_read_back() {
    for text in [body_text(&sample()), one_line(&sample())] {
        let back = read_text(&text).unwrap();
        assert_eq!(back.str_at("name"), Some("line\nbreak \"quoted\""));
        assert_eq!(back.u64_at("count"), Some(18446744073709551615));
        assert_eq!(back.get("below"), Some(&Json::Int(-3)));
        assert_eq!(back.get("none"), Some(&Json::Null));
        assert_eq!(back.get("flag"), Some(&Json::Bool(true)));
        let list = back.array_at("list").unwrap();
        assert_eq!(list.len(), 2);
        assert_eq!(list[0], Json::Uint(1));
        assert_eq!(list[1], Json::object());
        assert_eq!(one_line(&back), one_line(&sample()));
    }
}

#[test]
fn a_later_member_stands_for_an_earlier_one() {
    let d = Json::Obj(vec![
        ("a".to_string(), Json::Uint(1)),
        ("a".to_string(), Json::Uint(2)),
    ]);
    assert_eq!(one_line(&d), "{\"a\":2}");
    assert_eq!(d.u64_at("a"), Some(2));
}

#[test]
fn numbers_that_are_no_integers_keep_their_text() {
    let d = read_text("[1.5, 1e3, -0]").unwrap();
    assert_eq!(one_line(&d), "[1.5,1000.0,-0.0]");
}

#[test]
fn numbers_are_settled_before_they_are_written() {
    let other = |t: &str| Json::Other(t.to_string());
    let d = Json::list(vec![other("1e3"), other("7"), other("no number"), other("0.5")]);
    assert_eq!(one_line(&d), "[1000.0,7,null,0.5]");
    assert_eq!(body_text(&other("2.50")), "2.5");
    let named = Json::object().with(RESERVED_NAME, other("1.0"));
    assert_eq!(one_line(&named), "{\"$serde_json::private::RawValue\":1.0}");
}

#[test]
fn deep_texts_are_read_up_to_the_limit() {
    let nested = |n: usize| "[".repeat(n) + &"]".repeat(n);
    assert_eq!(one_line(&read_text(&nested(127)).unwrap()), nested(127));
    assert_eq!(
        read_text(&nested(128)).unwrap_err(),
        "recursion limit exceeded at line 1 column 128"
    );
}

#[test]
fn a_body_that_is_no_document_is_refused() {
    assert_eq!(
        parse_body("{\"a\":").unwrap_err(),
        "invalid JSON body: EOF while parsing a value at line 1 column 5"
    );
    assert_eq!(
        parse_body("").unwrap_err(),
        "invalid JSON body: EOF while parsing a value at line 1 column 0"
    );
    assert_eq!(parse_body("7").unwrap(), Json::Uint(7));
}

#[test]
fn a_reserved_name_is_not_read_back() {
    let d = Json::object().with(RESERVED_NAME, Json::text("1"));
    let line = one_line(&d);
    assert_eq!(line, "{\"$serde_json::private::RawValue\":\"1\"}");
    assert_eq!(read_text(&line).unwrap(), Json::Uint(1));
}
