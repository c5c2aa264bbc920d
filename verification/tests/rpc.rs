use tetanus::json::{number_field, text_field};
use tetanus::rpc::{Code, ErrorCode, RpcError};

#[test]
fn a_failure_carries_what_it_names() {
    let error = RpcError::about(ErrorCode::Io, "denied", "path", "/a \"b\"\n");
    assert_eq!(error.field("path").as_deref(), Some("/a \"b\"\n"));
    assert_eq!(error.field("root"), None);
    let both = error.with_text("root", "/srv");
    assert_eq!(both.field("root").as_deref(), Some("/srv"));
    assert_eq!(both.field("path").as_deref(), Some("/a \"b\"\n"));
    assert_eq!(both.kind(), Some(ErrorCode::Io));
}

#[test]
fn a_code_from_elsewhere_is_none_of_ours() {
    let odd = RpcError { code: Code::Other(-32050), message: "odd".to_string(), data: None };
    assert_eq!(odd.kind(), None);
    assert_eq!(ErrorCode::Cancelled.exit_status(), 130);
}

#[test]
fn a_member_is_read_only_in_its_own_shape() {
    let json = r#"{ "text": "a", "number": 7, "big": 18446744073709551615, "less": -1, "part": 1.5 }"#;
    assert_eq!(text_field(json, "text").as_deref(), Some("a"));
    assert_eq!(text_field(json, "number"), None);
    assert_eq!(number_field(json, "number"), Some(7));
    assert_eq!(number_field(json, "big"), Some(u64::MAX));
    assert_eq!(number_field(json, "less"), None);
    assert_eq!(number_field(json, "part"), None);
    assert_eq!(number_field(json, "text"), None);
    assert_eq!(text_field("not json", "text"), None);
    assert_eq!(text_field("[1]", "text"), None);
}
