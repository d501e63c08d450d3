use envcounter::protocol::{ReplyValue, Response};

#[test]
fn response_constructors() {
    assert_eq!(Response::ok_empty(), Response::Success { value: None });
    assert_eq!(Response::ok_value(ReplyValue::Int(3)),
        Response::Success { value: Some(ReplyValue::Int(3)) });
    assert_eq!(Response::error("boom".to_string()),
        Response::Error { message: "boom".to_string() });
}
