use tiny_dynamo::codec::{build_read_body, build_write_body, parse_error_response, parse_read_response};
use tiny_dynamo::error::{DecodeError, Error};

#[test]
fn get_item_input_serilizes_as_expected() {
    assert_eq!(
        build_read_body("test-table", "key-name", "value-name", "key-value"),
        r##"{"TableName":"test-table","Key":{"key-name":{"S":"key-value"}},"ProjectionExpression":"#v","ExpressionAttributeNames":{"#v":"value-name"}}"##
    );
}

#[test]
fn put_item_input_serilizes_as_expected() {
    assert_eq!(
        build_write_body("test-table", "key-name", "value-name", "key-value", "value"),
        r##"{"TableName":"test-table","Item":{"key-name":{"S":"key-value"},"value-name":{"S":"value"}}}"##
    );
}

#[test]
fn write_body_holds_exactly_two_string_attributes() {
    assert_eq!(
        build_write_body("t", "k", "v", "foo", "bar"),
        r##"{"TableName":"t","Item":{"k":{"S":"foo"},"v":{"S":"bar"}}}"##
    );
}

#[test]
fn read_body_aliases_the_value_attribute() {
    assert_eq!(
        build_read_body("t", "k", "val", "foo"),
        r##"{"TableName":"t","Key":{"k":{"S":"foo"}},"ProjectionExpression":"#v","ExpressionAttributeNames":{"#v":"val"}}"##
    );
}

#[test]
fn write_body_escapes_quotes_and_control_characters() {
    assert_eq!(
        build_write_body("t", "k", "v", "a\"b", "c\\d\ne"),
        "{\"TableName\":\"t\",\"Item\":{\"k\":{\"S\":\"a\\\"b\"},\"v\":{\"S\":\"c\\\\d\\u000ae\"}}}"
    );
}

#[test]
fn empty_object_body_is_not_found() {
    assert_eq!(parse_read_response("{}", "value"), Ok(None));
}

#[test]
fn item_with_string_attribute_yields_value() {
    assert_eq!(
        parse_read_response(r##"{"Item":{"value":{"S":"bar"}}}"##, "value"),
        Ok(Some("bar".to_owned()))
    );
}

#[test]
fn empty_item_is_not_found() {
    assert_eq!(parse_read_response(r##"{"Item":{}}"##, "value"), Ok(None));
}

#[test]
fn missing_attribute_is_not_found() {
    assert_eq!(
        parse_read_response(r##"{"Item":{"other":{"S":"bar"}}}"##, "value"),
        Ok(None)
    );
}

#[test]
fn non_string_attribute_is_no_value() {
    assert_eq!(
        parse_read_response(r##"{"Item":{"value":{"N":"5"}}}"##, "value"),
        Ok(None)
    );
    assert_eq!(
        parse_read_response(r##"{"Item":{"value":{"SS":["a","b"]}}}"##, "value"),
        Ok(None)
    );
    assert_eq!(
        parse_read_response(r##"{"Item":{"value":{"BOOL":true}}}"##, "value"),
        Ok(None)
    );
}

#[test]
fn other_attributes_are_skipped() {
    assert_eq!(
        parse_read_response(
            r##"{"Item":{"a":{"N":"1"},"value":{"S":"x"},"b":{"M":{"c":{"NULL":true}}}}}"##,
            "value"
        ),
        Ok(Some("x".to_owned()))
    );
}

#[test]
fn escaped_values_are_unescaped() {
    assert_eq!(
        parse_read_response(r##"{"Item":{"v":{"S":"a\"b\\c\ndA"}}}"##, "v"),
        Ok(Some("a\"b\\c\ndA".to_owned()))
    );
}

#[test]
fn whitespace_between_tokens_is_accepted() {
    assert_eq!(
        parse_read_response(" { \"Item\" : { \"v\" : { \"S\" : \"x\" } } } ", "v"),
        Ok(Some("x".to_owned()))
    );
}

#[test]
fn malformed_body_is_a_decode_error() {
    let body = "not json";
    assert_eq!(
        parse_read_response(body, "value"),
        Err(Error::Decode(DecodeError::UnexpectedBody(body.to_owned())))
    );
}

#[test]
fn truncated_body_is_a_decode_error() {
    let body = r##"{"Item":{"value":{"S":"bar"}}"##;
    assert_eq!(
        parse_read_response(body, "value"),
        Err(Error::Decode(DecodeError::UnexpectedBody(body.to_owned())))
    );
}

#[test]
fn trailing_garbage_is_a_decode_error() {
    let body = r##"{"Item":{"value":{"S":"bar"}}} x"##;
    assert_eq!(
        parse_read_response(body, "value"),
        Err(Error::Decode(DecodeError::UnexpectedBody(body.to_owned())))
    );
}

#[test]
fn error_envelope_parses_verbatim() {
    let se = parse_error_response(r##"{"__type":"X","message":"Y"}"##).unwrap();
    assert_eq!(se.error_type, "X");
    assert_eq!(se.message, "Y");
}

#[test]
fn error_envelope_missing_message_is_a_decode_error() {
    let body = r##"{"__type":"X"}"##;
    assert_eq!(
        parse_error_response(body),
        Err(Error::Decode(DecodeError::UnexpectedBody(body.to_owned())))
    );
}

#[test]
fn error_envelope_with_extra_fields_parses() {
    let se = parse_error_response(
        r##"{"cancellationReasons":[{"code":"None"}],"__type":"T","message":"M"}"##,
    )
    .unwrap();
    assert_eq!(se.error_type, "T");
    assert_eq!(se.message, "M");
}

#[test]
fn concrete_round_trip_returns_the_written_value() {
    let written = build_write_body("t", "k", "the value", "foo", "bar baz");
    assert!(written.contains(r##""the value":{"S":"bar baz"}"##));
    let response = r##"{"Item":{"the value":{"S":"bar baz"}}}"##;
    assert_eq!(
        parse_read_response(response, "the value"),
        Ok(Some("bar baz".to_owned()))
    );
}

#[test]
fn service_error_renders_as_type_and_message() {
    let se = parse_error_response(r##"{"__type":"X","message":"Y"}"##).unwrap();
    assert_eq!(se.to_text(), "X: Y");
}
