use tiny_dynamo::error::{ConfigError, Error};
use tiny_dynamo::region::Region;
use tiny_dynamo::request::{Const, Request, Transport};
use tiny_dynamo::{Credentials, Table, DB};

fn db(status: u16, body: &str) -> DB<Const> {
    DB::new(
        Credentials::new("AKID".to_owned(), "SECRET".to_owned()),
        Table::new(
            "test".to_owned(),
            "key".to_owned(),
            "value".to_owned(),
            Region::parse("us-east-1").unwrap(),
            Some("http://localhost:8000".to_owned()),
        ),
        Const(status, body.to_owned()),
    )
}

#[test]
fn get_not_found_on_empty_object() {
    assert_eq!(db(200, "{}").get("foo"), Ok(None));
}

#[test]
fn get_returns_present_value() {
    let body = r##"{"Item":{"value":{"S":"bar"}}}"##;
    assert_eq!(db(200, body).get("foo"), Ok(Some("bar".to_owned())));
}

#[test]
fn get_surfaces_service_error_verbatim() {
    let body = r##"{"__type":"X","message":"Y"}"##;
    match db(400, body).get("foo") {
        Err(Error::Service(se)) => {
            assert_eq!(se.error_type, "X");
            assert_eq!(se.message, "Y");
        }
        other => panic!("expected a service error, got {:?}", other),
    }
}

#[test]
fn set_surfaces_service_error_verbatim() {
    let body = r##"{"__type":"X","message":"Y"}"##;
    match db(400, body).set("foo", "bar") {
        Err(Error::Service(se)) => {
            assert_eq!(se.error_type, "X");
            assert_eq!(se.message, "Y");
        }
        other => panic!("expected a service error, got {:?}", other),
    }
}

#[test]
fn set_succeeds_on_status_200() {
    assert_eq!(db(200, "{}").set("foo", "bar"), Ok(()));
}

#[test]
fn undecodable_error_body_is_a_decode_error() {
    match db(500, "oops") .get("foo") {
        Err(Error::Decode(_)) => {}
        other => panic!("expected a decode error, got {:?}", other),
    }
}

struct Failing;

impl Transport for Failing {
    fn send(&self, _signed: Request) -> Result<(u16, String), Error> {
        Err(Error::Transport("boom".to_owned()))
    }
}

#[test]
fn transport_errors_propagate_unchanged() {
    let db = DB::new(
        Credentials::new("AKID".to_owned(), "SECRET".to_owned()),
        Table::new(
            "test".to_owned(),
            "key".to_owned(),
            "value".to_owned(),
            Region::parse("us-east-1").unwrap(),
            Some("http://localhost:8000".to_owned()),
        ),
        Failing,
    );
    assert_eq!(db.get("foo"), Err(Error::Transport("boom".to_owned())));
    assert_eq!(db.set("foo", "bar"), Err(Error::Transport("boom".to_owned())));
}

#[test]
fn endpoint_without_authority_is_a_config_error() {
    let db = DB::new(
        Credentials::new("AKID".to_owned(), "SECRET".to_owned()),
        Table::new(
            "test".to_owned(),
            "key".to_owned(),
            "value".to_owned(),
            Region::parse("us-east-1").unwrap(),
            Some("/just-a-path".to_owned()),
        ),
        Const(200, "{}".to_owned()),
    );
    assert_eq!(
        db.get("foo"),
        Err(Error::Config(ConfigError::InvalidEndpoint(
            "/just-a-path".to_owned()
        )))
    );
}

fn header_value(req: &Request, name: &str) -> Option<String> {
    req.headers
        .iter()
        .find(|(n, _)| n == name)
        .map(|(_, v)| v.clone())
}

#[test]
fn put_request_is_addressed_and_signed() {
    let req = db(200, "{}").put_item_req("foo", "bar").unwrap();
    assert_eq!(req.method, "POST");
    assert_eq!(req.uri, "http://localhost:8000");
    assert_eq!(
        header_value(&req, "host").as_deref(),
        Some("localhost:8000")
    );
    assert_eq!(
        header_value(&req, "content-type").as_deref(),
        Some("application/x-amz-json-1.0")
    );
    assert_eq!(
        header_value(&req, "x-amz-target").as_deref(),
        Some("DynamoDB_20120810.PutItem")
    );
    assert_eq!(
        header_value(&req, "content-length").as_deref(),
        Some("67")
    );
    let date = header_value(&req, "x-amz-date").unwrap();
    assert_eq!(date.len(), 16);
    assert!(date.ends_with('Z'));
    let auth = header_value(&req, "authorization").unwrap();
    assert!(auth.starts_with("AWS4-HMAC-SHA256 Credential=AKID/"));
    assert!(auth.contains("SignedHeaders=content-type;host;x-amz-date;x-amz-target"));
    assert_eq!(
        req.body,
        r##"{"TableName":"test","Item":{"key":{"S":"foo"},"value":{"S":"bar"}}}"##
    );
}

#[test]
fn get_request_targets_the_read_operation() {
    let req = db(200, "{}").get_item_req("foo").unwrap();
    assert_eq!(
        header_value(&req, "x-amz-target").as_deref(),
        Some("DynamoDB_20120810.GetItem")
    );
    assert_eq!(
        req.body,
        r##"{"TableName":"test","Key":{"key":{"S":"foo"}},"ProjectionExpression":"#v","ExpressionAttributeNames":{"#v":"value"}}"##
    );
}

#[test]
fn regional_endpoint_is_used_when_no_override_is_set() {
    let db = DB::new(
        Credentials::new("AKID".to_owned(), "SECRET".to_owned()),
        Table::new(
            "test".to_owned(),
            "key".to_owned(),
            "value".to_owned(),
            Region::parse("eu-west-2").unwrap(),
            None,
        ),
        Const(200, "{}".to_owned()),
    );
    let req = db.get_item_req("foo").unwrap();
    assert_eq!(req.uri, "dynamodb.eu-west-2.amazonaws.com");
    assert_eq!(
        header_value(&req, "host").as_deref(),
        Some("dynamodb.eu-west-2.amazonaws.com")
    );
}
