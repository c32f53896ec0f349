use tiny_dynamo::codec::build_write_body;
use tiny_dynamo::region::Region;
use tiny_dynamo::request::{Const, Request};
use tiny_dynamo::sigv4::{
    canonical_request, compute_signature, format_long_datetime, format_short_date, Timestamp,
};
use tiny_dynamo::{Credentials, Table, DB};

fn fixed_timestamp() -> Timestamp {
    Timestamp::new(2015, 8, 30, 12, 36, 0)
}

fn headers() -> Vec<(String, String)> {
    vec![
        ("host".to_owned(), "localhost:8000".to_owned()),
        ("content-type".to_owned(), "application/x-amz-json-1.0".to_owned()),
        ("x-amz-target".to_owned(), "DynamoDB_20120810.PutItem".to_owned()),
        ("x-amz-date".to_owned(), "20150830T123600Z".to_owned()),
    ]
}

#[test]
fn timestamps_format_at_the_two_granularities() {
    let t = fixed_timestamp();
    assert_eq!(format_short_date(&t), "20150830");
    assert_eq!(format_long_datetime(&t), "20150830T123600Z");
    let t2 = Timestamp::new(987, 1, 2, 3, 4, 5);
    assert_eq!(format_short_date(&t2), "09870102");
    assert_eq!(format_long_datetime(&t2), "09870102T030405Z");
}

#[test]
fn canonical_request_sorts_lowers_and_trims() {
    let hs = vec![
        ("B-Header".to_owned(), "  two  ".to_owned()),
        ("a-header".to_owned(), "one".to_owned()),
    ];
    assert_eq!(
        canonical_request("POST", &hs, "digest"),
        "POST\n/\n\na-header:one\nb-header:two\n\na-header;b-header\ndigest"
    );
}

#[test]
fn canonical_request_is_independent_of_insertion_order() {
    let forward = headers();
    let mut backward = headers();
    backward.reverse();
    assert_eq!(
        canonical_request("POST", &forward, "d"),
        canonical_request("POST", &backward, "d")
    );
}

#[test]
fn canonical_request_matches_the_captured_vector() {
    let body = build_write_body("test", "key", "value", "foo", "bar");
    assert_eq!(
        body,
        r##"{"TableName":"test","Item":{"key":{"S":"foo"},"value":{"S":"bar"}}}"##
    );
    let digest = "39907475fcb780dd29f2b100bb4b0c0e23ce644efb72959a19e554b5561f9264";
    assert_eq!(
        canonical_request("POST", &headers(), digest),
        "POST\n/\n\n\
         content-type:application/x-amz-json-1.0\n\
         host:localhost:8000\n\
         x-amz-date:20150830T123600Z\n\
         x-amz-target:DynamoDB_20120810.PutItem\n\n\
         content-type;host;x-amz-date;x-amz-target\n\
         39907475fcb780dd29f2b100bb4b0c0e23ce644efb72959a19e554b5561f9264"
    );
}

#[test]
fn signature_matches_the_captured_vector() {
    let t = fixed_timestamp();
    let digest = "39907475fcb780dd29f2b100bb4b0c0e23ce644efb72959a19e554b5561f9264";
    let creq = canonical_request("POST", &headers(), digest);
    let sig = compute_signature("SECRET", &t, "us-east-1", creq.as_str());
    assert_eq!(
        sig,
        "aabadfa89f3bf21f953d2368e5a2615e1c49dec72d0edc6e8bfa2ef327438a69"
    );
}

#[test]
fn sign_at_is_deterministic_and_appends_the_captured_headers() {
    let db = DB::new(
        Credentials::new("AKID".to_owned(), "SECRET".to_owned()),
        Table::new(
            "test".to_owned(),
            "key".to_owned(),
            "value".to_owned(),
            Region::parse("us-east-1").unwrap(),
            Some("http://localhost:8000".to_owned()),
        ),
        Const(200, "{}".to_owned()),
    );
    let t = fixed_timestamp();
    let unsigned = || Request {
        method: "POST".to_owned(),
        uri: "http://localhost:8000".to_owned(),
        headers: vec![
            ("host".to_owned(), "localhost:8000".to_owned()),
            ("content-type".to_owned(), "application/x-amz-json-1.0".to_owned()),
            ("x-amz-target".to_owned(), "DynamoDB_20120810.PutItem".to_owned()),
        ],
        body: build_write_body("test", "key", "value", "foo", "bar"),
    };
    let once = db.sign_at(unsigned(), &t, &t).unwrap();
    let again = db.sign_at(unsigned(), &t, &t).unwrap();
    assert_eq!(once.headers, again.headers);
    let find = |name: &str| -> String {
        once.headers
            .iter()
            .find(|(n, _)| n == name)
            .map(|(_, v)| v.clone())
            .unwrap()
    };
    assert_eq!(find("x-amz-date"), "20150830T123600Z");
    assert_eq!(find("content-length"), "67");
    assert_eq!(
        find("x-amz-content-sha256"),
        "39907475fcb780dd29f2b100bb4b0c0e23ce644efb72959a19e554b5561f9264"
    );
    assert_eq!(
        find("authorization"),
        "AWS4-HMAC-SHA256 Credential=AKID/20150830/us-east-1/dynamodb/aws4_request, \
         SignedHeaders=content-type;host;x-amz-date;x-amz-target, \
         Signature=aabadfa89f3bf21f953d2368e5a2615e1c49dec72d0edc6e8bfa2ef327438a69"
    );
    // the signer only appends: the original headers stand unchanged in front
    assert_eq!(once.headers[0].0, "host");
    assert_eq!(once.headers[1].0, "content-type");
    assert_eq!(once.headers[2].0, "x-amz-target");
    assert_eq!(once.headers.len(), 7);
}

#[test]
fn illegal_authorization_value_is_a_signing_error() {
    let db = DB::new(
        Credentials::new("AK\nID".to_owned(), "SECRET".to_owned()),
        Table::new(
            "test".to_owned(),
            "key".to_owned(),
            "value".to_owned(),
            Region::parse("us-east-1").unwrap(),
            Some("http://localhost:8000".to_owned()),
        ),
        Const(200, "{}".to_owned()),
    );
    let t = fixed_timestamp();
    let unsigned = Request {
        method: "POST".to_owned(),
        uri: "http://localhost:8000".to_owned(),
        headers: vec![("host".to_owned(), "localhost:8000".to_owned())],
        body: "{}".to_owned(),
    };
    match db.sign_at(unsigned, &t, &t) {
        Err(tiny_dynamo::error::Error::Signing(
            tiny_dynamo::error::SigningError::InvalidHeaderValue { name, value },
        )) => {
            assert_eq!(name, "authorization");
            assert!(value.contains("AK\nID"));
        }
        other => panic!("expected a signing error, got {:?}", other),
    }
}

#[test]
fn repeated_header_names_are_signed_once() {
    let hs = vec![
        ("X-Dup".to_owned(), "one".to_owned()),
        ("x-dup".to_owned(), "two".to_owned()),
        ("host".to_owned(), "h".to_owned()),
    ];
    assert_eq!(
        canonical_request("POST", &hs, "d"),
        "POST\n/\n\nhost:h\nx-dup:one\nx-dup:two\n\nhost;x-dup\nd"
    );
}
