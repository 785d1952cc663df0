use poptg::{
    Client, DelRequest, Error, ErrorCode, GetRequest, ListRequest, PostRequest, PutRequest, Req,
    Response, VerifyRequest, VerifySingle,
};

fn body_of<R: Req>(req: &R) -> String {
    req.to_string().expect("serialization cannot fail")
}

#[test]
fn test_serialize_get() {
    let req = GetRequest { key: String::from("abc") };
    assert_eq!(body_of(&req), "{\"key\":\"abc\"}");
    let v: serde_json::Value = serde_json::from_str(&body_of(&req)).unwrap();
    assert_eq!(v["key"], serde_json::Value::String(String::from("abc")));
}

#[test]
fn test_serialize_post_with_ttl() {
    let req = PostRequest {
        key: String::from("abc"),
        value: String::from("https://example.com"),
        ttl: Some(60),
    };
    assert_eq!(
        body_of(&req),
        "{\"key\":\"abc\",\"value\":\"https://example.com\",\"ttl\":60}"
    );
    let v: serde_json::Value = serde_json::from_str(&body_of(&req)).unwrap();
    assert_eq!(v["key"].as_str().unwrap(), "abc");
    assert_eq!(v["value"].as_str().unwrap(), "https://example.com");
    assert_eq!(v["ttl"].as_u64().unwrap(), 60);
}

#[test]
fn test_serialize_post_omits_absent_ttl() {
    let req = PostRequest {
        key: String::from("abc"),
        value: String::from("https://example.com"),
        ttl: None,
    };
    assert_eq!(body_of(&req), "{\"key\":\"abc\",\"value\":\"https://example.com\"}");
    let v: serde_json::Value = serde_json::from_str(&body_of(&req)).unwrap();
    assert!(v.get("ttl").is_none());
}

#[test]
fn test_serialize_put() {
    let req = PutRequest {
        key: String::from("abc"),
        value: String::from("https://example.com"),
        token: String::from("T1"),
        ttl: None,
    };
    assert_eq!(
        body_of(&req),
        "{\"key\":\"abc\",\"value\":\"https://example.com\",\"token\":\"T1\"}"
    );
    let v: serde_json::Value = serde_json::from_str(&body_of(&req)).unwrap();
    assert_eq!(v["token"].as_str().unwrap(), "T1");
    assert!(v.get("ttl").is_none());
}

#[test]
fn test_serialize_del() {
    let req = DelRequest { key: String::from("abc"), token: String::from("T1") };
    assert_eq!(body_of(&req), "{\"key\":\"abc\",\"token\":\"T1\"}");
    let v: serde_json::Value = serde_json::from_str(&body_of(&req)).unwrap();
    assert_eq!(v["key"].as_str().unwrap(), "abc");
    assert_eq!(v["token"].as_str().unwrap(), "T1");
}

#[test]
fn test_serialize_list() {
    let none = ListRequest { cursor: None };
    assert_eq!(body_of(&none), "{}");
    let v: serde_json::Value = serde_json::from_str(&body_of(&none)).unwrap();
    assert!(v.get("cursor").is_none());
    let some = ListRequest { cursor: Some(String::from("c9")) };
    assert_eq!(body_of(&some), "{\"cursor\":\"c9\"}");
    let v: serde_json::Value = serde_json::from_str(&body_of(&some)).unwrap();
    assert_eq!(v["cursor"].as_str().unwrap(), "c9");
}

#[test]
fn test_serialize_verify() {
    let req = VerifyRequest {
        values: vec![
            VerifySingle {
                key: String::from("abc"),
                token: String::from("T1"),
                value: String::from("https://example.com"),
            },
            VerifySingle {
                key: String::from("xyz"),
                token: String::from("T2"),
                value: String::from("https://example.org"),
            },
        ],
    };
    assert_eq!(
        body_of(&req),
        "{\"values\":[{\"key\":\"abc\",\"token\":\"T1\",\"value\":\"https://example.com\"},{\"key\":\"xyz\",\"token\":\"T2\",\"value\":\"https://example.org\"}]}"
    );
    let v: serde_json::Value = serde_json::from_str(&body_of(&req)).unwrap();
    let items = v["values"].as_array().unwrap();
    assert_eq!(items.len(), 2);
    assert_eq!(items[1]["key"].as_str().unwrap(), "xyz");
}

#[test]
fn test_serialize_escapes() {
    let req = GetRequest { key: String::from("a\"b\\c\nd") };
    assert_eq!(body_of(&req), "{\"key\":\"a\\\"b\\\\c\\nd\"}");
    let v: serde_json::Value = serde_json::from_str(&body_of(&req)).unwrap();
    assert_eq!(v["key"].as_str().unwrap(), "a\"b\\c\nd");
}

#[test]
fn test_method_names() {
    assert_eq!(GetRequest::method_name(), "get_record");
    assert_eq!(PostRequest::method_name(), "new_record");
    assert_eq!(PutRequest::method_name(), "update_record");
    assert_eq!(DelRequest::method_name(), "delete_record");
    assert_eq!(ListRequest::method_name(), "list_record");
    assert_eq!(VerifyRequest::method_name(), "verify_record");
}

#[test]
fn test_error_code_round_trip() {
    let codes = [
        (101u64, ErrorCode::BadRequest),
        (102, ErrorCode::KeyDuplicated),
        (103, ErrorCode::NotAuthorized),
        (104, ErrorCode::RecordNotFound),
    ];
    for (n, e) in codes {
        assert_eq!(ErrorCode::from_code(n), Some(e));
        assert_eq!(e.code() as u64, n);
    }
    assert_eq!(ErrorCode::from_code(100), None);
    assert_eq!(ErrorCode::from_code(105), None);
    assert_eq!(ErrorCode::from_code(0), None);
}

#[test]
fn test_envelope_error_decode() {
    let client = Client::new();
    let body = "{\"ok\":false,\"error_code\":102,\"error_text\":\"duplicate\",\"reason\":[\"key exists\",\"pick another\"]}";
    let resp = client.interpret::<GetRequest>(400, body).unwrap();
    match &resp {
        Response::Error { ok, error_code, error_text, reason } => {
            assert!(!*ok);
            assert_eq!(*error_code, ErrorCode::KeyDuplicated);
            assert_eq!(error_text, "duplicate");
            assert_eq!(reason, &vec![String::from("key exists"), String::from("pick another")]);
        }
        Response::Success { .. } => panic!("expected the error shape"),
    }
    match resp.handled() {
        Err(Error::ApiError(code, msg)) => {
            assert_eq!(code, ErrorCode::KeyDuplicated);
            assert_eq!(msg, "key exists, pick another");
        }
        _ => panic!("expected an API error"),
    }
}

#[test]
fn test_envelope_unknown_code_fails() {
    let client = Client::new();
    let body = "{\"ok\":false,\"error_code\":999,\"error_text\":\"?\",\"reason\":[]}";
    match client.interpret::<GetRequest>(400, body) {
        Err(Error::Parse(_)) => {}
        _ => panic!("an unrecognized code must fail to parse"),
    }
}

#[test]
fn test_transport_error_500() {
    let client = Client::new();
    match client.interpret::<GetRequest>(500, "internal error") {
        Err(Error::RequestFailed(status, body)) => {
            assert_eq!(status, 500);
            assert_eq!(body, "internal error");
        }
        _ => panic!("a 500 must be a transport failure"),
    }
}

#[test]
fn test_envelope_success_decode() {
    let client = Client::new();
    let body = "{\"ok\":true,\"result\":{\"key\":\"abc\",\"value\":\"https://example.com\"}}";
    let resp = client.interpret::<GetRequest>(200, body).unwrap();
    let record = resp.handled().unwrap();
    assert_eq!(record.key, "abc");
    assert_eq!(record.value, "https://example.com");
    assert_eq!(record.expire, None);
}

#[test]
fn test_envelope_success_with_expire() {
    let client = Client::new();
    let body = "{\"ok\":true,\"result\":{\"key\":\"abc\",\"value\":\"https://example.com\",\"expire\":1700000000}}";
    let record = client.interpret::<GetRequest>(200, body).unwrap().handled().unwrap();
    assert_eq!(record.expire, Some(1700000000));
}

#[test]
fn test_envelope_list_decode() {
    let client = Client::new();
    let body = "{\"ok\":true,\"result\":{\"keys\":[\"a1\",\"b2\"],\"list_complete\":true,\"cursor\":\"\"}}";
    let list = client.interpret::<ListRequest>(200, body).unwrap().handled().unwrap();
    assert_eq!(list.keys, vec![String::from("a1"), String::from("b2")]);
    assert!(list.list_complete);
    assert_eq!(list.cursor, "");
}

#[test]
fn test_envelope_verify_decode() {
    let client = Client::new();
    let body = "{\"ok\":true,\"result\":{\"matched\":[\"a\"],\"unmatched\":[],\"missing\":[\"b\",\"c\"]}}";
    let v = client.interpret::<VerifyRequest>(200, body).unwrap().handled().unwrap();
    assert_eq!(v.matched, vec![String::from("a")]);
    assert!(v.unmatched.is_empty());
    assert_eq!(v.missing, vec![String::from("b"), String::from("c")]);
}

#[test]
fn test_envelope_tolerates_whitespace_and_member_order() {
    let client = Client::new();
    let body = " { \"result\" : { \"value\" : \"https://example.com\" , \"key\" : \"abc\" } , \"ok\" : true } ";
    let record = client.interpret::<GetRequest>(200, body).unwrap().handled().unwrap();
    assert_eq!(record.key, "abc");
    assert_eq!(record.value, "https://example.com");
    let err = "{\"error_text\":\"t\",\"reason\":[],\"ok\":false,\"error_code\":104}";
    let resp = client.interpret::<GetRequest>(400, err).unwrap();
    match resp.handled() {
        Err(Error::ApiError(code, _)) => assert_eq!(code, ErrorCode::RecordNotFound),
        _ => panic!("expected an API error"),
    }
}

#[test]
fn test_envelope_rejects_mixed_shape() {
    let client = Client::new();
    let mixed = "{\"ok\":true,\"result\":{\"key\":\"a\",\"value\":\"b\"},\"error_code\":101,\"error_text\":\"t\",\"reason\":[]}";
    match client.interpret::<GetRequest>(200, mixed) {
        Err(Error::Parse(_)) => {}
        _ => panic!("an envelope holding both shapes must fail to parse"),
    }
}

#[test]
fn test_envelope_trailing_text_fails() {
    let client = Client::new();
    let body = "{\"ok\":true,\"result\":{\"key\":\"a\",\"value\":\"b\"}}x";
    match client.interpret::<GetRequest>(200, body) {
        Err(Error::Parse(_)) => {}
        _ => panic!("trailing text must fail to parse"),
    }
}

#[test]
fn test_prepare_joins_method_name() {
    let client = Client::new_with_url(String::from("https://example.net/api/"));
    let req = GetRequest { key: String::from("abc") };
    let (url, body) = client.prepare(&req);
    assert_eq!(url, "https://example.net/api/get_record");
    assert_eq!(body, "{\"key\":\"abc\"}");
}

#[test]
fn test_default_endpoint() {
    let client = Client::new();
    let req = PostRequest { key: String::from("abc"), value: String::from("v"), ttl: None };
    let (url, _) = client.prepare(&req);
    assert_eq!(url, "https://pop.tg/api/v2/new_record");
}
