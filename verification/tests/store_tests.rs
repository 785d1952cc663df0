use poptg::{
    gen_key, valid_key, Client, Error, Key, Link, PostRequest, UrlStored,
};
use poptg::codec::{apply_created, load_step, parse_history, render_history};
use poptg::api::short_url;

fn sample_records() -> Vec<UrlStored> {
    vec![
        UrlStored {
            key: String::from("abc"),
            value: String::from("https://example.com"),
            token: String::from("T1"),
            expire: None,
        },
        UrlStored {
            key: String::from("x\"y\\z"),
            value: String::from("https://example.org/a b\nc"),
            token: String::from("T2"),
            expire: Some(1700000000),
        },
    ]
}

#[test]
fn test_load_fresh_store() {
    let (records, to_write) = load_step(None).unwrap();
    assert!(records.is_empty());
    assert_eq!(to_write, Some(String::from("[]")));
    let (again, to_write) = load_step(Some("[]")).unwrap();
    assert!(again.is_empty());
    assert_eq!(to_write, None);
}

#[test]
fn test_save_load_round_trip() {
    let records = sample_records();
    let text = render_history(&records);
    let back = parse_history(&text).unwrap();
    assert_eq!(back, records);
}

#[test]
fn test_render_history_exact() {
    let records = vec![UrlStored {
        key: String::from("abc"),
        value: String::from("https://example.com"),
        token: String::from("T1"),
        expire: Some(7),
    }];
    assert_eq!(
        render_history(&records),
        "[{\"key\":\"abc\",\"value\":\"https://example.com\",\"token\":\"T1\",\"expire\":7}]"
    );
    assert_eq!(render_history(&Vec::new()), "[]");
}

#[test]
fn test_render_history_is_json() {
    let records = sample_records();
    let text = render_history(&records);
    let v: serde_json::Value = serde_json::from_str(&text).unwrap();
    let items = v.as_array().unwrap();
    assert_eq!(items.len(), 2);
    assert_eq!(items[1]["key"].as_str().unwrap(), "x\"y\\z");
    assert_eq!(items[1]["expire"].as_u64().unwrap(), 1700000000);
    assert!(items[0].get("expire").is_none());
}

#[test]
fn test_parse_history_rejects_bad_text() {
    match parse_history("not json") {
        Err(Error::Parse(_)) => {}
        _ => panic!("malformed text must fail to parse"),
    }
    match parse_history("[]x") {
        Err(Error::Parse(_)) => {}
        _ => panic!("trailing text must fail to parse"),
    }
    match parse_history("[{\"key\":\"a\",\"value\":\"b\",\"token\":\"c\",\"expire\":18446744073709551616}]") {
        Err(Error::Parse(_)) => {}
        _ => panic!("an expiry beyond the representable range must fail"),
    }
}

#[test]
fn test_parse_history_largest_expire() {
    let text = "[{\"key\":\"a\",\"value\":\"b\",\"token\":\"c\",\"expire\":18446744073709551615}]";
    let records = parse_history(text).unwrap();
    assert_eq!(records[0].expire, Some(u64::MAX));
    assert_eq!(render_history(&records), text);
}

#[test]
fn test_load_accepts_json_whitespace_and_member_order() {
    let (records, to_write) = load_step(Some("[ ]")).unwrap();
    assert!(records.is_empty());
    assert_eq!(to_write, None);
    let text = " [ { \"value\" : \"b\" , \"key\" : \"a\" , \"token\" : \"c\" } ,\n {\"expire\": 7, \"token\":\"t2\", \"value\":\"v2\", \"key\":\"k2\"} ] ";
    let records = parse_history(text).unwrap();
    assert_eq!(
        records,
        vec![
            UrlStored {
                key: String::from("a"),
                value: String::from("b"),
                token: String::from("c"),
                expire: None,
            },
            UrlStored {
                key: String::from("k2"),
                value: String::from("v2"),
                token: String::from("t2"),
                expire: Some(7),
            },
        ]
    );
}

#[test]
fn test_parse_history_full_escape_set() {
    let text = "[{\"key\":\"\\u0041\\b\\f\",\"value\":\"\\uD83D\\uDE00\",\"token\":\"\\/\"}]";
    let records = parse_history(text).unwrap();
    assert_eq!(records[0].key, "A\u{8}\u{c}");
    assert_eq!(records[0].value, "\u{1F600}");
    assert_eq!(records[0].token, "/");
}

#[test]
fn test_parse_history_rejects_duplicate_member_and_lone_surrogate() {
    let dup = "[{\"key\":\"a\",\"key\":\"b\",\"value\":\"v\",\"token\":\"t\"}]";
    assert!(matches!(parse_history(dup), Err(Error::Parse(_))));
    let lone = "[{\"key\":\"\\uD800\",\"value\":\"v\",\"token\":\"t\"}]";
    assert!(matches!(parse_history(lone), Err(Error::Parse(_))));
    let missing = "[{\"key\":\"a\",\"value\":\"v\"}]";
    assert!(matches!(parse_history(missing), Err(Error::Parse(_))));
}

#[test]
fn test_render_escapes_control_chars() {
    let records = vec![UrlStored {
        key: String::from("a\u{1}b"),
        value: String::from("c\u{8}d\u{c}e"),
        token: String::from("t"),
        expire: None,
    }];
    let text = render_history(&records);
    assert_eq!(
        text,
        "[{\"key\":\"a\\u0001b\",\"value\":\"c\\bd\\fe\",\"token\":\"t\"}]"
    );
    let v: serde_json::Value = serde_json::from_str(&text).unwrap();
    assert_eq!(v[0]["key"].as_str().unwrap(), "a\u{1}b");
    assert_eq!(v[0]["value"].as_str().unwrap(), "c\u{8}d\u{c}e");
    assert_eq!(parse_history(&text).unwrap(), records);
}

#[test]
fn test_create_scenario() {
    let client = Client::new();
    let req = PostRequest {
        key: String::from("abc"),
        value: String::from("https://example.com"),
        ttl: None,
    };
    let (url, body) = client.prepare(&req);
    assert_eq!(url, "https://pop.tg/api/v2/new_record");
    assert_eq!(body, "{\"key\":\"abc\",\"value\":\"https://example.com\"}");

    let mock = "{\"ok\":true,\"result\":{\"token\":\"T1\",\"key\":\"abc\",\"value\":\"https://example.com\"}}";
    let result = client.interpret::<PostRequest>(200, mock).unwrap().handled().unwrap();
    assert_eq!(result.token, "T1");

    let mut histories: Vec<UrlStored> = Vec::new();
    apply_created(&mut histories, result);
    assert_eq!(histories.len(), 1);
    assert_eq!(
        histories[0],
        UrlStored {
            key: String::from("abc"),
            value: String::from("https://example.com"),
            token: String::from("T1"),
            expire: None,
        }
    );
    let text = render_history(&histories);
    assert_eq!(parse_history(&text).unwrap(), histories);
}

#[test]
fn test_key_validation() {
    assert!(matches!(Key::parse("ab"), Err(Error::BadKey)));
    assert!(matches!(Key::parse("has space"), Err(Error::BadKey)));
    assert!(Key::parse("abc-123_XYZ").is_ok());
    assert!(!valid_key("ab"));
    assert!(!valid_key("has space"));
    assert!(valid_key("abc-123_XYZ"));
    assert!(!valid_key("thirteenchars"));
    assert!(valid_key("abc"));
    let k = Key::parse("abc-123_XYZ").unwrap();
    assert_eq!(k.into_string(), "abc-123_XYZ");
}

#[test]
fn test_gen_key_is_valid() {
    for _ in 0..32 {
        let k = gen_key();
        assert_eq!(k.chars().count(), 4);
        assert!(k.chars().all(|c| c.is_ascii_alphanumeric()));
        assert!(valid_key(&k));
    }
}

#[test]
fn test_linked_render() {
    let linked = "my text".link(String::from("https://example.com"));
    assert_eq!(
        linked.render(),
        "\u{1b}]8;;https://example.com\u{1b}\\my text\u{1b}]8;;\u{1b}\\"
    );
    let owned = String::from("t2").link(String::from("u2"));
    assert_eq!(owned.render(), "\u{1b}]8;;u2\u{1b}\\t2\u{1b}]8;;\u{1b}\\");
}

#[test]
fn test_short_url() {
    assert_eq!(short_url("abc"), "https://pop.tg/abc");
}
