use catch::config::Server;
use catch::keyed::KeyedVec;
use catch::kv_store::KeyValueStore;
use catch::stamp::{timestamp_text, uuid_text};
use catch::proxy::{
    build_target_url, forwarded_status, has_own_path, newest_first, plan_proxy_url, query_suffix_of,
    select_target, should_forward_header, should_forward_response_header, should_skip_hurl_header, Headers,
    ProxyCall,
};

fn headers(pairs: &[(&str, &str)]) -> Headers {
    let mut h = KeyedVec::new();
    for (k, v) in pairs {
        h.insert(k.to_string(), v.to_string());
    }
    h
}

fn call(ts: &str, body: &str, resp_body: &str) -> ProxyCall {
    ProxyCall::from_parts(
        format!("{ts}-id"),
        ts.to_string(),
        "POST".to_string(),
        "/api".to_string(),
        "?a=1".to_string(),
        "http://target:9000/api?a=1".to_string(),
        headers(&[("Host", "localhost"), ("Content-Type", "application/json"), ("X-Forwarded-For", "1.2.3.4"), ("Accept", "*/*")]),
        body.to_string(),
        201,
        headers(&[("content-type", "application/json"), ("server", "x")]),
        resp_body.to_string(),
    )
}

#[test]
fn header_filters() {
    assert!(should_skip_hurl_header("host"));
    assert!(should_skip_hurl_header("content-length"));
    assert!(should_skip_hurl_header("x-forwarded-proto"));
    assert!(!should_skip_hurl_header("accept"));
    assert!(!should_forward_header("x-proxy-target"));
    assert!(!should_forward_header("connection"));
    assert!(should_forward_header("content-type"));
    assert!(!should_forward_response_header("transfer-encoding"));
    assert!(should_forward_response_header("content-type"));
}

#[test]
fn hurl_with_json_body() {
    let c = call("2024-01-01T00:00:00+00:00", "{\"x\": [1]}", "{\"ok\":true}");
    let expected = "# Proxy call recorded at 2024-01-01T00:00:00+00:00\n\
# ID: 2024-01-01T00:00:00+00:00-id\n\n\
POST http://target:9000/api?a=1\n\
Content-Type: application/json\n\
Accept: */*\n\
{\n  \"x\": [\n    1\n  ]\n}\n\
HTTP 201\n\
\n# [Asserts]\n\
# header \"content-type\" == \"application/json\"\n\
# body == ```\n\
# {\n#   \"ok\": true\n# }\n\
# ```\n";
    assert_eq!(c.to_hurl(), expected);
}

#[test]
fn hurl_with_text_body() {
    let c = call("t", "  plain text \n", "not json");
    let hurl = c.to_hurl();
    assert!(hurl.contains("\n`plain text`\nHTTP 201\n"));
    assert!(!hurl.contains("# body =="));
    let c = call("t", "", "");
    assert!(c.to_hurl().contains("Accept: */*\nHTTP 201\n"));
}

#[test]
fn json_record() {
    let c = call("t", "b", "r");
    let json = c.as_json();
    assert_eq!(
        json,
        "{\"id\":\"t-id\",\"timestamp\":\"t\",\"method\":\"POST\",\"path\":\"/api\",\"query\":\"?a=1\",\"target_url\":\"http://target:9000/api?a=1\",\"request_headers\":{\"Host\":\"localhost\",\"Content-Type\":\"application/json\",\"X-Forwarded-For\":\"1.2.3.4\",\"Accept\":\"*/*\"},\"request_body\":\"b\",\"response_status\":201,\"response_headers\":{\"content-type\":\"application/json\",\"server\":\"x\"},\"response_body\":\"r\"}"
    );
    let v: serde_json::Value = serde_json::from_str(&json).unwrap();
    assert_eq!(v["response_status"], 201);
    let mut store = KeyValueStore::new();
    store.insert_proxy_call(&c);
    assert_eq!(store.get("_catch_proxy", "t-id"), Some(json));
}

#[test]
fn new_call_gets_time_and_id() {
    let c = ProxyCall::new(
        "GET".to_string(),
        "/".to_string(),
        String::new(),
        "http://x/".to_string(),
        KeyedVec::new(),
        String::new(),
        200,
        KeyedVec::new(),
        String::new(),
    )
    .unwrap();
    assert!(c.id().starts_with(&format!("{}-", c.timestamp())));
    assert_eq!(c.id().len(), c.timestamp().len() + 37);
    assert!(c.timestamp().ends_with("+00:00"));
    assert_eq!(&c.timestamp()[10..11], "T");
    let tail: Vec<char> = c.id()[c.timestamp().len() + 1..].chars().collect();
    assert_eq!(tail.len(), 36);
    for (i, ch) in tail.iter().enumerate() {
        if i == 8 || i == 13 || i == 18 || i == 23 {
            assert_eq!(*ch, '-');
        } else {
            assert!(ch.is_ascii_digit() || ('a'..='f').contains(ch), "{ch}");
        }
    }
    assert_eq!(tail[14], '4');
    assert!("89ab".contains(tail[19]));
}

fn record_at(since_epoch: Option<(u64, u32)>, random: Option<[u8; 16]>) -> Option<ProxyCall> {
    ProxyCall::recorded_at(
        since_epoch,
        random,
        "POST".to_string(),
        "/api".to_string(),
        "?a=1".to_string(),
        "http://x/api?a=1".to_string(),
        headers(&[("Accept", "*/*")]),
        "{}".to_string(),
        201,
        headers(&[("Content-Type", "application/json")]),
        "ok".to_string(),
    )
}

#[test]
fn recorded_at_epoch_with_zero_bytes() {
    let c = record_at(Some((0, 0)), Some([0u8; 16])).unwrap();
    assert_eq!(c.timestamp(), "1970-01-01T00:00:00+00:00");
    assert_eq!(c.id(), "1970-01-01T00:00:00+00:00-00000000-0000-4000-8000-000000000000");
    assert_eq!(c.method(), "POST");
    assert_eq!(c.response_status(), 201);
    assert_eq!(c.response_body(), "ok");
}

#[test]
fn recorded_at_sets_version_and_variant_bits() {
    let c = record_at(Some((1431648000, 123_000_000)), Some([0xffu8; 16])).unwrap();
    assert_eq!(c.timestamp(), "2015-05-15T00:00:00.123+00:00");
    assert_eq!(c.id(), "2015-05-15T00:00:00.123+00:00-ffffffff-ffff-4fff-bfff-ffffffffffff");
    let bytes: [u8; 16] = [0x01, 0x23, 0x45, 0x67, 0x89, 0xab, 0xcd, 0xef, 0x10, 0x32, 0x54, 0x76, 0x98, 0xba, 0xdc, 0xfe];
    let c = record_at(Some((1, 5)), Some(bytes)).unwrap();
    assert_eq!(c.timestamp(), "1970-01-01T00:00:01.000000005+00:00");
    assert_eq!(c.id(), "1970-01-01T00:00:01.000000005+00:00-01234567-89ab-4def-9032-547698badcfe");
}

#[test]
fn recorded_at_without_clock_or_random() {
    assert!(record_at(None, Some([0u8; 16])).is_none());
    assert!(record_at(Some((0, 0)), None).is_none());
    assert!(record_at(Some((u64::MAX, 0)), Some([0u8; 16])).is_none());
}

#[test]
fn timestamps_and_uuids_of_readings() {
    assert_eq!(timestamp_text(Some((86_400, 0))).as_deref(), Some("1970-01-02T00:00:00+00:00"));
    assert_eq!(timestamp_text(Some((0, 1_500_000))).as_deref(), Some("1970-01-01T00:00:00.001500+00:00"));
    assert_eq!(timestamp_text(None), None);
    assert_eq!(uuid_text(Some([0x5au8; 16])).as_deref(), Some("5a5a5a5a-5a5a-4a5a-9a5a-5a5a5a5a5a5a"));
    assert_eq!(uuid_text(None), None);
}

#[test]
fn two_new_calls_differ() {
    let make = || {
        ProxyCall::new(
            "GET".to_string(),
            "/".to_string(),
            String::new(),
            "http://x/".to_string(),
            KeyedVec::new(),
            String::new(),
            200,
            KeyedVec::new(),
            String::new(),
        )
        .unwrap()
    };
    assert_ne!(make().id(), make().id());
}

#[test]
fn target_urls() {
    assert!(!has_own_path("http://host:8080"));
    assert!(has_own_path("http://host:8080/base"));
    assert!(!has_own_path("host/path"));
    assert!(!has_own_path("http://a://b/c"));
    assert!(has_own_path("http://a/x://b"));
    assert_eq!(build_target_url("http://h:1", "/p", "?q=1"), "http://h:1/p?q=1");
    assert_eq!(build_target_url("http://h:1/fixed", "/p", "?q=1"), "http://h:1/fixed?q=1");
    assert_eq!(build_target_url("http://h:1/fixed", "/p", ""), "http://h:1/fixed");
    assert_eq!(query_suffix_of(Some("a=1")), "?a=1");
    assert_eq!(query_suffix_of(None), "");
}

#[test]
fn target_selection() {
    let with = Server::new(("0.0.0.0".to_string(), 8111), "info".to_string(), Some("http://conf".to_string()));
    let without = Server::new(("0.0.0.0".to_string(), 8111), "info".to_string(), None);
    assert_eq!(select_target(Some("http://hdr"), &with), Some("http://hdr".to_string()));
    assert_eq!(select_target(None, &with), Some("http://conf".to_string()));
    assert_eq!(select_target(None, &without), None);
    assert_eq!(plan_proxy_url(None, &with, "/a/b", Some("x=1")), Some("http://conf/a/b?x=1".to_string()));
    assert_eq!(plan_proxy_url(None, &without, "/a", None), None);
}

#[test]
fn status_passthrough() {
    assert_eq!(forwarded_status(204), 204);
    assert_eq!(forwarded_status(999), 999);
    assert_eq!(forwarded_status(99), 500);
    assert_eq!(forwarded_status(1000), 500);
}

#[test]
fn calls_newest_first() {
    let calls = vec![call("2024-01-02", "", "1"), call("2024-01-03", "", "2"), call("2024-01-01", "", "3"), call("2024-01-03", "", "4")];
    let sorted = newest_first(calls);
    let order: Vec<&str> = sorted.iter().map(|c| c.response_body()).collect();
    assert_eq!(order, vec!["2", "4", "1", "3"]);
}
