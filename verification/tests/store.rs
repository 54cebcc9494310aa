use catch::kv_store::{context_or_default, KeyValueStore, KvReply};
use catch::runtime::ScriptLanguage;
use catch::script::Script;

#[test]
fn insert_then_get() {
    let mut store = KeyValueStore::new();
    assert_eq!(store.get("ctx", "k"), None);
    assert_eq!(store.insert("ctx", "k", "v"), "Key Set");
    assert_eq!(store.get("ctx", "k"), Some("v".to_string()));
    assert_eq!(store.get("other", "k"), None);
    assert_eq!(store.get("ctx", "other"), None);
}

#[test]
fn last_write_wins() {
    let mut store = KeyValueStore::new();
    store.insert("c", "k", "first");
    store.insert("c", "k", "second");
    assert_eq!(store.get("c", "k"), Some("second".to_string()));
    let listing = store.inner();
    assert_eq!(listing.len(), 1);
    assert_eq!(listing[0].1.len(), 1);
}

#[test]
fn remove_messages_and_effect() {
    let mut store = KeyValueStore::new();
    assert_eq!(store.remove("missing", "k"), "Key did not exist");
    store.insert("c", "k", "v");
    store.insert("c", "j", "w");
    assert_eq!(store.remove("c", "k"), "Key Removed");
    assert_eq!(store.get("c", "k"), None);
    assert_eq!(store.get("c", "j"), Some("w".to_string()));
    assert_eq!(store.remove("c", "nothing"), "Key Removed");
    store.remove("c", "j");
    // The context stays, empty.
    let listing = store.inner();
    assert_eq!(listing.len(), 1);
    assert_eq!(listing[0].0, "c");
    assert!(listing[0].1.is_empty());
}

#[test]
fn contexts_are_separate() {
    let mut store = KeyValueStore::new();
    store.insert("a", "k", "1");
    store.insert("b", "k", "2");
    assert_eq!(store.get("a", "k"), Some("1".to_string()));
    assert_eq!(store.get("b", "k"), Some("2".to_string()));
    let listing = store.inner();
    assert_eq!(listing[0].0, "a");
    assert_eq!(listing[1].0, "b");
}

#[test]
fn scripts_are_recorded_as_json() {
    let mut store = KeyValueStore::new();
    assert_eq!(store.get_script("x"), Err("Script not found".to_string()));
    let s = Script::new("// greet\n'hi'".to_string(), "hi".to_string(), ScriptLanguage::JavaScript);
    // Trimmed before the slashes go, so the space after them stays.
    assert_eq!(s.name(), " greet");
    store.insert_script(&s);
    let json = store.get_script(" greet").unwrap();
    assert_eq!(json, "{\"name\":\" greet\",\"content\":\"// greet\\n'hi'\",\"result\":\"hi\",\"script_type\":\"JavaScript\"}");
    assert_eq!(store.get("_catch_script", " greet"), Some(json));
}

#[test]
fn reads_answer_json_or_text() {
    let mut store = KeyValueStore::new();
    store.insert("default", "obj", "{ \"a\" : 1 }");
    store.insert("default", "num", "12");
    store.insert("default", "txt", "hello");
    match store.get_reply("default", "obj") {
        KvReply::Json(t) => assert_eq!(t, "{\"a\":1}"),
        other => panic!("unexpected {other:?}"),
    }
    match store.get_reply("default", "num") {
        KvReply::Plain(t) => assert_eq!(t, "12"),
        other => panic!("unexpected {other:?}"),
    }
    match store.get_reply("default", "txt") {
        KvReply::Plain(t) => assert_eq!(t, "hello"),
        other => panic!("unexpected {other:?}"),
    }
    assert!(matches!(store.get_reply("default", "none"), KvReply::NotFound));
    assert_eq!(context_or_default(None), "default");
    assert_eq!(context_or_default(Some("mine")), "mine");
}

#[test]
fn remove_undoes_a_write_to_an_existing_context() {
    let mut store = KeyValueStore::new();
    store.insert("c", "keep", "1");
    store.insert("c", "k", "2");
    store.remove("c", "k");
    assert_eq!(store.get("c", "k"), None);
    assert_eq!(store.get("c", "keep"), Some("1".to_string()));
    let listing = store.inner();
    assert_eq!(listing, vec![("c".to_string(), vec![("keep".to_string(), "1".to_string())])]);
}

#[test]
fn records_parse_back_as_json() {
    let s = Script::new("x = \"q\"\t\\\n2".to_string(), "r\u{1}".to_string(), ScriptLanguage::Shell);
    let v: serde_json::Value = serde_json::from_str(&s.as_json()).unwrap();
    assert_eq!(v["name"], s.name());
    assert_eq!(v["content"], s.content());
    assert_eq!(v["result"], s.result());
    assert_eq!(v["script_type"], "Shell");
}
