use catch::config::{ascii, parse_port, server_from, Server, DEFAULT_PORT};
use catch::kv_store::KeyValueStore;
use catch::runtime::{script_type_for, shell_outcome, RuntimeError, ScriptLanguage, ScriptType};
use catch::script::{finish_run, script_name, Script};
use catch::view::{js_single_quoted, method_badge_class, pretty_print_value, status_badge_class};

#[test]
fn language_names() {
    assert_eq!(ScriptLanguage::JavaScript.as_str(), "javascript");
    assert_eq!(ScriptLanguage::Shell.as_str(), "shell");
    assert_eq!(ScriptType::available(), vec!["javascript".to_string(), "shell".to_string()]);
    assert_eq!(ScriptType::Shell("ls".to_string()).language(), ScriptLanguage::Shell);
}

#[test]
fn content_type_decides_script_kind() {
    match script_type_for("", "1+1".to_string()) {
        Ok(ScriptType::JavaScript(s)) => assert_eq!(s, "1+1"),
        _ => panic!("expected JavaScript"),
    }
    assert!(matches!(script_type_for("application/javascript", "x".to_string()), Ok(ScriptType::JavaScript(_))));
    match script_type_for("text/x-shellscript", "ls".to_string()) {
        Err(RuntimeError::UserError(m)) => assert_eq!(m, "javascript, shell"),
        _ => panic!("expected a user error"),
    }
}

#[test]
fn error_responses() {
    assert_eq!(RuntimeError::UserError("bad".to_string()).into_response(), (400, "bad".to_string()));
    assert_eq!(RuntimeError::InternalError("oops".to_string()).into_response(), (500, "oops".to_string()));
}

#[test]
fn shell_outcomes() {
    assert_eq!(shell_outcome(true, "out\n\n", "ignored".to_string()).unwrap(), "out");
    match shell_outcome(false, "", "boom".to_string()) {
        Err(RuntimeError::UserError(m)) => assert_eq!(m, "boom"),
        _ => panic!("expected a user error"),
    }
}

#[test]
fn script_names() {
    assert_eq!(script_name("//add\n1+1"), "add");
    assert_eq!(script_name("  // a // b  \r\nrest"), " a  b");
    assert_eq!(script_name(""), "");
    for content in ["///x//y", "// a\n//b", "////", "x\n// y"] {
        let name = script_name(content);
        assert!(!name.contains("//"), "{content:?}");
        assert!(!name.contains('\n'), "{content:?}");
    }
    let s = Script::new("1+1".to_string(), "2".to_string(), ScriptLanguage::JavaScript);
    assert_eq!((s.name(), s.content(), s.result(), s.script_type()), ("1+1", "1+1", "2", &ScriptLanguage::JavaScript));
}

#[test]
fn finished_runs_are_recorded() {
    let mut store = KeyValueStore::new();
    let r = finish_run(&mut store, ScriptLanguage::JavaScript, "//t\n2".to_string(), Ok("2".to_string()));
    assert_eq!(r, (200, "2".to_string()));
    assert!(store.get_script("t").is_ok());
    let r = finish_run(&mut store, ScriptLanguage::Shell, "//u".to_string(), Err(RuntimeError::UserError("no".to_string())));
    assert_eq!(r, (400, "no".to_string()));
    assert!(store.get_script("u").is_err());
}

#[test]
fn banner_names_the_address() {
    let server = Server::new(("0.0.0.0".to_string(), 8111), "info".to_string(), None);
    let b = ascii(&server);
    assert!(b.starts_with("\n        __| |_________________| |__\n"));
    assert!(b.contains("|__     http://0.0.0.0:8111\n"));
    assert!(b.ends_with("| |\n        "));
    assert_eq!(server.adress(), ("0.0.0.0".to_string(), 8111));
    assert_eq!(server.log_level(), "info");
    assert_eq!(server.proxy_target(), None);
}

#[test]
fn badges_and_quoting() {
    assert_eq!(method_badge_class("GET"), "bg-blue near-black");
    assert_eq!(method_badge_class("PATCH"), "bg-moon-gray near-black");
    assert_eq!(status_badge_class(204), "bg-catch-green near-black");
    assert_eq!(status_badge_class(302), "bg-blue near-black");
    assert_eq!(status_badge_class(404), "bg-gold near-black");
    assert_eq!(status_badge_class(503), "bg-red white");
    assert_eq!(status_badge_class(100), "bg-red white");
    assert_eq!(js_single_quoted("it's\nok"), "'it\\'s\\nok'");
    assert_eq!(pretty_print_value("{\"a\":1}"), "{\n  \"a\": 1\n}");
    assert_eq!(pretty_print_value("text"), "text");
}

#[test]
fn ports_read_like_str_parse() {
    for text in ["8080", "+80", "0", "65535", "65536", "", "+", "-1", "80a", " 80", "٣", "0000000000000000000001", "99999999999999999999"] {
        assert_eq!(parse_port(text), text.parse::<u16>().ok(), "{text:?}");
    }
}

#[test]
fn server_settings_and_defaults() {
    let s = server_from(None, None, None);
    assert_eq!(s.adress(), ("0.0.0.0".to_string(), DEFAULT_PORT));
    assert_eq!(DEFAULT_PORT, 8111);
    assert_eq!(s.log_level(), "info");
    assert_eq!(s.proxy_target(), None);
    let s = server_from(Some("9000".to_string()), Some("debug".to_string()), Some("http://t".to_string()));
    assert_eq!(s.adress(), ("0.0.0.0".to_string(), 9000));
    assert_eq!(s.log_level(), "debug");
    assert_eq!(s.proxy_target(), Some("http://t"));
    let s = server_from(Some("not a port".to_string()), None, None);
    assert_eq!(s.adress().1, 8111);
}
