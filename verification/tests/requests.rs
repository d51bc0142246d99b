use orbital::json::{field, string_field_of, Field, RequestError};
use orbital::number::parse_i32;
use orbital::services::camera::camera_line;
use orbital::services::logging::log_line;
use orbital::services::scripting::{event_source, listen_path_source, on_request, spawn_decision, ScriptAction};
use orbital::services::timer::Timer;

#[test]
fn json_field_reads_string_and_text() {
    let f = field("{\"command\":\"spawn\",\"n\":5}", "command").unwrap();
    assert_eq!(f.string, Some("spawn".to_string()));
    assert_eq!(f.text, "\"spawn\"");
    let g = field("{\"command\":\"spawn\",\"n\":5}", "n").unwrap();
    assert_eq!(g.string, None);
    assert_eq!(g.text, "5");
    let h = field("{\"command\":\"spawn\"}", "missing").unwrap();
    assert_eq!(h.string, None);
    assert_eq!(h.text, "null");
    assert!(matches!(field("{event:'tick'}", "event"), Err(RequestError::InvalidJson)));
    assert!(matches!(field("", "a"), Err(RequestError::InvalidJson)));
}

#[test]
fn string_field_errors() {
    assert_eq!(string_field_of("{\"a\":\"b\"}", "a", Field::Command).unwrap(), "b");
    assert_eq!(string_field_of("{\"a\":1}", "a", Field::Command), Err(RequestError::BadField(Field::Command)));
    assert_eq!(string_field_of("[1,2]", "a", Field::Echo), Err(RequestError::BadField(Field::Echo)));
    assert_eq!(string_field_of("nope", "a", Field::Echo), Err(RequestError::InvalidJson));
}

#[test]
fn parse_i32_matches_std() {
    let cases = [
        "0", "7", "-7", "+7", "2147483647", "2147483648", "-2147483648", "-2147483649", "", "-",
        "+", "12a", "a12", " 1", "1 ", "00012", "-0", "99999999999a", "١", "1.0", "\"5\"", "null",
        "1160", "--1", "+-1",
    ];
    for c in cases.iter() {
        assert_eq!(parse_i32(c), c.parse::<i32>().ok(), "case {:?}", c);
    }
}

#[test]
fn timer_collects_echo_paths_and_ticks_them_in_order() {
    let mut t = Timer::new();
    assert!(t.tick().is_empty());
    assert_eq!(t.on_event("{\"command\":\"echo\",\"echo\":\"/a\"}"), Ok(()));
    assert_eq!(t.on_event("{\"command\":\"other\"}"), Ok(()));
    assert_eq!(t.on_event("{\"command\":\"echo\",\"echo\":\"/b\"}"), Ok(()));
    assert_eq!(t.on_event("{\"command\":\"echo\",\"echo\":\"/a\"}"), Ok(()));
    let ticks = t.tick();
    let paths: Vec<&str> = ticks.iter().map(|o| o.path.as_str()).collect();
    assert_eq!(paths, vec!["/a", "/b", "/a"]);
    for o in &ticks {
        assert_eq!(o.args, "{event:'tick'}");
    }
}

#[test]
fn timer_refuses_bad_requests_and_keeps_its_list() {
    let mut t = Timer::new();
    assert_eq!(t.on_event("not json"), Err(RequestError::InvalidJson));
    assert_eq!(t.on_event("{\"echo\":\"/a\"}"), Err(RequestError::BadField(Field::Command)));
    assert_eq!(t.on_event("{\"command\":\"echo\"}"), Err(RequestError::BadField(Field::Echo)));
    assert_eq!(t.on_event("{\"command\":\"echo\",\"echo\":3}"), Err(RequestError::BadField(Field::Echo)));
    assert!(t.tick().is_empty());
}

#[test]
fn timer_accepts_the_rebroadcast_form() {
    let mut t = Timer::new();
    let r = r#"{"path":"localhost:/orbital/services/timer","command":"echo","args":{"echo":"localhost:/orbital/accounts/root/running/boot.js"}}"#;
    assert_eq!(t.on_event(r), Ok(()));
    assert_eq!(t.on_event(r#"{"command":"echo","echo":"/top","args":{"echo":"/nested"}}"#), Ok(()));
    let paths: Vec<String> = t.tick().into_iter().map(|o| o.path).collect();
    assert_eq!(paths, vec!["localhost:/orbital/accounts/root/running/boot.js".to_string(), "/top".to_string()]);
}

#[test]
fn timer_register_on_read_values() {
    let mut t = Timer::new();
    assert_eq!(t.register("echo", Some("/a".to_string())), Ok(()));
    assert_eq!(t.register("echo", None), Err(RequestError::BadField(Field::Echo)));
    assert_eq!(t.register("tick", Some("/b".to_string())), Ok(()));
    let paths: Vec<String> = t.tick().into_iter().map(|o| o.path).collect();
    assert_eq!(paths, vec!["/a".to_string()]);
}

#[test]
fn scripting_spawns_for_every_spawn_request() {
    match on_request("{\"command\":\"hello\"}") {
        Ok(ScriptAction::Ignore) => {},
        _ => panic!("expected ignore"),
    }
    let boot = r#"{"command":"spawn","file":"public/kernel/boot.js","listen":"localhost:/orbital/home/root/running/boot"}"#;
    match on_request(boot) {
        Ok(ScriptAction::Spawn(req)) => {
            assert_eq!(req.listen, "localhost:/orbital/home/root/running/boot");
            assert_eq!(req.file, Some("public/kernel/boot.js".to_string()));
        },
        _ => panic!("expected spawn"),
    }
    let second = r#"{"command":"spawn","file":"b.js","listen":"/b"}"#;
    match on_request(second) {
        Ok(ScriptAction::Spawn(req)) => {
            assert_eq!(req.listen, "/b");
            assert_eq!(req.file, Some("b.js".to_string()));
        },
        _ => panic!("expected a second spawn"),
    }
}

#[test]
fn scripting_accepts_the_factory_form() {
    let factory = r#"{"path":"localhost:/orbital/services/scripting","command":"spawn","args":{"script":"localhost:/orbital/accounts/root/scripts/boot.js","listen":"localhost:/orbital/accounts/root/running/boot.js","echo":"localhost:/orbital/accounts/root/running/other.js"}}"#;
    match on_request(factory) {
        Ok(ScriptAction::Spawn(req)) => {
            assert_eq!(req.listen, "localhost:/orbital/accounts/root/running/boot.js");
            assert_eq!(req.file, Some("localhost:/orbital/accounts/root/scripts/boot.js".to_string()));
        },
        _ => panic!("expected spawn"),
    }
}

#[test]
fn scripting_request_errors() {
    assert!(matches!(on_request("garbage"), Err(RequestError::InvalidJson)));
    assert!(matches!(on_request("{\"command\":5}"), Err(RequestError::BadField(Field::Command))));
    assert!(matches!(on_request("{\"command\":\"spawn\"}"), Err(RequestError::BadField(Field::Listen))));
    assert!(matches!(
        on_request("{\"command\":\"spawn\",\"args\":{\"listen\":3}}"),
        Err(RequestError::BadField(Field::Listen))
    ));
    match on_request("{\"command\":\"spawn\",\"listen\":\"/x\"}") {
        Ok(ScriptAction::Spawn(req)) => {
            assert_eq!(req.listen, "/x");
            assert_eq!(req.file, None);
        },
        _ => panic!("expected spawn"),
    }
}

#[test]
fn spawn_decision_on_read_values() {
    match spawn_decision("spawn", Some("/l".to_string()), Some("f.js".to_string())) {
        Ok(ScriptAction::Spawn(req)) => {
            assert_eq!(req.listen, "/l");
            assert_eq!(req.file, Some("f.js".to_string()));
        },
        _ => panic!("expected spawn"),
    }
    assert!(matches!(spawn_decision("spawn", None, None), Err(RequestError::BadField(Field::Listen))));
    assert!(matches!(spawn_decision("echo", Some("/l".to_string()), None), Ok(ScriptAction::Ignore)));
}

#[test]
fn script_sources() {
    assert_eq!(listen_path_source("localhost:/a"), "let LISTENPATH = \"localhost:/a\"");
    assert_eq!(event_source("{\"event\":\"tick\"}"), "special_callback({\"event\":\"tick\"})");
}

#[test]
fn printed_lines() {
    assert_eq!(log_line("hello"), "log: hello");
    assert_eq!(camera_line("/cam", "{x:1}"), "camera got post /cam {x:1}");
}
