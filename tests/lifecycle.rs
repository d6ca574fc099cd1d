use rocket_newrelic::config::{log_level_or_info, LogLevel};
use rocket_newrelic::naming::{transaction_name, trim_leading_slashes};
use rocket_newrelic::registry::{AppWrapper, RequestRegistry, RESPONSE_ERROR_PRIORITY};
use rocket_newrelic::status::{is_success_status, status_message};
use rocket_newrelic::transaction::{Attribute, Datastore, SegmentKind, SegmentPlan, Transaction};

fn text(a: &Attribute) -> String {
    match a {
        Attribute::Text(s) => s.clone(),
        _ => panic!("not a string attribute"),
    }
}

#[test]
fn name_strips_leading_slashes() {
    assert_eq!(transaction_name(Some("/users"), Some("create_user")), "users/create_user");
    assert_eq!(transaction_name(Some("//a/b"), Some("h")), "a/b/h");
    assert_eq!(transaction_name(Some("/"), Some("index")), "/index");
    assert_eq!(trim_leading_slashes("///x/"), "x/");
    assert_eq!(trim_leading_slashes(""), "");
}

#[test]
fn name_falls_back_to_unknown_handler() {
    assert_eq!(transaction_name(Some("/root"), None), "root/unknown_handler");
    assert_eq!(transaction_name(None, Some("ignored")), "unknown_handler");
    assert_eq!(transaction_name(None, None), "unknown_handler");
}

#[test]
fn success_class_is_2xx() {
    assert!(is_success_status(200));
    assert!(is_success_status(201));
    assert!(is_success_status(299));
    assert!(!is_success_status(199));
    assert!(!is_success_status(300));
    assert!(!is_success_status(404));
    assert!(!is_success_status(500));
}

#[test]
fn status_message_is_code_and_reason() {
    assert_eq!(status_message(500), "500 Internal Server Error");
    assert_eq!(status_message(404), "404 Not Found");
}

#[test]
fn healthy_request_scenario() {
    let mut reg = RequestRegistry::new();
    reg.on_request();
    let mut names: Vec<String> = Vec::new();
    let first = reg.current_transaction(Some("/users"), Some("create_user"), "/users?id=3", |n| {
        names.push(n);
        true
    });
    assert_eq!(names, vec!["users/create_user".to_string()]);
    let (k, v) = first.expect("uri attribute to forward");
    assert_eq!(k, "uri");
    assert_eq!(text(&v), "/users?id=3");
    let t = reg.transaction().unwrap();
    assert!(t.traced());
    assert_eq!(text(t.attribute("uri").unwrap()), "/users?id=3");
    let r = reg.on_response(201);
    assert!(r.error.is_none());
    assert!(r.finalize);
    assert!(!reg.transaction().unwrap().traced());
}

#[test]
fn at_most_one_start_per_request() {
    let mut reg = RequestRegistry::new();
    reg.on_request();
    let mut calls: u32 = 0;
    for _ in 0..3 {
        reg.current_transaction(Some("/a"), Some("b"), "/a", |_| {
            calls += 1;
            true
        });
    }
    assert_eq!(calls, 1);
}

#[test]
fn no_backend_gives_inert_without_start() {
    let mut reg = RequestRegistry::new();
    let mut calls: u32 = 0;
    let r = reg.current_transaction(Some("/a"), Some("b"), "/a", |_| {
        calls += 1;
        true
    });
    assert!(r.is_none());
    assert_eq!(calls, 0);
    assert!(matches!(reg.transaction(), Some(Transaction::Inert)));
    // A stash after the fact does not revive tracing.
    reg.on_request();
    reg.current_transaction(Some("/a"), Some("b"), "/a", |_| {
        calls += 1;
        true
    });
    assert_eq!(calls, 0);
    let r = reg.on_response(500);
    assert!(r.error.is_none());
    assert!(!r.finalize);
}

#[test]
fn backend_failure_scenario() {
    let mut reg = RequestRegistry::new();
    reg.on_request();
    let r = reg.current_transaction(Some("/a"), Some("b"), "/a", |_| false);
    assert!(r.is_none());
    let t = reg.transaction().unwrap();
    assert!(matches!(t, Transaction::Inert));
    assert!(matches!(t.custom_segment("s", "c"), SegmentPlan::PassThrough));
    assert!(matches!(
        t.datastore_segment(Datastore::Postgres, "users", "insert", "INSERT"),
        SegmentPlan::PassThrough
    ));
    assert!(matches!(t.external_segment("h", Some("p"), None), SegmentPlan::PassThrough));
    assert!(!reg.add_attribute("k", Attribute::Text("v".to_string())));
    let r = reg.on_response(200);
    assert!(!r.finalize);
}

#[test]
fn failed_response_scenario() {
    let mut reg = RequestRegistry::new();
    reg.on_request();
    reg.current_transaction(Some("/"), Some("index"), "/", |_| true);
    let r = reg.on_response(500);
    let e = r.error.expect("an error annotation");
    assert_eq!(e.priority, RESPONSE_ERROR_PRIORITY);
    assert_eq!(e.priority, 100);
    assert!(e.message.starts_with("500"));
    assert_eq!(e.class, "");
    assert!(r.finalize);
    let again = reg.on_response(500);
    assert!(again.error.is_none());
    assert!(!again.finalize);
}

#[test]
fn end_is_idempotent() {
    let mut t = Transaction::new("n".to_string(), "/u", true);
    assert!(t.end());
    assert!(!t.end());
    assert!(!t.traced());
    assert!(!t.add_attribute("k", Attribute::Int(1)));
    assert!(!t.notice_error(1, "m".to_string(), String::new()));
    let mut inert = Transaction::new("n".to_string(), "/u", false);
    assert!(!inert.end());
}

#[test]
fn attributes_last_write_wins() {
    let mut reg = RequestRegistry::new();
    reg.on_request();
    reg.current_transaction(Some("/a"), Some("b"), "/a", |_| true);
    assert!(reg.add_attribute("k", Attribute::Int(1)));
    assert!(reg.add_attribute("j", Attribute::Long(7)));
    assert!(reg.add_attribute("k", Attribute::Text("two".to_string())));
    assert!(reg.add_attribute("uri", Attribute::Text("/b".to_string())));
    let t = reg.transaction().unwrap();
    assert!(t.traced());
    assert_eq!(text(t.attribute("k").unwrap()), "two");
    assert!(matches!(t.attribute("j"), Some(Attribute::Long(7))));
    assert_eq!(text(t.attribute("uri").unwrap()), "/b");
    assert!(t.attribute("missing").is_none());
}

#[test]
fn segments_are_planned_when_traced() {
    let t = Transaction::new("n".to_string(), "/u", true);
    match t.custom_segment("process user", "process") {
        SegmentPlan::Traced(SegmentKind::Custom { name, category }) => {
            assert_eq!(name, "process user");
            assert_eq!(category, "process");
        }
        _ => panic!("expected a custom segment"),
    }
    match t.datastore_segment(Datastore::Postgres, "users", "insert", "INSERT INTO users VALUES (1)") {
        SegmentPlan::Traced(SegmentKind::Datastore { datastore, table, operation, query }) => {
            assert_eq!(datastore, Datastore::Postgres);
            assert_eq!(table, "users");
            assert_eq!(operation, "insert");
            assert_eq!(query, "INSERT INTO users VALUES (1)");
        }
        _ => panic!("expected a datastore segment"),
    }
    match t.external_segment("https://logging-thing", Some("set"), None) {
        SegmentPlan::Traced(SegmentKind::External { host, procedure, library }) => {
            assert_eq!(host, "https://logging-thing");
            assert_eq!(procedure.as_deref(), Some("set"));
            assert_eq!(library, None);
        }
        _ => panic!("expected an external segment"),
    }
    // A segment planned while another one runs sees the same state.
    assert!(matches!(t.custom_segment("inner", "c"), SegmentPlan::Traced(_)));
}

#[test]
fn stash_keeps_first_value() {
    let mut reg = RequestRegistry::new();
    reg.on_request();
    reg.on_request();
    let mut calls: u32 = 0;
    reg.current_transaction(None, None, "/", |n| {
        assert_eq!(n, "unknown_handler");
        calls += 1;
        false
    });
    assert_eq!(calls, 1);
    let _ = AppWrapper::App;
}

#[test]
fn log_level_parses_names_in_any_case() {
    assert_eq!(log_level_or_info("debug"), LogLevel::Debug);
    assert_eq!(log_level_or_info("TRACE"), LogLevel::Trace);
    assert_eq!(log_level_or_info("wArN"), LogLevel::Warn);
    assert_eq!(log_level_or_info("error"), LogLevel::Error);
    assert_eq!(log_level_or_info("off"), LogLevel::Info);
    assert_eq!(log_level_or_info("verbose"), LogLevel::Info);
    assert_eq!(log_level_or_info(""), LogLevel::Info);
}
