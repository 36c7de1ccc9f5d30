//! Log access layer: tailing, filtering, joining, log kinds and the log
//! store.

use nginx_supervisor::lifecycle::LifecycleError;
use nginx_supervisor::logs::get_logs;
use nginx_supervisor::logs::log_file_name;
use nginx_supervisor::logs::parse_log_kind;
use nginx_supervisor::logs::record_line;
use nginx_supervisor::logs::LogKind;
use nginx_supervisor::logs::LogStore;

fn text(s: &str) -> Vec<u8> {
    s.as_bytes().to_vec()
}

#[test]
fn tail_returns_exactly_the_last_lines_in_order() {
    let content = text("one\ntwo\nthree\nfour\nfive\n");
    let out = get_logs(&content, 3, &None, &None);
    assert_eq!(out, text("three\nfour\nfive"));
}

#[test]
fn tail_returns_all_lines_when_asking_for_more() {
    let content = text("one\ntwo\nthree");
    let out = get_logs(&content, 10, &None, &None);
    assert_eq!(out, text("one\ntwo\nthree"));
}

#[test]
fn tail_with_zero_lines_is_empty() {
    let content = text("one\ntwo\n");
    let out = get_logs(&content, 0, &None, &None);
    assert_eq!(out, text(""));
}

#[test]
fn windows_line_endings_are_stripped() {
    let content = text("alpha\r\nbeta\r\ngamma\r\n");
    let out = get_logs(&content, 2, &None, &None);
    assert_eq!(out, text("beta\ngamma"));
}

#[test]
fn search_and_level_filters_compose_with_and() {
    let content = text(
        "2024 ERROR WARN disk full\n2024 ERROR io lost\n2024 WARN slow\n2024 INFO ok\n",
    );
    let out = get_logs(
        &content,
        100,
        &Some(text("ERROR")),
        &Some(text("WARN")),
    );
    assert_eq!(out, text("2024 ERROR WARN disk full"));
}

#[test]
fn empty_filter_strings_disable_their_filter() {
    let content = text("a ERROR\nb WARN\nc ERROR\n");
    let with_empty_search = get_logs(&content, 100, &Some(text("")), &Some(text("ERROR")));
    let without_search = get_logs(&content, 100, &None, &Some(text("ERROR")));
    assert_eq!(with_empty_search, without_search);
    assert_eq!(with_empty_search, text("a ERROR\nc ERROR"));
}

#[test]
fn filters_apply_after_the_tail() {
    let content = text("keep old\nnoise\nkeep new\n");
    let out = get_logs(&content, 2, &Some(text("keep")), &None);
    assert_eq!(out, text("keep new"));
}

#[test]
fn empty_file_yields_empty_text() {
    let content = text("");
    let out = get_logs(&content, 50, &None, &None);
    assert_eq!(out, text(""));
}

#[test]
fn log_kinds_parse_and_unknown_kinds_are_rejected() {
    assert_eq!(parse_log_kind(&"service".to_string()), Ok(LogKind::Service));
    assert_eq!(parse_log_kind(&"error".to_string()), Ok(LogKind::Error));
    assert_eq!(parse_log_kind(&"access".to_string()), Ok(LogKind::Access));
    assert_eq!(
        parse_log_kind(&"syslog".to_string()),
        Err(LifecycleError::InvalidLogKind)
    );
}

#[test]
fn log_file_names_match_the_layout() {
    assert_eq!(log_file_name(LogKind::Service), "nginx-service.log");
    assert_eq!(log_file_name(LogKind::Error), "error.log");
    assert_eq!(log_file_name(LogKind::Access), "access.log");
}

#[test]
fn clearing_a_missing_log_creates_an_empty_file() {
    let mut store = LogStore::empty();
    assert!(!store.check_log_exists(LogKind::Error));
    store.clear(LogKind::Error);
    assert!(store.check_log_exists(LogKind::Error));
    assert_eq!(store.error, Some(Vec::new()));
    assert_eq!(store.service, None);
    assert_eq!(store.access, None);
}

#[test]
fn clearing_twice_leaves_the_same_empty_file() {
    let mut store = LogStore::empty();
    store.append(LogKind::Error, &text("boom\n"));
    assert_eq!(store.error, Some(text("boom\n")));
    store.clear(LogKind::Error);
    assert_eq!(store.error, Some(Vec::new()));
    store.clear(LogKind::Error);
    assert_eq!(store.error, Some(Vec::new()));
}

#[test]
fn init_creates_missing_files_and_keeps_content() {
    let mut store = LogStore::empty();
    store.append(LogKind::Access, &text("GET /\n"));
    store.init();
    assert_eq!(store.service, Some(Vec::new()));
    assert_eq!(store.error, Some(Vec::new()));
    assert_eq!(store.access, Some(text("GET /\n")));
}

#[test]
fn append_accumulates_entries() {
    let mut store = LogStore::empty();
    store.append(LogKind::Service, &text("first\n"));
    store.append(LogKind::Service, &text("second\n"));
    assert_eq!(store.service, Some(text("first\nsecond\n")));
}

#[test]
fn record_lines_have_the_audit_shape() {
    let line = record_line(
        &"2024-01-02 03:04:05".to_string(),
        &"start".to_string(),
        &"Nginx started successfully".to_string(),
    );
    assert_eq!(line, "[2024-01-02 03:04:05] start: Nginx started successfully\n");
}
