use webhook_dispatch::dispatch::{handle, handle_push_event, internal_error_response, Dispatch};
use webhook_dispatch::github::{Commits, GithubHeader, HeaderField, PushEvent, RequestParts, User};
use webhook_dispatch::config::{db_path_or_default, port_or_default};
use webhook_dispatch::json::{parse_json, to_pretty, JsonValue};

fn chars(s: &str) -> Vec<char> {
    s.chars().collect()
}

fn text(v: &[char]) -> String {
    v.iter().collect()
}

fn parts(path: &str, headers: &[(&str, &str)]) -> RequestParts {
    RequestParts {
        path: path.to_string(),
        headers: headers
            .iter()
            .map(|(n, v)| HeaderField { name: n.to_string(), value: Some(v.to_string()) })
            .collect(),
    }
}

fn minimal_user() -> &'static str {
    "{\"date\":\"2024-01-01T00:00:00Z\",\"name\":\"alice\",\"username\":\"alice1\"}"
}

fn minimal_commit() -> String {
    format!(
        "{{\"added\":[\"f.txt\"],\"author\":{u},\"committer\":{u},\"distinct\":true,\
         \"id\":\"c1\",\"message\":\"m\",\"timestamp\":\"t\",\"tree_id\":\"tr\",\"url\":\"u\"}}",
        u = minimal_user()
    )
}

fn minimal_push_payload() -> String {
    format!(
        "{{\"after\":\"a1\",\"before\":\"b2\",\"ref\":\"refs/heads/main\",\
         \"created\":true,\"deleted\":false,\"forced\":false,\
         \"commits\":[{c}],\"head_commit\":{c},\"pusher\":{u}}}",
        c = minimal_commit(),
        u = minimal_user()
    )
}

fn respond_of(d: Dispatch) -> (u16, String) {
    match d {
        Dispatch::Respond(r) => (r.status, r.body),
        Dispatch::ReadPushBody => panic!("expected an immediate response"),
    }
}

#[test]
fn health_status_path_always_200() {
    let p = parts("/status", &[("x-github-event", "push")]);
    let (status, body) = respond_of(handle(&p, Some(u64::MAX)));
    assert_eq!(status, 200);
    assert_eq!(body, "{\"status\":\"ok\"}");
}

#[test]
fn health_misspelled_path_always_200() {
    let p = parts("/healthchekc", &[]);
    let (status, body) = respond_of(handle(&p, None));
    assert_eq!(status, 200);
    assert_eq!(body, "{\"status\":\"ok\"}");
}

#[test]
fn ping_event_200_empty_without_reading_body() {
    let p = parts("/", &[("x-github-event", "ping")]);
    // Even with a huge advertised body the decision never asks for the body.
    let (status, body) = respond_of(handle(&p, Some(u64::MAX)));
    assert_eq!(status, 200);
    assert_eq!(body, "");
}

#[test]
fn unknown_event_501_names_the_event() {
    let p = parts("/", &[("x-github-event", "deploy")]);
    let (status, body) = respond_of(handle(&p, Some(3)));
    assert_eq!(status, 501);
    assert_eq!(body, "{\"error\":\"not supported\",\"event\":\"deploy\"}");
}

#[test]
fn missing_event_header_is_the_empty_event() {
    let p = parts("/", &[("user-agent", "GitHub-Hookshot/abc")]);
    let (status, body) = respond_of(handle(&p, None));
    assert_eq!(status, 501);
    assert_eq!(body, "{\"error\":\"not supported\",\"event\":\"\"}");
}

#[test]
fn event_name_is_escaped_in_the_501_body() {
    let p = parts("/", &[("x-github-event", "a\"b\\c")]);
    let (status, body) = respond_of(handle(&p, None));
    assert_eq!(status, 501);
    assert_eq!(body, "{\"error\":\"not supported\",\"event\":\"a\\\"b\\\\c\"}");
}

#[test]
fn push_oversized_body_413_empty() {
    let p = parts("/", &[("x-github-event", "push")]);
    let (status, body) = respond_of(handle(&p, Some(65537)));
    assert_eq!(status, 413);
    assert_eq!(body, "");
}

#[test]
fn push_at_limit_reads_the_body() {
    let p = parts("/", &[("x-github-event", "push")]);
    assert!(matches!(handle(&p, Some(65536)), Dispatch::ReadPushBody));
}

#[test]
fn push_without_advertised_length_reads_the_body() {
    let p = parts("/", &[("x-github-event", "push")]);
    assert!(matches!(handle(&p, None), Dispatch::ReadPushBody));
}

#[test]
fn push_valid_minimal_payload_200_and_logged() {
    let body = chars(&minimal_push_payload());
    let (resp, log) = handle_push_event(&body);
    assert_eq!(resp.status, 200);
    assert_eq!(resp.body, "");
    let log = log.expect("a well-formed push is logged");
    assert!(log.contains("\"after\""));
}

#[test]
fn push_invalid_json_500_empty() {
    let (resp, log) = handle_push_event(&chars("{\"after\":"));
    assert_eq!(resp.status, 500);
    assert_eq!(resp.body, "");
    assert!(log.is_none());
}

#[test]
fn push_missing_required_field_500() {
    // The same payload without "after" is rejected.
    let payload = minimal_push_payload().replace("\"after\":\"a1\",", "");
    let (resp, log) = handle_push_event(&chars(&payload));
    assert_eq!(resp.status, 500);
    assert_eq!(resp.body, "");
    assert!(log.is_none());
}

#[test]
fn push_wrongly_typed_field_500() {
    let payload = minimal_push_payload().replace("\"created\":true", "\"created\":\"yes\"");
    let (resp, _) = handle_push_event(&chars(&payload));
    assert_eq!(resp.status, 500);
}

#[test]
fn ping_and_health_are_idempotent() {
    let ping = parts("/", &[("x-github-event", "ping")]);
    let (s1, b1) = respond_of(handle(&ping, Some(7)));
    let (s2, b2) = respond_of(handle(&ping, Some(900000)));
    assert_eq!((s1, b1), (s2, b2));

    let health = parts("/status", &[]);
    let (s3, b3) = respond_of(handle(&health, None));
    let (s4, b4) = respond_of(handle(&health, Some(u64::MAX)));
    assert_eq!((s3, b3), (s4, b4));
}

#[test]
fn internal_error_response_is_500_empty() {
    let r = internal_error_response();
    assert_eq!(r.status, 500);
    assert_eq!(r.body, "");
}

#[test]
fn log_line_reparses_to_the_same_rendering() {
    let body = chars(&minimal_push_payload());
    let (_, log) = handle_push_event(&body);
    let log = log.expect("logged");
    // Parsing the pretty log line and printing it again is a fixed point.
    let reparsed = parse_json(&chars(&log)).expect("log line is valid JSON");
    assert_eq!(text(&to_pretty(&reparsed)), log);
}

#[test]
fn push_event_fields_are_copied_from_the_payload() {
    let v = parse_json(&chars(&minimal_push_payload())).expect("valid");
    let p = PushEvent::from_json(&v).expect("well-formed");
    assert_eq!(p.after, chars("a1"));
    assert_eq!(p.before, chars("b2"));
    assert_eq!(p.ref_, chars("refs/heads/main"));
    assert!(p.created);
    assert!(!p.deleted);
    assert!(!p.forced);
    assert_eq!(p.commits.len(), 1);
    assert_eq!(p.commits[0].id, chars("c1"));
    assert_eq!(p.head_commit.message, chars("m"));
    assert_eq!(p.pusher.name, chars("alice"));
    assert_eq!(p.pusher.username, chars("alice1"));
    assert!(p.pusher.email.is_none());
    assert!(p.repository.is_none());
    assert!(p.base_ref.is_none());
}

#[test]
fn duplicate_keys_take_the_first_value() {
    let payload = minimal_push_payload().replace(
        "\"after\":\"a1\",",
        "\"after\":\"first\",\"after\":\"second\",",
    );
    let v = parse_json(&chars(&payload)).expect("valid");
    let p = PushEvent::from_json(&v).expect("well-formed");
    assert_eq!(p.after, chars("first"));
}

#[test]
fn user_from_json_accepts_null_email() {
    let v = parse_json(&chars(
        "{\"date\":\"d\",\"email\":null,\"name\":\"n\",\"username\":\"u\"}",
    ))
    .expect("valid");
    let u = User::from_json(&v).expect("well-formed");
    assert!(u.email.is_none());
    assert_eq!(u.name, chars("n"));
}

#[test]
fn commit_from_json_rejects_non_string_path() {
    let bad = minimal_commit().replace("[\"f.txt\"]", "[\"f.txt\",3]");
    let v = parse_json(&chars(&bad)).expect("valid json");
    assert!(Commits::from_json(&v).is_none());
}

#[test]
fn github_headers_are_copied_with_defaults() {
    let p = parts(
        "/",
        &[
            ("x-github-hook-id", "42"),
            ("x-github-event", "push"),
            ("x-hub-signature-256", "sha256=abc"),
            ("user-agent", "GitHub-Hookshot/xyz"),
        ],
    );
    let h = GithubHeader::from_request_parts(&p);
    assert_eq!(h.x_github_hook_id, "42");
    assert_eq!(h.x_github_event, "push");
    assert_eq!(h.x_github_delivery, "");
    assert!(h.x_hub_signature.is_none());
    assert_eq!(h.x_hub_signature_256.as_deref(), Some("sha256=abc"));
    assert_eq!(h.user_agent, "GitHub-Hookshot/xyz");
    assert_eq!(h.x_github_hook_installation_target_type, "");
}

#[test]
fn unreadable_header_value_counts_as_empty() {
    let p = RequestParts {
        path: "/".to_string(),
        headers: vec![HeaderField { name: "x-github-event".to_string(), value: None }],
    };
    let h = GithubHeader::from_request_parts(&p);
    assert_eq!(h.x_github_event, "");
}

#[test]
fn json_numbers_keep_their_spelling() {
    let v = parse_json(&chars("[0,-1,2.5,1e3]")).expect("valid");
    let printed = text(&to_pretty(&v));
    assert!(printed.contains("2.5"));
    assert!(printed.contains("1e3"));
    assert!(printed.contains("-1"));
}

#[test]
fn json_rejects_malformed_numbers() {
    assert!(parse_json(&chars("01")).is_none());
    assert!(parse_json(&chars("1.")).is_none());
    assert!(parse_json(&chars("-")).is_none());
    assert!(parse_json(&chars("1e")).is_none());
    assert!(parse_json(&chars("+1")).is_none());
}

#[test]
fn json_string_escapes_are_checked() {
    assert!(parse_json(&chars("\"a\\nb\"")).is_some());
    assert!(parse_json(&chars("\"\\u0041\"")).is_some());
    assert!(parse_json(&chars("\"\\x\"")).is_none());
    assert!(parse_json(&chars("\"\\u00g1\"")).is_none());
    assert!(parse_json(&chars("\"unterminated")).is_none());
    assert!(parse_json(&chars("\"raw\ttab\"")).is_none());
}

#[test]
fn json_rejects_trailing_garbage_and_accepts_whitespace() {
    assert!(parse_json(&chars("{} x")).is_none());
    assert!(parse_json(&chars("  { }  ")).is_some());
    assert!(parse_json(&chars("")).is_none());
    assert!(parse_json(&chars("   ")).is_none());
}

#[test]
fn json_rejects_trailing_commas() {
    assert!(parse_json(&chars("[1,]")).is_none());
    assert!(parse_json(&chars("{\"a\":1,}")).is_none());
    assert!(parse_json(&chars("[1,2]")).is_some());
}

#[test]
fn json_depth_is_limited() {
    let mut deep = String::new();
    for _ in 0..200 {
        deep.push('[');
    }
    for _ in 0..200 {
        deep.push(']');
    }
    assert!(parse_json(&chars(&deep)).is_none());
    assert!(parse_json(&chars("[[[[[[[[[[]]]]]]]]]]")).is_some());
}

#[test]
fn json_pretty_formats_scalars_and_containers() {
    let v = parse_json(&chars("{\"a\":[1,true,null],\"b\":\"s\"}")).expect("valid");
    let printed = text(&to_pretty(&v));
    assert_eq!(
        printed,
        "{\n  \"a\": [\n    1,\n    true,\n    null\n  ],\n  \"b\": \"s\"\n}"
    );
    let empty = parse_json(&chars("{\"a\":[],\"b\":{}}")).expect("valid");
    assert_eq!(text(&to_pretty(&empty)), "{\n  \"a\": [],\n  \"b\": {}\n}");
    assert_eq!(text(&to_pretty(&JsonValue::Null)), "null");
}

#[test]
fn port_defaults_and_parses() {
    assert_eq!(port_or_default(None), 3000);
    assert_eq!(port_or_default(Some(&chars("8080"))), 8080);
    assert_eq!(port_or_default(Some(&chars("+123"))), 123);
    assert_eq!(port_or_default(Some(&chars("0"))), 0);
    assert_eq!(port_or_default(Some(&chars("abc"))), 3000);
    assert_eq!(port_or_default(Some(&chars(""))), 3000);
    assert_eq!(port_or_default(Some(&chars("4294967295"))), 4294967295);
    assert_eq!(port_or_default(Some(&chars("4294967296"))), 3000);
    assert_eq!(db_path_or_default(Some("x.db".to_string())), "x.db");
    assert_eq!(db_path_or_default(None), "./db.sqlite");
}
