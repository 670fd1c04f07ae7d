use webhook_dispatch::dispatch::handle_push_event;

fn chars(s: &str) -> Vec<char> {
    s.chars().collect()
}

fn minimal_push_payload() -> String {
    let user = "{\"date\":\"2024-01-01T00:00:00Z\",\"name\":\"alice\",\"username\":\"alice1\"}";
    let commit = format!(
        "{{\"added\":[\"f.txt\"],\"author\":{u},\"committer\":{u},\"distinct\":true,\
         \"id\":\"c1\",\"message\":\"m\",\"timestamp\":\"t\",\"tree_id\":\"tr\",\"url\":\"u\"}}",
        u = user
    );
    format!(
        "{{\"after\":\"a1\",\"before\":\"b2\",\"ref\":\"refs/heads/main\",\
         \"created\":true,\"deleted\":false,\"forced\":false,\
         \"commits\":[{c}],\"head_commit\":{c},\"pusher\":{u}}}",
        c = commit,
        u = user
    )
}

#[test]
fn log_line_is_semantically_equal_to_the_payload() {
    let payload = minimal_push_payload();
    let (resp, log) = handle_push_event(&chars(&payload));
    assert_eq!(resp.status, 200);
    let log = log.expect("a well-formed push is logged");
    let logged: serde_json::Value = serde_json::from_str(&log).expect("log line is valid JSON");
    let sent: serde_json::Value = serde_json::from_str(&payload).expect("payload is valid JSON");
    assert_eq!(logged, sent);
}

#[test]
fn log_line_keeps_every_required_field() {
    let payload = minimal_push_payload();
    let (_, log) = handle_push_event(&chars(&payload));
    let logged: serde_json::Value =
        serde_json::from_str(&log.expect("logged")).expect("valid JSON");
    assert_eq!(logged["after"], "a1");
    assert_eq!(logged["before"], "b2");
    assert_eq!(logged["ref"], "refs/heads/main");
    assert_eq!(logged["created"], true);
    assert_eq!(logged["commits"][0]["id"], "c1");
    assert_eq!(logged["head_commit"]["author"]["name"], "alice");
    assert_eq!(logged["pusher"]["username"], "alice1");
}
