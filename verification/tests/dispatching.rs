use webhook_relay::base::Config;
use webhook_relay::dispatch::dispatch;
use webhook_relay::errors::Error;

fn config() -> Config {
    Config::new(Some(":)".to_string()))
}

const STAR_PAYLOAD: &str = r#"{
    "action": "created",
    "sender": {"login": "alice", "avatar_url": "http://a/alice", "html_url": "http://u/alice"},
    "repository": {"name": "lib", "html_url": "http://r/lib", "private": false},
    "unknown_extra_field": [1, 2, 3]
}"#;

#[test]
fn unknown_event_type_yields_no_message() {
    let r = dispatch("fork", b"{}", &config());
    assert_eq!(r.unwrap(), None);
}

#[test]
fn star_payload_is_dispatched() {
    let r = dispatch("star", STAR_PAYLOAD.as_bytes(), &config());
    let msg = r.unwrap().unwrap();
    assert_eq!(msg.content, "[alice](<http://u/alice>) starred [lib](<http://r/lib>) :)");
    assert_eq!(msg.username, "alice");
    assert_eq!(msg.avatar_url, "http://a/alice");
}

#[test]
fn private_star_payload_is_suppressed() {
    let payload = STAR_PAYLOAD.replace("\"private\": false", "\"private\": true");
    let r = dispatch("star", payload.as_bytes(), &config());
    assert_eq!(r.unwrap(), None);
}

#[test]
fn push_payload_is_dispatched() {
    let payload = r#"{
        "ref": "refs/heads/main",
        "commits": [{"id": "abc1234567",
                     "url": "http://x/commits/abc1234567",
                     "message": "fix bug\n\n[see](http://example.com/issue)"}],
        "pusher": {"name": "alice"},
        "sender": {"login": "alice", "avatar_url": "http://a/alice", "html_url": "http://u/alice"},
        "repository": {"name": "myorg/repo", "html_url": "http://r/repo", "private": false}
    }"#;
    let msg = dispatch("push", payload.as_bytes(), &config()).unwrap().unwrap();
    assert!(msg.content.contains(
        "[`abc1234`](<http://x/commits/abc1234567>) fix bug\n[see](<http://example.com/issue>)\n"
    ));
    assert!(msg.content.ends_with(
        "\n- [alice](<http://u/alice>) on [myorg/repo](<http://r/repo>)/[main](<http://r/repo/tree/main>)"
    ));
    assert_eq!(msg.username, "alice");
    assert_eq!(msg.avatar_url, "http://a/alice");
}

#[test]
fn bytes_that_are_not_json_give_a_parse_error() {
    let r = dispatch("star", b"not json at all", &config());
    assert!(matches!(r.unwrap_err(), Error::Parse(_)));
}

#[test]
fn json_of_the_wrong_shape_gives_a_parse_error_naming_the_field() {
    // a star payload without its repository
    let r = dispatch("star", b"{\"action\": \"created\", \"sender\": {}}", &config());
    match r.unwrap_err() {
        Error::Parse(m) => assert!(m.contains("repository")),
        e => panic!("unexpected error: {:?}", e),
    }
}

#[test]
fn mistyped_private_flag_gives_a_parse_error() {
    let payload = STAR_PAYLOAD.replace("\"private\": false", "\"private\": \"no\"");
    let r = dispatch("star", payload.as_bytes(), &config());
    match r.unwrap_err() {
        Error::Parse(m) => assert!(m.contains("repository")),
        e => panic!("unexpected error: {:?}", e),
    }
}

#[test]
fn push_with_a_malformed_commit_gives_a_parse_error() {
    let payload = r#"{
        "ref": "main",
        "commits": [{"id": "abc", "url": "http://x"}],
        "pusher": {},
        "sender": {},
        "repository": {"name": "r", "html_url": "http://r", "private": false}
    }"#;
    let r = dispatch("push", payload.as_bytes(), &config());
    match r.unwrap_err() {
        Error::Parse(m) => assert!(m.contains("commits")),
        e => panic!("unexpected error: {:?}", e),
    }
}
