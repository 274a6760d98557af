use webhook_relay::base::{Config, PushCommit, Repository, User};
use webhook_relay::push::{PushEvent, branch_str};
use webhook_relay::star::StarEvent;

fn actor(login: &str, name: &str) -> User {
    User {
        login: login.to_string(),
        name: name.to_string(),
        avatar_url: format!("http://avatars/{}", login),
        html_url: format!("http://users/{}", login),
    }
}

fn repo(name: &str, private: bool) -> Repository {
    Repository {
        name: name.to_string(),
        html_url: format!("http://repos/{}", name),
        private,
    }
}

#[test]
fn star_on_private_repository_is_suppressed() {
    let ev = StarEvent {
        action: "created".to_string(),
        sender: actor("alice", ""),
        repository: repo("secret", true),
    };
    let config = Config::new(Some(":)".to_string()));
    assert_eq!(ev.handle(&config).unwrap(), None);
}

#[test]
fn star_on_public_repository_produces_message() {
    let ev = StarEvent {
        action: "created".to_string(),
        sender: actor("alice", ""),
        repository: repo("lib", false),
    };
    let config = Config::new(Some(":)".to_string()));
    let msg = ev.handle(&config).unwrap().unwrap();
    assert_eq!(
        msg.content,
        "[alice](<http://users/alice>) starred [lib](<http://repos/lib>) :)"
    );
    assert_eq!(msg.username, "alice");
    assert_eq!(msg.avatar_url, "http://avatars/alice");
    assert!(msg.content.contains("alice"));
    assert!(msg.content.contains("lib"));
}

#[test]
fn star_content_is_clipped_to_the_budget() {
    let ev = StarEvent {
        action: "created".to_string(),
        sender: actor(&"a".repeat(3000), ""),
        repository: repo("lib", false),
    };
    let config = Config::new(Some(":)".to_string()));
    let msg = ev.handle(&config).unwrap().unwrap();
    assert_eq!(msg.content.chars().count(), 2000);
}

#[test]
fn unset_marker_falls_back_to_paw_prints() {
    let config = Config::new(None);
    assert_eq!(config.happy_emoji, "\u{1F43E}");
}

#[test]
fn branch_is_derived_by_stripping_the_ref_prefix() {
    assert_eq!(branch_str(&"refs/heads/main".to_string()), "main");
    assert_eq!(branch_str(&"main".to_string()), "main");
}

fn one_commit_push() -> PushEvent {
    PushEvent {
        commits: vec![PushCommit {
            id: "abc1234567".to_string(),
            url: "http://x/commits/abc1234567".to_string(),
            message: "fix bug\n\n[see](http://example.com/issue)".to_string(),
        }],
        ref_: "refs/heads/main".to_string(),
        pusher: actor("alice", "alice"),
        sender: actor("alice", "alice"),
        repository: repo("myorg/repo", false),
    }
}

#[test]
fn push_renders_commit_line_and_footer() {
    let msg = one_commit_push().handle().unwrap().unwrap();
    assert!(msg.content.contains(
        "[`abc1234`](<http://x/commits/abc1234567>) fix bug\n[see](<http://example.com/issue>)\n"
    ));
    assert!(msg.content.ends_with(
        "\n- [alice](<http://users/alice>) on [myorg/repo](<http://repos/myorg/repo>)\
         /[main](<http://repos/myorg/repo/tree/main>)"
    ));
    assert_eq!(msg.username, "alice");
    assert_eq!(msg.avatar_url, "http://avatars/alice");
}

#[test]
fn push_with_short_hash_displays_it_whole() {
    let mut ev = one_commit_push();
    ev.commits[0].id = "ab".to_string();
    let msg = ev.handle().unwrap().unwrap();
    assert!(msg.content.contains("[`ab`](<"));
}

#[test]
fn short_content_is_not_truncated() {
    let msg = one_commit_push().handle().unwrap().unwrap();
    assert!(msg.content.chars().count() <= 2000);
    assert!(!msg.content.contains("..."));
}

const FOOTER: &str = "\n- [alice](<http://users/alice>) on [myorg/repo](<http://repos/myorg/repo>)/[main](<http://repos/myorg/repo/tree/main>)";

#[test]
fn push_with_no_commits_yields_footer_only() {
    let mut ev = one_commit_push();
    ev.commits = vec![];
    let msg = ev.handle().unwrap().unwrap();
    assert_eq!(msg.content, FOOTER);
}

#[test]
fn truncation_drops_a_broken_line_whole() {
    let mut ev = one_commit_push();
    ev.commits[0].message = "x".repeat(3000);
    let msg = ev.handle().unwrap().unwrap();
    // the one over-long line is dropped entirely; only its closing newline
    // and the footer remain
    assert_eq!(msg.content, format!("\n{}", FOOTER));
}

#[test]
fn truncation_is_best_effort_on_multi_line_links() {
    // Known, accepted limitation: dropping the last line after the cut is a
    // heuristic.  A single link whose URL spans many lines can still be cut
    // apart; only the character budget itself is guaranteed.
    let mut ev = one_commit_push();
    ev.commits[0].message = format!("[a](http://x/{})", "y\n".repeat(1500));
    let msg = ev.handle().unwrap().unwrap();
    assert!(msg.content.chars().count() <= 2000);
}

#[test]
fn long_content_is_truncated_to_the_budget() {
    let mut ev = one_commit_push();
    ev.commits = (0..60)
        .map(|i| PushCommit {
            id: format!("{:040}", i),
            url: format!("http://x/commits/{}", i),
            message: "a commit message that takes a fair amount of room".to_string(),
        })
        .collect();
    let msg = ev.handle().unwrap().unwrap();
    assert!(msg.content.chars().count() <= 2000);
    // the truncated body still ends on a whole line before the footer
    assert!(msg.content.contains("\n\n- [alice](<"));
}
