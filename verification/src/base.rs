use vstd::prelude::*;

verus! {

/// Identity of whoever triggered an event: the pusher, sender or starrer.
/// Providers omit some of these fields depending on the role, so every
/// field defaults to the empty string when the payload leaves it out.
pub struct User {
    pub login: String,
    pub name: String,
    pub avatar_url: String,
    pub html_url: String,
}

/// Mathematical image of a `User`.
pub ghost struct UserView {
    pub login: Seq<char>,
    pub name: Seq<char>,
    pub avatar_url: Seq<char>,
    pub html_url: Seq<char>,
}

impl View for User {
    type V = UserView;

    open spec fn view(&self) -> UserView {
        UserView {
            login: self.login@,
            name: self.name@,
            avatar_url: self.avatar_url@,
            html_url: self.html_url@,
        }
    }
}

/// The repository an event happened on.
pub struct Repository {
    pub name: String,
    pub html_url: String,
    pub private: bool,
}

/// Mathematical image of a `Repository`.
pub ghost struct RepositoryView {
    pub name: Seq<char>,
    pub html_url: Seq<char>,
    pub private: bool,
}

impl View for Repository {
    type V = RepositoryView;

    open spec fn view(&self) -> RepositoryView {
        RepositoryView { name: self.name@, html_url: self.html_url@, private: self.private }
    }
}

/// One commit of a push: a full hash, the commit's web address, and its message.
pub struct PushCommit {
    pub id: String,
    pub url: String,
    pub message: String,
}

/// Mathematical image of a `PushCommit`.
pub ghost struct PushCommitView {
    pub id: Seq<char>,
    pub url: Seq<char>,
    pub message: Seq<char>,
}

impl View for PushCommit {
    type V = PushCommitView;

    open spec fn view(&self) -> PushCommitView {
        PushCommitView { id: self.id@, url: self.url@, message: self.message@ }
    }
}

/// The normalized outbound chat message.  `content` never exceeds
/// `crate::MAX_CONTENT_CHARS` characters when produced by this crate's
/// handlers.
#[derive(Debug, PartialEq)]
pub struct WebhookMessage {
    pub content: String,
    pub username: String,
    pub avatar_url: String,
}

/// Mathematical image of a `WebhookMessage`.
pub ghost struct WebhookMessageView {
    pub content: Seq<char>,
    pub username: Seq<char>,
    pub avatar_url: Seq<char>,
}

impl View for WebhookMessage {
    type V = WebhookMessageView;

    open spec fn view(&self) -> WebhookMessageView {
        WebhookMessageView {
            content: self.content@,
            username: self.username@,
            avatar_url: self.avatar_url@,
        }
    }
}

/// The view of an optional outbound message, for contracts that speak about
/// both the suppressed and the produced case at once.
pub open spec fn opt_message_view(om: Option<WebhookMessage>) -> Option<WebhookMessageView> {
    match om {
        Option::Some(m) => Option::Some(m@),
        Option::None => Option::None,
    }
}

/// Opaque routing and auth information for the delivery target.  The core
/// never reads it; the surrounding plumbing hands it to the delivery adapter.
pub struct Credentials {
    pub id: String,
    pub token: String,
}

/// The one configuration value the core consumes: the celebratory marker
/// appended to star announcements.  Built once at startup and passed into
/// the handlers that need it.
pub struct Config {
    pub happy_emoji: String,
}

/// The fixed fallback for the celebratory marker: a paw-print glyph.
pub open spec fn default_happy_emoji() -> Seq<char> {
    "\u{1F43E}"@
}

impl Config {
    /// Builds the configuration from an optional externally supplied marker,
    /// falling back to the paw-print glyph when unset.
    pub fn new(happy_emoji: Option<String>) -> (c: Config)
        ensures
            c.happy_emoji@ == match happy_emoji {
                Option::Some(s) => s@,
                Option::None => default_happy_emoji(),
            },
    {
        match happy_emoji {
            Option::Some(s) => Config { happy_emoji: s },
            Option::None => Config { happy_emoji: "\u{1F43E}".to_owned() },
        }
    }
}

} // verus!
