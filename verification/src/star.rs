use vstd::prelude::*;
use serde_json::Value;
use crate::base::{
    Config, RepositoryView, Repository, User, UserView, WebhookMessage, WebhookMessageView,
    opt_message_view,
};
use crate::decode::{decode_repository, decode_user, repo_of, req_field_str, req_string, user_of};
use crate::errors::Error;
use crate::json::{get_field, json_doc, json_field};
use crate::text::{clip, clip_vec, push_chars, string_from_chars};

verus! {

/// Somebody starred (or unstarred) a repository.
pub struct StarEvent {
    pub action: String,
    pub sender: User,
    pub repository: Repository,
}

/// Mathematical image of a `StarEvent`.
pub ghost struct StarEventView {
    pub action: Seq<char>,
    pub sender: UserView,
    pub repository: RepositoryView,
}

impl View for StarEvent {
    type V = StarEventView;

    open spec fn view(&self) -> StarEventView {
        StarEventView {
            action: self.action@,
            sender: self.sender@,
            repository: self.repository@,
        }
    }
}

/// The star event a JSON document describes: `action` must be a string and
/// `sender` and `repository` must be present, `repository` with its required
/// fields.
pub open spec fn star_of(v: Value) -> Option<StarEventView> {
    match (req_field_str(v, "action"@), json_field(v, "sender"@), json_field(v, "repository"@)) {
        (Some(action), Some(sv), Some(rv)) => match repo_of(rv) {
            Some(repository) => Some(
                StarEventView { action, sender: user_of(sv), repository },
            ),
            None => None,
        },
        _ => None,
    }
}

/// The chat line a star event renders to: actor link, repository link, and
/// the celebratory marker.
pub open spec fn star_content(sv: StarEventView, emoji: Seq<char>) -> Seq<char> {
    "["@ + sv.sender.login + "](<"@ + sv.sender.html_url + ">) starred ["@ + sv.repository.name
        + "](<"@ + sv.repository.html_url + ">) "@ + emoji
}

/// What handling a star event yields: nothing for a private repository,
/// else the rendered message under the starrer's identity, its content
/// clipped to the character budget.
pub open spec fn star_result(sv: StarEventView, emoji: Seq<char>) -> Option<WebhookMessageView> {
    if sv.repository.private {
        None
    } else {
        Some(
            WebhookMessageView {
                content: clip(star_content(sv, emoji), crate::MAX_CONTENT_CHARS as int),
                username: sv.sender.login,
                avatar_url: sv.sender.avatar_url,
            },
        )
    }
}

impl StarEvent {
    /// Turns the event into its chat message.  Activity on a private
    /// repository is never announced: it yields no message at all.
    pub fn handle(&self, config: &Config) -> (r: Result<Option<WebhookMessage>, Error>)
        ensures
            r matches Ok(om) && opt_message_view(om) == star_result(
                self@,
                config.happy_emoji@,
            ),
            r matches Ok(om) && (om matches Some(m) ==> m@.content.len()
                <= crate::MAX_CONTENT_CHARS),
    {
        if self.repository.private {
            return Ok(None);
        }
        let mut content: Vec<char> = Vec::new();
        push_chars(&mut content, "[");
        push_chars(&mut content, self.sender.login.as_str());
        push_chars(&mut content, "](<");
        push_chars(&mut content, self.sender.html_url.as_str());
        push_chars(&mut content, ">) starred [");
        push_chars(&mut content, self.repository.name.as_str());
        push_chars(&mut content, "](<");
        push_chars(&mut content, self.repository.html_url.as_str());
        push_chars(&mut content, ">) ");
        push_chars(&mut content, config.happy_emoji.as_str());
        proof {
            assert(content@ =~= star_content(self@, config.happy_emoji@));
        }
        let content = clip_vec(content, crate::MAX_CONTENT_CHARS);
        Ok(
            Some(
                WebhookMessage {
                    content: string_from_chars(&content),
                    username: self.sender.login.clone(),
                    avatar_url: self.sender.avatar_url.clone(),
                },
            ),
        )
    }
}

/// Decodes a star event from raw payload bytes.
pub fn decode_star(payload: &[u8]) -> (r: Result<StarEvent, Error>)
    ensures
        match json_doc(payload@) {
            None => r matches Err(e) && e matches Error::Parse(_),
            Some(d) => match star_of(d) {
                None => r matches Err(e) && e matches Error::Parse(_),
                Some(sv) => r matches Ok(ev) && ev@ == sv,
            },
        },
{
    let doc = match crate::json::parse_json(payload) {
        Ok(d) => d,
        Err(m) => {
            return Err(Error::Parse(m));
        },
    };
    let action = match req_string(&doc, "action") {
        Some(s) => s,
        None => {
            return Err(Error::shape("action"));
        },
    };
    let sender_v = match get_field(&doc, "sender") {
        Some(f) => f,
        None => {
            return Err(Error::shape("sender"));
        },
    };
    let repo_v = match get_field(&doc, "repository") {
        Some(f) => f,
        None => {
            return Err(Error::shape("repository"));
        },
    };
    let sender = decode_user(sender_v);
    let repository = match decode_repository(repo_v) {
        Some(rp) => rp,
        None => {
            return Err(Error::shape("repository"));
        },
    };
    Ok(StarEvent { action, sender, repository })
}

/// The produced star message never exceeds the character budget, and
/// whenever the rendering fits that budget it mentions both the actor and
/// the repository by name: each occurs verbatim inside the content.
pub proof fn lemma_star_content_names(sv: StarEventView, emoji: Seq<char>)
    ensures
        star_result(sv, emoji) matches Some(m) ==> m.content.len() <= crate::MAX_CONTENT_CHARS,
        star_content(sv, emoji).len() <= crate::MAX_CONTENT_CHARS ==> (star_result(sv, emoji)
            matches Some(m) ==> {
            let login_at: int = 1;
            let name_at: int = 1 + sv.sender.login.len() as int + 3 + sv.sender.html_url.len() as int + 12;
            m.content.subrange(login_at, login_at + sv.sender.login.len()) == sv.sender.login
                && m.content.subrange(name_at, name_at + sv.repository.name.len())
                == sv.repository.name
        }),
{
    match star_result(sv, emoji) {
        Some(m) => {
            if star_content(sv, emoji).len() <= crate::MAX_CONTENT_CHARS {
                assert(m.content == star_content(sv, emoji));
                reveal_strlit("[");
                reveal_strlit("](<");
                reveal_strlit(">) starred [");
                reveal_strlit(">) ");
                let login_at: int = 1;
                let name_at: int = 1 + sv.sender.login.len() as int + 3 + sv.sender.html_url.len() as int + 12;
                assert(m.content.subrange(login_at, login_at + sv.sender.login.len())
                    =~= sv.sender.login);
                assert(m.content.subrange(name_at, name_at + sv.repository.name.len())
                    =~= sv.repository.name);
            }
        },
        None => {},
    }
}

} // verus!
