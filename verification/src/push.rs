use vstd::prelude::*;
use serde_json::Value;
use crate::base::{
    PushCommit, PushCommitView, Repository, RepositoryView, User, UserView, WebhookMessage,
    WebhookMessageView, opt_message_view,
};
use crate::decode::{decode_repository, decode_user, repo_of, req_field_str, req_string, user_of};
use crate::errors::Error;
use crate::json::{get_field, get_items, json_doc, json_field, json_items, parse_json};
use crate::text::{
    assemble, assemble_content, chars_of, push_chars, push_vec, rewrite_links, rewrite_links_vec,
    string_from_chars, strip_blank_lines, strip_blank_lines_vec,
};

verus! {

/// Somebody pushed commits to a branch.
pub struct PushEvent {
    pub commits: Vec<PushCommit>,
    pub ref_: String,
    pub pusher: User,
    pub sender: User,
    pub repository: Repository,
}

/// Mathematical image of a `PushEvent`.
pub ghost struct PushEventView {
    pub commits: Seq<PushCommitView>,
    pub ref_: Seq<char>,
    pub pusher: UserView,
    pub sender: UserView,
    pub repository: RepositoryView,
}

impl View for PushEvent {
    type V = PushEventView;

    open spec fn view(&self) -> PushEventView {
        PushEventView {
            commits: self.commits@.map_values(|c: PushCommit| c@),
            ref_: self.ref_@,
            pusher: self.pusher@,
            sender: self.sender@,
            repository: self.repository@,
        }
    }
}

/// The displayed form of a commit hash: its first seven characters
/// (all of it, if shorter).
pub open spec fn short_id(id: Seq<char>) -> Seq<char> {
    if id.len() <= 7 {
        id
    } else {
        id.subrange(0, 7)
    }
}

/// One rendered commit: a silent-embedded link on the short hash, then the
/// commit message with blank lines collapsed and inline links
/// silent-embedded, closed by a newline.
pub open spec fn commit_line(c: PushCommitView) -> Seq<char> {
    "[`"@ + short_id(c.id) + "`](<"@ + c.url + ">) "@ + rewrite_links(
        strip_blank_lines(c.message),
    ) + "\n"@
}

/// The rendered commit lines from index `i` on, concatenated.
pub open spec fn push_body_from(cs: Seq<PushCommitView>, i: int) -> Seq<char>
    decreases cs.len() - i when 0 <= i
{
    if i >= cs.len() {
        Seq::empty()
    } else {
        commit_line(cs[i]) + push_body_from(cs, i + 1)
    }
}

/// The branch a push ref names: a fixed `refs/heads/` prefix is stripped,
/// a ref without it is taken verbatim.
pub open spec fn branch_of(r: Seq<char>) -> Seq<char> {
    if r.len() >= 11 && r.subrange(0, 11) == "refs/heads/"@ {
        r.subrange(11, r.len() as int)
    } else {
        r
    }
}

/// The footer line: pusher link, repository link, and branch link.
pub open spec fn push_footer(pv: PushEventView) -> Seq<char> {
    "\n- ["@ + pv.pusher.name + "](<"@ + pv.sender.html_url + ">) on ["@ + pv.repository.name
        + "](<"@ + pv.repository.html_url + ">)/["@ + branch_of(pv.ref_) + "](<"@
        + pv.repository.html_url + "/tree/"@ + branch_of(pv.ref_) + ">)"@
}

/// The whole content of a push message: the rendered commit body and the
/// footer, joined under the character budget.
pub open spec fn push_content(pv: PushEventView) -> Seq<char> {
    assemble(push_body_from(pv.commits, 0), push_footer(pv))
}

/// What handling a push event yields: always a message, under the pusher's
/// name and the sender's avatar.
pub open spec fn push_result(pv: PushEventView) -> WebhookMessageView {
    WebhookMessageView {
        content: push_content(pv),
        username: pv.pusher.name,
        avatar_url: pv.sender.avatar_url,
    }
}

/// The branch name the push ref `r` denotes, as `branch_of` describes.
pub fn branch_str<'a>(r: &'a String) -> (b: &'a str)
    ensures
        b@ == branch_of(r@),
{
    let s = r.as_str();
    let n = s.unicode_len();
    if n >= 11 {
        let is_pref = s.get_char(0) == 'r' && s.get_char(1) == 'e' && s.get_char(2) == 'f'
            && s.get_char(3) == 's' && s.get_char(4) == '/' && s.get_char(5) == 'h' && s.get_char(
            6,
        ) == 'e' && s.get_char(7) == 'a' && s.get_char(8) == 'd' && s.get_char(9) == 's'
            && s.get_char(10) == '/';
        proof {
            reveal_strlit("refs/heads/");
            if is_pref {
                assert(r@.subrange(0, 11) =~= "refs/heads/"@);
            } else {
                if r@.subrange(0, 11) == "refs/heads/"@ {
                    assert(forall|j: int| 0 <= j < 11 ==> r@[j] == r@.subrange(0, 11)[j]);
                    assert(false);
                }
            }
        }
        if is_pref {
            return s.substring_char(11, n);
        }
        s
    } else {
        proof {
            reveal_strlit("refs/heads/");
        }
        s
    }
}

impl PushEvent {
    /// Renders the push into its chat message: one line per commit, cleaned
    /// up and silent-embedded, truncated to the character budget, then the
    /// footer naming pusher, repository and branch.
    pub fn handle(&self) -> (r: Result<Option<WebhookMessage>, Error>)
        ensures
            r matches Ok(om) && opt_message_view(om) == Some(push_result(self@)),
            r matches Ok(om) && (om matches Some(m) ==> m@.content.len()
                <= crate::MAX_CONTENT_CHARS),
    {
        proof {
            lemma_push_content_budget(self@);
        }
        let ghost cviews = self.commits@.map_values(|c: PushCommit| c@);
        let mut body: Vec<char> = Vec::new();
        proof {
            assert(body@ + push_body_from(cviews, 0) =~= push_body_from(cviews, 0));
        }
        let mut idx: usize = 0;
        while idx < self.commits.len()
            invariant
                idx <= self.commits@.len(),
                cviews == self.commits@.map_values(|c: PushCommit| c@),
                body@ + push_body_from(cviews, idx as int) == push_body_from(cviews, 0),
            decreases self.commits@.len() - idx,
        {
            let ghost b0 = body@;
            let c = &self.commits[idx];
            proof {
                assert(cviews[idx as int] == c@);
            }
            push_chars(&mut body, "[`");
            let id_str = c.id.as_str();
            let idlen = id_str.unicode_len();
            if idlen <= 7 {
                push_chars(&mut body, id_str);
            } else {
                push_chars(&mut body, id_str.substring_char(0, 7));
            }
            push_chars(&mut body, "`](<");
            push_chars(&mut body, c.url.as_str());
            push_chars(&mut body, ">) ");
            let msg_chars = chars_of(c.message.as_str());
            let stripped = strip_blank_lines_vec(&msg_chars);
            let rewritten = rewrite_links_vec(&stripped);
            push_vec(&mut body, &rewritten);
            push_chars(&mut body, "\n");
            proof {
                assert(body@ =~= b0 + commit_line(cviews[idx as int]));
                assert(push_body_from(cviews, idx as int) == commit_line(cviews[idx as int])
                    + push_body_from(cviews, idx + 1));
                assert(body@ + push_body_from(cviews, idx + 1) =~= b0 + push_body_from(
                    cviews,
                    idx as int,
                ));
            }
            idx += 1;
        }
        proof {
            assert(push_body_from(cviews, idx as int) =~= Seq::<char>::empty());
            assert(body@ =~= push_body_from(cviews, 0));
        }
        let mut footer: Vec<char> = Vec::new();
        push_chars(&mut footer, "\n- [");
        push_chars(&mut footer, self.pusher.name.as_str());
        push_chars(&mut footer, "](<");
        push_chars(&mut footer, self.sender.html_url.as_str());
        push_chars(&mut footer, ">) on [");
        push_chars(&mut footer, self.repository.name.as_str());
        push_chars(&mut footer, "](<");
        push_chars(&mut footer, self.repository.html_url.as_str());
        push_chars(&mut footer, ">)/[");
        let branch = branch_str(&self.ref_);
        push_chars(&mut footer, branch);
        push_chars(&mut footer, "](<");
        push_chars(&mut footer, self.repository.html_url.as_str());
        push_chars(&mut footer, "/tree/");
        push_chars(&mut footer, branch);
        push_chars(&mut footer, ">)");
        proof {
            assert(footer@ =~= push_footer(self@));
        }
        let content = assemble_content(&body, &footer);
        Ok(
            Some(
                WebhookMessage {
                    content: string_from_chars(&content),
                    username: self.pusher.name.clone(),
                    avatar_url: self.sender.avatar_url.clone(),
                },
            ),
        )
    }
}

/// The content of a push message never exceeds the character budget; and a
/// rendered body that fits its budget reaches the message untouched, with
/// the whole footer and no truncation artifact.
pub proof fn lemma_push_content_budget(pv: PushEventView)
    ensures
        push_content(pv).len() <= crate::MAX_CONTENT_CHARS,
        push_body_from(pv.commits, 0).len() + push_footer(pv).len() + 4
            <= crate::MAX_CONTENT_CHARS ==> push_content(pv) == push_body_from(pv.commits, 0)
            + push_footer(pv),
{
    crate::text::lemma_truncation_budget(push_body_from(pv.commits, 0), push_footer(pv));
}

/// The push event a JSON document describes: `commits` must be an array of
/// commits each with string `id`, `url` and `message`, `ref` a string, and
/// `pusher`, `sender` and `repository` present.
pub open spec fn push_of(v: Value) -> Option<PushEventView> {
    match (json_field(v, "commits"@), req_field_str(v, "ref"@), json_field(v, "pusher"@),
    json_field(v, "sender"@), json_field(v, "repository"@)) {
        (Some(cv), Some(ref_), Some(pv), Some(sv), Some(rv)) => {
            match (json_items(cv), repo_of(rv)) {
                (Some(items), Some(repository)) => match commits_of(items, 0) {
                    Some(commits) => Some(
                        PushEventView {
                            commits,
                            ref_,
                            pusher: user_of(pv),
                            sender: user_of(sv),
                            repository,
                        },
                    ),
                    None => None,
                },
                _ => None,
            }
        },
        _ => None,
    }
}

/// The commit a JSON value describes: `id`, `url` and `message` must all be
/// strings.
pub open spec fn commit_of(v: Value) -> Option<PushCommitView> {
    match (req_field_str(v, "id"@), req_field_str(v, "url"@), req_field_str(v, "message"@)) {
        (Some(id), Some(url), Some(message)) => Some(PushCommitView { id, url, message }),
        _ => None,
    }
}

/// The commits the array elements from index `i` on describe; `None` as soon
/// as one element is not a commit.
pub open spec fn commits_of(items: Seq<Value>, i: int) -> Option<Seq<PushCommitView>>
    decreases items.len() - i when 0 <= i
{
    if i >= items.len() {
        Some(Seq::empty())
    } else {
        match (commit_of(items[i]), commits_of(items, i + 1)) {
            (Some(c), Some(rest)) => Some(seq![c] + rest),
            _ => None,
        }
    }
}

/// Decodes one commit of the `commits` array.
fn decode_commit(v: &Value) -> (r: Option<PushCommit>)
    ensures
        match r {
            Some(c) => commit_of(*v) == Some(c@),
            None => commit_of(*v) is None,
        },
{
    match (req_string(v, "id"), req_string(v, "url"), req_string(v, "message")) {
        (Some(id), Some(url), Some(message)) => Some(PushCommit { id, url, message }),
        _ => None,
    }
}

/// Decodes a push event from raw payload bytes.
#[verifier::loop_isolation(false)]
pub fn decode_push(payload: &[u8]) -> (r: Result<PushEvent, Error>)
    ensures
        match json_doc(payload@) {
            None => r matches Err(e) && e matches Error::Parse(_),
            Some(d) => match push_of(d) {
                None => r matches Err(e) && e matches Error::Parse(_),
                Some(pv) => r matches Ok(ev) && ev@ == pv,
            },
        },
{
    let doc = match parse_json(payload) {
        Ok(d) => d,
        Err(m) => {
            return Err(Error::Parse(m));
        },
    };
    let commits_v = match get_field(&doc, "commits") {
        Some(f) => f,
        None => {
            return Err(Error::shape("commits"));
        },
    };
    let items = match get_items(commits_v) {
        Some(a) => a,
        None => {
            return Err(Error::shape("commits"));
        },
    };
    let ref_ = match req_string(&doc, "ref") {
        Some(s) => s,
        None => {
            return Err(Error::shape("ref"));
        },
    };
    let pusher_v = match get_field(&doc, "pusher") {
        Some(f) => f,
        None => {
            return Err(Error::shape("pusher"));
        },
    };
    let sender_v = match get_field(&doc, "sender") {
        Some(f) => f,
        None => {
            return Err(Error::shape("sender"));
        },
    };
    let repo_v = match get_field(&doc, "repository") {
        Some(f) => f,
        None => {
            return Err(Error::shape("repository"));
        },
    };
    let mut commits: Vec<PushCommit> = Vec::new();
    proof {
        assert(commits@.map_values(|c: PushCommit| c@) =~= Seq::<PushCommitView>::empty());
    }
    let mut i: usize = 0;
    while i < items.len()
        invariant
            i <= items@.len(),
            match commits_of(items@, i as int) {
                Some(rest) => commits_of(items@, 0) == Some(
                    commits@.map_values(|c: PushCommit| c@) + rest,
                ),
                None => commits_of(items@, 0) is None,
            },
        decreases items@.len() - i,
    {
        let ghost prev = commits@.map_values(|c: PushCommit| c@);
        let c = match decode_commit(&items[i]) {
            Some(c) => c,
            None => {
                proof {
                    assert(commits_of(items@, i as int) is None);
                    assert(commits_of(items@, 0) is None);
                }
                return Err(Error::shape("commits"));
            },
        };
        commits.push(c);
        proof {
            assert(commits@.map_values(|cc: PushCommit| cc@) =~= prev + seq![c@]);
            match commits_of(items@, i + 1) {
                Some(rest2) => {
                    assert(commits_of(items@, i as int) == Some(seq![c@] + rest2));
                    assert(prev + (seq![c@] + rest2) =~= (prev + seq![c@]) + rest2);
                },
                None => {
                    assert(commits_of(items@, i as int) is None);
                },
            }
        }
        i += 1;
    }
    proof {
        assert(commits_of(items@, i as int) == Some(Seq::<PushCommitView>::empty()));
        assert(commits@.map_values(|c: PushCommit| c@) + Seq::<PushCommitView>::empty()
            =~= commits@.map_values(|c: PushCommit| c@));
    }
    let pusher = decode_user(pusher_v);
    let sender = decode_user(sender_v);
    let repository = match decode_repository(repo_v) {
        Some(rp) => rp,
        None => {
            return Err(Error::shape("repository"));
        },
    };
    Ok(PushEvent { commits, ref_, pusher, sender, repository })
}

} // verus!
