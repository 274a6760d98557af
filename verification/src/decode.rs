use vstd::prelude::*;
use serde_json::Value;
use crate::base::{Repository, RepositoryView, User, UserView};
use crate::json::{get_bool, get_field, get_str, json_bool, json_field, json_str};

verus! {

/// The text held under `key`, with the empty string for a missing key or a
/// non-string value.  Providers omit identity fields depending on the role,
/// so these decode tolerantly.
pub open spec fn field_str_or_empty(v: Value, key: Seq<char>) -> Seq<char> {
    match json_field(v, key) {
        Some(f) => match json_str(f) {
            Some(s) => s,
            None => Seq::empty(),
        },
        None => Seq::empty(),
    }
}

/// The text held under a required `key`: `None` when the key is missing or
/// the value is not a string.
pub open spec fn req_field_str(v: Value, key: Seq<char>) -> Option<Seq<char>> {
    match json_field(v, key) {
        Some(f) => json_str(f),
        None => None,
    }
}

/// The boolean held under a required `key`: `None` when the key is missing
/// or the value is not a boolean.
pub open spec fn req_field_bool(v: Value, key: Seq<char>) -> Option<bool> {
    match json_field(v, key) {
        Some(f) => json_bool(f),
        None => None,
    }
}

/// The actor a JSON value describes; every field tolerantly defaults to the
/// empty string.  Providers fill different fields per role (a pusher has a
/// `name`, a sender a `login`), so none can be required.  A produced
/// message copies these fields verbatim: that its username and avatar are
/// non-empty rests on the provider sending the role's fields, which the
/// contracts do not assume.
pub open spec fn user_of(v: Value) -> UserView {
    UserView {
        login: field_str_or_empty(v, "login"@),
        name: field_str_or_empty(v, "name"@),
        avatar_url: field_str_or_empty(v, "avatar_url"@),
        html_url: field_str_or_empty(v, "html_url"@),
    }
}

/// The repository a JSON value describes: `name` and `html_url` must be
/// strings and `private` a boolean, else the shape is rejected.
pub open spec fn repo_of(v: Value) -> Option<RepositoryView> {
    match (req_field_str(v, "name"@), req_field_str(v, "html_url"@), req_field_bool(
        v,
        "private"@,
    )) {
        (Some(name), Some(html_url), Some(private)) => Some(
            RepositoryView { name, html_url, private },
        ),
        _ => None,
    }
}

/// Reads the text under `key`, with the empty string as tolerant default.
pub fn field_string_or_empty(v: &Value, key: &str) -> (s: String)
    ensures
        s@ == field_str_or_empty(*v, key@),
{
    match get_field(v, key) {
        Some(f) => match get_str(f) {
            Some(s) => s,
            None => String::new(),
        },
        None => String::new(),
    }
}

/// Reads the text under a required `key`.
pub fn req_string(v: &Value, key: &str) -> (r: Option<String>)
    ensures
        match r {
            Some(s) => req_field_str(*v, key@) == Some(s@),
            None => req_field_str(*v, key@) is None,
        },
{
    match get_field(v, key) {
        Some(f) => get_str(f),
        None => None,
    }
}

/// Reads the boolean under a required `key`.
pub fn req_bool(v: &Value, key: &str) -> (r: Option<bool>)
    ensures
        r == req_field_bool(*v, key@),
{
    match get_field(v, key) {
        Some(f) => get_bool(f),
        None => None,
    }
}

/// Decodes an actor; this never fails.
pub fn decode_user(v: &Value) -> (u: User)
    ensures
        u@ == user_of(*v),
{
    User {
        login: field_string_or_empty(v, "login"),
        name: field_string_or_empty(v, "name"),
        avatar_url: field_string_or_empty(v, "avatar_url"),
        html_url: field_string_or_empty(v, "html_url"),
    }
}

/// Decodes a repository, rejecting a value without the required fields.
pub fn decode_repository(v: &Value) -> (r: Option<Repository>)
    ensures
        match r {
            Some(repo) => repo_of(*v) == Some(repo@),
            None => repo_of(*v) is None,
        },
{
    match (req_string(v, "name"), req_string(v, "html_url"), req_bool(v, "private")) {
        (Some(name), Some(html_url), Some(private)) => Some(
            Repository { name, html_url, private },
        ),
        _ => None,
    }
}

} // verus!
