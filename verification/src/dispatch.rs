use vstd::prelude::*;
use crate::base::{Config, WebhookMessage, opt_message_view};
use crate::errors::Error;
use crate::json::json_doc;
use crate::push::{decode_push, push_of, push_result};
use crate::star::{decode_star, star_of, star_result};
use crate::text::str_eq;

verus! {

/// What dispatching a `star` payload must yield: a parse failure for bytes
/// that are not JSON, a schema failure for JSON of the wrong shape, else
/// exactly the handled star event.
pub open spec fn star_dispatch_post(
    r: Result<Option<WebhookMessage>, Error>,
    bytes: Seq<u8>,
    emoji: Seq<char>,
) -> bool {
    match json_doc(bytes) {
        None => r matches Err(e) && e matches Error::Parse(_),
        Some(d) => match star_of(d) {
            None => r matches Err(e) && e matches Error::Parse(_),
            Some(sv) => r matches Ok(om) && opt_message_view(om) == star_result(sv, emoji),
        },
    }
}

/// What dispatching a `push` payload must yield, likewise.
pub open spec fn push_dispatch_post(
    r: Result<Option<WebhookMessage>, Error>,
    bytes: Seq<u8>,
) -> bool {
    match json_doc(bytes) {
        None => r matches Err(e) && e matches Error::Parse(_),
        Some(d) => match push_of(d) {
            None => r matches Err(e) && e matches Error::Parse(_),
            Some(pv) => r matches Ok(om) && opt_message_view(om) == Some(push_result(pv)),
        },
    }
}

/// Maps the event type name a request header carries to the matching
/// decoder and handler.  Unknown event types are no error: they yield no
/// message at all, so that event types this service does not handle pass
/// through silently.
pub fn dispatch(event_type: &str, payload: &[u8], config: &Config) -> (r: Result<
    Option<WebhookMessage>,
    Error,
>)
    ensures
        event_type@ == "star"@ ==> star_dispatch_post(r, payload@, config.happy_emoji@),
        event_type@ == "push"@ ==> push_dispatch_post(r, payload@),
        event_type@ != "star"@ && event_type@ != "push"@ ==> r == Result::<
            Option<WebhookMessage>,
            Error,
        >::Ok(None),
{
    proof {
        reveal_strlit("star");
        reveal_strlit("push");
        assert("star"@[0] != "push"@[0]);
    }
    if str_eq(event_type, "star") {
        match decode_star(payload) {
            Ok(ev) => ev.handle(config),
            Err(e) => Err(e),
        }
    } else if str_eq(event_type, "push") {
        match decode_push(payload) {
            Ok(ev) => ev.handle(),
            Err(e) => Err(e),
        }
    } else {
        Ok(None)
    }
}

} // verus!
