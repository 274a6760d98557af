//! A webhook relay core: turns source-control provider event notifications
//! into normalized chat messages.
//!
//! The dispatcher maps an event type name to the matching event shape,
//! decodes the raw JSON payload, and hands the decoded event to its handler.
//! Handlers apply the per-event transformation rules — blank-line cleanup,
//! silent-embed link rewriting, truncation to the character budget,
//! suppression of private-repository activity — and produce the outbound
//! message.  The surrounding plumbing (HTTP listening, configuration
//! loading, outbound delivery) lives outside this crate.

use vstd::prelude::*;

pub mod base;
pub mod decode;
pub mod dispatch;
pub mod errors;
pub mod json;
pub mod push;
pub mod star;
pub mod text;

verus! {

/// The hard character budget for an outbound message's content.
pub const MAX_CONTENT_CHARS: usize = 2000;

} // verus!
