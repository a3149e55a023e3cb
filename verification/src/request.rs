//! Page requests against the remote follow-graph API.
//!
//! One `Request` describes a single fetch of one page of an actor's follow
//! listing: the actor, an optional continuation cursor, and the page size.
//! The page size is fixed at the API's maximum so a complete listing takes
//! as few requests as possible.

use vstd::prelude::*;

verus! {

/// The largest page size the remote follow-graph API accepts.
pub const PAGE_LIMIT: u8 = 100;

/// A single page request: who to list, where to continue, how much to ask for.
pub struct Request {
    /// The actor whose follow listing is requested.
    pub actor: String,
    /// Continuation cursor from the previous page; `None` asks for the first page.
    pub cursor: Option<String>,
    /// Page size; always `PAGE_LIMIT`.
    pub limit: u8,
}

impl Request {
    /// The request for the first page of `actor`'s follow listing.
    pub fn first_page(actor: String) -> (r: Request)
        ensures
            r.actor == actor,
            r.cursor is None,
            r.limit == PAGE_LIMIT,
    {
        Request { actor, cursor: None, limit: PAGE_LIMIT }
    }

    /// The request that continues `actor`'s listing from `cursor`.
    pub fn next_page(actor: String, cursor: String) -> (r: Request)
        ensures
            r.actor == actor,
            r.cursor == Some(cursor),
            r.limit == PAGE_LIMIT,
    {
        Request { actor, cursor: Some(cursor), limit: PAGE_LIMIT }
    }
}

} // verus!
