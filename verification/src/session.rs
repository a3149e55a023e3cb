//! One session, from the ask screen to the connected graph.
//!
//! The session advances through three stages: asking for a handle,
//! seeding the crawl from the root's profile, and the connected stage in
//! which per-actor crawls and the layout run together.  A reset discards
//! the crawler, the store inside it and the layout in one step, so no
//! stale crawl state is ever visible afterwards.

use vstd::prelude::*;

use crate::crawler::Crawler;
use crate::identity::ActorId;
use crate::layout::Layout;
use crate::layout::LayoutConfig;
use crate::request::Request;

verus! {

/// The root account's public profile, as far as the session reads it.
pub struct Profile {
    /// The account's handle.
    pub handle: String,
    /// Where to fetch the account's avatar, when it has one.
    pub avatar: Option<String>,
    /// Approximate follow count; some accounts do not expose it.
    pub follows_count: Option<u32>,
}

/// The stage the session stands at.
#[derive(Clone, Copy, PartialEq, Eq, Structural)]
pub enum Stage {
    /// Waiting for a handle and its profile.
    Ask,
    /// Seeding: the root's own follow listing is being consumed.
    Get,
    /// Per-actor crawls and the layout run together.
    Connect,
}

/// Everything one session keeps: the stage, the root's profile, the last
/// lookup error for display, the crawler and the layout.
pub struct Stuff {
    /// The stage the session stands at.
    pub stage: Stage,
    /// The root's profile, once its lookup succeeded.
    pub profile: Option<Profile>,
    /// The last profile lookup error, kept for display at the ask screen.
    pub error: Option<String>,
    /// The crawl, from the `Get` stage on.
    pub crawler: Option<Crawler>,
    /// The layout controller, from the `Connect` stage on.
    pub layout: Option<Layout>,
}

impl Stuff {
    /// What each stage guarantees: no crawl state before `Get`, a
    /// well-formed crawl from `Get` on, and from `Connect` on a layout
    /// whose slots align index-for-index with the store's nodes, with the
    /// root — the last node inserted — anchoring it.
    pub open spec fn wf(self) -> bool {
        &&& self.stage is Ask ==> self.crawler is None && self.layout is None
        &&& self.stage is Get ==> {
            &&& self.crawler matches Some(c) && c.wf()
            &&& self.layout is None
        }
        &&& self.stage is Connect ==> {
            &&& self.crawler matches Some(c) && c.wf() && c.seed is Complete && (
            self.layout matches Some(l) && l.wf()
                && l.nodes@.len() == c.store@.nodes.len()
                && c.root_index == c.store@.nodes.len() - 1)
        }
    }

    /// A fresh session at the ask screen.
    pub fn new() -> (s: Stuff)
        ensures
            s.wf(),
            s.stage is Ask,
            s.profile is None,
            s.error is None,
            s.crawler is None,
            s.layout is None,
    {
        Stuff { stage: Stage::Ask, profile: None, error: None, crawler: None, layout: None }
    }

    /// The root's profile lookup succeeded: the session keeps the profile,
    /// clears any displayed error and enters the seeding stage, with the
    /// request for the first page of the root's listing in flight.
    pub fn begin_crawl(&mut self, actor: &ActorId, profile: Profile) -> (req: Request)
        requires
            old(self).wf(),
            old(self).stage is Ask,
        ensures
            final(self).wf(),
            final(self).stage is Get,
            final(self).profile matches Some(p) && p == profile,
            final(self).error is None,
            final(self).layout is None,
            ({
                &&& final(self).crawler matches Some(c)
                &&& c.wf()
                &&& c.root@ == actor@
                &&& c.seed is Active
                &&& c.store@.nodes.len() == 0
                &&& c.tasks@.len() == 0
            }),
            req.actor@ == actor@,
            req.cursor is None,
    {
        let (crawler, req) = Crawler::new(actor);
        self.stage = Stage::Get;
        self.profile = Some(profile);
        self.error = None;
        self.crawler = Some(crawler);
        req
    }

    /// The root's profile lookup failed.  The error text is kept for
    /// display and the session stays at the ask screen; whether to try
    /// again is the caller's decision.
    pub fn profile_failed(&mut self, message: String)
        requires
            old(self).wf(),
            old(self).stage is Ask,
        ensures
            final(self).wf(),
            final(self).stage is Ask,
            final(self).error matches Some(m) && m == message,
            final(self).profile == old(self).profile,
            final(self).crawler is None,
            final(self).layout is None,
    {
        self.error = Some(message);
    }

    /// Seeding finished: builds the layout over exactly the discovered
    /// nodes — the root, inserted last, anchors it — and enters the
    /// connected stage.  Positions start at the origin.
    pub fn enter_connect(&mut self, config: LayoutConfig)
        requires
            old(self).wf(),
            old(self).stage is Get,
            (old(self).crawler matches Some(c) && c.seed is Complete
                && c.root_index == c.store@.nodes.len() - 1
                && c.store@.nodes.len() <= u32::MAX),
        ensures
            final(self).wf(),
            final(self).stage is Connect,
            final(self).crawler == old(self).crawler,
            final(self).profile == old(self).profile,
            final(self).error == old(self).error,
            ({
                &&& final(self).layout matches Some(l)
                &&& l.wf()
                &&& old(self).crawler matches Some(c) && l.nodes@.len()
                    == c.store@.nodes.len()
                &&& l.config == config
                &&& l.phase is Built
            }),
    {
        let n = match &self.crawler {
            Some(c) => c.store.len(),
            None => 1,
        };
        self.layout = Some(Layout::build(n, config));
        self.stage = Stage::Connect;
    }

    /// Discards the crawler — its tasks and store with it — and the layout
    /// in one step, clears the profile and any displayed error, and
    /// returns to the ask screen.  Nothing of the old crawl stays visible.
    pub fn reset(&mut self)
        ensures
            final(self).wf(),
            final(self).stage is Ask,
            final(self).profile is None,
            final(self).error is None,
            final(self).crawler is None,
            final(self).layout is None,
    {
        self.stage = Stage::Ask;
        self.profile = None;
        self.error = None;
        self.crawler = None;
        self.layout = None;
    }
}

} // verus!
