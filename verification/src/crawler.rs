//! The paginated follow crawl.
//!
//! The crawl runs in two phases.  Seeding consumes the root account's own
//! follow listing page by page: every handle it names gets a node in the
//! store and a crawl task of its own; when the last page arrives the root's
//! node is inserted after all of them.  Crawling then retrieves each
//! discovered account's complete listing: a listed handle that is itself a
//! store member is recorded in the crawling node's `shared` list, and when
//! an account's final page has been processed its task completes, its link
//! edges are emitted and the store's `shared` maximum is raised.
//!
//! A failed page fetch is retried with the same cursor a bounded number of
//! times; past the bound the task stalls and is surfaced rather than
//! retried forever.  The phase is over when the seed and every task have
//! left their active state, observed by quiescence, not by a fixed count.

use vstd::prelude::*;

use crate::identity::ActorId;
use crate::request::PAGE_LIMIT;
use crate::request::Request;
use crate::store::GraphStore;
use crate::store::StoreView;
use crate::store::lemma_index_of_unique;
use crate::store::lemma_with_handle_contains;
use crate::store::lemma_with_handle_frame;
use crate::store::lemma_with_shared_frame;

verus! {

/// How many times one page request is retried before its task stalls.
pub const MAX_PAGE_RETRIES: u8 = 8;

/// One `(handle, avatar)` pair of a follow listing page.
pub struct FollowEntry {
    /// The followed account's handle.
    pub handle: String,
    /// Where to fetch the followed account's avatar, when it has one.
    pub avatar: Option<String>,
}

/// One page of a paginated follow listing.  `cursor == None` marks the
/// final page for the actor.
pub struct FollowPage {
    /// The follows this page lists, in listing order.
    pub follows: Vec<FollowEntry>,
    /// Continuation cursor for the next page, if any remains.
    pub cursor: Option<String>,
}

/// The handles a page lists, in order.
pub open spec fn page_handles(page: FollowPage) -> Seq<Seq<char>> {
    page.follows@.map_values(|e: FollowEntry| e.handle@)
}

/// Lifecycle of one per-actor crawl.
#[derive(Clone, Copy)]
pub enum TaskState {
    /// Pages remain to fetch or process.
    Active,
    /// The final page, the one without a continuation cursor, was processed.
    Complete,
    /// One page failed more than `MAX_PAGE_RETRIES` times in a row.
    Stalled,
}

/// Per-actor crawl state.
pub struct CrawlTask {
    /// The actor being crawled, by handle.
    pub actor: String,
    /// The actor's node index in the store.
    pub node: usize,
    /// Position in the page sequence; `None` before the first page.
    pub cursor: Option<String>,
    /// Whether a fetch of the task's next page is outstanding.
    pub pending: bool,
    /// Failed attempts at the current page since the last success.
    pub retries: u8,
    /// Where the task stands in its lifecycle.
    pub state: TaskState,
}

/// Mathematical image of a [`CrawlTask`].
pub ghost struct TaskView {
    pub actor: Seq<char>,
    pub node: usize,
    pub cursor: Option<Seq<char>>,
    pub pending: bool,
    pub retries: u8,
    pub state: TaskState,
}

impl View for CrawlTask {
    type V = TaskView;

    open spec fn view(&self) -> TaskView {
        TaskView {
            actor: self.actor@,
            node: self.node,
            cursor: match self.cursor {
                Some(c) => Some(c@),
                None => None,
            },
            pending: self.pending,
            retries: self.retries,
            state: self.state,
        }
    }
}

impl TaskView {
    /// The task created the moment a handle's node is first discovered.
    pub open spec fn fresh(actor: Seq<char>, node: usize) -> TaskView {
        TaskView {
            actor,
            node,
            cursor: None,
            pending: false,
            retries: 0,
            state: TaskState::Active,
        }
    }
}

/// The images of a task list's members, in order.
pub open spec fn tasks_view(ts: Seq<CrawlTask>) -> Seq<TaskView> {
    ts.map_values(|t: CrawlTask| t@)
}

/// A layout edge between two node indices, emitted when a crawl completes.
#[derive(Clone, Copy)]
pub struct LinkEdge {
    /// Index of the node whose crawl produced the edge.
    pub source: usize,
    /// Index of the shared node the edge points at.
    pub target: usize,
}

/// One seeding observation: handle `h` stands in the root's follow listing.
/// The root's own handle changes nothing; a known handle resolves to its
/// node; a new handle gets the next node and a fresh crawl task.
pub open spec fn seed_step(
    st: StoreView,
    ts: Seq<TaskView>,
    root: Seq<char>,
    h: Seq<char>,
) -> (StoreView, Seq<TaskView>) {
    if h == root || st.contains_handle(h) {
        (st, ts)
    } else {
        (st.with_handle(h), ts.push(TaskView::fresh(h, st.nodes.len() as usize)))
    }
}

/// The store and task list after seeding every handle of `hs`, in order.
pub open spec fn seed_fold(
    st: StoreView,
    ts: Seq<TaskView>,
    root: Seq<char>,
    hs: Seq<Seq<char>>,
) -> (StoreView, Seq<TaskView>)
    decreases hs.len(),
{
    if hs.len() == 0 {
        (st, ts)
    } else {
        let prev = seed_fold(st, ts, root, hs.drop_last());
        seed_step(prev.0, prev.1, root, hs.last())
    }
}

/// One crawl observation: node `subject`'s listing contains handle `h`.
/// Handles outside the store — beyond the one-hop set — and the subject's
/// own handle change nothing; a member handle is recorded in the subject's
/// `shared` list.
pub open spec fn crawl_step(st: StoreView, subject: usize, h: Seq<char>) -> StoreView {
    if st.contains_handle(h) && st.index_of(h) != subject {
        st.with_shared(subject as int, st.index_of(h) as usize)
    } else {
        st
    }
}

/// The store after node `subject`'s crawl has processed every handle of
/// `hs`, in order.
pub open spec fn crawl_fold(st: StoreView, subject: usize, hs: Seq<Seq<char>>) -> StoreView
    decreases hs.len(),
{
    if hs.len() == 0 {
        st
    } else {
        crawl_step(crawl_fold(st, subject, hs.drop_last()), subject, hs.last())
    }
}

/// The link edges a completed crawl of node `subject` emits: one per
/// recorded shared entry, in recording order.
pub open spec fn node_links(st: StoreView, subject: usize) -> Seq<LinkEdge> {
    Seq::new(
        st.nodes[subject as int].shared.len(),
        |k: int| LinkEdge { source: subject, target: st.nodes[subject as int].shared[k] },
    )
}

/// The largest `shared` length among the first `n` tasks' nodes whose
/// crawls completed; zero when none completed.
pub open spec fn completed_max_upto(ts: Seq<TaskView>, st: StoreView, n: int) -> int
    decreases n,
{
    if n <= 0 {
        0
    } else {
        let rest = completed_max_upto(ts, st, n - 1);
        if ts[n - 1].state is Complete {
            let s = st.nodes[ts[n - 1].node as int].shared.len() as int;
            if s > rest {
                s
            } else {
                rest
            }
        } else {
            rest
        }
    }
}

/// One crawl observation touches nothing but the subject's `shared` list,
/// and only ever extends it.
proof fn lemma_crawl_step_frame(st: StoreView, subject: usize, h: Seq<char>)
    requires
        st.wf(),
        subject < st.nodes.len(),
    ensures
        crawl_step(st, subject, h).wf(),
        crawl_step(st, subject, h).nodes.len() == st.nodes.len(),
        crawl_step(st, subject, h).max_shared == st.max_shared,
        forall|i: int|
            0 <= i < st.nodes.len() && i != subject ==> crawl_step(st, subject, h).nodes[i]
                == st.nodes[i],
        crawl_step(st, subject, h).nodes[subject as int].handle
            == st.nodes[subject as int].handle,
        crawl_step(st, subject, h).nodes[subject as int].index
            == st.nodes[subject as int].index,
        forall|x: usize|
            st.nodes[subject as int].shared.contains(x) ==> crawl_step(
                st,
                subject,
                h,
            ).nodes[subject as int].shared.contains(x),
{
    if st.contains_handle(h) && st.index_of(h) != subject {
        let r = st.index_of(h);
        assert(0 <= r < st.nodes.len() && st.nodes[r].handle == h);
        lemma_with_shared_frame(st, subject as int, r as usize);
    }
}

/// A whole crawl pass touches nothing but the subject's `shared` list,
/// and only ever extends it.
proof fn lemma_crawl_fold_frame(st: StoreView, subject: usize, hs: Seq<Seq<char>>)
    requires
        st.wf(),
        subject < st.nodes.len(),
    ensures
        crawl_fold(st, subject, hs).wf(),
        crawl_fold(st, subject, hs).nodes.len() == st.nodes.len(),
        crawl_fold(st, subject, hs).max_shared == st.max_shared,
        forall|i: int|
            0 <= i < st.nodes.len() && i != subject ==> crawl_fold(st, subject, hs).nodes[i]
                == st.nodes[i],
        crawl_fold(st, subject, hs).nodes[subject as int].handle
            == st.nodes[subject as int].handle,
        crawl_fold(st, subject, hs).nodes[subject as int].index
            == st.nodes[subject as int].index,
        forall|x: usize|
            st.nodes[subject as int].shared.contains(x) ==> crawl_fold(
                st,
                subject,
                hs,
            ).nodes[subject as int].shared.contains(x),
    decreases hs.len(),
{
    if hs.len() > 0 {
        lemma_crawl_fold_frame(st, subject, hs.drop_last());
        lemma_crawl_step_frame(crawl_fold(st, subject, hs.drop_last()), subject, hs.last());
    }
}

/// A handle that a crawl pass processed, that belongs to another member
/// node, ends up recorded in the subject's `shared` list.
proof fn lemma_crawl_fold_records(st: StoreView, subject: usize, hs: Seq<Seq<char>>, h: Seq<char>)
    requires
        st.wf(),
        subject < st.nodes.len(),
        hs.contains(h),
        st.contains_handle(h),
        st.index_of(h) != subject,
    ensures
        crawl_fold(st, subject, hs).nodes[subject as int].shared.contains(
            st.index_of(h) as usize,
        ),
    decreases hs.len(),
{
    let r = st.index_of(h);
    assert(0 <= r < st.nodes.len() && st.nodes[r].handle == h);
    let prefix = hs.drop_last();
    let st1 = crawl_fold(st, subject, prefix);
    lemma_crawl_fold_frame(st, subject, prefix);
    if hs.last() == h {
        if r == subject as int {
        } else {
            assert(st1.nodes[r].handle == h);
            assert(st1.contains_handle(h));
            lemma_index_of_unique(st1, h, r);
            lemma_with_shared_frame(st1, subject as int, r as usize);
        }
    } else {
        assert(prefix.contains(h)) by {
            let k = choose|k: int| 0 <= k < hs.len() && hs[k] == h;
            assert(prefix[k] == h);
        }
        lemma_crawl_fold_records(st, subject, prefix, h);
        lemma_crawl_step_frame(st1, subject, hs.last());
    }
}

/// The completed maximum depends only on each counted task's state and on
/// its node's `shared` length.
proof fn lemma_completed_max_congruence(
    ts1: Seq<TaskView>,
    st1: StoreView,
    ts2: Seq<TaskView>,
    st2: StoreView,
    n: int,
)
    requires
        0 <= n <= ts1.len(),
        n <= ts2.len(),
        forall|k: int|
            0 <= k < n ==> {
                &&& ((#[trigger] ts2[k]).state is Complete <==> ts1[k].state is Complete)
                &&& ts1[k].state is Complete ==> st1.nodes[ts1[k].node as int].shared.len()
                    == st2.nodes[ts2[k].node as int].shared.len()
            },
    ensures
        completed_max_upto(ts1, st1, n) == completed_max_upto(ts2, st2, n),
    decreases n,
{
    if n > 0 {
        lemma_completed_max_congruence(ts1, st1, ts2, st2, n - 1);
    }
}

/// Completing one previously uncompleted task raises the completed maximum
/// to cover exactly that task's node.
proof fn lemma_completed_max_complete(
    ts1: Seq<TaskView>,
    ts2: Seq<TaskView>,
    st: StoreView,
    t: int,
    n: int,
)
    requires
        0 <= t < n <= ts1.len(),
        ts2.len() == ts1.len(),
        !(ts1[t].state is Complete),
        ts2[t].state is Complete,
        ts2[t].node == ts1[t].node,
        forall|k: int| 0 <= k < n && k != t ==> ts2[k] == ts1[k],
    ensures
        completed_max_upto(ts2, st, n) == ({
            let m = completed_max_upto(ts1, st, n);
            let s = st.nodes[ts1[t].node as int].shared.len() as int;
            if s > m {
                s
            } else {
                m
            }
        }),
    decreases n,
{
    if n - 1 == t {
        lemma_completed_max_congruence(ts1, st, ts2, st, t);
    } else {
        lemma_completed_max_complete(ts1, ts2, st, t, n - 1);
    }
}

/// Mutual-follow detection is symmetric, and the order in which the two
/// crawls complete does not matter.  When two member nodes each list the
/// other's handle in their complete follow listings, then whichever crawl
/// runs to completion second, each node's `shared` list ends containing
/// the other node.  Every member node exists before any crawl starts, so
/// neither observation can be missed.
pub proof fn lemma_mutual_follow_symmetric(
    st: StoreView,
    a: usize,
    b: usize,
    pa: Seq<Seq<char>>,
    pb: Seq<Seq<char>>,
)
    requires
        st.wf(),
        a < st.nodes.len(),
        b < st.nodes.len(),
        a != b,
        pa.contains(st.nodes[b as int].handle),
        pb.contains(st.nodes[a as int].handle),
    ensures
        ({
            let after = crawl_fold(crawl_fold(st, a, pa), b, pb);
            &&& after.nodes[a as int].shared.contains(b)
            &&& after.nodes[b as int].shared.contains(a)
        }),
        ({
            let after = crawl_fold(crawl_fold(st, b, pb), a, pa);
            &&& after.nodes[a as int].shared.contains(b)
            &&& after.nodes[b as int].shared.contains(a)
        }),
{
    lemma_order(st, a, b, pa, pb);
    lemma_order(st, b, a, pb, pa);
}

/// One completion order of the two crawls of `lemma_mutual_follow_symmetric`.
proof fn lemma_order(st: StoreView, a: usize, b: usize, pa: Seq<Seq<char>>, pb: Seq<Seq<char>>)
    requires
        st.wf(),
        a < st.nodes.len(),
        b < st.nodes.len(),
        a != b,
        pa.contains(st.nodes[b as int].handle),
        pb.contains(st.nodes[a as int].handle),
    ensures
        crawl_fold(crawl_fold(st, a, pa), b, pb).nodes[a as int].shared.contains(b),
        crawl_fold(crawl_fold(st, a, pa), b, pb).nodes[b as int].shared.contains(a),
{
    let ha = st.nodes[a as int].handle;
    let hb = st.nodes[b as int].handle;
    assert(st.contains_handle(hb));
    lemma_index_of_unique(st, hb, b as int);
    lemma_crawl_fold_records(st, a, pa, hb);
    let st1 = crawl_fold(st, a, pa);
    lemma_crawl_fold_frame(st, a, pa);
    assert(st1.nodes[a as int].shared.contains(b));
    assert(st1.nodes[a as int].handle == ha);
    assert(st1.contains_handle(ha));
    lemma_index_of_unique(st1, ha, a as int);
    lemma_crawl_fold_records(st1, b, pb, ha);
    lemma_crawl_fold_frame(st1, b, pb);
    let st2 = crawl_fold(st1, b, pb);
    assert(st2.nodes[a as int] == st1.nodes[a as int]);
    assert(st2.nodes[b as int].shared.contains(a));
}

/// The store's `shared` maximum equals the largest `shared` length among
/// the nodes whose crawls have completed; the root's seeding, which keeps
/// the root's `shared` list empty, never exceeds it.
pub proof fn lemma_max_shared_tracks_completed(c: &Crawler)
    requires
        c.wf(),
    ensures
        c.store@.max_shared == completed_max_upto(
            tasks_view(c.tasks@),
            c.store@,
            c.tasks@.len() as int,
        ),
{
}

/// While no crawl has completed, the completed maximum is zero.
proof fn lemma_completed_max_all_active(ts: Seq<TaskView>, st: StoreView, n: int)
    requires
        0 <= n <= ts.len(),
        forall|k: int| 0 <= k < n ==> (#[trigger] ts[k]).state is Active,
    ensures
        completed_max_upto(ts, st, n) == 0,
    decreases n,
{
    if n > 0 {
        lemma_completed_max_all_active(ts, st, n - 1);
    }
}

/// The whole crawl: the seed's progress through the root's own listing,
/// the store it fills, the per-actor tasks, and the link edges emitted so
/// far.
pub struct Crawler {
    /// The root actor's handle text.
    pub root: String,
    /// Position in the root's page sequence; `None` before the first page.
    pub root_cursor: Option<String>,
    /// Whether a fetch of a root page is currently in flight.
    pub root_pending: bool,
    /// Failed attempts at the current root page since the last success.
    pub root_retries: u8,
    /// Where the seeding phase stands in its lifecycle.
    pub seed: TaskState,
    /// The root's node index; meaningful once seeding is complete.
    pub root_index: usize,
    /// The deduplicating store of discovered accounts.
    pub store: GraphStore,
    /// One crawl task per discovered account.
    pub tasks: Vec<CrawlTask>,
    /// Link edges emitted by completed crawls, in completion order.
    pub links: Vec<LinkEdge>,
}

impl Crawler {
    /// Everything the crawl relies on between events: a well-formed store,
    /// tasks bound one-to-one to member nodes other than the root's, no
    /// task activity before seeding is done, terminated work never left
    /// pending, valid link endpoints, and the `shared` maximum tracking
    /// exactly the completed crawls.
    pub open spec fn wf(self) -> bool {
        let st = self.store@;
        let ts = tasks_view(self.tasks@);
        &&& st.wf()
        &&& st.nodes.len() <= usize::MAX - 1
        &&& forall|k: int| 0 <= k < ts.len() ==> (#[trigger] ts[k]).node < st.nodes.len()
        &&& forall|k: int|
            0 <= k < ts.len() ==> (#[trigger] ts[k]).actor == st.nodes[ts[k].node as int].handle
        &&& forall|k: int, l: int| 0 <= k < l < ts.len() ==> ts[k].node != ts[l].node
        &&& forall|k: int|
            0 <= k < ts.len() && !((#[trigger] ts[k]).state is Active) ==> !ts[k].pending
        &&& self.seed is Active ==> {
            &&& !st.contains_handle(self.root@)
            &&& forall|k: int|
                0 <= k < ts.len() ==> {
                    &&& !(#[trigger] ts[k]).pending
                    &&& ts[k].state is Active
                    &&& ts[k].cursor is None
                }
        }
        &&& !(self.seed is Active) ==> !self.root_pending
        &&& self.seed is Complete ==> {
            &&& self.root_index < st.nodes.len()
            &&& st.nodes[self.root_index as int].handle == self.root@
            &&& forall|k: int| 0 <= k < ts.len() ==> (#[trigger] ts[k]).node != self.root_index
        }
        &&& forall|k: int|
            0 <= k < ts.len() && (#[trigger] ts[k]).state is Active && !ts[k].pending ==> ts[k].cursor is None
        &&& forall|e: int|
            0 <= e < self.links@.len() ==> {
                &&& (#[trigger] self.links@[e]).source < st.nodes.len()
                &&& self.links@[e].target < st.nodes.len()
            }
        &&& st.max_shared == completed_max_upto(ts, st, ts.len() as int)
    }

    /// Starts a crawl rooted at `root`: an empty store, no tasks, and the
    /// request for the first page of the root's own listing in flight.
    pub fn new(root: &ActorId) -> (r: (Crawler, Request))
        ensures
            r.0.wf(),
            r.0.root@ == root@,
            r.0.root_cursor is None,
            r.0.root_pending,
            r.0.root_retries == 0,
            r.0.seed is Active,
            r.0.store@.nodes.len() == 0,
            r.0.store@.max_shared == 0,
            r.0.tasks@.len() == 0,
            r.0.links@.len() == 0,
            r.1.actor@ == root@,
            r.1.cursor is None,
            r.1.limit == PAGE_LIMIT,
    {
        let c = Crawler {
            root: root.text_owned(),
            root_cursor: None,
            root_pending: true,
            root_retries: 0,
            seed: TaskState::Active,
            root_index: 0,
            store: GraphStore::new(),
            tasks: Vec::new(),
            links: Vec::new(),
        };
        let req = Request::first_page(root.text_owned());
        (c, req)
    }

    /// Consumes one page of the root's own follow listing.  Every handle it
    /// names other than the root's own gets a node, and a fresh crawl task
    /// when the node is new.  A continuation cursor keeps the seed active
    /// and yields the next root request; the final page inserts the root's
    /// node last, with an empty `shared` list and no task of its own.
    #[verifier::loop_isolation(false)]
    pub fn on_root_page(&mut self, page: &FollowPage) -> (next: Option<Request>)
        requires
            old(self).wf(),
            old(self).seed is Active,
            old(self).root_pending,
            old(self).store@.nodes.len() + page.follows@.len() + 2 <= usize::MAX,
        ensures
            final(self).wf(),
            final(self).root@ == old(self).root@,
            final(self).links@ == old(self).links@,
            ({
                let folded = seed_fold(
                    old(self).store@,
                    tasks_view(old(self).tasks@),
                    old(self).root@,
                    page_handles(*page),
                );
                &&& tasks_view(final(self).tasks@) == folded.1
                &&& match page.cursor {
                    Some(_) => {
                        &&& final(self).store@ == folded.0
                        &&& final(self).seed is Active
                        &&& final(self).root_pending
                        &&& final(self).root_retries == 0
                        &&& final(self).root_cursor == page.cursor
                        &&& (next matches Some(q) && q.actor@ == old(self).root@
                            && q.cursor == page.cursor && q.limit == PAGE_LIMIT)
                    },
                    None => {
                        &&& final(self).store@ == folded.0.with_handle(old(self).root@)
                        &&& final(self).seed is Complete
                        &&& !final(self).root_pending
                        &&& final(self).root_index == folded.0.nodes.len()
                        &&& final(self).store@.nodes.len() == folded.0.nodes.len() + 1
                        &&& next is None
                    },
                }
            }),
    {
        let ghost st0 = self.store@;
        let ghost ts0 = tasks_view(self.tasks@);
        let ghost rootv = self.root@;
        let ghost hs = page_handles(*page);
        let n = page.follows.len();
        let mut i: usize = 0;
        while i < n
            invariant
                i <= n,
                self.wf(),
                self.seed is Active,
                self.root_pending,
                self.store@.nodes.len() <= st0.nodes.len() + i,
                self.store@ == seed_fold(st0, ts0, rootv, hs.take(i as int)).0,
                tasks_view(self.tasks@) == seed_fold(st0, ts0, rootv, hs.take(i as int)).1,
                self.root == old(self).root,
                self.root_cursor == old(self).root_cursor,
                self.root_retries == old(self).root_retries,
                self.root_index == old(self).root_index,
                self.links == old(self).links,
            decreases n - i,
        {
            let ghost pre_st = self.store@;
            let ghost pre_ts = tasks_view(self.tasks@);
            proof {
                assert(hs[i as int] == page.follows@[i as int].handle@);
            }
            if !(self.root == page.follows[i].handle) {
                let (idx, is_new) = self.store.get_or_create(&page.follows[i].handle);
                if is_new {
                    self.tasks.push(
                        CrawlTask {
                            actor: page.follows[i].handle.clone(),
                            node: idx,
                            cursor: None,
                            pending: false,
                            retries: 0,
                            state: TaskState::Active,
                        },
                    );
                    proof {
                        assert(tasks_view(self.tasks@) =~= pre_ts.push(
                            TaskView::fresh(hs[i as int], idx),
                        ));
                        lemma_with_handle_frame(pre_st, hs[i as int]);
                        lemma_with_handle_contains(pre_st, hs[i as int], rootv);
                        lemma_completed_max_all_active(pre_ts, pre_st, pre_ts.len() as int);
                        lemma_completed_max_all_active(
                            tasks_view(self.tasks@),
                            self.store@,
                            tasks_view(self.tasks@).len() as int,
                        );
                        assert forall|k: int, l: int|
                            0 <= k < l < tasks_view(self.tasks@).len() implies tasks_view(
                            self.tasks@,
                        )[k].node != tasks_view(self.tasks@)[l].node by {
                            if l == pre_ts.len() {
                                assert(pre_ts[k].node < pre_st.nodes.len());
                            }
                        }
                    }
                } else {
                    proof {
                        assert(tasks_view(self.tasks@) =~= pre_ts);
                    }
                }
            }
            proof {
                assert(hs.take(i + 1 as int).drop_last() =~= hs.take(i as int));
                assert(hs.take(i + 1 as int).last() == hs[i as int]);
                assert(self.store@ == seed_fold(st0, ts0, rootv, hs.take(i + 1 as int)).0);
                assert(tasks_view(self.tasks@) == seed_fold(st0, ts0, rootv, hs.take(i + 1 as int)).1);
            }
            i += 1;
        }
        proof {
            assert(hs.take(n as int) =~= hs);
        }
        match &page.cursor {
            Some(c) => {
                self.root_cursor = Some(c.clone());
                self.root_retries = 0;
                Some(Request::next_page(self.root.clone(), c.clone()))
            },
            None => {
                let ghost folded_st = self.store@;
                let root_text = self.root.clone();
                let (idx, is_new) = self.store.get_or_create(&root_text);
                self.root_index = idx;
                self.seed = TaskState::Complete;
                self.root_pending = false;
                proof {
                    assert(is_new);
                    lemma_with_handle_frame(folded_st, rootv);
                    lemma_completed_max_all_active(
                        tasks_view(self.tasks@),
                        folded_st,
                        tasks_view(self.tasks@).len() as int,
                    );
                    lemma_completed_max_all_active(
                        tasks_view(self.tasks@),
                        self.store@,
                        tasks_view(self.tasks@).len() as int,
                    );
                }
                None
            },
        }
    }

    /// Consumes one page of task `t`'s follow listing.  Every listed handle
    /// that belongs to another member node is recorded in the task's node's
    /// `shared` list; handles outside the one-hop set change nothing.  A
    /// continuation cursor yields the next request for the same actor; the
    /// final page completes the task, emits its link edges and raises the
    /// store's `shared` maximum.
    #[verifier::loop_isolation(false)]
    pub fn on_task_page(&mut self, t: usize, page: &FollowPage) -> (next: Option<Request>)
        requires
            old(self).wf(),
            t < old(self).tasks@.len(),
            old(self).tasks@[t as int]@.state is Active,
            old(self).tasks@[t as int]@.pending,
        ensures
            final(self).wf(),
            final(self).root@ == old(self).root@,
            final(self).root_cursor == old(self).root_cursor,
            final(self).root_pending == old(self).root_pending,
            final(self).seed == old(self).seed,
            final(self).root_index == old(self).root_index,
            final(self).tasks@.len() == old(self).tasks@.len(),
            ({
                let subject = old(self).tasks@[t as int]@.node;
                let ts0 = tasks_view(old(self).tasks@);
                let folded = crawl_fold(old(self).store@, subject, page_handles(*page));
                match page.cursor {
                    Some(c) => {
                        &&& final(self).store@ == folded
                        &&& final(self).links@ == old(self).links@
                        &&& tasks_view(final(self).tasks@) == ts0.update(
                            t as int,
                            TaskView {
                                actor: ts0[t as int].actor,
                                node: subject,
                                cursor: Some(c@),
                                pending: true,
                                retries: 0,
                                state: TaskState::Active,
                            },
                        )
                        &&& (next matches Some(q) && q.actor@ == ts0[t as int].actor
                            && q.cursor == page.cursor && q.limit == PAGE_LIMIT)
                    },
                    None => {
                        &&& final(self).store@.nodes == folded.nodes
                        &&& final(self).store@.max_shared as int == ({
                            let s = folded.nodes[subject as int].shared.len() as int;
                            let m = folded.max_shared as int;
                            if s > m {
                                s
                            } else {
                                m
                            }
                        })
                        &&& tasks_view(final(self).tasks@) == ts0.update(
                            t as int,
                            TaskView {
                                actor: ts0[t as int].actor,
                                node: subject,
                                cursor: ts0[t as int].cursor,
                                pending: false,
                                retries: ts0[t as int].retries,
                                state: TaskState::Complete,
                            },
                        )
                        &&& final(self).links@ == old(self).links@ + node_links(folded, subject)
                        &&& next is None
                    },
                }
            }),
    {
        let node = self.tasks[t].node;
        let ghost st0 = self.store@;
        let ghost ts0 = tasks_view(self.tasks@);
        let ghost hs = page_handles(*page);
        let n = page.follows.len();
        let mut i: usize = 0;
        while i < n
            invariant
                i <= n,
                node == ts0[t as int].node,
                self.store@ == crawl_fold(st0, node, hs.take(i as int)),
                self.store@.wf(),
                self.store@.nodes.len() == st0.nodes.len(),
                self.tasks == old(self).tasks,
                self.links == old(self).links,
                self.root == old(self).root,
                self.root_cursor == old(self).root_cursor,
                self.root_pending == old(self).root_pending,
                self.root_retries == old(self).root_retries,
                self.seed == old(self).seed,
                self.root_index == old(self).root_index,
            decreases n - i,
        {
            let ghost pre = self.store@;
            proof {
                assert(hs[i as int] == page.follows@[i as int].handle@);
            }
            match self.store.get(&page.follows[i].handle) {
                Some(r) => {
                    proof {
                        lemma_index_of_unique(pre, hs[i as int], r as int);
                    }
                    if r != node {
                        proof {
                            lemma_with_shared_frame(pre, node as int, r);
                        }
                        self.store.add_shared(node, r);
                    }
                },
                None => {},
            }
            proof {
                assert(hs.take(i + 1 as int).drop_last() =~= hs.take(i as int));
                assert(hs.take(i + 1 as int).last() == hs[i as int]);
                assert(self.store@ == crawl_fold(st0, node, hs.take(i + 1 as int)));
            }
            i += 1;
        }
        proof {
            assert(hs.take(n as int) =~= hs);
            lemma_crawl_fold_frame(st0, node, hs);
        }
        let ghost folded = self.store@;
        match &page.cursor {
            Some(c) => {
                self.tasks[t].cursor = Some(c.clone());
                self.tasks[t].retries = 0;
                self.tasks[t].pending = true;
                let req = Request::next_page(self.tasks[t].actor.clone(), c.clone());
                proof {
                    assert(tasks_view(self.tasks@) =~= ts0.update(
                        t as int,
                        TaskView {
                            actor: ts0[t as int].actor,
                            node: node,
                            cursor: Some(c@),
                            pending: true,
                            retries: 0,
                            state: TaskState::Active,
                        },
                    ));
                    lemma_completed_max_congruence(
                        ts0,
                        st0,
                        tasks_view(self.tasks@),
                        self.store@,
                        ts0.len() as int,
                    );
                }
                Some(req)
            },
            None => {
                let shared_n = self.store.nodes[node].shared.len();
                let ghost links0 = self.links@;
                let mut k: usize = 0;
                while k < shared_n
                    invariant
                        k <= shared_n,
                        node < self.store@.nodes.len(),
                        self.store@ == folded,
                        shared_n == folded.nodes[node as int].shared.len(),
                        self.links@ == links0 + node_links(folded, node).take(k as int),
                        self.tasks == old(self).tasks,
                        self.root == old(self).root,
                        self.root_cursor == old(self).root_cursor,
                        self.root_pending == old(self).root_pending,
                        self.root_retries == old(self).root_retries,
                        self.seed == old(self).seed,
                        self.root_index == old(self).root_index,
                    decreases shared_n - k,
                {
                    let target = self.store.nodes[node].shared[k];
                    self.links.push(LinkEdge { source: node, target });
                    proof {
                        assert(node_links(folded, node).take(k + 1 as int) =~= node_links(
                            folded,
                            node,
                        ).take(k as int).push(LinkEdge { source: node, target }));
                        assert(self.links@ == links0 + node_links(folded, node).take(
                            k + 1 as int,
                        ));
                    }
                    k += 1;
                }
                proof {
                    assert(node_links(folded, node).take(shared_n as int) =~= node_links(
                        folded,
                        node,
                    ));
                }
                self.store.raise_max_shared(shared_n);
                self.tasks[t].pending = false;
                self.tasks[t].state = TaskState::Complete;
                proof {
                    let ts2 = tasks_view(self.tasks@);
                    assert(ts2 =~= ts0.update(
                        t as int,
                        TaskView {
                            actor: ts0[t as int].actor,
                            node: node,
                            cursor: ts0[t as int].cursor,
                            pending: false,
                            retries: ts0[t as int].retries,
                            state: TaskState::Complete,
                        },
                    ));
                    lemma_completed_max_congruence(ts0, st0, ts0, self.store@, ts0.len() as int);
                    lemma_completed_max_complete(
                        ts0,
                        ts2,
                        self.store@,
                        t as int,
                        ts0.len() as int,
                    );
                }
                None
            },
        }
    }

    /// A root page fetch failed.  The same page is asked for again, with
    /// the same cursor, up to `MAX_PAGE_RETRIES` times in a row; past the
    /// bound the seed stalls and is surfaced instead of spinning forever.
    pub fn on_root_error(&mut self) -> (next: Option<Request>)
        requires
            old(self).wf(),
            old(self).seed is Active,
            old(self).root_pending,
        ensures
            final(self).wf(),
            final(self).store == old(self).store,
            final(self).tasks == old(self).tasks,
            final(self).links == old(self).links,
            final(self).root == old(self).root,
            final(self).root_cursor == old(self).root_cursor,
            final(self).root_index == old(self).root_index,
            old(self).root_retries < MAX_PAGE_RETRIES ==> {
                &&& final(self).seed is Active
                &&& final(self).root_pending
                &&& final(self).root_retries == old(self).root_retries + 1
                &&& (next matches Some(q) && q.actor@ == old(self).root@
                    && q.cursor == old(self).root_cursor && q.limit == PAGE_LIMIT)
            },
            old(self).root_retries >= MAX_PAGE_RETRIES ==> {
                &&& final(self).seed is Stalled
                &&& !final(self).root_pending
                &&& final(self).root_retries == old(self).root_retries
                &&& next is None
            },
    {
        if self.root_retries < MAX_PAGE_RETRIES {
            self.root_retries = self.root_retries + 1;
            let req = match &self.root_cursor {
                Some(c) => Request::next_page(self.root.clone(), c.clone()),
                None => Request::first_page(self.root.clone()),
            };
            Some(req)
        } else {
            self.seed = TaskState::Stalled;
            self.root_pending = false;
            None
        }
    }

    /// A page fetch for task `t` failed.  The same page is asked for again,
    /// with the same cursor, up to `MAX_PAGE_RETRIES` times in a row; past
    /// the bound the task stalls.  A stalled task blocks nothing else.
    pub fn on_task_error(&mut self, t: usize) -> (next: Option<Request>)
        requires
            old(self).wf(),
            t < old(self).tasks@.len(),
            old(self).tasks@[t as int]@.state is Active,
            old(self).tasks@[t as int]@.pending,
        ensures
            final(self).wf(),
            final(self).store == old(self).store,
            final(self).links == old(self).links,
            final(self).root == old(self).root,
            final(self).root_cursor == old(self).root_cursor,
            final(self).root_pending == old(self).root_pending,
            final(self).root_retries == old(self).root_retries,
            final(self).seed == old(self).seed,
            final(self).root_index == old(self).root_index,
            ({
                let ts0 = tasks_view(old(self).tasks@);
                let task = ts0[t as int];
                if task.retries < MAX_PAGE_RETRIES {
                    &&& tasks_view(final(self).tasks@) == ts0.update(
                        t as int,
                        TaskView {
                            actor: task.actor,
                            node: task.node,
                            cursor: task.cursor,
                            pending: true,
                            retries: (task.retries + 1) as u8,
                            state: TaskState::Active,
                        },
                    )
                    &&& (next matches Some(q) && q.actor@ == task.actor
                        && q.cursor == old(self).tasks@[t as int].cursor
                        && q.limit == PAGE_LIMIT)
                } else {
                    &&& tasks_view(final(self).tasks@) == ts0.update(
                        t as int,
                        TaskView {
                            actor: task.actor,
                            node: task.node,
                            cursor: task.cursor,
                            pending: false,
                            retries: task.retries,
                            state: TaskState::Stalled,
                        },
                    )
                    &&& next is None
                }
            }),
    {
        let ghost ts0 = tasks_view(self.tasks@);
        let ghost st = self.store@;
        if self.tasks[t].retries < MAX_PAGE_RETRIES {
            self.tasks[t].retries = self.tasks[t].retries + 1;
            let req = match &self.tasks[t].cursor {
                Some(c) => Request::next_page(self.tasks[t].actor.clone(), c.clone()),
                None => Request::first_page(self.tasks[t].actor.clone()),
            };
            proof {
                assert(tasks_view(self.tasks@) =~= ts0.update(
                    t as int,
                    TaskView {
                        actor: ts0[t as int].actor,
                        node: ts0[t as int].node,
                        cursor: ts0[t as int].cursor,
                        pending: true,
                        retries: (ts0[t as int].retries + 1) as u8,
                        state: TaskState::Active,
                    },
                ));
                lemma_completed_max_congruence(
                    ts0,
                    st,
                    tasks_view(self.tasks@),
                    st,
                    ts0.len() as int,
                );
            }
            Some(req)
        } else {
            self.tasks[t].pending = false;
            self.tasks[t].state = TaskState::Stalled;
            proof {
                assert(tasks_view(self.tasks@) =~= ts0.update(
                    t as int,
                    TaskView {
                        actor: ts0[t as int].actor,
                        node: ts0[t as int].node,
                        cursor: ts0[t as int].cursor,
                        pending: false,
                        retries: ts0[t as int].retries,
                        state: TaskState::Stalled,
                    },
                ));
                lemma_completed_max_congruence(
                    ts0,
                    st,
                    tasks_view(self.tasks@),
                    st,
                    ts0.len() as int,
                );
            }
            None
        }
    }

    /// Hands out the first page request of the first crawl task that has
    /// not been started yet.  Tasks start only once seeding is complete, so
    /// every member node exists before any crawl records a shared pair.
    #[verifier::loop_isolation(false)]
    pub fn launch_next(&mut self) -> (r: Option<(usize, Request)>)
        requires
            old(self).wf(),
        ensures
            final(self).wf(),
            final(self).store == old(self).store,
            final(self).links == old(self).links,
            final(self).root == old(self).root,
            final(self).root_cursor == old(self).root_cursor,
            final(self).root_pending == old(self).root_pending,
            final(self).root_retries == old(self).root_retries,
            final(self).seed == old(self).seed,
            final(self).root_index == old(self).root_index,
            ({
                let ts0 = tasks_view(old(self).tasks@);
                match r {
                    Some((t, q)) => {
                        &&& old(self).seed is Complete
                        &&& t < ts0.len()
                        &&& ts0[t as int].state is Active
                        &&& !ts0[t as int].pending
                        &&& forall|k: int|
                            0 <= k < t ==> !((#[trigger] ts0[k]).state is Active
                                && !ts0[k].pending)
                        &&& tasks_view(final(self).tasks@) == ts0.update(
                            t as int,
                            TaskView {
                                actor: ts0[t as int].actor,
                                node: ts0[t as int].node,
                                cursor: None,
                                pending: true,
                                retries: ts0[t as int].retries,
                                state: TaskState::Active,
                            },
                        )
                        &&& q.actor@ == ts0[t as int].actor
                        &&& q.cursor is None
                        &&& q.limit == PAGE_LIMIT
                    },
                    None => {
                        &&& final(self).tasks == old(self).tasks
                        &&& (!(old(self).seed is Complete) || forall|k: int|
                            0 <= k < ts0.len() ==> !((#[trigger] ts0[k]).state is Active
                                && !ts0[k].pending))
                    },
                }
            }),
    {
        if !matches!(self.seed, TaskState::Complete) {
            return None;
        }
        let ghost ts0 = tasks_view(self.tasks@);
        let ghost st = self.store@;
        let n = self.tasks.len();
        let mut t: usize = 0;
        while t < n
            invariant
                t <= n,
                n == self.tasks@.len(),
                self == old(self),
                forall|k: int|
                    0 <= k < t ==> !((#[trigger] ts0[k]).state is Active && !ts0[k].pending),
            decreases n - t,
        {
            let launchable = matches!(self.tasks[t].state, TaskState::Active)
                && !self.tasks[t].pending;
            if launchable {
                self.tasks[t].pending = true;
                let req = Request::first_page(self.tasks[t].actor.clone());
                proof {
                    assert(ts0[t as int].cursor is None);
                    assert(tasks_view(self.tasks@) =~= ts0.update(
                        t as int,
                        TaskView {
                            actor: ts0[t as int].actor,
                            node: ts0[t as int].node,
                            cursor: None,
                            pending: true,
                            retries: ts0[t as int].retries,
                            state: TaskState::Active,
                        },
                    ));
                    lemma_completed_max_congruence(
                        ts0,
                        st,
                        tasks_view(self.tasks@),
                        st,
                        ts0.len() as int,
                    );
                }
                return Some((t, req));
            }
            t += 1;
        }
        None
    }

    /// Whether the crawl as a whole has come to rest: the seed and every
    /// task have left their active state and nothing more will be fetched.
    /// New tasks appear dynamically during seeding, so rest is observed,
    /// never assumed from a count.
    #[verifier::loop_isolation(false)]
    pub fn is_quiescent(&self) -> (b: bool)
        ensures
            b == (!(self.seed is Active) && (forall|k: int|
                0 <= k < self.tasks@.len() ==> !((#[trigger] tasks_view(self.tasks@)[k]).state
                    is Active))),
    {
        if matches!(self.seed, TaskState::Active) {
            return false;
        }
        let n = self.tasks.len();
        let mut k: usize = 0;
        while k < n
            invariant
                k <= n,
                n == self.tasks@.len(),
                forall|j: int|
                    0 <= j < k ==> !((#[trigger] tasks_view(self.tasks@)[j]).state is Active),
            decreases n - k,
        {
            if matches!(self.tasks[k].state, TaskState::Active) {
                proof {
                    assert(tasks_view(self.tasks@)[k as int].state is Active);
                }
                return false;
            }
            proof {
                assert(!(tasks_view(self.tasks@)[k as int].state is Active));
            }
            k += 1;
        }
        true
    }
}

} // verus!
