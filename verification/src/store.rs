//! Deduplicating store of discovered accounts.
//!
//! Every account seen during the crawl gets exactly one [`Node`], addressed
//! by a dense index assigned in discovery order.  Re-discovering a handle
//! resolves to the existing node; a handle is never inserted twice.  Each
//! node carries the indices of the accounts it was observed to follow among
//! the store's members (its `shared` list), and the store tracks the largest
//! `shared` length seen at crawl completion for visual normalisation.

use vstd::prelude::*;
use vstd::set::group_set_axioms;
use vstd::seq_lib::seq_to_set_is_finite;

verus! {

/// One discovered account.
pub struct Node {
    /// Stable display and lookup key.
    pub handle: String,
    /// Dense position in discovery order; addresses layout arrays.
    pub index: usize,
    /// Indices of store members this account was observed to follow.
    pub shared: Vec<usize>,
}

/// Mathematical image of a [`Node`].
pub ghost struct NodeView {
    pub handle: Seq<char>,
    pub index: usize,
    pub shared: Seq<usize>,
}

impl View for Node {
    type V = NodeView;

    open spec fn view(&self) -> NodeView {
        NodeView { handle: self.handle@, index: self.index, shared: self.shared@ }
    }
}

/// Mathematical image of a [`GraphStore`].
pub ghost struct StoreView {
    pub nodes: Seq<NodeView>,
    pub max_shared: usize,
}

impl StoreView {
    /// Some node already carries handle `h`.
    pub open spec fn contains_handle(self, h: Seq<char>) -> bool {
        exists|i: int| 0 <= i < self.nodes.len() && (#[trigger] self.nodes[i]).handle == h
    }

    /// The index of the node carrying handle `h` (meaningful only when present).
    pub open spec fn index_of(self, h: Seq<char>) -> int {
        choose|i: int| 0 <= i < self.nodes.len() && (#[trigger] self.nodes[i]).handle == h
    }

    /// The store after an insert-if-absent of handle `h`.
    pub open spec fn with_handle(self, h: Seq<char>) -> StoreView {
        if self.contains_handle(h) {
            self
        } else {
            StoreView {
                nodes: self.nodes.push(
                    NodeView { handle: h, index: self.nodes.len() as usize, shared: seq![] },
                ),
                max_shared: self.max_shared,
            }
        }
    }

    /// The node index that an insert-if-absent of `h` resolves to.
    pub open spec fn handle_ref(self, h: Seq<char>) -> int {
        if self.contains_handle(h) {
            self.index_of(h)
        } else {
            self.nodes.len() as int
        }
    }

    /// The store after recording that node `owner` follows node `other`.
    /// The pair is recorded once; a repeat observation changes nothing.
    pub open spec fn with_shared(self, owner: int, other: usize) -> StoreView {
        if self.nodes[owner].shared.contains(other) {
            self
        } else {
            StoreView {
                nodes: self.nodes.update(
                    owner,
                    NodeView {
                        handle: self.nodes[owner].handle,
                        index: self.nodes[owner].index,
                        shared: self.nodes[owner].shared.push(other),
                    },
                ),
                max_shared: self.max_shared,
            }
        }
    }

    /// Every node's index is its position, handles are pairwise distinct, and
    /// every `shared` entry is a valid, non-own index recorded at most once.
    pub open spec fn wf(self) -> bool {
        &&& self.nodes.len() <= usize::MAX
        &&& forall|i: int|
            0 <= i < self.nodes.len() ==> (#[trigger] self.nodes[i]).index == i
        &&& forall|i: int, j: int|
            0 <= i < j < self.nodes.len() ==> self.nodes[i].handle != self.nodes[j].handle
        &&& forall|i: int|
            0 <= i < self.nodes.len() ==> shared_wf(
                (#[trigger] self.nodes[i]).shared,
                i,
                self.nodes.len() as int,
            )
    }
}

/// A `shared` list holds valid indices other than the owner's, without repeats.
pub open spec fn shared_wf(sh: Seq<usize>, own: int, n: int) -> bool {
    &&& forall|k: int| 0 <= k < sh.len() ==> (#[trigger] sh[k]) < n && sh[k] != own
    &&& forall|k: int, l: int| 0 <= k < l < sh.len() ==> sh[k] != sh[l]
}

/// In a well-formed store the node found at `i` is the one `index_of` names.
pub proof fn lemma_index_of_unique(s: StoreView, h: Seq<char>, i: int)
    requires
        s.wf(),
        0 <= i < s.nodes.len(),
        s.nodes[i].handle == h,
    ensures
        s.index_of(h) == i,
{
    let j = s.index_of(h);
    assert(0 <= j < s.nodes.len() && s.nodes[j].handle == h);
    if i < j {
        assert(s.nodes[i].handle != s.nodes[j].handle);
    } else if j < i {
        assert(s.nodes[j].handle != s.nodes[i].handle);
    }
}

/// An insert-if-absent leaves a handle present exactly when it was present
/// or is the one inserted.
pub proof fn lemma_with_handle_contains(s: StoreView, h: Seq<char>, g: Seq<char>)
    ensures
        s.with_handle(h).contains_handle(g) <==> (s.contains_handle(g) || g == h),
{
    let s1 = s.with_handle(h);
    if s.contains_handle(h) {
    } else {
        if s.contains_handle(g) {
            let i = choose|i: int|
                0 <= i < s.nodes.len() && (#[trigger] s.nodes[i]).handle == g;
            assert(s1.nodes[i].handle == g);
        }
        if g == h {
            assert(s1.nodes[s.nodes.len() as int].handle == g);
        }
        if s1.contains_handle(g) {
            let i = choose|i: int|
                0 <= i < s1.nodes.len() && (#[trigger] s1.nodes[i]).handle == g;
            if i < s.nodes.len() {
                assert(s.nodes[i].handle == g);
            }
        }
    }
}

/// An insert-if-absent keeps every node that was already there, appends at
/// most one node with an empty `shared` list, and preserves well-formedness.
pub proof fn lemma_with_handle_frame(s: StoreView, h: Seq<char>)
    requires
        s.wf(),
        s.nodes.len() < usize::MAX,
    ensures
        s.with_handle(h).wf(),
        s.with_handle(h).max_shared == s.max_shared,
        s.nodes.len() <= s.with_handle(h).nodes.len() <= s.nodes.len() + 1,
        forall|i: int| 0 <= i < s.nodes.len() ==> s.with_handle(h).nodes[i] == s.nodes[i],
        s.with_handle(h).contains_handle(h),
        0 <= s.handle_ref(h) < s.with_handle(h).nodes.len(),
        s.with_handle(h).nodes[s.handle_ref(h)].handle == h,
{
    let s1 = s.with_handle(h);
    if s.contains_handle(h) {
        let i = s.index_of(h);
        assert(0 <= i < s.nodes.len() && s.nodes[i].handle == h);
    } else {
        assert(s1.nodes[s.nodes.len() as int].handle == h);
        assert forall|a: int| 0 <= a < s1.nodes.len() implies shared_wf(
            (#[trigger] s1.nodes[a]).shared,
            a,
            s1.nodes.len() as int,
        ) by {
            if a < s.nodes.len() {
                assert(shared_wf(s.nodes[a].shared, a, s.nodes.len() as int));
            }
        }
    }
}

/// Recording a shared pair changes no handle, no index, no other node, and
/// only ever extends the owner's `shared` list by the recorded entry.
pub proof fn lemma_with_shared_frame(s: StoreView, owner: int, other: usize)
    requires
        s.wf(),
        0 <= owner < s.nodes.len(),
        other < s.nodes.len(),
        other != owner,
    ensures
        s.with_shared(owner, other).wf(),
        s.with_shared(owner, other).max_shared == s.max_shared,
        s.with_shared(owner, other).nodes.len() == s.nodes.len(),
        forall|i: int|
            0 <= i < s.nodes.len() && i != owner ==> s.with_shared(owner, other).nodes[i]
                == s.nodes[i],
        s.with_shared(owner, other).nodes[owner].handle == s.nodes[owner].handle,
        s.with_shared(owner, other).nodes[owner].index == s.nodes[owner].index,
        s.with_shared(owner, other).nodes[owner].shared.contains(other),
        forall|x: usize|
            s.nodes[owner].shared.contains(x) ==> s.with_shared(
                owner,
                other,
            ).nodes[owner].shared.contains(x),
        forall|x: usize|
            s.with_shared(owner, other).nodes[owner].shared.contains(x) ==> (
            s.nodes[owner].shared.contains(x) || x == other),
{
    let s1 = s.with_shared(owner, other);
    let sh = s.nodes[owner].shared;
    if sh.contains(other) {
    } else {
        let sh1 = s1.nodes[owner].shared;
        assert(sh1 == sh.push(other));
        assert(sh1[sh.len() as int] == other);
        assert(sh1.contains(other));
        assert forall|x: usize| sh.contains(x) implies sh1.contains(x) by {
            let k = choose|k: int| 0 <= k < sh.len() && sh[k] == x;
            assert(sh1[k] == x);
        }
        assert forall|x: usize| sh1.contains(x) implies sh.contains(x) || x == other by {
            let k = choose|k: int| 0 <= k < sh1.len() && sh1[k] == x;
            if k < sh.len() {
                assert(sh[k] == x);
            }
        }
        assert forall|a: int| 0 <= a < s1.nodes.len() implies shared_wf(
            (#[trigger] s1.nodes[a]).shared,
            a,
            s1.nodes.len() as int,
        ) by {
            assert(shared_wf(s.nodes[a].shared, a, s.nodes.len() as int));
            if a == owner {
                assert forall|k: int, l: int| 0 <= k < l < sh1.len() implies sh1[k] != sh1[l] by {
                    if l == sh.len() {
                        assert(!sh.contains(other));
                        assert(sh1[k] == sh[k]);
                        if sh1[k] == other {
                            assert(sh.contains(other));
                        }
                    }
                }
            }
        }
    }
}

/// Two insert-if-absents of one handle — whichever of two callers gets in
/// first — resolve to the same node reference, and the second changes
/// nothing: the first writer wins and the later one observes the winner.
pub proof fn lemma_get_or_create_idempotent(s: StoreView, h: Seq<char>)
    requires
        s.wf(),
        s.nodes.len() < usize::MAX,
    ensures
        s.with_handle(h).with_handle(h) == s.with_handle(h),
        s.with_handle(h).handle_ref(h) == s.handle_ref(h),
{
    lemma_with_handle_frame(s, h);
    let s1 = s.with_handle(h);
    assert(s1.contains_handle(h));
    if s.contains_handle(h) {
    } else {
        lemma_index_of_unique(s1, h, s.nodes.len() as int);
    }
}

/// The store after an insert-if-absent of every handle of `hs`, in order.
pub open spec fn with_handles(s: StoreView, hs: Seq<Seq<char>>) -> StoreView
    decreases hs.len(),
{
    if hs.len() == 0 {
        s
    } else {
        with_handles(s, hs.drop_last()).with_handle(hs.last())
    }
}

/// A handle is present after a run of inserts exactly when it was present
/// before or was observed during the run.
pub proof fn lemma_with_handles_contains(s: StoreView, hs: Seq<Seq<char>>, g: Seq<char>)
    ensures
        with_handles(s, hs).contains_handle(g) <==> (s.contains_handle(g) || hs.contains(g)),
    decreases hs.len(),
{
    if hs.len() > 0 {
        let prefix = hs.drop_last();
        lemma_with_handles_contains(s, prefix, g);
        lemma_with_handle_contains(with_handles(s, prefix), hs.last(), g);
        if prefix.contains(g) {
            let k = choose|k: int| 0 <= k < prefix.len() && prefix[k] == g;
            assert(hs[k] == g);
        }
        if hs.contains(g) && g != hs.last() {
            let k = choose|k: int| 0 <= k < hs.len() && hs[k] == g;
            assert(prefix[k] == g);
        }
    }
}

/// However the observed handles repeat, the store ends with one node per
/// distinct handle: its size grows by exactly the number of distinct
/// handles observed that it did not already hold.
pub proof fn lemma_store_size_distinct(s: StoreView, hs: Seq<Seq<char>>)
    ensures
        with_handles(s, hs).nodes.len() == s.nodes.len() + hs.to_set().filter(
            |h: Seq<char>| !s.contains_handle(h),
        ).len(),
    decreases hs.len(),
{
    broadcast use group_set_axioms, seq_to_set_is_finite;

    let fresh = |h: Seq<char>| !s.contains_handle(h);
    if hs.len() == 0 {
        assert(hs.to_set().filter(fresh) =~= Set::empty());
    } else {
        let prefix = hs.drop_last();
        let h = hs.last();
        lemma_store_size_distinct(s, prefix);
        lemma_with_handles_contains(s, prefix, h);
        prefix.to_set().lemma_len_filter(fresh);
        let sp = with_handles(s, prefix);
        assert(hs.to_set() =~= prefix.to_set().insert(h)) by {
            assert forall|g: Seq<char>| hs.contains(g) implies prefix.contains(g) || g == h by {
                let k = choose|k: int| 0 <= k < hs.len() && hs[k] == g;
                if k < prefix.len() {
                    assert(prefix[k] == g);
                }
            }
            assert forall|g: Seq<char>| prefix.contains(g) implies hs.contains(g) by {
                let k = choose|k: int| 0 <= k < prefix.len() && prefix[k] == g;
                assert(hs[k] == g);
            }
            assert(hs.contains(h));
        }
        if prefix.contains(h) || s.contains_handle(h) {
            assert(sp.contains_handle(h));
            assert(hs.to_set().filter(fresh) =~= prefix.to_set().filter(fresh));
        } else {
            assert(!sp.contains_handle(h));
            assert(hs.to_set().filter(fresh) =~= prefix.to_set().filter(fresh).insert(h));
            assert(!prefix.to_set().filter(fresh).contains(h));
        }
    }
}

/// How two nodes relate through their recorded `shared` lists; decides the
/// colour of the line drawn between them when one is hovered.
#[derive(Clone, Copy, PartialEq, Eq, Structural, Debug)]
pub enum Tie {
    /// Each records the other.
    Mutual,
    /// Only the first records the second.
    Outgoing,
    /// Only the second records the first.
    Incoming,
    /// Neither records the other; nothing is drawn.
    Unrelated,
}

impl Tie {
    /// The tie that a pair of recordings amounts to.
    pub open spec fn of(outgoing: bool, incoming: bool) -> Tie {
        if outgoing && incoming {
            Tie::Mutual
        } else if outgoing {
            Tie::Outgoing
        } else if incoming {
            Tie::Incoming
        } else {
            Tie::Unrelated
        }
    }
}

/// Deduplicating handle-to-node map with a running `shared` maximum.
pub struct GraphStore {
    /// The discovered nodes, in discovery order; `nodes[i].index == i`.
    pub nodes: Vec<Node>,
    /// The largest `shared` length reported at a crawl completion so far.
    pub max_shared: usize,
}

impl View for GraphStore {
    type V = StoreView;

    open spec fn view(&self) -> StoreView {
        StoreView {
            nodes: self.nodes@.map_values(|n: Node| n@),
            max_shared: self.max_shared,
        }
    }
}

impl GraphStore {
    /// An empty store.
    pub fn new() -> (s: GraphStore)
        ensures
            s@.nodes.len() == 0,
            s@.max_shared == 0,
            s@.wf(),
    {
        GraphStore { nodes: Vec::new(), max_shared: 0 }
    }

    /// How many accounts have been discovered.
    pub fn len(&self) -> (n: usize)
        ensures
            n == self@.nodes.len(),
    {
        self.nodes.len()
    }

    /// Looks the handle up without inserting.
    #[verifier::loop_isolation(false)]
    pub fn get(&self, handle: &String) -> (r: Option<usize>)
        ensures
            match r {
                Some(i) => self@.contains_handle(handle@) && i < self@.nodes.len()
                    && self@.nodes[i as int].handle == handle@,
                None => !self@.contains_handle(handle@),
            },
    {
        let n = self.nodes.len();
        let mut i: usize = 0;
        while i < n
            invariant
                i <= n,
                n == self@.nodes.len(),
                forall|j: int| 0 <= j < i ==> (#[trigger] self@.nodes[j]).handle != handle@,
            decreases n - i,
        {
            if self.nodes[i].handle == *handle {
                proof {
                    assert(self@.nodes[i as int].handle == handle@);
                }
                return Some(i);
            }
            proof {
                assert(self@.nodes[i as int].handle != handle@);
            }
            i += 1;
        }
        None
    }

    /// Insert-if-absent: resolves `handle` to its node, creating the node
    /// with the next unused index when the handle is new.  The first insert
    /// for a handle wins; a later call observes the winner.
    pub fn get_or_create(&mut self, handle: &String) -> (r: (usize, bool))
        requires
            old(self)@.wf(),
            old(self)@.nodes.len() < usize::MAX,
        ensures
            final(self)@ == old(self)@.with_handle(handle@),
            final(self)@.wf(),
            r.0 == old(self)@.handle_ref(handle@),
            r.1 == !old(self)@.contains_handle(handle@),
            final(self)@.contains_handle(handle@),
            final(self)@.nodes[r.0 as int].handle == handle@,
            r.0 < final(self)@.nodes.len(),
    {
        let ghost pre = self@;
        match self.get(handle) {
            Some(i) => {
                proof {
                    lemma_index_of_unique(pre, handle@, i as int);
                    assert(self@.nodes[i as int].handle == handle@);
                    assert(self@.contains_handle(handle@));
                }
                (i, false)
            },
            None => {
                let i = self.nodes.len();
                self.nodes.push(Node { handle: handle.clone(), index: i, shared: Vec::new() });
                proof {
                    assert(self@.nodes =~= pre.with_handle(handle@).nodes);
                    assert(self@ == pre.with_handle(handle@));
                    assert(self@.nodes[i as int].handle == handle@);
                    assert(self@.contains_handle(handle@));
                    assert forall|a: int| 0 <= a < self@.nodes.len() implies shared_wf(
                        (#[trigger] self@.nodes[a]).shared,
                        a,
                        self@.nodes.len() as int,
                    ) by {
                        if a < pre.nodes.len() {
                            assert(shared_wf(pre.nodes[a].shared, a, pre.nodes.len() as int));
                        }
                    }
                }
                (i, true)
            },
        }
    }

    /// Records that node `owner` follows node `other`; a repeat observation
    /// is a no-op.
    #[verifier::loop_isolation(false)]
    pub fn add_shared(&mut self, owner: usize, other: usize)
        requires
            old(self)@.wf(),
            owner < old(self)@.nodes.len(),
            other < old(self)@.nodes.len(),
            other != owner,
        ensures
            final(self)@ == old(self)@.with_shared(owner as int, other),
            final(self)@.wf(),
            final(self)@.nodes.len() == old(self)@.nodes.len(),
    {
        let ghost pre = self@;
        let n = self.nodes[owner].shared.len();
        let mut k: usize = 0;
        while k < n
            invariant
                k <= n,
                self@ == pre,
                owner < pre.nodes.len(),
                n == pre.nodes[owner as int].shared.len(),
                forall|l: int| 0 <= l < k ==> (#[trigger] pre.nodes[owner as int].shared[l]) != other,
            decreases n - k,
        {
            if self.nodes[owner].shared[k] == other {
                proof {
                    assert(pre.nodes[owner as int].shared.contains(other));
                }
                return;
            }
            k += 1;
        }
        proof {
            assert(!pre.nodes[owner as int].shared.contains(other));
        }
        let node = &mut self.nodes[owner];
        node.shared.push(other);
        proof {
            assert(self@.nodes =~= pre.with_shared(owner as int, other).nodes);
            assert(self@ == pre.with_shared(owner as int, other));
            assert forall|a: int| 0 <= a < self@.nodes.len() implies shared_wf(
                (#[trigger] self@.nodes[a]).shared,
                a,
                self@.nodes.len() as int,
            ) by {
                assert(shared_wf(pre.nodes[a].shared, a, pre.nodes.len() as int));
                if a == owner {
                    let sh = self@.nodes[a].shared;
                    assert(sh =~= pre.nodes[a].shared.push(other));
                }
            }
        }
    }

    /// How nodes `a` and `b` relate through their recorded `shared` lists,
    /// for colouring the line drawn between them.
    #[verifier::loop_isolation(false)]
    pub fn tie_between(&self, a: usize, b: usize) -> (t: Tie)
        requires
            a < self@.nodes.len(),
            b < self@.nodes.len(),
        ensures
            t == Tie::of(self@.nodes[a as int].shared.contains(b), self@.nodes[b as int].shared.contains(a)),
    {
        let outgoing = self.shared_contains(a, b);
        let incoming = self.shared_contains(b, a);
        match (outgoing, incoming) {
            (true, true) => Tie::Mutual,
            (true, false) => Tie::Outgoing,
            (false, true) => Tie::Incoming,
            (false, false) => Tie::Unrelated,
        }
    }

    /// Whether node `owner`'s `shared` list records node `other`.
    #[verifier::loop_isolation(false)]
    fn shared_contains(&self, owner: usize, other: usize) -> (b: bool)
        requires
            owner < self@.nodes.len(),
        ensures
            b == self@.nodes[owner as int].shared.contains(other),
    {
        let n = self.nodes[owner].shared.len();
        let mut k: usize = 0;
        while k < n
            invariant
                k <= n,
                n == self@.nodes[owner as int].shared.len(),
                forall|l: int|
                    0 <= l < k ==> (#[trigger] self@.nodes[owner as int].shared[l]) != other,
            decreases n - k,
        {
            if self.nodes[owner].shared[k] == other {
                proof {
                    assert(self@.nodes[owner as int].shared[k as int] == other);
                }
                return true;
            }
            k += 1;
        }
        false
    }

    /// Raises the running maximum to cover a completed crawl whose node has
    /// `count` shared entries.
    pub fn raise_max_shared(&mut self, count: usize)
        ensures
            final(self)@.nodes == old(self)@.nodes,
            final(self)@.max_shared == if count > old(self)@.max_shared {
                count
            } else {
                old(self)@.max_shared
            },
    {
        if count > self.max_shared {
            self.max_shared = count;
        }
    }
}

} // verus!
