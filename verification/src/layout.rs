//! The incremental force-directed layout, as its controller.
//!
//! The numerical solver — link attraction, many-body repulsion and
//! centering, advanced by a cooling schedule — runs outside this crate on
//! floating-point state.  What is kept and decided here is everything the
//! solver must stay in step with: one position slot per store node, held as
//! IEEE-754 bit patterns so that "unchanged" means bit-identical; the root
//! fixed at the origin; the edge set; the tunable configuration; and the
//! phase machine that says when the solver may advance and when it must be
//! rebuilt from the current positions.

use vstd::prelude::*;

use crate::crawler::LinkEdge;

verus! {

/// IEEE-754 bit pattern of the origin coordinate, 0.0.
pub const ORIGIN_BITS: u64 = 0;

/// IEEE-754 bit pattern of the default repulsive charge, -30.0.
pub const DEFAULT_CHARGE_BITS: u64 = 0xC03E_0000_0000_0000;

/// IEEE-754 bit pattern of the default link distance, 30.0.
pub const DEFAULT_LINK_DISTANCE_BITS: u64 = 0x403E_0000_0000_0000;

/// IEEE-754 bit pattern of the default centering strength, 1.0.
pub const DEFAULT_CENTER_STRENGTH_BITS: u64 = 0x3FF0_0000_0000_0000;

/// How many internal solver iterations one tick advances by default.
pub const DEFAULT_ITERATIONS_PER_TICK: usize = 5;

/// Physical state of one node during layout.
#[derive(Clone, Copy, PartialEq, Eq, Structural)]
pub struct SimNode {
    /// IEEE-754 bit pattern of the node's x position.
    pub x_bits: u64,
    /// IEEE-754 bit pattern of the node's y position.
    pub y_bits: u64,
    /// Excluded from force integration; used for exactly the root.
    pub fixed: bool,
}

/// The tunables the solver is rebuilt with.  The four force parameters are
/// IEEE-754 bit patterns: this controller never computes with them, it only
/// detects change and hands them through bit-exactly.
#[derive(Clone, Copy, PartialEq, Eq, Structural)]
pub struct LayoutConfig {
    /// Many-body charge; a negative value repels, magnitude grows with distance.
    pub charge_bits: u64,
    /// Target distance of the link force.
    pub link_distance_bits: u64,
    /// Link strength override; `None` lets the solver derive it from node degree.
    pub link_strength_bits: Option<u64>,
    /// Strength of the pull of the free nodes' centroid toward the origin.
    pub center_strength_bits: u64,
    /// How many internal solver iterations one tick advances.
    pub iterations_per_tick: usize,
    /// While set, ticks do nothing at all.
    pub paused: bool,
}

impl Default for LayoutConfig {
    /// The configuration the session starts with.
    fn default() -> (c: LayoutConfig)
        ensures
            c.charge_bits == DEFAULT_CHARGE_BITS,
            c.link_distance_bits == DEFAULT_LINK_DISTANCE_BITS,
            c.link_strength_bits is None,
            c.center_strength_bits == DEFAULT_CENTER_STRENGTH_BITS,
            c.iterations_per_tick == DEFAULT_ITERATIONS_PER_TICK,
            !c.paused,
    {
        LayoutConfig {
            charge_bits: DEFAULT_CHARGE_BITS,
            link_distance_bits: DEFAULT_LINK_DISTANCE_BITS,
            link_strength_bits: None,
            center_strength_bits: DEFAULT_CENTER_STRENGTH_BITS,
            iterations_per_tick: DEFAULT_ITERATIONS_PER_TICK,
            paused: false,
        }
    }
}

impl LayoutConfig {
    /// Whether switching from `self` to `other` changes a force parameter,
    /// so that the solver's force set must be rebuilt.  Pausing and the
    /// iteration count are read each tick and never require a rebuild.
    pub fn needs_rebuild(&self, other: &LayoutConfig) -> (b: bool)
        ensures
            b == !{
                &&& self.charge_bits == other.charge_bits
                &&& self.link_distance_bits == other.link_distance_bits
                &&& self.link_strength_bits == other.link_strength_bits
                &&& self.center_strength_bits == other.center_strength_bits
            },
    {
        let strength_equal = match (&self.link_strength_bits, &other.link_strength_bits) {
            (Some(a), Some(b)) => *a == *b,
            (None, None) => true,
            _ => false,
        };
        !(self.charge_bits == other.charge_bits
            && self.link_distance_bits == other.link_distance_bits
            && strength_equal
            && self.center_strength_bits == other.center_strength_bits)
    }
}

/// Where the simulation stands.  Rebuilding returns a running simulation
/// to `Built`; convergence is terminal until a rebuild reopens it.
#[derive(Clone, Copy, PartialEq, Eq, Structural)]
pub enum Phase {
    /// Force set constructed, cooling schedule at its start.
    Built,
    /// Ticks advance the solver.
    Running,
    /// Ticks do nothing while the configuration stays paused.
    Paused,
    /// The cooling schedule ran out; only a rebuild resumes motion.
    Converged,
}

/// What one tick asks of the outside solver.
#[derive(Clone, Copy, PartialEq, Eq, Structural)]
pub enum TickAction {
    /// Nothing to do: paused or converged.
    Idle,
    /// Advance this many internal solver iterations, then report positions.
    Run {
        /// The number of internal iterations to advance.
        iterations: usize,
    },
}

/// The layout controller: position slots, edge set, configuration, phase.
pub struct Layout {
    /// One slot per store node, index-aligned with the store.
    pub nodes: Vec<SimNode>,
    /// The edge set: one spoke from the root to every node, then every
    /// link edge emitted by completed crawls.
    pub links: Vec<LinkEdge>,
    /// The tunables currently in force.
    pub config: LayoutConfig,
    /// Where the simulation stands.
    pub phase: Phase,
}

impl Layout {
    /// The root's slot: the last node, anchoring the layout.
    pub open spec fn root_index(self) -> int {
        self.nodes@.len() - 1
    }

    /// The slots exist, exactly the root is fixed and it sits at the
    /// origin, every edge endpoint is a valid slot, and the edge set
    /// begins with the root's spokes, one per node.
    pub open spec fn wf(self) -> bool {
        &&& 1 <= self.nodes@.len() <= u32::MAX
        &&& forall|i: int|
            0 <= i < self.nodes@.len() ==> ((#[trigger] self.nodes@[i]).fixed <==> i
                == self.root_index())
        &&& self.nodes@[self.root_index()].x_bits == ORIGIN_BITS
        &&& self.nodes@[self.root_index()].y_bits == ORIGIN_BITS
        &&& self.links@.len() >= self.nodes@.len()
        &&& forall|e: int|
            0 <= e < self.links@.len() ==> {
                &&& (#[trigger] self.links@[e]).source < self.nodes@.len()
                &&& self.links@[e].target < self.nodes@.len()
            }
        &&& forall|i: int|
            0 <= i < self.nodes@.len() ==> (#[trigger] self.links@[i]) == (LinkEdge {
                source: (self.nodes@.len() - 1) as usize,
                target: i as usize,
            })
    }

    /// Builds the layout for `n` nodes: every slot starts at the origin,
    /// the root — the last slot — is fixed there, and the edge set starts
    /// as one spoke from the root to every node.
    #[verifier::loop_isolation(false)]
    pub fn build(n: usize, config: LayoutConfig) -> (l: Layout)
        requires
            1 <= n <= u32::MAX,
        ensures
            l.wf(),
            l.nodes@.len() == n,
            forall|i: int|
                0 <= i < n ==> (#[trigger] l.nodes@[i]) == (SimNode {
                    x_bits: ORIGIN_BITS,
                    y_bits: ORIGIN_BITS,
                    fixed: i == n - 1,
                }),
            l.links@.len() == n,
            l.config == config,
            l.phase is Built,
    {
        let mut nodes: Vec<SimNode> = Vec::new();
        let mut i: usize = 0;
        while i < n
            invariant
                i <= n,
                nodes@.len() == i,
                forall|j: int|
                    0 <= j < i ==> (#[trigger] nodes@[j]) == (SimNode {
                        x_bits: ORIGIN_BITS,
                        y_bits: ORIGIN_BITS,
                        fixed: j == n - 1,
                    }),
            decreases n - i,
        {
            nodes.push(SimNode { x_bits: ORIGIN_BITS, y_bits: ORIGIN_BITS, fixed: i == n - 1 });
            i += 1;
        }
        let mut links: Vec<LinkEdge> = Vec::new();
        let mut t: usize = 0;
        while t < n
            invariant
                t <= n,
                links@.len() == t,
                forall|j: int|
                    0 <= j < t ==> (#[trigger] links@[j]) == (LinkEdge {
                        source: (n - 1) as usize,
                        target: j as usize,
                    }),
            decreases n - t,
        {
            links.push(LinkEdge { source: n - 1, target: t });
            t += 1;
        }
        Layout { nodes, links, config, phase: Phase::Built }
    }

    /// Advances one frame.  A paused or converged simulation does nothing:
    /// every slot — position bits and fixed flag alike — is left exactly as
    /// it was, however many times this is called.  Otherwise the simulation
    /// runs and the solver is asked for the configured iterations.
    pub fn tick(&mut self) -> (a: TickAction)
        requires
            old(self).wf(),
        ensures
            final(self).wf(),
            final(self).nodes == old(self).nodes,
            final(self).links == old(self).links,
            final(self).config == old(self).config,
            (a is Run <==> (!old(self).config.paused && !(old(self).phase is Converged))),
            a matches TickAction::Run { iterations } ==> iterations
                == old(self).config.iterations_per_tick && final(self).phase is Running,
            a is Idle ==> final(self).phase == (if old(self).phase is Running
                && old(self).config.paused {
                Phase::Paused
            } else {
                old(self).phase
            }),
    {
        if matches!(self.phase, Phase::Converged) {
            return TickAction::Idle;
        }
        if self.config.paused {
            if matches!(self.phase, Phase::Running) {
                self.phase = Phase::Paused;
            }
            return TickAction::Idle;
        }
        self.phase = Phase::Running;
        TickAction::Run { iterations: self.config.iterations_per_tick }
    }

    /// Writes the solver's advanced positions back.  Only free slots move;
    /// a fixed slot keeps its anchored position whatever the solver says.
    #[verifier::loop_isolation(false)]
    pub fn apply_positions(&mut self, positions: &Vec<(u64, u64)>)
        requires
            old(self).wf(),
            old(self).phase is Running,
            positions@.len() == old(self).nodes@.len(),
        ensures
            final(self).wf(),
            final(self).nodes@.len() == old(self).nodes@.len(),
            forall|i: int|
                0 <= i < old(self).nodes@.len() && !old(self).nodes@[i].fixed ==> (
                #[trigger] final(self).nodes@[i]) == (SimNode {
                    x_bits: positions@[i].0,
                    y_bits: positions@[i].1,
                    fixed: false,
                }),
            forall|i: int|
                0 <= i < old(self).nodes@.len() && old(self).nodes@[i].fixed ==> (
                #[trigger] final(self).nodes@[i]) == old(self).nodes@[i],
            final(self).links == old(self).links,
            final(self).config == old(self).config,
            final(self).phase == old(self).phase,
    {
        let n = self.nodes.len();
        let mut i: usize = 0;
        while i < n
            invariant
                i <= n,
                n == self.nodes@.len(),
                self.nodes@.len() == old(self).nodes@.len(),
                forall|j: int|
                    i <= j < n ==> (#[trigger] self.nodes@[j]) == old(self).nodes@[j],
                forall|j: int|
                    0 <= j < i && !old(self).nodes@[j].fixed ==> (#[trigger] self.nodes@[j])
                        == (SimNode {
                        x_bits: positions@[j].0,
                        y_bits: positions@[j].1,
                        fixed: false,
                    }),
                forall|j: int|
                    0 <= j < i && old(self).nodes@[j].fixed ==> (#[trigger] self.nodes@[j])
                        == old(self).nodes@[j],
                self.links == old(self).links,
                self.config == old(self).config,
                self.phase == old(self).phase,
            decreases n - i,
        {
            if !self.nodes[i].fixed {
                let p = positions[i];
                self.nodes[i].x_bits = p.0;
                self.nodes[i].y_bits = p.1;
            }
            i += 1;
        }
    }

    /// Direct manipulation: places the free node `i` where the user
    /// dragged it.  The fixed root cannot be dragged off the origin.
    pub fn set_position(&mut self, i: usize, x_bits: u64, y_bits: u64)
        requires
            old(self).wf(),
            i < old(self).nodes@.len(),
            !old(self).nodes@[i as int].fixed,
        ensures
            final(self).wf(),
            final(self).nodes@ == old(self).nodes@.update(
                i as int,
                (SimNode { x_bits, y_bits, fixed: false }),
            ),
            final(self).links == old(self).links,
            final(self).config == old(self).config,
            final(self).phase == old(self).phase,
    {
        self.nodes[i].x_bits = x_bits;
        self.nodes[i].y_bits = y_bits;
        proof {
            assert(final(self).nodes@ =~= old(self).nodes@.update(
                i as int,
                (SimNode { x_bits, y_bits, fixed: false }),
            ));
        }
    }

    /// Takes newly emitted link edges into the edge set; a rebuild should
    /// follow so the solver's link force sees them.
    #[verifier::loop_isolation(false)]
    pub fn add_links(&mut self, new: &Vec<LinkEdge>)
        requires
            old(self).wf(),
            forall|e: int|
                0 <= e < new@.len() ==> (#[trigger] new@[e]).source < old(self).nodes@.len()
                    && new@[e].target < old(self).nodes@.len(),
        ensures
            final(self).wf(),
            final(self).links@ == old(self).links@ + new@,
            final(self).nodes == old(self).nodes,
            final(self).config == old(self).config,
            final(self).phase == old(self).phase,
    {
        let n = new.len();
        let mut e: usize = 0;
        while e < n
            invariant
                e <= n,
                n == new@.len(),
                self.links@ == old(self).links@ + new@.take(e as int),
                self.nodes == old(self).nodes,
                self.config == old(self).config,
                self.phase == old(self).phase,
            decreases n - e,
        {
            self.links.push(new[e]);
            proof {
                assert(old(self).links@ + new@.take(e + 1 as int) =~= (old(self).links@
                    + new@.take(e as int)).push(new@[e as int]));
            }
            e += 1;
        }
        proof {
            assert(new@.take(n as int) =~= new@);
        }
    }

    /// Applies a changed configuration.  Every slot is kept exactly as it
    /// stands — positions the user dragged included, the fixed flag
    /// untouched, the root still at the origin — and the cooling schedule
    /// restarts from `Built` so the solver is reconstructed over the
    /// current positions instead of starting cold.
    pub fn rebuild(&mut self, config: LayoutConfig)
        requires
            old(self).wf(),
        ensures
            final(self).wf(),
            final(self).nodes == old(self).nodes,
            forall|i: int|
                0 <= i < old(self).nodes@.len() ==> {
                    &&& (#[trigger] final(self).nodes@[i]).x_bits == old(self).nodes@[i].x_bits
                    &&& final(self).nodes@[i].y_bits == old(self).nodes@[i].y_bits
                    &&& final(self).nodes@[i].fixed == old(self).nodes@[i].fixed
                },
            final(self).nodes@[final(self).root_index()].x_bits == ORIGIN_BITS,
            final(self).nodes@[final(self).root_index()].y_bits == ORIGIN_BITS,
            final(self).links == old(self).links,
            final(self).config == config,
            final(self).phase is Built,
    {
        self.config = config;
        self.phase = Phase::Built;
    }

    /// The solver reports that its cooling schedule ran out: the layout is
    /// converged and ticks do nothing until a rebuild reopens it.
    pub fn set_converged(&mut self)
        requires
            old(self).wf(),
            old(self).phase is Running,
        ensures
            final(self).wf(),
            final(self).nodes == old(self).nodes,
            final(self).links == old(self).links,
            final(self).config == old(self).config,
            final(self).phase is Converged,
    {
        self.phase = Phase::Converged;
    }

    /// The current position bits of node `i`, for rendering.
    pub fn position(&self, i: usize) -> (p: (u64, u64))
        requires
            i < self.nodes@.len(),
        ensures
            p.0 == self.nodes@[i as int].x_bits,
            p.1 == self.nodes@[i as int].y_bits,
    {
        (self.nodes[i].x_bits, self.nodes[i].y_bits)
    }

    /// The flat vertex index list for drawing the shared-follow lines:
    /// both endpoints of every edge beyond the root's spokes, in order.
    /// Follows the root shares with itself are of no interest.
    #[verifier::loop_isolation(false)]
    pub fn line_indices(&self) -> (v: Vec<u32>)
        requires
            self.wf(),
        ensures
            v@.len() == 2 * (self.links@.len() - self.nodes@.len()),
            forall|k: int|
                0 <= k < self.links@.len() - self.nodes@.len() ==> {
                    &&& (#[trigger] v@[2 * k]) == self.links@[self.nodes@.len() + k].source as u32
                    &&& v@[2 * k + 1] == self.links@[self.nodes@.len() + k].target as u32
                },
    {
        let mut v: Vec<u32> = Vec::new();
        let n = self.nodes.len();
        let total = self.links.len();
        let mut e: usize = n;
        while e < total
            invariant
                n <= e <= total,
                v@.len() == 2 * (e - n),
                forall|k: int|
                    0 <= k < e - n ==> {
                        &&& (#[trigger] v@[2 * k]) == self.links@[n + k].source as u32
                        &&& v@[2 * k + 1] == self.links@[n + k].target as u32
                    },
            decreases total - e,
        {
            let edge = self.links[e];
            v.push(edge.source as u32);
            v.push(edge.target as u32);
            e += 1;
        }
        v
    }
}

} // verus!
