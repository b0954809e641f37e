//! The resize negotiation state machine of one window.
//!
//! The server proposes a geometry; when the negotiation round completes, the
//! window synchronously allocates a pool for the pending geometry, marks the
//! outgoing pool superseded, submits the new pool's initial buffer, and only
//! then acknowledges the round. Repeated proposals of an unchanged geometry
//! collapse: completing a round in which the negotiated size did not change
//! swaps no pool.

use vstd::prelude::*;

use crate::buffer::{Buffer, BufferState};
use crate::pool::{spec_allocation_size, BufferPool, MAX_DIMENSION};
use crate::window::{same_identity, ResizeState, Window};

verus! {

/// The negotiation-relevant fields of a window, as one value that the
/// spec-level transition functions can step.
#[derive(Clone, Copy, Debug, PartialEq, Eq, Structural)]
pub struct NegotiationView {
    pub negotiated_width: u32,
    pub negotiated_height: u32,
    pub pending_width: u32,
    pub pending_height: u32,
    pub state: ResizeState,
}

impl Window {
    /// The negotiation-relevant fields of this window.
    pub open spec fn negotiation(self) -> NegotiationView {
        NegotiationView {
            negotiated_width: self.negotiated_width,
            negotiated_height: self.negotiated_height,
            pending_width: self.pending_width,
            pending_height: self.pending_height,
            state: self.resize_state,
        }
    }
}

/// Effect of a geometry proposal `(width, height)` on the negotiation: a
/// non-positive dimension means "no suggestion" and retains the prior value
/// on that axis; the round becomes (or stays) pending exactly when the
/// effective proposal differs from the negotiated size or a resize was
/// already pending.
pub open spec fn spec_propose(n: NegotiationView, width: i32, height: i32) -> NegotiationView {
    let pw = if width >= 1 {
        width as u32
    } else {
        n.pending_width
    };
    let ph = if height >= 1 {
        height as u32
    } else {
        n.pending_height
    };
    let changed = pw != n.negotiated_width || ph != n.negotiated_height;
    NegotiationView {
        negotiated_width: n.negotiated_width,
        negotiated_height: n.negotiated_height,
        pending_width: pw,
        pending_height: ph,
        state: if changed || n.state is ResizePending {
            ResizeState::ResizePending
        } else {
            n.state
        },
    }
}

/// Whether completing the negotiation round swaps the pool: exactly when a
/// resize is pending.
pub open spec fn spec_completion_swaps_pool(n: NegotiationView) -> bool {
    n.state is ResizePending
}

/// Effect of a negotiation-completion event on the negotiation: a pending
/// resize commits the pending geometry and awaits the acknowledgment; any
/// other state is left untouched.
pub open spec fn spec_complete(n: NegotiationView) -> NegotiationView {
    if n.state is ResizePending {
        NegotiationView {
            negotiated_width: n.pending_width,
            negotiated_height: n.pending_height,
            pending_width: n.pending_width,
            pending_height: n.pending_height,
            state: ResizeState::AwaitingAck,
        }
    } else {
        n
    }
}

/// Negotiating a resize to the window's current negotiated size performs
/// zero pool allocations: while the negotiation is stable, a proposal whose
/// effective geometry equals the negotiated geometry (on each axis, either
/// the negotiated value or no suggestion) leaves the negotiation unchanged,
/// and completing the round swaps no pool.
pub proof fn lemma_resize_idempotent(n: NegotiationView, width: i32, height: i32)
    requires
        n.state is Stable,
        n.pending_width == n.negotiated_width,
        n.pending_height == n.negotiated_height,
        width <= 0 || width == n.negotiated_width as i32,
        height <= 0 || height == n.negotiated_height as i32,
        n.negotiated_width <= MAX_DIMENSION,
        n.negotiated_height <= MAX_DIMENSION,
    ensures
        spec_propose(n, width, height) == n,
        !spec_completion_swaps_pool(spec_propose(n, width, height)),
        spec_complete(spec_propose(n, width, height)) == n,
{
}

/// Everything a geometry-proposal event leaves behind: only the negotiation
/// fields change, exactly as `spec_propose` says; no pool or buffer is
/// touched.
pub open spec fn spec_proposed_post(pre: Window, post: Window, width: i32, height: i32) -> bool {
    &&& post.wf()
    &&& post.negotiation() == spec_propose(pre.negotiation(), width, height)
    &&& same_identity(post, pre)
    &&& post.pool == pre.pool
    &&& post.superseded@ == pre.superseded@
    &&& post.buffers@ == pre.buffers@
    &&& post.next_id == pre.next_id
    &&& post.last_submitted == pre.last_submitted
    &&& post.frame_requested == pre.frame_requested
}

/// Everything an acknowledgment step leaves behind: it is refused while a
/// resize is pending (the swap comes first), and otherwise only returns the
/// negotiation to `Stable`.
pub open spec fn spec_ack_post(pre: Window, post: Window, r: bool) -> bool {
    &&& post.wf()
    &&& r == !(pre.resize_state is ResizePending)
    &&& post.resize_state == if r {
        ResizeState::Stable
    } else {
        pre.resize_state
    }
    &&& post.negotiation() == (NegotiationView { state: post.resize_state, ..pre.negotiation() })
    &&& same_identity(post, pre)
    &&& post.pool == pre.pool
    &&& post.superseded@ == pre.superseded@
    &&& post.buffers@ == pre.buffers@
    &&& post.next_id == pre.next_id
    &&& post.last_submitted == pre.last_submitted
    &&& post.frame_requested == pre.frame_requested
}

impl Window {
    /// Handles a geometry proposal from the server. Only the negotiation
    /// fields change, exactly as `spec_propose` says; no pool or buffer is
    /// touched.
    pub fn handle_configure_proposed(&mut self, width: i32, height: i32)
        requires
            old(self).wf(),
        ensures
            spec_proposed_post(*old(self), *final(self), width, height),
    {
        let pw = if width >= 1 {
            width as u32
        } else {
            self.pending_width
        };
        let ph = if height >= 1 {
            height as u32
        } else {
            self.pending_height
        };
        let changed = pw != self.negotiated_width || ph != self.negotiated_height;
        if changed {
            self.resize_state = ResizeState::ResizePending;
        }
        self.pending_width = pw;
        self.pending_height = ph;
    }

    /// Acknowledges the completed negotiation round to the server. The
    /// acknowledgment is refused (`false`, nothing changes) while a resize
    /// is still pending: the pool swap always comes first.
    pub fn acknowledge_configure(&mut self) -> (r: bool)
        requires
            old(self).wf(),
        ensures
            spec_ack_post(*old(self), *final(self), r),
    {
        match self.resize_state {
            ResizeState::ResizePending => false,
            _ => {
                self.resize_state = ResizeState::Stable;
                true
            },
        }
    }
}

/// Outcome of a negotiation-completion event, for the caller to mirror on
/// the server connection.
#[derive(Debug, PartialEq, Eq)]
pub enum ResizeOutcome {
    /// No resize was pending: nothing changed, and the round is
    /// acknowledged with no pool change.
    NoChange,
    /// The pool was swapped: a fresh pool and its initial buffer exist for
    /// the new geometry, the initial buffer was submitted, and the outgoing
    /// pool was superseded.
    PoolSwapped {
        /// Identity of the fresh pool.
        pool_id: u64,
        /// Exact size in bytes of the fresh backing allocation.
        alloc_size: u64,
        /// Identity of the fresh pool's initial buffer.
        buffer_id: u64,
        /// Width the fresh pool is sized for.
        width: u32,
        /// Height the fresh pool is sized for.
        height: u32,
        /// Buffers of the outgoing pool that were free and are destroyed
        /// immediately.
        destroyed_buffers: Vec<u64>,
        /// The outgoing pool's identity, when it held no in-flight buffer
        /// and is therefore dropped at once.
        dropped_pool: Option<u64>,
    },
}

/// A buffer whose destruction is deferred until the server releases it.
pub open spec fn spec_retagged(b: Buffer) -> Buffer {
    Buffer {
        id: b.id,
        pool_id: b.pool_id,
        width: b.width,
        height: b.height,
        offset: b.offset,
        len: b.len,
        state: BufferState::PendingDestroy,
    }
}

/// Whether some buffer of the sequence is backed by pool `pid`.
pub open spec fn spec_seq_has_pool(s: Seq<Buffer>, pid: u64) -> bool {
    exists|k: int| 0 <= k < s.len() && (#[trigger] s[k]).pool_id == pid
}

/// Whether some buffer among the first `n` of `s` carries identity `id`.
pub open spec fn spec_id_among(s: Seq<Buffer>, n: int, id: u64) -> bool {
    exists|j: int| 0 <= j < n && (#[trigger] s[j]).id == id
}

/// Whether the sequence contains this very buffer value.
pub open spec fn spec_seq_contains_buffer(s: Seq<Buffer>, b: Buffer) -> bool {
    exists|k: int| 0 <= k < s.len() && #[trigger] s[k] == b
}

/// Buffers retained when pool `pid` is superseded, in order: buffers of
/// other pools stay unchanged, in-flight buffers of `pid` await their
/// release as `PendingDestroy`, and free buffers of `pid` are destroyed.
pub open spec fn spec_supersede_retained(s: Seq<Buffer>, pid: u64) -> Seq<Buffer>
    decreases s.len(),
{
    if s.len() == 0 {
        Seq::empty()
    } else {
        let prefix = spec_supersede_retained(s.drop_last(), pid);
        let b = s.last();
        if b.pool_id != pid {
            prefix.push(b)
        } else if b.state is InFlight {
            prefix.push(spec_retagged(b))
        } else {
            prefix
        }
    }
}

/// Identities of the buffers destroyed immediately when pool `pid` is
/// superseded: its buffers that were not in flight, in order.
pub open spec fn spec_supersede_destroyed(s: Seq<Buffer>, pid: u64) -> Seq<u64>
    decreases s.len(),
{
    if s.len() == 0 {
        Seq::empty()
    } else {
        let prefix = spec_supersede_destroyed(s.drop_last(), pid);
        let b = s.last();
        if b.pool_id == pid && !(b.state is InFlight) {
            prefix.push(b.id)
        } else {
            prefix
        }
    }
}

/// What a negotiation-completion event with no pending resize leaves
/// behind: everything but the negotiation state is untouched.
pub open spec fn spec_completed_no_change(pre: Window, post: Window) -> bool {
    &&& post.pool == pre.pool
    &&& post.superseded@ == pre.superseded@
    &&& post.buffers@ == pre.buffers@
    &&& post.next_id == pre.next_id
    &&& post.last_submitted == pre.last_submitted
}

/// What a pool swap leaves behind, relating the pre-state, the post-state
/// and the reported outcome: the fresh pool is current and sized exactly
/// for the committed geometry, its initial buffer is the last element of
/// the buffer collection and was submitted, the outgoing pool's free
/// buffers are destroyed and its in-flight buffers await release, and the
/// outgoing pool is kept exactly when one of its buffers is still live.
pub open spec fn spec_completed_swap(pre: Window, post: Window, r: ResizeOutcome) -> bool {
    &&& r matches ResizeOutcome::PoolSwapped {
        pool_id,
        alloc_size,
        buffer_id,
        width,
        height,
        destroyed_buffers,
        dropped_pool,
    } && {
        let retained = match pre.pool {
            Some(op) => spec_supersede_retained(pre.buffers@, op.id),
            None => pre.buffers@,
        };
        &&& pool_id == pre.next_id
        &&& buffer_id == pre.next_id + 1
        &&& post.next_id == pre.next_id + 2
        &&& width == pre.pending_width
        &&& height == pre.pending_height
        &&& alloc_size == spec_allocation_size(width, height, pre.format)
        &&& post.pool == Some(
            BufferPool { id: pool_id, width, height, format: pre.format, alloc_size },
        )
        &&& post.buffers@ == retained.push(
            Buffer {
                id: buffer_id,
                pool_id,
                width,
                height,
                offset: 0,
                len: alloc_size,
                state: BufferState::Free,
            },
        )
        &&& destroyed_buffers@ == match pre.pool {
            Some(op) => spec_supersede_destroyed(pre.buffers@, op.id),
            None => Seq::<u64>::empty(),
        }
        &&& match pre.pool {
            Some(op) => if spec_seq_has_pool(retained, op.id) {
                &&& post.superseded@ == pre.superseded@.push(op)
                &&& dropped_pool is None
            } else {
                &&& post.superseded@ == pre.superseded@
                &&& dropped_pool == Some(op.id)
            },
            None => {
                &&& post.superseded@ == pre.superseded@
                &&& dropped_pool is None
            },
        }
        &&& post.last_submitted == Some(buffer_id)
    }
}

/// A window that swapped its pool is well-formed again, provided the
/// retained buffers kept minted, distinct identities, all await release in
/// the outgoing or an older superseded pool, every superseded pool kept a
/// live buffer, and the outgoing pool was kept exactly when one of its
/// buffers survived.
proof fn lemma_swap_wf(pre: Window, post: Window, retained: Seq<Buffer>, newbuf: Buffer)
    requires
        pre.wf(),
        pre.next_id <= u64::MAX - 2,
        post.format == pre.format,
        post.negotiated_width == pre.pending_width,
        post.negotiated_height == pre.pending_height,
        post.pending_width == pre.pending_width,
        post.pending_height == pre.pending_height,
        post.resize_state is AwaitingAck,
        post.next_id == pre.next_id + 2,
        post.pool matches Some(np) && np == (BufferPool {
            id: pre.next_id,
            width: pre.pending_width,
            height: pre.pending_height,
            format: pre.format,
            alloc_size: np.alloc_size,
        }) && np.wf(),
        newbuf == (Buffer {
            id: (pre.next_id + 1) as u64,
            pool_id: pre.next_id,
            width: pre.pending_width,
            height: pre.pending_height,
            offset: 0,
            len: post.pool->Some_0.alloc_size,
            state: BufferState::Free,
        }),
        post.buffers@ == retained.push(newbuf),
        forall|k: int| 0 <= k < retained.len() ==> (#[trigger] retained[k]).id < pre.next_id,
        forall|k1: int, k2: int|
            0 <= k1 < k2 < retained.len() ==> (#[trigger] retained[k1]).id != (
            #[trigger] retained[k2]).id,
        forall|k: int|
            0 <= k < retained.len() ==> {
                &&& (#[trigger] retained[k]).state is PendingDestroy
                &&& pre.superseded_has(retained[k].pool_id) || (pre.pool matches Some(op)
                    && retained[k].pool_id == op.id)
            },
        forall|i: int|
            0 <= i < pre.superseded@.len() ==> spec_seq_has_pool(
                retained,
                (#[trigger] pre.superseded@[i]).id,
            ),
        match pre.pool {
            Some(op) => if spec_seq_has_pool(retained, op.id) {
                post.superseded@ == pre.superseded@.push(op)
            } else {
                post.superseded@ == pre.superseded@
            },
            None => post.superseded@ == pre.superseded@,
        },
    ensures
        post.wf(),
{
    let np = post.pool->Some_0;
    assert(post.geometry_wf());
    // the old superseded pools stand unchanged at their old indices
    assert(forall|i: int|
        0 <= i < pre.superseded@.len() ==> post.superseded@[i] == pre.superseded@[i]);
    assert forall|i: int| 0 <= i < post.superseded@.len() implies {
        &&& (#[trigger] post.superseded@[i]).wf()
        &&& post.superseded@[i].id < post.next_id
        &&& post.superseded@[i].format == post.format
        &&& !post.current_pool_is(post.superseded@[i].id)
    } by {
        if i < pre.superseded@.len() {
            assert(pre.superseded@[i].wf());
        } else {
            assert(pre.pool matches Some(op) && post.superseded@[i] == op);
        }
    }
    assert forall|i: int, j: int| 0 <= i < j < post.superseded@.len() implies (
    #[trigger] post.superseded@[i]).id != (#[trigger] post.superseded@[j]).id by {
        if j < pre.superseded@.len() {
        } else {
            assert(pre.pool matches Some(op) && post.superseded@[j] == op);
            assert(!pre.current_pool_is(pre.superseded@[i].id));
        }
    }
    assert(post.pools_wf());
    assert forall|k: int| 0 <= k < post.buffers@.len() implies post.buffer_wf(
        #[trigger] post.buffers@[k],
    ) by {
        if k < retained.len() {
            let b = retained[k];
            assert(post.buffers@[k] == b);
            assert(b.state is PendingDestroy);
            if pre.superseded_has(b.pool_id) {
                let i = choose|i: int|
                    0 <= i < pre.superseded@.len() && (#[trigger] pre.superseded@[i]).id
                        == b.pool_id;
                assert(pre.superseded@[i].id < pre.next_id);
                assert(post.superseded@[i].id == b.pool_id);
                assert(post.superseded_has(b.pool_id));
                assert(b.pool_id != np.id);
            } else {
                let op = pre.pool->Some_0;
                assert(b.pool_id == op.id);
                assert(op.id < pre.next_id);
                assert(spec_seq_has_pool(retained, op.id));
                assert(post.superseded@[pre.superseded@.len() as int] == op);
                assert(post.superseded_has(b.pool_id));
                assert(b.pool_id != np.id);
            }
            assert(!post.current_pool_is(b.pool_id));
        } else {
            assert(post.buffers@[k] == newbuf);
            assert(post.current_pool_is(newbuf.pool_id));
        }
    }
    assert forall|k1: int, k2: int| 0 <= k1 < k2 < post.buffers@.len() implies (
    #[trigger] post.buffers@[k1]).id != (#[trigger] post.buffers@[k2]).id by {
        if k2 == retained.len() {
            assert(post.buffers@[k1] == retained[k1]);
            assert(retained[k1].id < pre.next_id);
        } else {
            assert(post.buffers@[k1] == retained[k1]);
            assert(post.buffers@[k2] == retained[k2]);
        }
    }
    assert(post.buffer_ids_distinct());
    assert forall|i: int| 0 <= i < post.superseded@.len() implies post.pool_has_live_buffer(
        (#[trigger] post.superseded@[i]).id,
    ) by {
        if i < pre.superseded@.len() {
            let k = choose|k: int|
                0 <= k < retained.len() && (#[trigger] retained[k]).pool_id
                    == pre.superseded@[i].id;
            assert(post.buffers@[k].pool_id == post.superseded@[i].id);
        } else {
            let op = pre.pool->Some_0;
            assert(post.superseded@[i] == op);
            assert(spec_seq_has_pool(retained, op.id));
            let k = choose|k: int|
                0 <= k < retained.len() && (#[trigger] retained[k]).pool_id == op.id;
            assert(post.buffers@[k].pool_id == op.id);
        }
    }
    assert(post.superseded_live());
}

/// Pushing a buffer onto a sequence adds its pool to the pools present.
pub(crate) proof fn lemma_has_pool_push(s: Seq<Buffer>, b: Buffer, pid: u64)
    ensures
        spec_seq_has_pool(s.push(b), pid) == (spec_seq_has_pool(s, pid) || b.pool_id == pid),
{
    if spec_seq_has_pool(s, pid) {
        let k = choose|k: int| 0 <= k < s.len() && (#[trigger] s[k]).pool_id == pid;
        assert(s.push(b)[k].pool_id == pid);
    }
    if b.pool_id == pid {
        assert(s.push(b)[s.len() as int].pool_id == pid);
    }
    if spec_seq_has_pool(s.push(b), pid) && b.pool_id != pid {
        let k = choose|k: int| 0 <= k < s.push(b).len() && (#[trigger] s.push(b)[k]).pool_id == pid;
        assert(s[k].pool_id == pid);
    }
}

/// Everything a negotiation-completion event leaves behind.
pub open spec fn spec_completed_post(pre: Window, post: Window, r: ResizeOutcome) -> bool {
    &&& post.wf()
    &&& same_identity(post, pre)
    &&& post.negotiation() == spec_complete(pre.negotiation())
    &&& post.frame_requested == pre.frame_requested
    &&& (r is NoChange) == !spec_completion_swaps_pool(pre.negotiation())
    &&& !spec_completion_swaps_pool(pre.negotiation()) ==> spec_completed_no_change(pre, post)
    &&& spec_completion_swaps_pool(pre.negotiation()) ==> spec_completed_swap(pre, post, r)
}

impl Window {
    /// Handles the completion event of a negotiation round.
    ///
    /// With a resize pending, this synchronously allocates a fresh pool
    /// sized exactly for the pending geometry, supersedes the outgoing
    /// pool (free buffers destroyed at once, in-flight buffers deferred),
    /// submits the fresh pool's initial buffer, and commits the pending
    /// geometry as negotiated. The acknowledgment is a separate step, so
    /// that it always follows the swap. Without a pending resize the event
    /// changes nothing.
    pub fn handle_configure_completed(&mut self) -> (r: ResizeOutcome)
        requires
            old(self).wf(),
            old(self).next_id <= u64::MAX - 2,
        ensures
            spec_completed_post(*old(self), *final(self), r),
    {
        match self.resize_state {
            ResizeState::ResizePending => {},
            _ => {
                return ResizeOutcome::NoChange;
            },
        }
        let ghost pre = *self;
        let width = self.pending_width;
        let height = self.pending_height;
        let pool_id = self.next_id;
        let buffer_id = self.next_id + 1;
        let (new_pool, new_buffer) = BufferPool::allocate(
            pool_id,
            buffer_id,
            width,
            height,
            self.format,
        );
        let mut destroyed: Vec<u64> = Vec::new();
        let mut dropped_pool: Option<u64> = None;
        let old_pool = self.pool;

        match old_pool {
            None => {
                proof {
                    assert forall|k: int| 0 <= k < self.buffers@.len() implies {
                        &&& (#[trigger] self.buffers@[k]).state is PendingDestroy
                        &&& pre.superseded_has(self.buffers@[k].pool_id)
                        &&& self.buffers@[k].id < pre.next_id
                    } by {
                        assert(pre.buffer_wf(pre.buffers@[k]));
                    }
                    assert forall|ii: int| 0 <= ii < pre.superseded@.len() implies spec_seq_has_pool(
                        self.buffers@,
                        (#[trigger] pre.superseded@[ii]).id,
                    ) by {
                        assert(pre.pool_has_live_buffer(pre.superseded@[ii].id));
                        let j = choose|j: int|
                            0 <= j < pre.buffers@.len() && (#[trigger] pre.buffers@[j]).pool_id
                                == pre.superseded@[ii].id;
                        assert(0 <= j < self.buffers@.len() && self.buffers@[j].pool_id
                            == pre.superseded@[ii].id);
                    }
                }
            },
            Some(op) => {
                let pid = op.id;
                let mut kept: Vec<Buffer> = Vec::new();
                let mut kept_old = false;
                let mut i: usize = 0;
                let n = self.buffers.len();
                while i < n
                    invariant
                        n == pre.buffers@.len(),
                        0 <= i <= n,
                        self.buffers@ == pre.buffers@,
                        pre.wf(),
                        pre.current_pool_is(pid),
                        kept@ == spec_supersede_retained(pre.buffers@.take(i as int), pid),
                        destroyed@ == spec_supersede_destroyed(pre.buffers@.take(i as int), pid),
                        kept_old == spec_seq_has_pool(kept@, pid),
                        // every retained buffer keeps the identity of one already seen
                        forall|k: int|
                            0 <= k < kept@.len() ==> spec_id_among(
                                pre.buffers@,
                                i as int,
                                (#[trigger] kept@[k]).id,
                            ),
                        // retained identities stay pairwise distinct
                        forall|k1: int, k2: int|
                            0 <= k1 < k2 < kept@.len() ==> (#[trigger] kept@[k1]).id != (
                            #[trigger] kept@[k2]).id,
                        // retained buffers of the superseded pool await release
                        forall|k: int|
                            0 <= k < kept@.len() && (#[trigger] kept@[k]).pool_id == pid
                                ==> kept@[k].state is PendingDestroy,
                        // retained buffers of other pools are unchanged survivors
                        forall|k: int|
                            0 <= k < kept@.len() && (#[trigger] kept@[k]).pool_id != pid ==> {
                                &&& pre.superseded_has(kept@[k].pool_id)
                                &&& kept@[k].state is PendingDestroy
                                &&& kept@[k].id < pre.next_id
                            },
                        // buffers of other pools all survive
                        forall|j: int|
                            0 <= j < i && (#[trigger] pre.buffers@[j]).pool_id != pid
                                ==> spec_seq_contains_buffer(kept@, pre.buffers@[j]),
                        // retained buffers of the superseded pool have minted ids
                        forall|k: int|
                            0 <= k < kept@.len() ==> (#[trigger] kept@[k]).id < pre.next_id,
                    decreases n - i,
                {
                    let b = self.buffers[i];
                    proof {
                        assert(pre.buffers@.take(i + 1).drop_last() =~= pre.buffers@.take(
                            i as int,
                        ));
                        assert(pre.buffers@.take(i + 1).last() == b);
                        assert(pre.buffer_wf(pre.buffers@[i as int]));
                    }
                    if b.pool_id != pid {
                        proof {
                            lemma_has_pool_push(kept@, b, pid);
                        }
                        let ghost kept0 = kept@;
                        kept.push(b);
                        proof {
                            assert forall|j: int|
                                0 <= j < i as int + 1 && (#[trigger] pre.buffers@[j]).pool_id
                                    != pid implies spec_seq_contains_buffer(
                                kept@,
                                pre.buffers@[j],
                            ) by {
                                if j == i as int {
                                    assert(kept@[kept@.len() - 1] == pre.buffers@[j]);
                                } else {
                                    let k = choose|k: int|
                                        0 <= k < kept0.len() && #[trigger] kept0[k]
                                            == pre.buffers@[j];
                                    assert(kept@[k] == pre.buffers@[j]);
                                }
                            }
                        }
                    } else if b.state == BufferState::InFlight {
                        let nb = Buffer {
                            id: b.id,
                            pool_id: b.pool_id,
                            width: b.width,
                            height: b.height,
                            offset: b.offset,
                            len: b.len,
                            state: BufferState::PendingDestroy,
                        };
                        proof {
                            assert(nb == spec_retagged(b));
                            lemma_has_pool_push(kept@, nb, pid);
                        }
                        let ghost kept0 = kept@;
                        kept.push(nb);
                        kept_old = true;
                        proof {
                            assert forall|j: int|
                                0 <= j < i as int + 1 && (#[trigger] pre.buffers@[j]).pool_id
                                    != pid implies spec_seq_contains_buffer(
                                kept@,
                                pre.buffers@[j],
                            ) by {
                                let k = choose|k: int|
                                    0 <= k < kept0.len() && #[trigger] kept0[k]
                                        == pre.buffers@[j];
                                assert(kept@[k] == pre.buffers@[j]);
                            }
                        }
                    } else {
                        destroyed.push(b.id);
                    }
                    i = i + 1;
                }
                proof {
                    assert(pre.buffers@.take(n as int) =~= pre.buffers@);
                    // survivors keep every older superseded pool alive
                    assert forall|ii: int| 0 <= ii < pre.superseded@.len() implies spec_seq_has_pool(
                        kept@,
                        (#[trigger] pre.superseded@[ii]).id,
                    ) by {
                        let pid2 = pre.superseded@[ii].id;
                        assert(pre.pool_has_live_buffer(pid2));
                        let j = choose|j: int|
                            0 <= j < pre.buffers@.len() && (#[trigger] pre.buffers@[j]).pool_id
                                == pid2;
                        assert(!pre.current_pool_is(pid2));
                        assert(pid2 != pid);
                        assert(spec_seq_contains_buffer(kept@, pre.buffers@[j]));
                        let k = choose|k: int|
                            0 <= k < kept@.len() && #[trigger] kept@[k] == pre.buffers@[j];
                        assert(kept@[k].pool_id == pid2);
                    }
                }
                self.buffers = kept;
                if kept_old {
                    self.superseded.push(op);
                } else {
                    dropped_pool = Some(pid);
                }
            },
        }
        let ghost retained_g = self.buffers@;
        self.pool = Some(new_pool);
        self.buffers.push(new_buffer);
        self.next_id = self.next_id + 2;
        self.negotiated_width = width;
        self.negotiated_height = height;
        self.resize_state = ResizeState::AwaitingAck;
        self.last_submitted = Some(buffer_id);
        proof {
            lemma_swap_wf(pre, *self, retained_g, new_buffer);
        }
        ResizeOutcome::PoolSwapped {
            pool_id,
            alloc_size: new_pool.alloc_size,
            buffer_id,
            width,
            height,
            destroyed_buffers: destroyed,
            dropped_pool,
        }
    }
}

} // verus!
