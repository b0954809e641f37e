//! One on-screen window: its negotiated geometry, its current buffer pool,
//! the pools it has superseded but not yet drained, the buffers carved from
//! all of those pools, and the state of its resize negotiation and frame
//! pacing.
//!
//! Buffers are held in one flat collection in creation order, each tagged
//! with the identity of the pool whose allocation backs it. Exactly one pool
//! is current at any time once the first negotiation has completed;
//! superseded pools are retained only while a buffer of theirs is still held
//! by the server.

use vstd::prelude::*;

use crate::buffer::{Buffer, BufferState};
use crate::format::PixelFormat;
use crate::pool::{spec_dimensions_ok, BufferPool};

verus! {

/// State of the resize negotiation of one window.
#[derive(Clone, Copy, Debug, PartialEq, Eq, Structural)]
pub enum ResizeState {
    /// The negotiated geometry is current and no proposal is outstanding.
    Stable,
    /// The server proposed a new geometry; the pool has not been swapped yet.
    ResizePending,
    /// The pool has been swapped for the proposed geometry; the round has
    /// not been acknowledged to the server yet.
    AwaitingAck,
}

/// One window: surface-level state the library governs.
pub struct Window {
    /// Title the window was created with.
    pub title: String,
    /// Application identifier the window was created with.
    pub app_id: String,
    /// Pixel format of every pool of this window.
    pub format: PixelFormat,
    /// Width last agreed with the server.
    pub negotiated_width: u32,
    /// Height last agreed with the server.
    pub negotiated_height: u32,
    /// Width last proposed by the server (equals the negotiated width
    /// whenever no resize is pending).
    pub pending_width: u32,
    /// Height last proposed by the server (equals the negotiated height
    /// whenever no resize is pending).
    pub pending_height: u32,
    /// State of the resize negotiation.
    pub resize_state: ResizeState,
    /// Whether a redraw-permission request is outstanding.
    pub frame_requested: bool,
    /// The current pool; `None` only before the first negotiation completes.
    pub pool: Option<BufferPool>,
    /// Superseded pools that still have a buffer held by the server.
    pub superseded: Vec<BufferPool>,
    /// Every live buffer of this window, in creation order, across the
    /// current and the superseded pools.
    pub buffers: Vec<Buffer>,
    /// Next identity to mint for a pool or buffer of this window.
    pub next_id: u64,
    /// Buffer submitted by the most recent frame submission or pool swap.
    pub last_submitted: Option<u64>,
}

/// Whether two windows carry the same title, application id and format.
pub open spec fn same_identity(a: Window, b: Window) -> bool {
    &&& a.title@ == b.title@
    &&& a.app_id@ == b.app_id@
    &&& a.format == b.format
}

impl Window {
    /// Whether `pid` is the identity of the current pool.
    pub open spec fn current_pool_is(self, pid: u64) -> bool {
        self.pool matches Some(p) && p.id == pid
    }

    /// Whether `pid` is the identity of one of the superseded pools.
    pub open spec fn superseded_has(self, pid: u64) -> bool {
        exists|i: int|
            0 <= i < self.superseded@.len() && (#[trigger] self.superseded@[i]).id == pid
    }

    /// Whether some live buffer is backed by pool `pid`.
    pub open spec fn pool_has_live_buffer(self, pid: u64) -> bool {
        exists|k: int|
            0 <= k < self.buffers@.len() && (#[trigger] self.buffers@[k]).pool_id == pid
    }

    /// What holds of every live buffer: its identity is already minted, and
    /// it is consistent with the pool that backs it. A buffer of the current
    /// pool is in its reuse cycle (`Free` or `InFlight`) and fits inside the
    /// current allocation; a buffer of a superseded pool is awaiting its
    /// release from the server (`PendingDestroy`).
    pub open spec fn buffer_wf(self, b: Buffer) -> bool {
        &&& b.id < self.next_id
        &&& if self.current_pool_is(b.pool_id) {
            &&& (b.state is Free || b.state is InFlight)
            &&& b.width == self.pool->Some_0.width
            &&& b.height == self.pool->Some_0.height
            &&& b.offset + b.len <= self.pool->Some_0.alloc_size
        } else {
            &&& self.superseded_has(b.pool_id)
            &&& b.state is PendingDestroy
        }
    }

    /// Buffer identities are pairwise distinct.
    pub open spec fn buffer_ids_distinct(self) -> bool {
        forall|k1: int, k2: int|
            0 <= k1 < k2 < self.buffers@.len() ==> (#[trigger] self.buffers@[k1]).id != (
            #[trigger] self.buffers@[k2]).id
    }

    /// What holds of the pools: the current pool is sized exactly for the
    /// negotiated geometry and format, and every pool identity is minted
    /// and distinct.
    pub open spec fn pools_wf(self) -> bool {
        &&& (self.pool matches Some(p) ==> {
            &&& p.wf()
            &&& p.id < self.next_id
            &&& p.width == self.negotiated_width
            &&& p.height == self.negotiated_height
            &&& p.format == self.format
        })
        &&& (forall|i: int|
            0 <= i < self.superseded@.len() ==> {
                &&& (#[trigger] self.superseded@[i]).wf()
                &&& self.superseded@[i].id < self.next_id
                &&& self.superseded@[i].format == self.format
                &&& !self.current_pool_is(self.superseded@[i].id)
            })
        &&& (forall|i: int, j: int|
            0 <= i < j < self.superseded@.len() ==> (#[trigger] self.superseded@[i]).id != (
            #[trigger] self.superseded@[j]).id)
    }

    /// A superseded pool is retained only while a buffer of its allocation
    /// is still live: pools whose last buffer was destroyed are dropped.
    pub open spec fn superseded_live(self) -> bool {
        forall|i: int|
            0 <= i < self.superseded@.len() ==> self.pool_has_live_buffer(
                (#[trigger] self.superseded@[i]).id,
            )
    }

    /// Geometry bounds, and the pending size collapsing to the negotiated
    /// size whenever no resize is pending.
    pub open spec fn geometry_wf(self) -> bool {
        &&& spec_dimensions_ok(self.negotiated_width, self.negotiated_height)
        &&& spec_dimensions_ok(self.pending_width, self.pending_height)
        &&& !(self.resize_state is ResizePending) ==> (self.pending_width == self.negotiated_width
            && self.pending_height == self.negotiated_height)
    }

    /// Well-formedness of a window; established at creation and preserved
    /// by every event handler.
    pub open spec fn wf(self) -> bool {
        &&& self.geometry_wf()
        &&& self.pools_wf()
        &&& (forall|k: int|
            0 <= k < self.buffers@.len() ==> self.buffer_wf(#[trigger] self.buffers@[k]))
        &&& self.buffer_ids_distinct()
        &&& self.superseded_live()
    }

    /// What a freshly created window looks like: no pool yet, a resize to
    /// the given geometry already pending so that the first negotiation
    /// round allocates the first pool.
    pub open spec fn is_initial(
        self,
        title: Seq<char>,
        app_id: Seq<char>,
        format: PixelFormat,
        width: u32,
        height: u32,
    ) -> bool {
        &&& self.title@ == title
        &&& self.app_id@ == app_id
        &&& self.format == format
        &&& self.negotiated_width == width
        &&& self.negotiated_height == height
        &&& self.pending_width == width
        &&& self.pending_height == height
        &&& self.resize_state is ResizePending
        &&& !self.frame_requested
        &&& self.pool is None
        &&& self.superseded@.len() == 0
        &&& self.buffers@.len() == 0
        &&& self.next_id == 0
        &&& self.last_submitted is None
    }

    /// Creates a window with no pool and a first negotiation round pending
    /// for the given geometry.
    pub fn new(title: &str, app_id: &str, format: PixelFormat, width: u32, height: u32) -> (w:
        Window)
        requires
            spec_dimensions_ok(width, height),
        ensures
            w.wf(),
            w.is_initial(title@, app_id@, format, width, height),
    {
        Window {
            title: String::from_str(title),
            app_id: String::from_str(app_id),
            format,
            negotiated_width: width,
            negotiated_height: height,
            pending_width: width,
            pending_height: height,
            resize_state: ResizeState::ResizePending,
            frame_requested: false,
            pool: None,
            superseded: Vec::new(),
            buffers: Vec::new(),
            next_id: 0,
            last_submitted: None,
        }
    }

    /// The geometry last agreed with the server.
    pub fn negotiated_size(&self) -> (r: (u32, u32))
        ensures
            r == (self.negotiated_width, self.negotiated_height),
    {
        (self.negotiated_width, self.negotiated_height)
    }

    /// First index holding a buffer with the given identity, if any.
    pub fn find_buffer(&self, buffer_id: u64) -> (r: Option<usize>)
        ensures
            match r {
                Some(i) => {
                    &&& 0 <= i < self.buffers@.len()
                    &&& self.buffers@[i as int].id == buffer_id
                    &&& forall|k: int| 0 <= k < i ==> (#[trigger] self.buffers@[k]).id != buffer_id
                },
                None => forall|k: int|
                    0 <= k < self.buffers@.len() ==> (#[trigger] self.buffers@[k]).id != buffer_id,
            },
    {
        let mut i: usize = 0;
        while i < self.buffers.len()
            invariant
                0 <= i <= self.buffers@.len(),
                forall|k: int| 0 <= k < i ==> (#[trigger] self.buffers@[k]).id != buffer_id,
            decreases self.buffers@.len() - i,
        {
            if self.buffers[i].id == buffer_id {
                return Some(i);
            }
            i = i + 1;
        }
        None
    }

    /// The usage state of the buffer with the given identity; a buffer that
    /// was never created, or was already removed, reports `Destroyed`.
    pub fn buffer_state(&self, buffer_id: u64) -> (r: BufferState)
        ensures
            match spec_first_with_id(self.buffers@, buffer_id) {
                Some(k) => r == self.buffers@[k].state,
                None => r is Destroyed,
            },
    {
        proof {
            lemma_first_with_id(self.buffers@, buffer_id);
        }
        match self.find_buffer(buffer_id) {
            Some(i) => self.buffers[i].state,
            None => BufferState::Destroyed,
        }
    }

    /// First `Free` buffer of the current pool, in creation order; `None`
    /// is the backpressure signal that every buffer is still held by the
    /// server.
    pub fn select_free_buffer(&self) -> (r: Option<usize>)
        ensures
            match r {
                Some(i) => {
                    &&& 0 <= i < self.buffers@.len()
                    &&& self.buffers@[i as int].state is Free
                    &&& self.current_pool_is(self.buffers@[i as int].pool_id)
                    &&& forall|k: int|
                        0 <= k < i ==> !((#[trigger] self.buffers@[k]).state is Free
                            && self.current_pool_is(self.buffers@[k].pool_id))
                },
                None => forall|k: int|
                    0 <= k < self.buffers@.len() ==> !((#[trigger] self.buffers@[k]).state is Free
                        && self.current_pool_is(self.buffers@[k].pool_id)),
            },
    {
        let current = match &self.pool {
            Some(p) => p.id,
            None => {
                return None;
            },
        };
        let mut i: usize = 0;
        while i < self.buffers.len()
            invariant
                0 <= i <= self.buffers@.len(),
                self.current_pool_is(current),
                forall|k: int|
                    0 <= k < i ==> !((#[trigger] self.buffers@[k]).state is Free
                        && self.current_pool_is(self.buffers@[k].pool_id)),
            decreases self.buffers@.len() - i,
        {
            let b = self.buffers[i];
            if b.pool_id == current && b.state == BufferState::Free {
                return Some(i);
            }
            i = i + 1;
        }
        None
    }

    /// Byte range (offset, length) of the buffer submitted by the most
    /// recent frame submission or pool swap, while that buffer is live.
    pub fn writable_region(&self) -> (r: Option<(u64, u64)>)
        ensures
            match self.last_submitted {
                None => r is None,
                Some(id) => match spec_first_with_id(self.buffers@, id) {
                    Some(k) => r == Some(
                        (self.buffers@[k].offset, self.buffers@[k].len),
                    ),
                    None => r is None,
                },
            },
    {
        let id = match self.last_submitted {
            Some(id) => id,
            None => {
                return None;
            },
        };
        proof {
            lemma_first_with_id(self.buffers@, id);
        }
        match self.find_buffer(id) {
            Some(i) => Some((self.buffers[i].offset, self.buffers[i].len)),
            None => None,
        }
    }
}

/// After every completed negotiation — in fact in every reachable state —
/// the current pool's allocation size exactly matches the window's
/// negotiated geometry: `width * bytes-per-pixel * height` for the
/// window's format. Every event handler preserves `wf`, so this holds at
/// every point at which a current pool exists.
pub proof fn lemma_current_pool_sized(w: Window)
    requires
        w.wf(),
        w.pool is Some,
    ensures
        w.pool->Some_0.alloc_size == crate::pool::spec_allocation_size(
            w.negotiated_width,
            w.negotiated_height,
            w.format,
        ),
{
}

/// First index of a buffer with the given identity, as a mathematical
/// function.
pub open spec fn spec_first_with_id(s: Seq<Buffer>, id: u64) -> Option<int>
    decreases s.len(),
{
    if s.len() == 0 {
        None
    } else if s[0].id == id {
        Some(0)
    } else {
        match spec_first_with_id(s.drop_first(), id) {
            Some(i) => Some(i + 1),
            None => None,
        }
    }
}

/// `spec_first_with_id` returns exactly the first index whose buffer has
/// the given identity, or `None` when no buffer has it.
pub proof fn lemma_first_with_id(s: Seq<Buffer>, id: u64)
    ensures
        match spec_first_with_id(s, id) {
            Some(i) => {
                &&& 0 <= i < s.len()
                &&& s[i].id == id
                &&& forall|k: int| 0 <= k < i ==> (#[trigger] s[k]).id != id
            },
            None => forall|k: int| 0 <= k < s.len() ==> (#[trigger] s[k]).id != id,
        },
    decreases s.len(),
{
    if s.len() > 0 && s[0].id != id {
        lemma_first_with_id(s.drop_first(), id);
        assert(forall|k: int|
            1 <= k < s.len() ==> #[trigger] s[k] == s.drop_first()[k - 1]);
    }
}

} // verus!
