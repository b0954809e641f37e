//! The frame-pacing scheduler of one window.
//!
//! A redraw-permission notification from the server selects the first free
//! buffer of the current pool, marks it in flight and submits it, then
//! always re-requests the next notification, so that the cadence continues
//! whether or not a buffer was available. A release notification returns an
//! in-flight buffer to the free state, or finishes the deferred destruction
//! of a buffer whose pool was superseded — dropping that pool as soon as
//! its last buffer is gone.

use vstd::prelude::*;

use crate::buffer::{Buffer, BufferState};
use crate::negotiator::{lemma_has_pool_push, spec_seq_has_pool};
use crate::window::spec_first_with_id;
use crate::window::{same_identity, Window};

verus! {

/// Outcome of a redraw-permission notification.
#[derive(Clone, Copy, Debug, PartialEq, Eq, Structural)]
pub enum FrameOutcome {
    /// A free buffer was selected and submitted; the caller attaches it,
    /// damages the full extent given here, and commits.
    Submitted { buffer_id: u64, width: u32, height: u32 },
    /// Every buffer is still held by the server: the frame is skipped and
    /// the cadence continues. A normal backpressure signal, not an error.
    Starved,
}

/// Outcome of a buffer-release notification.
#[derive(Clone, Copy, Debug, PartialEq, Eq, Structural)]
pub enum ReleaseOutcome {
    /// The buffer returned to the free state and is eligible again.
    Freed { buffer_id: u64 },
    /// The buffer's pool had been superseded; the buffer is destroyed, and
    /// its pool is dropped as well when this was its last buffer.
    Destroyed { buffer_id: u64, dropped_pool: Option<u64> },
    /// The identity is unknown, or the buffer was not held by the server.
    Ignored,
}

/// Everything a redraw-permission event leaves behind: the first free
/// buffer of the current pool — never one in flight or awaiting
/// destruction — is submitted and marked in flight, or the frame is
/// skipped when none is free; either way the next notification is
/// re-requested.
pub open spec fn spec_redraw_post(pre: Window, post: Window, r: FrameOutcome) -> bool {
    &&& post.wf()
    &&& same_identity(post, pre)
    &&& post.negotiation() == pre.negotiation()
    &&& post.pool == pre.pool
    &&& post.superseded@ == pre.superseded@
    &&& post.next_id == pre.next_id
    &&& post.frame_requested
    &&& match r {
        FrameOutcome::Submitted { buffer_id, width, height } => exists|i: int|
            {
                &&& 0 <= i < pre.buffers@.len()
                &&& (#[trigger] pre.buffers@[i]).state is Free
                &&& pre.current_pool_is(pre.buffers@[i].pool_id)
                &&& (forall|k: int|
                    0 <= k < i ==> !((#[trigger] pre.buffers@[k]).state is Free
                        && pre.current_pool_is(pre.buffers@[k].pool_id)))
                &&& buffer_id == pre.buffers@[i].id
                &&& width == pre.buffers@[i].width
                &&& height == pre.buffers@[i].height
                &&& post.buffers@ == pre.buffers@.update(
                    i,
                    Buffer { state: BufferState::InFlight, ..pre.buffers@[i] },
                )
                &&& post.last_submitted == Some(buffer_id)
            },
        FrameOutcome::Starved => {
            &&& post.buffers@ == pre.buffers@
            &&& post.last_submitted == pre.last_submitted
            &&& (forall|k: int|
                0 <= k < pre.buffers@.len() ==> !((#[trigger] pre.buffers@[k]).state is Free
                    && pre.current_pool_is(pre.buffers@[k].pool_id)))
        },
    }
}

impl Window {
    /// Handles a redraw-permission notification: submits the first free
    /// buffer of the current pool if one exists, and always re-requests the
    /// next notification.
    #[verifier::rlimit(40)]
    pub fn handle_redraw_granted(&mut self) -> (r: FrameOutcome)
        requires
            old(self).wf(),
        ensures
            spec_redraw_post(*old(self), *final(self), r),
    {
        let ghost pre = *self;
        let r = match self.select_free_buffer() {
            Some(i) => {
                let b = self.buffers[i];
                let nb = Buffer {
                    id: b.id,
                    pool_id: b.pool_id,
                    width: b.width,
                    height: b.height,
                    offset: b.offset,
                    len: b.len,
                    state: BufferState::InFlight,
                };
                self.buffers[i] = nb;
                self.last_submitted = Some(b.id);
                proof {
                    assert(self.buffers@ == pre.buffers@.update(
                        i as int,
                        Buffer { state: BufferState::InFlight, ..pre.buffers@[i as int] },
                    ));
                    lemma_wf_after_state_update(pre, *self, i as int, nb);
                }
                FrameOutcome::Submitted { buffer_id: b.id, width: b.width, height: b.height }
            },
            None => FrameOutcome::Starved,
        };
        self.frame_requested = true;
        r
    }
}

/// Everything a buffer-release notification leaves behind, keyed by the
/// released buffer's identity: an in-flight buffer returns to free; a
/// buffer awaiting destruction is removed, and its superseded pool is
/// dropped exactly when that was its last buffer; anything else is ignored.
pub open spec fn spec_released_post(pre: Window, post: Window, buffer_id: u64, r: ReleaseOutcome) -> bool {
    &&& post.wf()
    &&& same_identity(post, pre)
    &&& post.negotiation() == pre.negotiation()
    &&& post.pool == pre.pool
    &&& post.next_id == pre.next_id
    &&& post.frame_requested == pre.frame_requested
    &&& post.last_submitted == pre.last_submitted
    &&& match spec_first_with_id(pre.buffers@, buffer_id) {
        None => {
            &&& r is Ignored
            &&& post.buffers@ == pre.buffers@
            &&& post.superseded@ == pre.superseded@
        },
        Some(i) => match pre.buffers@[i].state {
            BufferState::InFlight => {
                &&& r == ReleaseOutcome::Freed { buffer_id }
                &&& post.buffers@ == pre.buffers@.update(
                    i,
                    Buffer { state: BufferState::Free, ..pre.buffers@[i] },
                )
                &&& post.superseded@ == pre.superseded@
            },
            BufferState::PendingDestroy => {
                let pid = pre.buffers@[i].pool_id;
                &&& r matches ReleaseOutcome::Destroyed { buffer_id: bid, dropped_pool }
                    && bid == buffer_id && {
                    if spec_seq_has_pool(pre.buffers@.remove(i), pid) {
                        &&& dropped_pool is None
                        &&& post.superseded@ == pre.superseded@
                    } else {
                        &&& dropped_pool == Some(pid)
                        &&& exists|si: int|
                            0 <= si < pre.superseded@.len() && (
                            #[trigger] pre.superseded@[si]).id == pid && post.superseded@
                                == pre.superseded@.remove(si)
                    }
                }
                &&& post.buffers@ == pre.buffers@.remove(i)
            },
            _ => {
                &&& r is Ignored
                &&& post.buffers@ == pre.buffers@
                &&& post.superseded@ == pre.superseded@
            },
        },
    }
}

/// No buffer is ever selected for submission while in flight or awaiting
/// destruction: whatever buffer a redraw-permission event submits was free
/// — and in the current pool — when it was selected.
pub proof fn lemma_selected_buffer_was_free(pre: Window, post: Window, r: FrameOutcome)
    requires
        spec_redraw_post(pre, post, r),
        r matches FrameOutcome::Submitted { .. },
    ensures
        exists|i: int|
            {
                &&& 0 <= i < pre.buffers@.len()
                &&& (#[trigger] pre.buffers@[i]).id == r->Submitted_buffer_id
                &&& pre.buffers@[i].state is Free
                &&& !(pre.buffers@[i].state is InFlight)
                &&& !(pre.buffers@[i].state is PendingDestroy)
                &&& pre.current_pool_is(pre.buffers@[i].pool_id)
            },
{
    let i = choose|i: int|
        {
            &&& 0 <= i < pre.buffers@.len()
            &&& (#[trigger] pre.buffers@[i]).state is Free
            &&& pre.current_pool_is(pre.buffers@[i].pool_id)
            &&& (forall|k: int|
                0 <= k < i ==> !((#[trigger] pre.buffers@[k]).state is Free
                    && pre.current_pool_is(pre.buffers@[k].pool_id)))
            &&& r->Submitted_buffer_id == pre.buffers@[i].id
            &&& r->Submitted_width == pre.buffers@[i].width
            &&& r->Submitted_height == pre.buffers@[i].height
            &&& post.buffers@ == pre.buffers@.update(
                i,
                Buffer { state: BufferState::InFlight, ..pre.buffers@[i] },
            )
            &&& post.last_submitted == Some(r->Submitted_buffer_id)
        };
    assert(pre.buffers@[i].id == r->Submitted_buffer_id);
}

impl Window {
    /// Handles a buffer-release notification from the server, keyed by the
    /// buffer's identity, across the current and the superseded pools.
    ///
    /// An in-flight buffer returns to the free state. A buffer awaiting
    /// deferred destruction is destroyed; when it was the last buffer of
    /// its superseded pool, that pool is dropped in the same step — never
    /// earlier, never later. A release for an unknown identity, or for a
    /// buffer that is not held by the server, changes nothing.
    #[verifier::rlimit(40)]
    pub fn handle_buffer_released(&mut self, buffer_id: u64) -> (r: ReleaseOutcome)
        requires
            old(self).wf(),
        ensures
            spec_released_post(*old(self), *final(self), buffer_id, r),
    {
        let ghost pre = *self;
        proof {
            crate::window::lemma_first_with_id(pre.buffers@, buffer_id);
        }
        let i = match self.find_buffer(buffer_id) {
            Some(i) => i,
            None => {
                proof {
                    assert(spec_first_with_id(pre.buffers@, buffer_id) is None);
                }
                return ReleaseOutcome::Ignored;
            },
        };
        proof {
            assert(spec_first_with_id(pre.buffers@, buffer_id) == Some(i as int));
        }
        let b = self.buffers[i];
        match b.state {
            BufferState::InFlight => {
                let nb = Buffer {
                    id: b.id,
                    pool_id: b.pool_id,
                    width: b.width,
                    height: b.height,
                    offset: b.offset,
                    len: b.len,
                    state: BufferState::Free,
                };
                self.buffers[i] = nb;
                proof {
                    assert(pre.buffer_wf(pre.buffers@[i as int]));
                    assert(self.buffers@ == pre.buffers@.update(
                        i as int,
                        Buffer { state: BufferState::Free, ..pre.buffers@[i as int] },
                    ));
                    lemma_wf_after_state_update(pre, *self, i as int, nb);
                }
                ReleaseOutcome::Freed { buffer_id }
            },
            BufferState::PendingDestroy => {
                let pid = b.pool_id;
                let _removed = self.buffers.remove(i);
                let mut live = false;
                let mut k: usize = 0;
                let n = self.buffers.len();
                while k < n
                    invariant
                        n == self.buffers@.len(),
                        0 <= k <= n,
                        self.buffers@ == pre.buffers@.remove(i as int),
                        live == spec_seq_has_pool(self.buffers@.take(k as int), pid),
                    decreases n - k,
                {
                    proof {
                        assert(self.buffers@.take(k as int + 1) =~= self.buffers@.take(
                            k as int,
                        ).push(self.buffers@[k as int]));
                        lemma_has_pool_push(
                            self.buffers@.take(k as int),
                            self.buffers@[k as int],
                            pid,
                        );
                    }
                    if self.buffers[k].pool_id == pid {
                        live = true;
                    }
                    k = k + 1;
                }
                proof {
                    assert(self.buffers@.take(n as int) =~= self.buffers@);
                }
                if live {
                    proof {
                        lemma_wf_after_destroy(pre, *self, i as int, None);
                    }
                    ReleaseOutcome::Destroyed { buffer_id, dropped_pool: None }
                } else {
                    let si = self.find_superseded_pool(pid);
                    proof {
                        assert(pre.buffer_wf(pre.buffers@[i as int]));
                        assert(pre.superseded_has(pid));
                    }
                    let si = match si {
                        Some(si) => si,
                        None => {
                            proof {
                                let w = choose|w: int|
                                    0 <= w < pre.superseded@.len() && (
                                    #[trigger] pre.superseded@[w]).id == pid;
                                assert(false);
                            }
                            0
                        },
                    };
                    let _pool = self.superseded.remove(si);
                    proof {
                        lemma_wf_after_destroy(pre, *self, i as int, Some(si as int));
                    }
                    ReleaseOutcome::Destroyed { buffer_id, dropped_pool: Some(pid) }
                }
            },
            _ => ReleaseOutcome::Ignored,
        }
    }

    /// First index of a superseded pool with the given identity, if any.
    fn find_superseded_pool(&self, pool_id: u64) -> (r: Option<usize>)
        ensures
            match r {
                Some(si) => {
                    &&& 0 <= si < self.superseded@.len()
                    &&& self.superseded@[si as int].id == pool_id
                },
                None => forall|j: int|
                    0 <= j < self.superseded@.len() ==> (#[trigger] self.superseded@[j]).id
                        != pool_id,
            },
    {
        let mut j: usize = 0;
        while j < self.superseded.len()
            invariant
                0 <= j <= self.superseded@.len(),
                forall|k: int| 0 <= k < j ==> (#[trigger] self.superseded@[k]).id != pool_id,
            decreases self.superseded@.len() - j,
        {
            if self.superseded[j].id == pool_id {
                return Some(j);
            }
            j = j + 1;
        }
        None
    }
}

/// A superseded pool is dropped exactly when its last buffer is destroyed:
/// a release that destroys a buffer drops the buffer's pool if and only if
/// no live buffer of that pool remains (never earlier); and no reachable
/// state retains a superseded pool without a live buffer (never leaked).
pub proof fn lemma_superseded_dropped_exactly(
    pre: Window,
    post: Window,
    buffer_id: u64,
    r: ReleaseOutcome,
)
    requires
        pre.wf(),
        spec_released_post(pre, post, buffer_id, r),
    ensures
        forall|i: int|
            0 <= i < post.superseded@.len() ==> post.pool_has_live_buffer(
                (#[trigger] post.superseded@[i]).id,
            ),
        r matches ReleaseOutcome::Destroyed { dropped_pool, .. } ==> {
            let i = spec_first_with_id(pre.buffers@, buffer_id)->Some_0;
            let pid = pre.buffers@[i].pool_id;
            &&& (dropped_pool == Some(pid)) == !spec_seq_has_pool(post.buffers@, pid)
            &&& (dropped_pool is None) == spec_seq_has_pool(post.buffers@, pid)
        },
{
    crate::window::lemma_first_with_id(pre.buffers@, buffer_id);
}

/// A window stays well-formed after the deferred destruction of a buffer of
/// a superseded pool, with the pool dropped exactly when that was its last
/// buffer.
#[verifier::rlimit(80)]
proof fn lemma_wf_after_destroy(pre: Window, post: Window, i: int, dropped: Option<int>)
    requires
        pre.wf(),
        0 <= i < pre.buffers@.len(),
        pre.buffers@[i].state is PendingDestroy,
        post.buffers@ == pre.buffers@.remove(i),
        post.pool == pre.pool,
        post.next_id == pre.next_id,
        post.format == pre.format,
        post.negotiated_width == pre.negotiated_width,
        post.negotiated_height == pre.negotiated_height,
        post.pending_width == pre.pending_width,
        post.pending_height == pre.pending_height,
        post.resize_state == pre.resize_state,
        match dropped {
            None => post.superseded@ == pre.superseded@ && spec_seq_has_pool(
                post.buffers@,
                pre.buffers@[i].pool_id,
            ),
            Some(si) => {
                &&& 0 <= si < pre.superseded@.len()
                &&& pre.superseded@[si].id == pre.buffers@[i].pool_id
                &&& post.superseded@ == pre.superseded@.remove(si)
                &&& !spec_seq_has_pool(post.buffers@, pre.buffers@[i].pool_id)
            },
        },
    ensures
        post.wf(),
{
    let pid = pre.buffers@[i].pool_id;
    assert(forall|k: int|
        0 <= k < post.buffers@.len() ==> #[trigger] post.buffers@[k] == (if k < i {
            pre.buffers@[k]
        } else {
            pre.buffers@[k + 1]
        }));
    assert forall|k: int| 0 <= k < post.buffers@.len() implies post.buffer_wf(
        #[trigger] post.buffers@[k],
    ) by {
        let k0: int = if k < i {
            k
        } else {
            k + 1
        };
        let b = pre.buffers@[k0];
        assert(pre.buffer_wf(b));
        if !pre.current_pool_is(b.pool_id) {
            assert(pre.superseded_has(b.pool_id));
            let w = choose|w: int|
                0 <= w < pre.superseded@.len() && (#[trigger] pre.superseded@[w]).id == b.pool_id;
            match dropped {
                None => {
                    assert(post.superseded@[w].id == b.pool_id);
                },
                Some(si) => {
                    if b.pool_id == pid {
                        assert(spec_seq_has_pool(post.buffers@, pid));  // witness k
                        assert(false);
                    } else {
                        assert(pre.superseded@[si].id == pid);
                        let w2: int = if w < si {
                            w
                        } else {
                            w - 1
                        };
                        assert(w != si);
                        assert(post.superseded@[w2] == pre.superseded@[w]);
                        assert(post.superseded@[w2].id == b.pool_id);
                    }
                },
            }
            assert(post.superseded_has(b.pool_id));
        }
    }
    assert forall|k1: int, k2: int| 0 <= k1 < k2 < post.buffers@.len() implies (
    #[trigger] post.buffers@[k1]).id != (#[trigger] post.buffers@[k2]).id by {
        let j1: int = if k1 < i {
            k1
        } else {
            k1 + 1
        };
        let j2: int = if k2 < i {
            k2
        } else {
            k2 + 1
        };
        assert(post.buffers@[k1] == pre.buffers@[j1]);
        assert(post.buffers@[k2] == pre.buffers@[j2]);
    }
    match dropped {
        None => {
            assert(post.pools_wf());
            assert forall|j: int| 0 <= j < post.superseded@.len() implies post.pool_has_live_buffer(
                (#[trigger] post.superseded@[j]).id,
            ) by {
                let pid2 = post.superseded@[j].id;
                if pid2 == pid {
                    let k = choose|k: int|
                        0 <= k < post.buffers@.len() && (#[trigger] post.buffers@[k]).pool_id
                            == pid;
                } else {
                    assert(pre.pool_has_live_buffer(pid2));
                    let k0 = choose|k0: int|
                        0 <= k0 < pre.buffers@.len() && (#[trigger] pre.buffers@[k0]).pool_id
                            == pid2;
                    assert(k0 != i);
                    let k: int = if k0 < i {
                        k0
                    } else {
                        k0 - 1
                    };
                    assert(post.buffers@[k].pool_id == pid2);
                }
            }
        },
        Some(si) => {
            assert(forall|j: int|
                0 <= j < post.superseded@.len() ==> #[trigger] post.superseded@[j] == (if j < si {
                    pre.superseded@[j]
                } else {
                    pre.superseded@[j + 1]
                }));
            assert forall|j: int| 0 <= j < post.superseded@.len() implies {
                &&& (#[trigger] post.superseded@[j]).wf()
                &&& post.superseded@[j].id < post.next_id
                &&& post.superseded@[j].format == post.format
                &&& !post.current_pool_is(post.superseded@[j].id)
            } by {
                let j0: int = if j < si {
                    j
                } else {
                    j + 1
                };
                assert(pre.superseded@[j0].wf());
            }
            assert forall|j1: int, j2: int| 0 <= j1 < j2 < post.superseded@.len() implies (
            #[trigger] post.superseded@[j1]).id != (#[trigger] post.superseded@[j2]).id by {
                let i1: int = if j1 < si {
                    j1
                } else {
                    j1 + 1
                };
                let i2: int = if j2 < si {
                    j2
                } else {
                    j2 + 1
                };
                assert(post.superseded@[j1] == pre.superseded@[i1]);
                assert(post.superseded@[j2] == pre.superseded@[i2]);
            }
            assert(post.pools_wf());
            assert forall|j: int| 0 <= j < post.superseded@.len() implies post.pool_has_live_buffer(
                (#[trigger] post.superseded@[j]).id,
            ) by {
                let j0: int = if j < si {
                    j
                } else {
                    j + 1
                };
                let pid2 = pre.superseded@[j0].id;
                assert(pid2 != pid);
                assert(pre.pool_has_live_buffer(pid2));
                let k0 = choose|k0: int|
                    0 <= k0 < pre.buffers@.len() && (#[trigger] pre.buffers@[k0]).pool_id == pid2;
                assert(k0 != i);
                let k: int = if k0 < i {
                    k0
                } else {
                    k0 - 1
                };
                assert(post.buffers@[k].pool_id == pid2);
            }
        },
    }
}

/// A window stays well-formed when one buffer of the current pool merely
/// changes its usage state within the reuse cycle.
proof fn lemma_wf_after_state_update(pre: Window, post: Window, i: int, nb: Buffer)
    requires
        pre.wf(),
        0 <= i < pre.buffers@.len(),
        nb.id == pre.buffers@[i].id,
        nb.pool_id == pre.buffers@[i].pool_id,
        nb.width == pre.buffers@[i].width,
        nb.height == pre.buffers@[i].height,
        nb.offset == pre.buffers@[i].offset,
        nb.len == pre.buffers@[i].len,
        nb.state is Free || nb.state is InFlight,
        pre.current_pool_is(nb.pool_id),
        post.buffers@ == pre.buffers@.update(i, nb),
        post.pool == pre.pool,
        post.superseded@ == pre.superseded@,
        post.next_id == pre.next_id,
        post.format == pre.format,
        post.negotiated_width == pre.negotiated_width,
        post.negotiated_height == pre.negotiated_height,
        post.pending_width == pre.pending_width,
        post.pending_height == pre.pending_height,
        post.resize_state == pre.resize_state,
    ensures
        post.wf(),
{
    assert forall|k: int| 0 <= k < post.buffers@.len() implies post.buffer_wf(
        #[trigger] post.buffers@[k],
    ) by {
        if k != i {
            assert(post.buffers@[k] == pre.buffers@[k]);
            assert(pre.buffer_wf(pre.buffers@[k]));
        } else {
            assert(pre.buffer_wf(pre.buffers@[i]));
        }
    }
    assert forall|k1: int, k2: int| 0 <= k1 < k2 < post.buffers@.len() implies (
    #[trigger] post.buffers@[k1]).id != (#[trigger] post.buffers@[k2]).id by {
        assert(post.buffers@[k1].id == pre.buffers@[k1].id);
        assert(post.buffers@[k2].id == pre.buffers@[k2].id);
    }
    assert forall|j: int| 0 <= j < post.superseded@.len() implies post.pool_has_live_buffer(
        (#[trigger] post.superseded@[j]).id,
    ) by {
        assert(pre.pool_has_live_buffer(pre.superseded@[j].id));
        let k = choose|k: int|
            0 <= k < pre.buffers@.len() && (#[trigger] pre.buffers@[k]).pool_id
                == pre.superseded@[j].id;
        assert(post.buffers@[k].pool_id == pre.superseded@[j].id);
    }
}

} // verus!
