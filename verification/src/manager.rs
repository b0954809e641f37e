//! The window manager: owns the collection of windows, creates and closes
//! them, and routes incoming protocol events to the owning window's resize
//! negotiator or frame scheduler.
//!
//! Windows live in an arena of slots indexed by a stable handle; a closed
//! window leaves an empty slot behind, so the handles of the remaining
//! windows never move.

use vstd::prelude::*;

use crate::buffer::Buffer;
use crate::error::{ClientError, ClientErrorKind};
use crate::format::PixelFormat;
use crate::negotiator::{spec_ack_post, spec_completed_post, spec_proposed_post, ResizeOutcome};
use crate::pool::BufferPool;
use crate::scheduler::{spec_redraw_post, spec_released_post, FrameOutcome, ReleaseOutcome};
use crate::window::Window;

verus! {

/// Width a window starts with until the first negotiation completes.
pub const DEFAULT_WINDOW_WIDTH: u32 = 480;

/// Height a window starts with until the first negotiation completes.
pub const DEFAULT_WINDOW_HEIGHT: u32 = 480;

/// Pixel format every window of this manager renders in.
pub const DEFAULT_PIXEL_FORMAT: PixelFormat = PixelFormat::Argb8888;

/// A server capability the manager needs before it can create windows.
#[derive(Clone, Copy, Debug, PartialEq, Eq, Structural)]
pub enum Capability {
    /// The surface factory.
    Compositor,
    /// The shared-memory factory.
    Shm,
    /// The window-shell factory.
    WmBase,
}

/// One incoming protocol event, routed to a window by its stable handle.
#[derive(Clone, Copy, Debug, PartialEq, Eq, Structural)]
pub enum ProtocolEvent {
    /// The server advertised a capability.
    CapabilityAdded { capability: Capability },
    /// The server proposed a geometry for a window; non-positive
    /// dimensions mean "no suggestion" on that axis.
    GeometryProposed { window: usize, width: i32, height: i32 },
    /// The server completed a geometry negotiation round for a window.
    GeometryCompleted { window: usize },
    /// The server released a buffer of a window.
    BufferReleased { window: usize, buffer_id: u64 },
    /// The server granted a window permission to redraw.
    RedrawGranted { window: usize },
    /// The shell asked for a window to be closed.
    CloseRequested { window: usize },
}

/// What closing a window leaves for the caller to mirror on the server:
/// free buffers are destroyed at once, buffers the server still holds are
/// drained by its ordinary release notifications, and every pool identity
/// of the window is released.
#[derive(Debug, PartialEq, Eq)]
pub struct CloseOutcome {
    /// Buffers destroyed immediately, in creation order.
    pub destroyed_buffers: Vec<u64>,
    /// Buffers still held by the server, in creation order.
    pub draining_buffers: Vec<u64>,
    /// Identities of the window's pools: the current one first, then the
    /// superseded ones in age order.
    pub released_pools: Vec<u64>,
}

/// Outcome of routing one protocol event.
#[derive(Debug, PartialEq, Eq)]
pub enum EventOutcome {
    /// A capability was bound.
    CapabilityBound,
    /// A geometry proposal was recorded.
    Proposed,
    /// A negotiation round completed.
    Completed(ResizeOutcome),
    /// A redraw permission was handled.
    Frame(FrameOutcome),
    /// A buffer release was handled.
    Released(ReleaseOutcome),
    /// A window was closed.
    Closed(CloseOutcome),
    /// The event named a handle with no live window; nothing changed.
    UnknownWindow,
}

/// Identities of the buffers destroyed immediately when a window closes:
/// its free buffers, in creation order.
pub open spec fn spec_close_destroyed(s: Seq<Buffer>) -> Seq<u64>
    decreases s.len(),
{
    if s.len() == 0 {
        Seq::empty()
    } else {
        let prefix = spec_close_destroyed(s.drop_last());
        if s.last().state is Free {
            prefix.push(s.last().id)
        } else {
            prefix
        }
    }
}

/// Identities of the buffers the server still holds when a window closes,
/// in creation order.
pub open spec fn spec_close_draining(s: Seq<Buffer>) -> Seq<u64>
    decreases s.len(),
{
    if s.len() == 0 {
        Seq::empty()
    } else {
        let prefix = spec_close_draining(s.drop_last());
        if s.last().state is Free {
            prefix
        } else {
            prefix.push(s.last().id)
        }
    }
}

/// The identities of a sequence of pools, in order.
pub open spec fn spec_pool_id_seq(s: Seq<BufferPool>) -> Seq<u64>
    decreases s.len(),
{
    if s.len() == 0 {
        Seq::empty()
    } else {
        spec_pool_id_seq(s.drop_last()).push(s.last().id)
    }
}

/// What a close reports of the window it closed.
pub open spec fn spec_closed_post(w: Window, c: CloseOutcome) -> bool {
    &&& c.destroyed_buffers@ == spec_close_destroyed(w.buffers@)
    &&& c.draining_buffers@ == spec_close_draining(w.buffers@)
    &&& c.released_pools@ == (match w.pool {
        Some(p) => seq![p.id],
        None => Seq::<u64>::empty(),
    }) + spec_pool_id_seq(w.superseded@)
}

/// Owns every window and routes protocol events to them.
pub struct WindowManager {
    /// Whether the surface factory was advertised.
    pub has_compositor: bool,
    /// Whether the shared-memory factory was advertised.
    pub has_shm: bool,
    /// Whether the window-shell factory was advertised.
    pub has_wm_base: bool,
    /// The window arena; a closed window leaves `None` behind, so handles
    /// of other windows stay valid.
    pub windows: Vec<Option<Window>>,
}

/// Whether `window` is the handle of a live window.
pub open spec fn spec_slot_live(m: WindowManager, window: usize) -> bool {
    window < m.windows@.len() && m.windows@[window as int] is Some
}

/// Whether two manager states advertise the same capabilities.
pub open spec fn spec_same_caps(a: WindowManager, b: WindowManager) -> bool {
    &&& a.has_compositor == b.has_compositor
    &&& a.has_shm == b.has_shm
    &&& a.has_wm_base == b.has_wm_base
}

/// Whether only the window at `window` may differ between two states: the
/// arena keeps its length and every other slot.
pub open spec fn spec_only_window(pre: WindowManager, post: WindowManager, window: usize) -> bool {
    &&& post.windows@.len() == pre.windows@.len()
    &&& forall|j: int|
        0 <= j < pre.windows@.len() && j != window ==> post.windows@[j] == pre.windows@[j]
}

/// Whether the manager can mint the identities one more pool swap needs on
/// the window the event names; a machine limit, never reached in practice.
pub open spec fn spec_event_ready(m: WindowManager, event: ProtocolEvent) -> bool {
    match event {
        ProtocolEvent::GeometryCompleted { window } => spec_slot_live(m, window)
            ==> m.windows@[window as int]->Some_0.next_id <= u64::MAX - 2,
        _ => true,
    }
}

impl WindowManager {
    /// Every live window is well-formed.
    pub open spec fn wf(self) -> bool {
        forall|i: int|
            0 <= i < self.windows@.len() ==> ((#[trigger] self.windows@[i]) matches Some(w)
                ==> w.wf())
    }

    /// A manager with no capabilities bound and no windows.
    pub fn new() -> (m: WindowManager)
        ensures
            m.wf(),
            !m.has_compositor,
            !m.has_shm,
            !m.has_wm_base,
            m.windows@.len() == 0,
    {
        WindowManager {
            has_compositor: false,
            has_shm: false,
            has_wm_base: false,
            windows: Vec::new(),
        }
    }

    /// Records that the server advertised a capability.
    pub fn handle_capability_added(&mut self, capability: Capability)
        requires
            old(self).wf(),
        ensures
            final(self).wf(),
            final(self).windows@ == old(self).windows@,
            final(self).has_compositor == (old(self).has_compositor
                || capability is Compositor),
            final(self).has_shm == (old(self).has_shm || capability is Shm),
            final(self).has_wm_base == (old(self).has_wm_base || capability is WmBase),
    {
        match capability {
            Capability::Compositor => self.has_compositor = true,
            Capability::Shm => self.has_shm = true,
            Capability::WmBase => self.has_wm_base = true,
        }
    }

    /// Creates a window and returns its stable handle.
    ///
    /// Requires the surface, shell and shared-memory capabilities to have
    /// been advertised; fails with the matching initialization error
    /// otherwise, and exactly then. The window starts with no pool and the
    /// default geometry pending, so the first completed negotiation
    /// allocates its first pool.
    pub fn create_window(&mut self, title: &str, app_id: &str) -> (r: Result<usize, ClientError>)
        requires
            old(self).wf(),
        ensures
            final(self).wf(),
            spec_same_caps(*final(self), *old(self)),
            (r is Ok) == (old(self).has_compositor && old(self).has_wm_base && old(
                self,
            ).has_shm),
            match r {
                Ok(h) => {
                    &&& h == old(self).windows@.len()
                    &&& final(self).windows@.len() == old(self).windows@.len() + 1
                    &&& (forall|j: int|
                        0 <= j < old(self).windows@.len() ==> final(self).windows@[j] == old(
                            self,
                        ).windows@[j])
                    &&& final(self).windows@[h as int] matches Some(w) && w.is_initial(
                        title@,
                        app_id@,
                        DEFAULT_PIXEL_FORMAT,
                        DEFAULT_WINDOW_WIDTH,
                        DEFAULT_WINDOW_HEIGHT,
                    )
                },
                Err(e) => {
                    &&& final(self).windows@ == old(self).windows@
                    &&& if !old(self).has_compositor {
                        e matches ClientError::Initialization { kind, .. } && kind
                            == ClientErrorKind::Surface
                    } else if !old(self).has_wm_base {
                        e matches ClientError::Initialization { kind, .. } && kind
                            == ClientErrorKind::XdgSurface
                    } else {
                        e matches ClientError::Initialization { kind, .. } && kind
                            == ClientErrorKind::Pool
                    }
                },
            },
    {
        if !self.has_compositor {
            return Err(
                ClientError::Initialization {
                    kind: ClientErrorKind::Surface,
                    message: String::from_str(
                        "Failed to initialize wl_surface (wl_compositor not available)",
                    ),
                },
            );
        }
        if !self.has_wm_base {
            return Err(
                ClientError::Initialization {
                    kind: ClientErrorKind::XdgSurface,
                    message: String::from_str(
                        "Failed to initialize xdg_surface (xdg_wm_base not available)",
                    ),
                },
            );
        }
        if !self.has_shm {
            return Err(
                ClientError::Initialization {
                    kind: ClientErrorKind::Pool,
                    message: String::from_str(
                        "Failed to initialize wl_shm_pool (wl_shm not available)",
                    ),
                },
            );
        }
        let handle = self.windows.len();
        let w = Window::new(
            title,
            app_id,
            DEFAULT_PIXEL_FORMAT,
            DEFAULT_WINDOW_WIDTH,
            DEFAULT_WINDOW_HEIGHT,
        );
        self.windows.push(Some(w));
        Ok(handle)
    }

    /// Closes the window with this handle: its free buffers are destroyed
    /// at once, the buffers the server still holds drain through ordinary
    /// release notifications, every pool identity is released, and the slot
    /// is emptied while every other handle stays valid. Returns `None`, and
    /// changes nothing, when no live window has this handle.
    pub fn close_window(&mut self, window: usize) -> (r: Option<CloseOutcome>)
        requires
            old(self).wf(),
        ensures
            final(self).wf(),
            spec_same_caps(*final(self), *old(self)),
            if spec_slot_live(*old(self), window) {
                &&& r matches Some(c) && spec_closed_post(
                    old(self).windows@[window as int]->Some_0,
                    c,
                )
                &&& spec_only_window(*old(self), *final(self), window)
                &&& final(self).windows@[window as int] is None
            } else {
                &&& r is None
                &&& final(self).windows@ == old(self).windows@
            },
    {
        if window >= self.windows.len() {
            return None;
        }
        let (destroyed, draining, pools) = match &self.windows[window] {
            None => {
                return None;
            },
            Some(w) => {
                let mut destroyed: Vec<u64> = Vec::new();
                let mut draining: Vec<u64> = Vec::new();
                let mut pools: Vec<u64> = Vec::new();
                match &w.pool {
                    Some(p) => pools.push(p.id),
                    None => {},
                }
                let n = w.buffers.len();
                let mut i: usize = 0;
                while i < n
                    invariant
                        0 <= i <= n,
                        n == w.buffers@.len(),
                        destroyed@ == spec_close_destroyed(w.buffers@.take(i as int)),
                        draining@ == spec_close_draining(w.buffers@.take(i as int)),
                    decreases n - i,
                {
                    proof {
                        assert(w.buffers@.take(i as int + 1).drop_last() =~= w.buffers@.take(
                            i as int,
                        ));
                        assert(w.buffers@.take(i as int + 1).last() == w.buffers@[i as int]);
                    }
                    let b = w.buffers[i];
                    if b.state == crate::buffer::BufferState::Free {
                        destroyed.push(b.id);
                    } else {
                        draining.push(b.id);
                    }
                    i = i + 1;
                }
                proof {
                    assert(w.buffers@.take(n as int) =~= w.buffers@);
                }
                let ghost base = match w.pool {
                    Some(p) => seq![p.id],
                    None => Seq::<u64>::empty(),
                };
                proof {
                    assert(pools@ =~= base + spec_pool_id_seq(w.superseded@.take(0)));
                }
                let m = w.superseded.len();
                let mut j: usize = 0;
                while j < m
                    invariant
                        0 <= j <= m,
                        m == w.superseded@.len(),
                        base == match w.pool {
                            Some(p) => seq![p.id],
                            None => Seq::<u64>::empty(),
                        },
                        pools@ == base + spec_pool_id_seq(w.superseded@.take(j as int)),
                    decreases m - j,
                {
                    proof {
                        assert(w.superseded@.take(j as int + 1).drop_last() =~= w.superseded@.take(
                            j as int,
                        ));
                        assert(w.superseded@.take(j as int + 1).last() == w.superseded@[j as int]);
                    }
                    pools.push(w.superseded[j].id);
                    proof {
                        assert(pools@ =~= base + spec_pool_id_seq(
                            w.superseded@.take(j as int + 1),
                        ));
                    }
                    j = j + 1;
                }
                proof {
                    assert(w.superseded@.take(m as int) =~= w.superseded@);
                }
                (destroyed, draining, pools)
            },
        };
        self.windows[window] = None;
        Some(
            CloseOutcome {
                destroyed_buffers: destroyed,
                draining_buffers: draining,
                released_pools: pools,
            },
        )
    }

    /// Routes one protocol event to the owning window's negotiator or
    /// scheduler, binds capabilities, and closes windows the shell asked to
    /// close. An event for a handle with no live window changes nothing.
    pub fn dispatch_event(&mut self, event: ProtocolEvent) -> (r: EventOutcome)
        requires
            old(self).wf(),
            spec_event_ready(*old(self), event),
        ensures
            final(self).wf(),
            spec_same_caps(*final(self), *old(self)) || event is CapabilityAdded,
            match event {
                ProtocolEvent::CapabilityAdded { capability } => {
                    &&& r is CapabilityBound
                    &&& final(self).windows@ == old(self).windows@
                    &&& final(self).has_compositor == (old(self).has_compositor
                        || capability is Compositor)
                    &&& final(self).has_shm == (old(self).has_shm || capability is Shm)
                    &&& final(self).has_wm_base == (old(self).has_wm_base
                        || capability is WmBase)
                },
                ProtocolEvent::GeometryProposed { window, width, height } => if spec_slot_live(
                    *old(self),
                    window,
                ) {
                    &&& r is Proposed
                    &&& spec_only_window(*old(self), *final(self), window)
                    &&& final(self).windows@[window as int] matches Some(w)
                        && spec_proposed_post(
                        old(self).windows@[window as int]->Some_0,
                        w,
                        width,
                        height,
                    )
                } else {
                    r is UnknownWindow && final(self).windows@ == old(self).windows@
                },
                ProtocolEvent::GeometryCompleted { window } => if spec_slot_live(
                    *old(self),
                    window,
                ) {
                    &&& r matches EventOutcome::Completed(out) && spec_completed_post(
                        old(self).windows@[window as int]->Some_0,
                        final(self).windows@[window as int]->Some_0,
                        out,
                    )
                    &&& spec_only_window(*old(self), *final(self), window)
                    &&& final(self).windows@[window as int] is Some
                } else {
                    r is UnknownWindow && final(self).windows@ == old(self).windows@
                },
                ProtocolEvent::BufferReleased { window, buffer_id } => if spec_slot_live(
                    *old(self),
                    window,
                ) {
                    &&& r matches EventOutcome::Released(out) && spec_released_post(
                        old(self).windows@[window as int]->Some_0,
                        final(self).windows@[window as int]->Some_0,
                        buffer_id,
                        out,
                    )
                    &&& spec_only_window(*old(self), *final(self), window)
                    &&& final(self).windows@[window as int] is Some
                } else {
                    r is UnknownWindow && final(self).windows@ == old(self).windows@
                },
                ProtocolEvent::RedrawGranted { window } => if spec_slot_live(
                    *old(self),
                    window,
                ) {
                    &&& r matches EventOutcome::Frame(out) && spec_redraw_post(
                        old(self).windows@[window as int]->Some_0,
                        final(self).windows@[window as int]->Some_0,
                        out,
                    )
                    &&& spec_only_window(*old(self), *final(self), window)
                    &&& final(self).windows@[window as int] is Some
                } else {
                    r is UnknownWindow && final(self).windows@ == old(self).windows@
                },
                ProtocolEvent::CloseRequested { window } => if spec_slot_live(
                    *old(self),
                    window,
                ) {
                    &&& r matches EventOutcome::Closed(c) && spec_closed_post(
                        old(self).windows@[window as int]->Some_0,
                        c,
                    )
                    &&& spec_only_window(*old(self), *final(self), window)
                    &&& final(self).windows@[window as int] is None
                } else {
                    r is UnknownWindow && final(self).windows@ == old(self).windows@
                },
            },
    {
        match event {
            ProtocolEvent::CapabilityAdded { capability } => {
                self.handle_capability_added(capability);
                EventOutcome::CapabilityBound
            },
            ProtocolEvent::GeometryProposed { window, width, height } => {
                if window >= self.windows.len() {
                    return EventOutcome::UnknownWindow;
                }
                match &mut self.windows[window] {
                    None => EventOutcome::UnknownWindow,
                    Some(w) => {
                        w.handle_configure_proposed(width, height);
                        EventOutcome::Proposed
                    },
                }
            },
            ProtocolEvent::GeometryCompleted { window } => {
                if window >= self.windows.len() {
                    return EventOutcome::UnknownWindow;
                }
                match &mut self.windows[window] {
                    None => EventOutcome::UnknownWindow,
                    Some(w) => {
                        let out = w.handle_configure_completed();
                        EventOutcome::Completed(out)
                    },
                }
            },
            ProtocolEvent::BufferReleased { window, buffer_id } => {
                if window >= self.windows.len() {
                    return EventOutcome::UnknownWindow;
                }
                match &mut self.windows[window] {
                    None => EventOutcome::UnknownWindow,
                    Some(w) => {
                        let out = w.handle_buffer_released(buffer_id);
                        EventOutcome::Released(out)
                    },
                }
            },
            ProtocolEvent::RedrawGranted { window } => {
                if window >= self.windows.len() {
                    return EventOutcome::UnknownWindow;
                }
                match &mut self.windows[window] {
                    None => EventOutcome::UnknownWindow,
                    Some(w) => {
                        let out = w.handle_redraw_granted();
                        EventOutcome::Frame(out)
                    },
                }
            },
            ProtocolEvent::CloseRequested { window } => {
                match self.close_window(window) {
                    Some(c) => EventOutcome::Closed(c),
                    None => EventOutcome::UnknownWindow,
                }
            },
        }
    }

    /// Acknowledges a completed negotiation round of the window with this
    /// handle. Refused — `false`, nothing changes — while that window still
    /// has a resize pending, or when no live window has this handle: the
    /// acknowledgment is always sent after the pool swap, never before.
    pub fn acknowledge_configure(&mut self, window: usize) -> (r: bool)
        requires
            old(self).wf(),
        ensures
            final(self).wf(),
            spec_same_caps(*final(self), *old(self)),
            if spec_slot_live(*old(self), window) {
                &&& spec_only_window(*old(self), *final(self), window)
                &&& final(self).windows@[window as int] matches Some(w) && spec_ack_post(
                    old(self).windows@[window as int]->Some_0,
                    w,
                    r,
                )
            } else {
                !r && final(self).windows@ == old(self).windows@
            },
    {
        if window >= self.windows.len() {
            return false;
        }
        match &mut self.windows[window] {
            None => false,
            Some(w) => w.acknowledge_configure(),
        }
    }

    /// Whether the manager can route this event; false only for a
    /// completion event on a window whose identity counter is exhausted,
    /// which no real event sequence reaches.
    pub fn event_admissible(&self, event: &ProtocolEvent) -> (r: bool)
        ensures
            r == spec_event_ready(*self, *event),
    {
        match event {
            ProtocolEvent::GeometryCompleted { window } => {
                if *window < self.windows.len() {
                    match &self.windows[*window] {
                        Some(w) => w.next_id <= u64::MAX - 2,
                        None => true,
                    }
                } else {
                    true
                }
            },
            _ => true,
        }
    }
}

} // verus!
