//! Window creation, capability gating, routing to unknown handles, and
//! window closing.

use winbuf::{
    BufferState, Capability, ClientErrorKind, EventOutcome, FrameOutcome, ProtocolEvent,
    WindowManager,
};

#[test]
fn create_window_needs_every_capability() {
    let mut m = WindowManager::new();
    let err = m.create_window("demo", "demo.app").unwrap_err();
    assert_eq!(err.kind(), Some(&ClientErrorKind::Surface));

    m.handle_capability_added(Capability::Compositor);
    let err = m.create_window("demo", "demo.app").unwrap_err();
    assert_eq!(err.kind(), Some(&ClientErrorKind::XdgSurface));

    m.handle_capability_added(Capability::WmBase);
    let err = m.create_window("demo", "demo.app").unwrap_err();
    assert_eq!(err.kind(), Some(&ClientErrorKind::Pool));
    assert!(m.windows.is_empty());

    m.handle_capability_added(Capability::Shm);
    let h = m.create_window("demo", "demo.app").unwrap();
    assert_eq!(h, 0);
    let w = m.windows[h].as_ref().unwrap();
    assert_eq!(w.title, "demo");
    assert_eq!(w.app_id, "demo.app");
    assert_eq!(w.negotiated_size(), (480, 480));
    assert!(w.pool.is_none());
    assert!(w.buffers.is_empty());
}

#[test]
fn capability_event_routes_like_direct_binding() {
    let mut m = WindowManager::new();
    let out = m.dispatch_event(ProtocolEvent::CapabilityAdded {
        capability: Capability::Shm,
    });
    assert_eq!(out, EventOutcome::CapabilityBound);
    assert!(m.has_shm);
    assert!(!m.has_compositor);
    assert!(!m.has_wm_base);
}

#[test]
fn events_for_unknown_handles_change_nothing() {
    let mut m = WindowManager::new();
    m.handle_capability_added(Capability::Compositor);
    m.handle_capability_added(Capability::Shm);
    m.handle_capability_added(Capability::WmBase);
    let out = m.dispatch_event(ProtocolEvent::RedrawGranted { window: 7 });
    assert_eq!(out, EventOutcome::UnknownWindow);
    let h = m.create_window("demo", "demo.app").unwrap();
    let out = m.dispatch_event(ProtocolEvent::GeometryProposed {
        window: h + 1,
        width: 100,
        height: 100,
    });
    assert_eq!(out, EventOutcome::UnknownWindow);
    assert_eq!(
        m.windows[h].as_ref().unwrap().pending_width,
        480,
        "the only window must be untouched"
    );
}

#[test]
fn close_window_reports_buffers_and_pools() {
    let mut m = WindowManager::new();
    m.handle_capability_added(Capability::Compositor);
    m.handle_capability_added(Capability::Shm);
    m.handle_capability_added(Capability::WmBase);
    let h = m.create_window("demo", "demo.app").unwrap();
    m.dispatch_event(ProtocolEvent::GeometryCompleted { window: h });
    assert!(m.acknowledge_configure(h));
    // put the buffer in flight, then resize so a superseded pool remains
    m.dispatch_event(ProtocolEvent::RedrawGranted { window: h });
    m.dispatch_event(ProtocolEvent::GeometryProposed {
        window: h,
        width: 200,
        height: 100,
    });
    m.dispatch_event(ProtocolEvent::GeometryCompleted { window: h });
    assert!(m.acknowledge_configure(h));

    let c = m.close_window(h).unwrap();
    // the fresh pool's buffer was free and is destroyed at once; the old
    // buffer is still held by the server and drains through its release
    assert_eq!(c.destroyed_buffers, vec![3]);
    assert_eq!(c.draining_buffers, vec![1]);
    assert_eq!(c.released_pools, vec![2, 0]);
    assert!(m.windows[h].is_none());

    // the handle is dead now
    let out = m.dispatch_event(ProtocolEvent::RedrawGranted { window: h });
    assert_eq!(out, EventOutcome::UnknownWindow);
    assert!(m.close_window(h).is_none());
}

#[test]
fn close_requested_event_closes_the_window() {
    let mut m = WindowManager::new();
    m.handle_capability_added(Capability::Compositor);
    m.handle_capability_added(Capability::Shm);
    m.handle_capability_added(Capability::WmBase);
    let h = m.create_window("demo", "demo.app").unwrap();
    let out = m.dispatch_event(ProtocolEvent::CloseRequested { window: h });
    match out {
        EventOutcome::Closed(c) => {
            assert!(c.destroyed_buffers.is_empty());
            assert!(c.draining_buffers.is_empty());
            assert!(c.released_pools.is_empty());
        }
        other => panic!("expected a close, got {:?}", other),
    }
    assert!(m.windows[h].is_none());
}

#[test]
fn windows_are_independent() {
    let mut m = WindowManager::new();
    m.handle_capability_added(Capability::Compositor);
    m.handle_capability_added(Capability::Shm);
    m.handle_capability_added(Capability::WmBase);
    let a = m.create_window("first", "demo.app").unwrap();
    let b = m.create_window("second", "demo.app").unwrap();
    assert_eq!((a, b), (0, 1));
    m.dispatch_event(ProtocolEvent::GeometryProposed {
        window: a,
        width: 300,
        height: 300,
    });
    m.dispatch_event(ProtocolEvent::GeometryCompleted { window: a });
    assert!(m.acknowledge_configure(a));
    m.dispatch_event(ProtocolEvent::RedrawGranted { window: a });

    let wa = m.windows[a].as_ref().unwrap();
    let wb = m.windows[b].as_ref().unwrap();
    assert_eq!(wa.negotiated_size(), (300, 300));
    assert_eq!(wa.buffer_state(1), BufferState::InFlight);
    assert_eq!(wb.negotiated_size(), (480, 480));
    assert!(wb.pool.is_none());
    assert!(!wb.frame_requested);
}

#[test]
fn event_admissible_holds_for_fresh_windows() {
    let mut m = WindowManager::new();
    m.handle_capability_added(Capability::Compositor);
    m.handle_capability_added(Capability::Shm);
    m.handle_capability_added(Capability::WmBase);
    let h = m.create_window("demo", "demo.app").unwrap();
    assert!(m.event_admissible(&ProtocolEvent::GeometryCompleted { window: h }));
    assert!(m.event_admissible(&ProtocolEvent::RedrawGranted { window: h }));
}

#[test]
fn largest_geometry_is_accepted() {
    let mut m = WindowManager::new();
    m.handle_capability_added(Capability::Compositor);
    m.handle_capability_added(Capability::Shm);
    m.handle_capability_added(Capability::WmBase);
    let h = m.create_window("demo", "demo.app").unwrap();
    m.dispatch_event(ProtocolEvent::GeometryProposed {
        window: h,
        width: i32::MAX,
        height: i32::MAX,
    });
    let out = m.dispatch_event(ProtocolEvent::GeometryCompleted { window: h });
    match out {
        EventOutcome::Completed(winbuf::ResizeOutcome::PoolSwapped { alloc_size, .. }) => {
            let d = i32::MAX as u64;
            assert_eq!(alloc_size, d * 4 * d);
        }
        other => panic!("expected a pool swap, got {:?}", other),
    }

    let mut frames = 0;
    if let EventOutcome::Frame(FrameOutcome::Submitted { .. }) =
        m.dispatch_event(ProtocolEvent::RedrawGranted { window: h })
    {
        frames += 1;
    }
    assert_eq!(frames, 1);
}
