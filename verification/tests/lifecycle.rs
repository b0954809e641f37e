//! The buffer lifecycle scenarios: pool allocation at negotiation, frame
//! submission and starvation, release and reuse, and resize while a buffer
//! is in flight.

use winbuf::{
    BufferState, Capability, EventOutcome, FrameOutcome, ProtocolEvent, ReleaseOutcome,
    ResizeOutcome, ResizeState, WindowManager,
};

fn manager_with_caps() -> WindowManager {
    let mut m = WindowManager::new();
    m.handle_capability_added(Capability::Compositor);
    m.handle_capability_added(Capability::Shm);
    m.handle_capability_added(Capability::WmBase);
    m
}

fn negotiated_window(m: &mut WindowManager, width: i32, height: i32) -> usize {
    let h = m.create_window("demo", "demo.app").unwrap();
    let out = m.dispatch_event(ProtocolEvent::GeometryProposed {
        window: h,
        width,
        height,
    });
    assert_eq!(out, EventOutcome::Proposed);
    let out = m.dispatch_event(ProtocolEvent::GeometryCompleted { window: h });
    assert!(matches!(
        out,
        EventOutcome::Completed(ResizeOutcome::PoolSwapped { .. })
    ));
    assert!(m.acknowledge_configure(h));
    h
}

#[test]
fn pool_sized_exactly_for_negotiated_geometry() {
    // ARGB at 4 bytes per pixel, negotiated to 480x480: one pool of
    // exactly 480 * 480 * 4 bytes with one free buffer.
    let mut m = manager_with_caps();
    let h = m.create_window("demo", "demo.app").unwrap();
    let out = m.dispatch_event(ProtocolEvent::GeometryProposed {
        window: h,
        width: 480,
        height: 480,
    });
    assert_eq!(out, EventOutcome::Proposed);
    let out = m.dispatch_event(ProtocolEvent::GeometryCompleted { window: h });
    match out {
        EventOutcome::Completed(ResizeOutcome::PoolSwapped {
            pool_id,
            alloc_size,
            buffer_id,
            width,
            height,
            destroyed_buffers,
            dropped_pool,
        }) => {
            assert_eq!(pool_id, 0);
            assert_eq!(buffer_id, 1);
            assert_eq!(alloc_size, 921_600);
            assert_eq!(width, 480);
            assert_eq!(height, 480);
            assert!(destroyed_buffers.is_empty());
            assert_eq!(dropped_pool, None);
        }
        other => panic!("expected a pool swap, got {:?}", other),
    }
    let w = m.windows[h].as_ref().unwrap();
    assert_eq!(w.buffers.len(), 1);
    assert_eq!(w.buffer_state(1), BufferState::Free);
    assert_eq!(w.negotiated_size(), (480, 480));
    assert_eq!(w.writable_region(), Some((0, 921_600)));
}

#[test]
fn redraw_submits_then_starves() {
    // A redraw permission submits the one free buffer; a second permission
    // before its release finds no buffer and reports starvation, while the
    // cadence continues.
    let mut m = manager_with_caps();
    let h = negotiated_window(&mut m, 480, 480);
    let out = m.dispatch_event(ProtocolEvent::RedrawGranted { window: h });
    assert_eq!(
        out,
        EventOutcome::Frame(FrameOutcome::Submitted {
            buffer_id: 1,
            width: 480,
            height: 480,
        })
    );
    {
        let w = m.windows[h].as_ref().unwrap();
        assert_eq!(w.buffer_state(1), BufferState::InFlight);
        assert!(w.frame_requested);
    }
    let out = m.dispatch_event(ProtocolEvent::RedrawGranted { window: h });
    assert_eq!(out, EventOutcome::Frame(FrameOutcome::Starved));
    assert!(m.windows[h].as_ref().unwrap().frame_requested);
}

#[test]
fn release_frees_and_buffer_is_reused() {
    // The release notification returns the buffer to the free state, and
    // the next redraw permission submits the same buffer again.
    let mut m = manager_with_caps();
    let h = negotiated_window(&mut m, 480, 480);
    let out = m.dispatch_event(ProtocolEvent::RedrawGranted { window: h });
    assert!(matches!(out, EventOutcome::Frame(FrameOutcome::Submitted { .. })));
    let out = m.dispatch_event(ProtocolEvent::BufferReleased {
        window: h,
        buffer_id: 1,
    });
    assert_eq!(
        out,
        EventOutcome::Released(ReleaseOutcome::Freed { buffer_id: 1 })
    );
    assert_eq!(
        m.windows[h].as_ref().unwrap().buffer_state(1),
        BufferState::Free
    );
    let out = m.dispatch_event(ProtocolEvent::RedrawGranted { window: h });
    assert_eq!(
        out,
        EventOutcome::Frame(FrameOutcome::Submitted {
            buffer_id: 1,
            width: 480,
            height: 480,
        })
    );
}

#[test]
fn resize_while_in_flight_defers_destruction() {
    // Resizing while the buffer is in flight allocates the new pool at the
    // new geometry with its own free buffer, marks the old buffer for
    // deferred destruction, and drops the old pool only when the release
    // notification for its last buffer arrives.
    let mut m = manager_with_caps();
    let h = negotiated_window(&mut m, 480, 480);
    let out = m.dispatch_event(ProtocolEvent::RedrawGranted { window: h });
    assert!(matches!(out, EventOutcome::Frame(FrameOutcome::Submitted { .. })));

    let out = m.dispatch_event(ProtocolEvent::GeometryProposed {
        window: h,
        width: 640,
        height: 400,
    });
    assert_eq!(out, EventOutcome::Proposed);
    let out = m.dispatch_event(ProtocolEvent::GeometryCompleted { window: h });
    match out {
        EventOutcome::Completed(ResizeOutcome::PoolSwapped {
            pool_id,
            alloc_size,
            buffer_id,
            width,
            height,
            destroyed_buffers,
            dropped_pool,
        }) => {
            assert_eq!(pool_id, 2);
            assert_eq!(buffer_id, 3);
            assert_eq!(alloc_size, 1_024_000);
            assert_eq!(width, 640);
            assert_eq!(height, 400);
            assert!(destroyed_buffers.is_empty());
            assert_eq!(dropped_pool, None);
        }
        other => panic!("expected a pool swap, got {:?}", other),
    }
    assert!(m.acknowledge_configure(h));
    {
        let w = m.windows[h].as_ref().unwrap();
        assert_eq!(w.buffer_state(1), BufferState::PendingDestroy);
        assert_eq!(w.buffer_state(3), BufferState::Free);
        assert_eq!(w.superseded.len(), 1);
        assert_eq!(w.negotiated_size(), (640, 400));
    }
    // The old pool is dropped exactly when the release of its last buffer
    // arrives.
    let out = m.dispatch_event(ProtocolEvent::BufferReleased {
        window: h,
        buffer_id: 1,
    });
    assert_eq!(
        out,
        EventOutcome::Released(ReleaseOutcome::Destroyed {
            buffer_id: 1,
            dropped_pool: Some(0),
        })
    );
    {
        let w = m.windows[h].as_ref().unwrap();
        assert_eq!(w.buffer_state(1), BufferState::Destroyed);
        assert!(w.superseded.is_empty());
        assert_eq!(w.buffers.len(), 1);
    }
    let out = m.dispatch_event(ProtocolEvent::RedrawGranted { window: h });
    assert_eq!(
        out,
        EventOutcome::Frame(FrameOutcome::Submitted {
            buffer_id: 3,
            width: 640,
            height: 400,
        })
    );
}

#[test]
fn resize_to_current_size_allocates_nothing() {
    // Proposing the size the window already negotiated, while stable,
    // completes without any pool change.
    let mut m = manager_with_caps();
    let h = negotiated_window(&mut m, 480, 480);
    assert_eq!(
        m.windows[h].as_ref().unwrap().resize_state,
        ResizeState::Stable
    );
    let out = m.dispatch_event(ProtocolEvent::GeometryProposed {
        window: h,
        width: 480,
        height: 480,
    });
    assert_eq!(out, EventOutcome::Proposed);
    let out = m.dispatch_event(ProtocolEvent::GeometryCompleted { window: h });
    assert_eq!(out, EventOutcome::Completed(ResizeOutcome::NoChange));
    let w = m.windows[h].as_ref().unwrap();
    assert_eq!(w.superseded.len(), 0);
    assert_eq!(w.buffers.len(), 1);
    assert_eq!(w.pool.as_ref().unwrap().id, 0);
}

#[test]
fn acknowledgment_refused_while_resize_pending() {
    // The acknowledgment always follows the pool swap: while a resize is
    // pending it is refused, after the completion it goes through.
    let mut m = manager_with_caps();
    let h = m.create_window("demo", "demo.app").unwrap();
    assert_eq!(
        m.windows[h].as_ref().unwrap().resize_state,
        ResizeState::ResizePending
    );
    assert!(!m.acknowledge_configure(h));
    let out = m.dispatch_event(ProtocolEvent::GeometryCompleted { window: h });
    assert!(matches!(
        out,
        EventOutcome::Completed(ResizeOutcome::PoolSwapped { .. })
    ));
    assert_eq!(
        m.windows[h].as_ref().unwrap().resize_state,
        ResizeState::AwaitingAck
    );
    assert!(m.acknowledge_configure(h));
    assert_eq!(
        m.windows[h].as_ref().unwrap().resize_state,
        ResizeState::Stable
    );
}

#[test]
fn zero_dimension_retains_prior_axis() {
    // A non-positive dimension is the protocol's "no suggestion": the
    // prior value on that axis is kept.
    let mut m = manager_with_caps();
    let h = negotiated_window(&mut m, 480, 480);
    let out = m.dispatch_event(ProtocolEvent::GeometryProposed {
        window: h,
        width: 0,
        height: 300,
    });
    assert_eq!(out, EventOutcome::Proposed);
    {
        let w = m.windows[h].as_ref().unwrap();
        assert_eq!(w.pending_width, 480);
        assert_eq!(w.pending_height, 300);
        assert_eq!(w.resize_state, ResizeState::ResizePending);
    }
    let out = m.dispatch_event(ProtocolEvent::GeometryCompleted { window: h });
    match out {
        EventOutcome::Completed(ResizeOutcome::PoolSwapped {
            alloc_size,
            width,
            height,
            ..
        }) => {
            assert_eq!((width, height), (480, 300));
            assert_eq!(alloc_size, 480 * 300 * 4);
        }
        other => panic!("expected a pool swap, got {:?}", other),
    }
}

#[test]
fn two_resizes_in_flight_drain_pool_by_pool() {
    // Two resizes, each while the current buffer is in flight, leave two
    // superseded pools; each release drops exactly its own pool.
    let mut m = manager_with_caps();
    let h = negotiated_window(&mut m, 480, 480);
    let out = m.dispatch_event(ProtocolEvent::RedrawGranted { window: h });
    assert!(matches!(out, EventOutcome::Frame(FrameOutcome::Submitted { .. })));

    m.dispatch_event(ProtocolEvent::GeometryProposed {
        window: h,
        width: 600,
        height: 600,
    });
    m.dispatch_event(ProtocolEvent::GeometryCompleted { window: h });
    assert!(m.acknowledge_configure(h));
    // submit the new pool's buffer as well, then resize again
    let out = m.dispatch_event(ProtocolEvent::RedrawGranted { window: h });
    assert_eq!(
        out,
        EventOutcome::Frame(FrameOutcome::Submitted {
            buffer_id: 3,
            width: 600,
            height: 600,
        })
    );
    m.dispatch_event(ProtocolEvent::GeometryProposed {
        window: h,
        width: 700,
        height: 700,
    });
    m.dispatch_event(ProtocolEvent::GeometryCompleted { window: h });
    assert!(m.acknowledge_configure(h));
    assert_eq!(m.windows[h].as_ref().unwrap().superseded.len(), 2);

    let out = m.dispatch_event(ProtocolEvent::BufferReleased {
        window: h,
        buffer_id: 3,
    });
    assert_eq!(
        out,
        EventOutcome::Released(ReleaseOutcome::Destroyed {
            buffer_id: 3,
            dropped_pool: Some(2),
        })
    );
    assert_eq!(m.windows[h].as_ref().unwrap().superseded.len(), 1);
    let out = m.dispatch_event(ProtocolEvent::BufferReleased {
        window: h,
        buffer_id: 1,
    });
    assert_eq!(
        out,
        EventOutcome::Released(ReleaseOutcome::Destroyed {
            buffer_id: 1,
            dropped_pool: Some(0),
        })
    );
    assert!(m.windows[h].as_ref().unwrap().superseded.is_empty());
}

#[test]
fn release_of_free_or_unknown_buffer_is_ignored() {
    let mut m = manager_with_caps();
    let h = negotiated_window(&mut m, 480, 480);
    // The initial buffer was submitted by the swap but never marked in
    // flight; a release for it changes nothing.
    let out = m.dispatch_event(ProtocolEvent::BufferReleased {
        window: h,
        buffer_id: 1,
    });
    assert_eq!(out, EventOutcome::Released(ReleaseOutcome::Ignored));
    let out = m.dispatch_event(ProtocolEvent::BufferReleased {
        window: h,
        buffer_id: 999,
    });
    assert_eq!(out, EventOutcome::Released(ReleaseOutcome::Ignored));
    assert_eq!(
        m.windows[h].as_ref().unwrap().buffer_state(1),
        BufferState::Free
    );
}
