//! Pseudo-random event sequences: after every step, no submitted buffer was
//! anything but `Free` beforehand, no superseded pool is retained without a
//! live buffer, and the current pool's allocation always matches the
//! negotiated geometry.

use winbuf::{
    BufferState, Capability, EventOutcome, FrameOutcome, ProtocolEvent, ResizeOutcome,
    WindowManager,
};

fn next(seed: &mut u64) -> u64 {
    *seed = seed
        .wrapping_mul(6364136223846793005)
        .wrapping_add(1442695040888963407);
    *seed >> 33
}

#[test]
fn randomized_event_sequences_keep_the_invariants() {
    let mut seed: u64 = 0x5eed;
    let mut m = WindowManager::new();
    m.handle_capability_added(Capability::Compositor);
    m.handle_capability_added(Capability::Shm);
    m.handle_capability_added(Capability::WmBase);
    let windows = 3usize;
    for _ in 0..windows {
        m.create_window("demo", "demo.app").unwrap();
    }
    let mut seen_buffer_ids: Vec<u64> = vec![0];

    for _ in 0..2000 {
        let w = (next(&mut seed) as usize) % windows;
        let ev = match next(&mut seed) % 6 {
            0 => ProtocolEvent::GeometryProposed {
                window: w,
                width: (next(&mut seed) % 800) as i32,
                height: (next(&mut seed) % 800) as i32,
            },
            1 => ProtocolEvent::GeometryCompleted { window: w },
            2 => ProtocolEvent::RedrawGranted { window: w },
            3 | 4 => {
                let pick = (next(&mut seed) as usize) % seen_buffer_ids.len();
                ProtocolEvent::BufferReleased {
                    window: w,
                    buffer_id: seen_buffer_ids[pick],
                }
            }
            _ => {
                m.acknowledge_configure(w);
                continue;
            }
        };

        let pre_states: Vec<(u64, BufferState)> = m.windows[w]
            .as_ref()
            .map(|win| win.buffers.iter().map(|b| (b.id, b.state)).collect())
            .unwrap_or_default();

        let out = m.dispatch_event(ev);
        match &out {
            EventOutcome::Frame(FrameOutcome::Submitted { buffer_id, .. }) => {
                let before = pre_states
                    .iter()
                    .find(|(id, _)| id == buffer_id)
                    .map(|(_, s)| *s);
                assert_eq!(
                    before,
                    Some(BufferState::Free),
                    "a buffer was selected while not free"
                );
            }
            EventOutcome::Completed(ResizeOutcome::PoolSwapped { buffer_id, .. }) => {
                seen_buffer_ids.push(*buffer_id);
            }
            _ => {}
        }

        for win in m.windows.iter().flatten() {
            for p in win.superseded.iter() {
                assert!(
                    win.buffers.iter().any(|b| b.pool_id == p.id),
                    "a superseded pool was retained with no live buffer"
                );
                assert!(
                    win.buffers
                        .iter()
                        .filter(|b| b.pool_id == p.id)
                        .all(|b| b.state == BufferState::PendingDestroy),
                    "a superseded pool kept a buffer outside deferred destruction"
                );
            }
            if let Some(p) = &win.pool {
                let (nw, nh) = win.negotiated_size();
                assert_eq!(
                    p.alloc_size,
                    nw as u64 * 4 * nh as u64,
                    "the current pool does not match the negotiated geometry"
                );
            }
        }
    }
}
