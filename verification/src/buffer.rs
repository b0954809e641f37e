//! One shared-memory pixel buffer: a fixed view into a pool's allocation,
//! together with its usage state.

use vstd::prelude::*;

verus! {

/// Usage state of a buffer.
///
/// The normal reuse cycle is `Free -> InFlight -> Free`. When the owning
/// pool is superseded, a `Free` buffer is destroyed at once, while an
/// `InFlight` buffer becomes `PendingDestroy` and is destroyed on release.
#[derive(Clone, Copy, Debug, PartialEq, Eq, Structural)]
pub enum BufferState {
    /// Not referenced by the server; eligible for selection and for
    /// immediate destruction.
    Free,
    /// Handed to the server; must not be destroyed or reused until the
    /// server signals release.
    InFlight,
    /// Marked for removal because its pool was superseded, but still held
    /// by the server; destruction is deferred until release.
    PendingDestroy,
    /// Removed from its pool's collection.
    Destroyed,
}

/// A pixel buffer descriptor: its identity, the pool it was carved from,
/// its dimensions fixed at creation, the byte range it covers inside the
/// pool's allocation, and its usage state.
#[derive(Clone, Copy, Debug, PartialEq, Eq, Structural)]
pub struct Buffer {
    /// Identity the server uses in release notifications.
    pub id: u64,
    /// Identity of the pool whose allocation backs this buffer.
    pub pool_id: u64,
    /// Width in pixels, fixed at creation.
    pub width: u32,
    /// Height in pixels, fixed at creation.
    pub height: u32,
    /// Byte offset of this buffer inside the pool's allocation.
    pub offset: u64,
    /// Length in bytes of this buffer's range.
    pub len: u64,
    /// Usage state.
    pub state: BufferState,
}

} // verus!
