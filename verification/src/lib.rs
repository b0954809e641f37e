//! Client-side window and shared-memory buffer management for a compositor
//! protocol: pixel-format bookkeeping, per-window buffer pools replaced
//! wholesale on resize, the geometry negotiation state machine, the
//! frame-pacing scheduler, and the manager that routes protocol events to
//! the owning window.
//!
//! The library is the decision core of an event-driven client: it consumes
//! plain protocol events and reports, through its outcome types, what the
//! caller must mirror on the server connection (allocate a pool, submit a
//! buffer, destroy a buffer, acknowledge a round). The connection itself,
//! and all file and socket work, live outside.

pub mod buffer;
pub mod error;
pub mod format;
pub mod manager;
pub mod negotiator;
pub mod pool;
pub mod scheduler;
pub mod window;

pub use buffer::Buffer;
pub use buffer::BufferState;
pub use error::ClientError;
pub use error::ClientErrorKind;
pub use format::bytes_per_pixel;
pub use format::PixelFormat;
pub use manager::Capability;
pub use manager::CloseOutcome;
pub use manager::EventOutcome;
pub use manager::ProtocolEvent;
pub use manager::WindowManager;
pub use negotiator::ResizeOutcome;
pub use pool::BufferPool;
pub use scheduler::FrameOutcome;
pub use scheduler::ReleaseOutcome;
pub use window::ResizeState;
pub use window::Window;
