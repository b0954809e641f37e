//! A shared-memory buffer pool: one backing allocation sized exactly for the
//! geometry the pool was created with. Pools are replaced wholesale on
//! resize, never grown or shrunk in place, because the server may still be
//! reading from buffers carved out of the old allocation.

use vstd::prelude::*;

use crate::buffer::{Buffer, BufferState};
use crate::format::{bytes_per_pixel, spec_bytes_per_pixel, PixelFormat};

verus! {

/// Largest width or height a pool accepts; geometry proposals arrive as
/// signed 32-bit values, so nothing larger can be negotiated.
pub const MAX_DIMENSION: u32 = 0x7fff_ffff;

/// Exact size in bytes of an allocation for the given geometry:
/// `stride * height` with `stride = width * bytes-per-pixel`.
pub open spec fn spec_allocation_size(width: u32, height: u32, format: PixelFormat) -> int {
    width * spec_bytes_per_pixel(format) * height
}

/// Whether a width/height pair is a geometry a pool can be sized for.
pub open spec fn spec_dimensions_ok(width: u32, height: u32) -> bool {
    &&& 1 <= width <= MAX_DIMENSION
    &&& 1 <= height <= MAX_DIMENSION
}

/// Descriptor of one shared-memory pool: its identity, the geometry it was
/// sized for, and the exact size of its backing allocation. The buffers
/// carved from the pool are tracked by the owning window, each tagged with
/// this pool's identity.
#[derive(Clone, Copy, Debug, PartialEq, Eq, Structural)]
pub struct BufferPool {
    /// Identity of this pool.
    pub id: u64,
    /// Width in pixels the allocation was sized for.
    pub width: u32,
    /// Height in pixels the allocation was sized for.
    pub height: u32,
    /// Pixel format the allocation was sized for.
    pub format: PixelFormat,
    /// Size in bytes of the backing allocation.
    pub alloc_size: u64,
}

impl BufferPool {
    /// A pool's allocation always exactly matches its own geometry.
    pub open spec fn wf(self) -> bool {
        &&& spec_dimensions_ok(self.width, self.height)
        &&& self.alloc_size == spec_allocation_size(self.width, self.height, self.format)
    }

    /// Constructs a fresh pool sized exactly for the given geometry,
    /// together with its initial buffer: one `Free` buffer covering the
    /// whole allocation at offset 0. Sizing the backing storage itself is
    /// the caller's work; its failure is the allocation error, fatal to the
    /// request that asked for the pool.
    pub fn allocate(
        pool_id: u64,
        buffer_id: u64,
        width: u32,
        height: u32,
        format: PixelFormat,
    ) -> (r: (BufferPool, Buffer))
        requires
            spec_dimensions_ok(width, height),
        ensures
            r.0.wf(),
            r.0 == (BufferPool {
                id: pool_id,
                width,
                height,
                format,
                alloc_size: r.0.alloc_size,
            }),
            r.1 == (Buffer {
                id: buffer_id,
                pool_id,
                width,
                height,
                offset: 0,
                len: r.0.alloc_size,
                state: BufferState::Free,
            }),
    {
        let bpp = bytes_per_pixel(format);
        proof {
            lemma_allocation_size_fits(width, height, format);
        }
        let stride: u64 = (width as u64) * (bpp as u64);
        let size: u64 = stride * (height as u64);
        let pool = BufferPool {
            id: pool_id,
            width,
            height,
            format,
            alloc_size: size,
        };
        let buffer = Buffer {
            id: buffer_id,
            pool_id,
            width,
            height,
            offset: 0,
            len: size,
            state: BufferState::Free,
        };
        (pool, buffer)
    }
}

/// The allocation size of any acceptable geometry fits in a `u64`.
pub proof fn lemma_allocation_size_fits(width: u32, height: u32, format: PixelFormat)
    requires
        spec_dimensions_ok(width, height),
    ensures
        0 < spec_allocation_size(width, height, format) <= u64::MAX,
{
    let bpp = spec_bytes_per_pixel(format);
    assert(0 < width * bpp * height <= u64::MAX) by (nonlinear_arith)
        requires
            1 <= width <= MAX_DIMENSION,
            1 <= height <= MAX_DIMENSION,
            2 <= bpp <= 4,
    ;
}

} // verus!
