//! The fixed hardware memory windows.

use vstd::prelude::*;

verus! {

/// First byte of the working-RAM window that the allocator manages.
pub const EWRAM_START: usize = 0x0200_0000;

/// Number of bytes in the working-RAM window.
pub const EWRAM_SIZE: usize = 256_000;

/// First byte of the fast internal RAM window. Reserved, not managed.
pub const IWRAM_START: usize = 0x0300_0000;

/// First byte of the video memory window. Reserved, not managed.
pub const VRAM_START: usize = 0x0600_0000;

/// The address that stands for "no memory".
pub const NULL: usize = 0;

} // verus!
