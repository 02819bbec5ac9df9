//! Constants of the protocol.

use vstd::prelude::*;

verus! {

/// Arbitrary maximum size of a clipboard message.
pub const MAX_CLIPBOARD_SIZE: u32 = 65000;

/// Arbitrary maximum window height.
pub const MAX_WINDOW_HEIGHT: u32 = 6144;

/// Arbitrary maximum window width.
pub const MAX_WINDOW_WIDTH: u32 = 16384;

/// Default cursor ID.
pub const CURSOR_DEFAULT: u32 = 0;

/// Flag that must be set to request an X11 cursor.
pub const CURSOR_X11: u32 = 0x100;

/// Largest X11 cursor that can be requested.
pub const CURSOR_X11_MAX: u32 = 0x19a;

/// Bits per pixel of the dummy X11 framebuffer driver.
pub const DUMMY_DRV_FB_BPP: u32 = 32;

/// Maximum size of a shared memory segment, in bytes: a window of the
/// largest width and height at `DUMMY_DRV_FB_BPP` bits per pixel.
pub const MAX_WINDOW_MEM: u32 = 402_653_184;

/// Number of bytes in a shared page.
pub const XC_PAGE_SIZE: u32 = 4096;

/// Maximum number of shared memory pages in a single segment using the
/// deprecated privcmd-based shared memory: `MAX_WINDOW_MEM` in pages, rounded
/// up.
pub const MAX_MFN_COUNT: u32 = 98_304;

/// Maximum number of shared memory pages in a single segment using grant
/// tables: `MAX_WINDOW_MEM` in pages, rounded up.
pub const MAX_GRANT_REFS_COUNT: u32 = 98_304;

/// Port on which the GUI agent listens.
pub const LISTENING_PORT: i16 = 6000;

/// Type of grant refs dump messages.
pub const WINDOW_DUMP_TYPE_GRANT_REFS: u32 = 0;

/// The major version of the protocol.
pub const PROTOCOL_VERSION_MAJOR: u32 = 1;

/// The minor version of the protocol.
pub const PROTOCOL_VERSION_MINOR: u32 = 7;

/// The overall protocol version, as used on the wire: the major version in
/// the upper sixteen bits, the minor version in the lower sixteen.
pub const PROTOCOL_VERSION: u32 = 0x0001_0007;

/// Oldest minor version in which the daemon sends its version together with
/// the root window configuration.
pub const MIN_VERSIONED_MINOR: u32 = 4;

/// The derived constants agree with the quantities they are derived from.
pub proof fn lemma_limits()
    ensures
        MAX_WINDOW_MEM == MAX_WINDOW_WIDTH * MAX_WINDOW_HEIGHT * (DUMMY_DRV_FB_BPP / 8),
        MAX_MFN_COUNT == (MAX_WINDOW_MEM + XC_PAGE_SIZE - 1) / (XC_PAGE_SIZE as int),
        MAX_GRANT_REFS_COUNT == MAX_MFN_COUNT,
        PROTOCOL_VERSION == PROTOCOL_VERSION_MAJOR * 65536 + PROTOCOL_VERSION_MINOR,
{
    assert(16384 * 6144 * (32int / 8) == 402_653_184) by (nonlinear_arith);
}

} // verus!
