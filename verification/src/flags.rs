//! The bit masks of the `flags` fields.

use vstd::prelude::*;

verus! {

/// Bits 0–7 of a span's, a link's or a log record's flags: the W3C trace flags.
pub const TRACE_FLAGS_MASK: u32 = 0x0000_00ff;

/// Bit 8 of a span's or a link's flags: whether the remote bit below is known.
pub const CONTEXT_HAS_IS_REMOTE_MASK: u32 = 0x0000_0100;

/// Bit 9 of a span's or a link's flags: whether the parent (or the linked span) is remote.
pub const CONTEXT_IS_REMOTE_MASK: u32 = 0x0000_0200;

/// Bit 0 of a data point's flags: the point carries no recorded value (a series ended).
pub const NO_RECORDED_VALUE_MASK: u32 = 0x0000_0001;

} // verus!
