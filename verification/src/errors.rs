//! The fatal error taxonomy of the core. No error is recovered from: each
//! aborts the frame loop, carrying the offending address, condition field,
//! instruction word or video mode.

use vstd::prelude::*;

verus! {

/// A fatal condition met while emulating. The payload identifies the
/// offending address, condition code, instruction word or video mode.
#[derive(Clone, Copy, Debug, PartialEq, Eq, Structural)]
pub enum EmuError {
    /// The bus was asked to read or write an unmapped address.
    AddressDecodeError(u32),
    /// A condition code outside the implemented set was encountered.
    UnimplementedCondition(u32),
    /// An instruction class or sub-opcode the core does not model.
    UnimplementedOpcode(u32),
    /// DISPCNT selects a video mode other than 3 or 4.
    UnsupportedVideoMode(u16),
    /// The dispatch table resolved to the unknown handler.
    DecodeUnknown(u32),
}

} // verus!
