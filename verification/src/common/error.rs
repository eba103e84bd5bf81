use vstd::prelude::*;

verus! {

/// Why an encode or a decode call gave up.
#[derive(Debug, Clone, Copy, PartialEq, Eq, Structural)]
pub enum Error {
    /// A field holds a value that the protocol does not allow at that place.
    InvalidValue,
    /// The tag, type or message is known to the protocol but not handled here.
    Unimplemented,
    /// The input ended before the value did.
    Truncated,
    /// The output buffer is too small for the value.
    Overflow,
    /// The service choice, carried along, is not one of the modelled services.
    UnsupportedService(u8),
}

} // verus!
