use vstd::prelude::*;

verus! {

/// Errors raised by the codec and the frame builder: a device token that is
/// not exactly 32 hexadecimal characters, or an item whose byte length does
/// not fit the frame's 16-bit item-length field.
#[derive(Clone, Copy, Debug, PartialEq, Eq, Structural)]
pub enum ApnsError {
    InvalidTokenFormat,
    FrameTooLarge,
}

} // verus!
