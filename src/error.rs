use vstd::prelude::*;

verus! {

/// An error that can occur while decoding a NetBIOS Name Service packet.
#[derive(Debug, Clone, Copy, PartialEq, Eq, Structural)]
pub enum NetbiosError {
    /// A low-level field could not be decoded.
    Generic,
    /// A first-level name is not 16 bytes, or a second-level name is not 32 characters.
    InvalidNameLength,
    /// The name of a question entry could not be scanned.
    InvalidQuestion,
    /// The name of a resource record could not be scanned.
    InvalidAnswer,
    /// The buffer ends before a fixed-size field or a declared payload ends;
    /// a streaming caller may wait for more bytes.
    Incomplete,
}

} // verus!
