use vstd::prelude::*;

verus! {

/// The errors the connection core can surface.
#[derive(Clone, Copy, Debug, PartialEq, Eq, Structural)]
pub enum IoError {
    /// The OS refused to open the device (permissions, already in use,
    /// nonexistent path). Recoverable by retrying.
    ConnectFailed,
    /// A background task of the transport has exited; the handle is stale
    /// and a new one must be opened to reconnect.
    Disconnected,
    /// A chunk of received bytes failed UTF-8 decoding; the chunk is
    /// dropped from the visible stream.
    InvalidData,
    /// An operation needed a live handle and none was present. Ordinary
    /// sequencing, never fatal.
    NotConnected,
}

} // verus!
