//! Error taxonomy of the transport.

use vstd::prelude::*;

verus! {

/// Every failure the transport can surface or record.
///
/// `UnknownDestination`, `DestinationUnreachable` and `BootstrapFailed` are
/// permanent outcomes returned to the caller. `ConnectionClosed` and
/// `WriteFailed` describe a single failed write and trigger the reconnection
/// path; `WriteFailed` carries the observed I/O error as a numeric code chosen
/// by the embedding program. `MaxRetriesExceeded` is the terminal verdict of a
/// reconnection whose retry budget ran out.
#[derive(Clone, Copy, Debug, PartialEq, Eq, Structural)]
pub enum TransportError {
    UnknownDestination,
    ConnectionClosed,
    WriteFailed { cause: u64 },
    MaxRetriesExceeded,
    DestinationUnreachable,
    BootstrapFailed,
}

} // verus!
