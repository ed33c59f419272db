//! The connection writer: one live socket to one endpoint, and the decision
//! logic for using it correctly.
//!
//! Before each write the embedding program performs a non-blocking probe read
//! on the socket and reports what it saw; `check_alive` decides whether the
//! write may proceed. After a write it reports the raw outcome and
//! `write_verdict` maps it to the transport's error taxonomy. Issuing the
//! probe, the write, and the graceful shutdown on teardown are socket
//! operations and live outside this crate.

use vstd::prelude::*;

use crate::error::TransportError;

verus! {

/// What a non-blocking probe read on the socket reported.
///
/// `EndOfStream` means the peer half-closed the connection (a read of zero
/// bytes); `DataAvailable`, `WouldBlock` and `ReadError` all leave the
/// connection presumed alive — the probe is a best-effort liveness check, and
/// any genuine fault will surface from the write itself.
#[derive(Clone, Copy, Debug, PartialEq, Eq, Structural)]
pub enum ProbeOutcome {
    EndOfStream,
    DataAvailable,
    WouldBlock,
    ReadError,
}

/// The raw outcome of the write call itself, as observed by the embedding
/// program; a failure carries the I/O error as a numeric code.
#[derive(Clone, Copy, Debug, PartialEq, Eq, Structural)]
pub enum WriteOutcome {
    Written,
    WriteError { cause: u64 },
}

/// Owns exactly one established socket, identified by an opaque handle the
/// embedding program chose when it created the connection.
#[derive(Clone, Copy, Debug, PartialEq, Eq, Structural)]
pub struct ConnectionWriter {
    pub conn: u64,
}

/// The verdict on a probe: refuse with `ConnectionClosed` exactly when the
/// probe saw end-of-stream.
pub open spec fn probe_verdict_spec(probe: ProbeOutcome) -> Result<(), TransportError> {
    if probe is EndOfStream {
        Err(TransportError::ConnectionClosed)
    } else {
        Ok(())
    }
}

/// The verdict on a completed write: propagate an I/O failure as
/// `WriteFailed` with its cause.
pub open spec fn write_verdict_spec(outcome: WriteOutcome) -> Result<(), TransportError> {
    match outcome {
        WriteOutcome::Written => Ok(()),
        WriteOutcome::WriteError { cause } => Err(TransportError::WriteFailed { cause }),
    }
}

impl ConnectionWriter {
    pub fn new(conn: u64) -> (w: ConnectionWriter)
        ensures
            w.conn == conn,
    {
        ConnectionWriter { conn }
    }

    /// Decides whether a write may be issued: a probe that reported
    /// end-of-stream fails immediately with `ConnectionClosed` and no write is
    /// attempted; any other probe outcome lets the write proceed.
    pub fn check_alive(&self, probe: ProbeOutcome) -> (r: Result<(), TransportError>)
        ensures
            r == probe_verdict_spec(probe),
    {
        match probe {
            ProbeOutcome::EndOfStream => Err(TransportError::ConnectionClosed),
            _ => Ok(()),
        }
    }

    /// Maps the raw outcome of an issued write to the transport's taxonomy:
    /// success stays success, and an I/O failure becomes `WriteFailed` with
    /// the observed cause.
    pub fn write_verdict(&self, outcome: WriteOutcome) -> (r: Result<(), TransportError>)
        ensures
            r == write_verdict_spec(outcome),
    {
        match outcome {
            WriteOutcome::Written => Ok(()),
            WriteOutcome::WriteError { cause } => Err(TransportError::WriteFailed { cause }),
        }
    }
}

} // verus!
