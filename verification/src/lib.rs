//! A resilient multi-destination TCP transport model: one logical connection
//! per remote endpoint, failure detection on write, and re-establishment under
//! an exponential-backoff policy that never blocks traffic to other endpoints.
//!
//! The crate verifies the transport's decision logic: the backoff policy, the
//! reconnection state machine, the liveness check before each write, and the
//! per-endpoint routing table. Performing the actual socket operations is left
//! to the embedding program, which drives these state machines with the
//! outcomes it observes.
//!
//! Beside the transport sit the mix-network topology — layer validation,
//! version filtering and route selection over the nodes a directory knows —
//! and the validator's command-line banner.

pub mod backoff;
pub mod client;
pub mod endpoint;
pub mod error;
pub mod reconnect;
pub mod topology;
pub mod validator;
pub mod writer;
