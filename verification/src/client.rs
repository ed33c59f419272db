//! The multi-peer client: a routing table from endpoint to connection writer,
//! and the send path that uses it.
//!
//! A send is a small state machine of its own. `begin_send` routes the request
//! (an endpoint never registered fails immediately with `UnknownDestination`
//! and no I/O); each `SendAction` tells the embedding program what to do next
//! — write the payload to a connection, drive a reconnection, or finish with a
//! result. The outcomes the program observes are fed back through
//! `on_write_result`, `on_reconnect_succeeded` and `on_reconnect_failed`.
//! Every mutation touches only the one endpoint being sent to, so traffic to
//! other endpoints is never rerouted or delayed by a failing peer.

use std::collections::HashMap;

use vstd::prelude::*;

use crate::endpoint::Endpoint;
use crate::endpoint::lemma_key_injective;
use crate::error::TransportError;
use crate::reconnect::Reconnector;
use crate::reconnect::ReconnectorState;
use crate::writer::ConnectionWriter;

verus! {

/// Immutable bootstrap configuration: the initial endpoints and the backoff
/// policy handed to every reconnector.
pub struct Config {
    pub initial_endpoints: Vec<Endpoint>,
    pub initial_reconnection_backoff_ms: u64,
    pub maximum_reconnection_backoff_ms: u64,
    pub maximum_retry_attempts: u32,
}

impl Config {
    pub fn new(
        initial_endpoints: Vec<Endpoint>,
        initial_reconnection_backoff_ms: u64,
        maximum_reconnection_backoff_ms: u64,
        maximum_retry_attempts: u32,
    ) -> (c: Config)
        ensures
            c.initial_endpoints == initial_endpoints,
            c.initial_reconnection_backoff_ms == initial_reconnection_backoff_ms,
            c.maximum_reconnection_backoff_ms == maximum_reconnection_backoff_ms,
            c.maximum_retry_attempts == maximum_retry_attempts,
    {
        Config {
            initial_endpoints,
            initial_reconnection_backoff_ms,
            maximum_reconnection_backoff_ms,
            maximum_retry_attempts,
        }
    }
}

/// One in-flight send request: where it goes, what it carries, and whether a
/// reconnection has already been spent on it (the original write is retried
/// exactly once after a successful reconnection).
pub struct SendTask {
    pub endpoint: Endpoint,
    pub payload: Vec<u8>,
    pub retried: bool,
}

/// What the embedding program must do next to advance a send.
#[derive(Debug, PartialEq, Eq)]
pub enum SendAction {
    /// Probe and write the task's payload to this connection.
    Write { conn: u64 },
    /// The writer failed: drop its socket and drive a reconnector for the
    /// task's endpoint (see `start_reconnect`).
    Reconnect,
    /// The send is finished with this result.
    Done { result: Result<(), TransportError> },
}

/// The routing table built at bootstrap: endpoints inserted left to right,
/// each mapped to the writer around its established connection.
pub open spec fn initial_writers(eps: Seq<Endpoint>, conns: Seq<Option<u64>>) -> Map<
    u64,
    ConnectionWriter,
>
    decreases eps.len(),
{
    if eps.len() == 0 {
        Map::empty()
    } else {
        initial_writers(eps.drop_last(), conns.drop_last()).insert(
            eps.last().key_spec(),
            ConnectionWriter { conn: conns.last()->0 },
        )
    }
}

/// Owns the mapping from endpoint to connection writer. Only the client
/// mutates it: entries are inserted at construction, replaced on successful
/// reconnection, and removed when an endpoint's retry budget is exhausted.
pub struct Client {
    pub writers: HashMap<u64, ConnectionWriter>,
    pub reconnection_backoff_ms: u64,
    pub maximum_reconnection_backoff_ms: u64,
    pub maximum_retry_attempts: u32,
}

impl Client {
    /// Bootstrap: the embedding program attempts one connection per initial
    /// endpoint, in order, and hands over the results. Construction either
    /// fully succeeds — every endpoint connected, one writer each — or fails
    /// with `BootstrapFailed` as soon as any endpoint could not be reached.
    pub fn new(config: Config, connections: Vec<Option<u64>>) -> (r: Result<
        Client,
        TransportError,
    >)
        requires
            connections@.len() == config.initial_endpoints@.len(),
        ensures
            match r {
                Ok(c) => {
                    &&& forall|i: int|
                        0 <= i < connections@.len() ==> connections@[i] is Some
                    &&& c.writers@ == initial_writers(config.initial_endpoints@, connections@)
                    &&& c.reconnection_backoff_ms == config.initial_reconnection_backoff_ms
                    &&& c.maximum_reconnection_backoff_ms
                        == config.maximum_reconnection_backoff_ms
                    &&& c.maximum_retry_attempts == config.maximum_retry_attempts
                },
                Err(e) => {
                    &&& e == TransportError::BootstrapFailed
                    &&& exists|i: int| 0 <= i < connections@.len() && connections@[i] is None
                },
            },
    {
        let mut writers: HashMap<u64, ConnectionWriter> = HashMap::new();
        let n = config.initial_endpoints.len();
        let mut idx: usize = 0;
        while idx < n
            invariant
                idx <= n,
                n == config.initial_endpoints@.len(),
                connections@.len() == n,
                forall|i: int| 0 <= i < idx ==> connections@[i] is Some,
                writers@ == initial_writers(
                    config.initial_endpoints@.take(idx as int),
                    connections@.take(idx as int),
                ),
            decreases n - idx,
        {
            let ep = config.initial_endpoints[idx];
            match connections[idx] {
                Some(conn) => {
                    let key = ep.key();
                    writers.insert(key, ConnectionWriter { conn });
                    proof {
                        let eps_next = config.initial_endpoints@.take(idx + 1int);
                        let conns_next = connections@.take(idx + 1int);
                        assert(eps_next.drop_last() =~= config.initial_endpoints@.take(idx as int));
                        assert(conns_next.drop_last() =~= connections@.take(idx as int));
                        assert(eps_next.last() == ep);
                        assert(conns_next.last() == connections@[idx as int]);
                    }
                },
                None => {
                    return Err(TransportError::BootstrapFailed);
                },
            }
            idx = idx + 1;
        }
        proof {
            assert(config.initial_endpoints@.take(n as int) =~= config.initial_endpoints@);
            assert(connections@.take(n as int) =~= connections@);
        }
        Ok(
            Client {
                writers,
                reconnection_backoff_ms: config.initial_reconnection_backoff_ms,
                maximum_reconnection_backoff_ms: config.maximum_reconnection_backoff_ms,
                maximum_retry_attempts: config.maximum_retry_attempts,
            },
        )
    }

    /// Routes a send request. An endpoint not in the table is a permanent
    /// error, surfaced immediately with no I/O of any kind; otherwise the
    /// first action is to write the payload to that endpoint's connection.
    pub fn begin_send(&self, endpoint: Endpoint, payload: Vec<u8>) -> (r: (SendTask, SendAction))
        ensures
            r.0.endpoint == endpoint,
            r.0.payload == payload,
            r.0.retried == false,
            self.writers@.contains_key(endpoint.key_spec()) ==> r.1 == (SendAction::Write {
                conn: self.writers@[endpoint.key_spec()].conn,
            }),
            !self.writers@.contains_key(endpoint.key_spec()) ==> r.1 == (SendAction::Done {
                result: Err(TransportError::UnknownDestination),
            }),
    {
        let key = endpoint.key();
        let action = match self.writers.get(&key) {
            Some(w) => SendAction::Write { conn: w.conn },
            None => SendAction::Done { result: Err(TransportError::UnknownDestination) },
        };
        (SendTask { endpoint, payload, retried: false }, action)
    }

    /// Advances a send after a write was attempted. Success finishes the
    /// send. The first failure spends the task's one reconnection: the
    /// embedding program must drop the failed writer's socket and drive a
    /// reconnector. A failure of the retried write is surfaced as it is.
    pub fn on_write_result(
        &self,
        task: &mut SendTask,
        result: Result<(), TransportError>,
    ) -> (a: SendAction)
        ensures
            final(task).endpoint == old(task).endpoint,
            final(task).payload == old(task).payload,
            result is Ok ==> a == (SendAction::Done { result: Ok(()) })
                && final(task).retried == old(task).retried,
            result is Err && !old(task).retried ==> a == SendAction::Reconnect
                && final(task).retried == true,
            result is Err && old(task).retried ==> a == (SendAction::Done { result })
                && final(task).retried == true,
    {
        match result {
            Ok(()) => SendAction::Done { result: Ok(()) },
            Err(e) => {
                if task.retried {
                    SendAction::Done { result: Err(e) }
                } else {
                    task.retried = true;
                    SendAction::Reconnect
                }
            },
        }
    }

    /// A fresh reconnector for one endpoint, armed with the client's backoff
    /// policy and a zero first delay.
    pub fn start_reconnect(&self, endpoint: Endpoint) -> (r: Reconnector)
        ensures
            r.address == endpoint,
            r.state == (ReconnectorState::Backoff { delay_ms: 0u64 }),
            r.attempts_made == 0,
            r.maximum_retry_attempts == self.maximum_retry_attempts,
            r.reconnection_backoff_ms == self.reconnection_backoff_ms,
            r.maximum_reconnection_backoff_ms == self.maximum_reconnection_backoff_ms,
            r.wf(),
    {
        Reconnector::new(
            endpoint,
            self.maximum_retry_attempts,
            self.reconnection_backoff_ms,
            self.maximum_reconnection_backoff_ms,
        )
    }

    /// Installs the freshly established connection, replacing the endpoint's
    /// old writer, and retries the original write exactly once. Every other
    /// endpoint's entry is untouched.
    pub fn on_reconnect_succeeded(&mut self, task: &SendTask, conn: u64) -> (a: SendAction)
        ensures
            final(self).writers@ == old(self).writers@.insert(
                task.endpoint.key_spec(),
                ConnectionWriter { conn },
            ),
            forall|k: u64|
                k != task.endpoint.key_spec()
                    ==> (final(self).writers@.contains_key(k)
                        <==> old(self).writers@.contains_key(k))
                    && (old(self).writers@.contains_key(k)
                        ==> final(self).writers@[k] == old(self).writers@[k]),
            final(self).reconnection_backoff_ms == old(self).reconnection_backoff_ms,
            final(self).maximum_reconnection_backoff_ms
                == old(self).maximum_reconnection_backoff_ms,
            final(self).maximum_retry_attempts == old(self).maximum_retry_attempts,
            a == (SendAction::Write { conn }),
    {
        let key = task.endpoint.key();
        self.writers.insert(key, ConnectionWriter { conn });
        SendAction::Write { conn }
    }

    /// The endpoint's retry budget is spent: evict it from the table — later
    /// sends to it fail with `UnknownDestination` — and surface
    /// `DestinationUnreachable` to the caller. Every other endpoint's entry
    /// is untouched.
    pub fn on_reconnect_failed(&mut self, task: &SendTask) -> (a: SendAction)
        ensures
            final(self).writers@ == old(self).writers@.remove(task.endpoint.key_spec()),
            forall|k: u64|
                k != task.endpoint.key_spec()
                    ==> (final(self).writers@.contains_key(k)
                        <==> old(self).writers@.contains_key(k))
                    && (old(self).writers@.contains_key(k)
                        ==> final(self).writers@[k] == old(self).writers@[k]),
            final(self).reconnection_backoff_ms == old(self).reconnection_backoff_ms,
            final(self).maximum_reconnection_backoff_ms
                == old(self).maximum_reconnection_backoff_ms,
            final(self).maximum_retry_attempts == old(self).maximum_retry_attempts,
            a == (SendAction::Done { result: Err(TransportError::DestinationUnreachable) }),
    {
        let key = task.endpoint.key();
        self.writers.remove(&key);
        SendAction::Done { result: Err(TransportError::DestinationUnreachable) }
    }
}

/// Per-endpoint isolation: installing or evicting endpoint `a`'s writer —
/// the only ways the send path mutates the table — leaves endpoint `b`'s
/// routing exactly as it was.
pub proof fn lemma_send_isolation(
    m: Map<u64, ConnectionWriter>,
    a: Endpoint,
    b: Endpoint,
    w: ConnectionWriter,
)
    requires
        a != b,
    ensures
        m.insert(a.key_spec(), w).contains_key(b.key_spec()) <==> m.contains_key(b.key_spec()),
        m.contains_key(b.key_spec()) ==> m.insert(a.key_spec(), w)[b.key_spec()] == m[b.key_spec()],
        m.remove(a.key_spec()).contains_key(b.key_spec()) <==> m.contains_key(b.key_spec()),
        m.contains_key(b.key_spec()) ==> m.remove(a.key_spec())[b.key_spec()] == m[b.key_spec()],
{
    if a.key_spec() == b.key_spec() {
        lemma_key_injective(a, b);
    }
}

} // verus!
