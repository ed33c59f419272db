//! The reconnector: a cancellable, resumable attempt to re-establish one
//! endpoint's connection, retrying under exponential backoff up to a
//! configured attempt limit.
//!
//! The reconnector is a state machine. The embedding program owns the timer
//! and the in-flight connect operation; on each resumption it reports what it
//! observed as a `ReconnectEvent`, and `step` computes the next state. A
//! terminal state (`Succeeded` or `Failed`) is never left: the reconnector is
//! consumed on completion.

use vstd::prelude::*;

use crate::backoff;
use crate::endpoint::Endpoint;
use crate::error::TransportError;

verus! {

/// Where the reconnector stands: waiting out a backoff delay, waiting on an
/// in-flight connect, or finished. `Succeeded` carries the handle of the
/// newly established connection; `Failed` carries the terminal error — the
/// retry budget is spent.
#[derive(Clone, Copy, Debug, PartialEq, Eq, Structural)]
pub enum ReconnectorState {
    Backoff { delay_ms: u64 },
    Connecting,
    Succeeded { conn: u64 },
    Failed { error: TransportError },
}

/// What the embedding program observed on one resumption: the armed timer is
/// still running or has elapsed, or the in-flight connect is still pending,
/// resolved to a connection, or resolved to a failure.
#[derive(Clone, Copy, Debug, PartialEq, Eq, Structural)]
pub enum ReconnectEvent {
    TimerPending,
    TimerElapsed,
    ConnectPending,
    ConnectSucceeded { conn: u64 },
    ConnectFailed,
}

/// An in-flight reconnection attempt for one endpoint.
#[derive(Clone, Copy, Debug, PartialEq, Eq, Structural)]
pub struct Reconnector {
    pub address: Endpoint,
    pub state: ReconnectorState,
    /// Connect attempts that have already resolved with a failure.
    pub attempts_made: u32,
    pub maximum_retry_attempts: u32,
    pub reconnection_backoff_ms: u64,
    pub maximum_reconnection_backoff_ms: u64,
}

impl Reconnector {
    /// At most `max(maximum_retry_attempts, 1)` attempts are ever made: even a
    /// budget of zero admits one attempt, since the budget is checked only
    /// after a failure.
    pub open spec fn budget(self) -> nat {
        if self.maximum_retry_attempts >= 1 {
            self.maximum_retry_attempts as nat
        } else {
            1
        }
    }

    /// Well-formedness: while the reconnector still works, fewer failures
    /// than the budget have happened; once failed, the budget is spent.
    pub open spec fn wf(self) -> bool {
        &&& (self.state is Backoff || self.state is Connecting) ==> (self.attempts_made as nat)
            < self.budget()
        &&& self.state is Failed ==> (self.attempts_made as nat) == self.budget()
    }

    pub open spec fn is_terminal(self) -> bool {
        self.state is Succeeded || self.state is Failed
    }

    /// One resumption: only the event that the current state waits for moves
    /// the machine; everything else leaves it unchanged.
    pub open spec fn step_spec(self, e: ReconnectEvent) -> Reconnector {
        match self.state {
            ReconnectorState::Backoff { delay_ms } => {
                if e is TimerElapsed {
                    Reconnector { state: ReconnectorState::Connecting, ..self }
                } else {
                    self
                }
            },
            ReconnectorState::Connecting => match e {
                ReconnectEvent::ConnectSucceeded { conn } => Reconnector {
                    state: ReconnectorState::Succeeded { conn },
                    ..self
                },
                ReconnectEvent::ConnectFailed => {
                    let made = (self.attempts_made + 1) as u32;
                    if made as nat >= self.budget() {
                        Reconnector {
                            state: ReconnectorState::Failed {
                                error: TransportError::MaxRetriesExceeded,
                            },
                            attempts_made: made,
                            ..self
                        }
                    } else {
                        Reconnector {
                            state: ReconnectorState::Backoff {
                                delay_ms: backoff::next_delay_spec(
                                    made as nat,
                                    self.reconnection_backoff_ms as nat,
                                    self.maximum_reconnection_backoff_ms as nat,
                                ) as u64,
                            },
                            attempts_made: made,
                            ..self
                        }
                    }
                },
                _ => self,
            },
            _ => self,
        }
    }

    /// A fresh reconnector is armed with a zero delay: if the connection can
    /// be re-established on the first try there is no penalty.
    pub fn new(
        address: Endpoint,
        maximum_retry_attempts: u32,
        reconnection_backoff_ms: u64,
        maximum_reconnection_backoff_ms: u64,
    ) -> (r: Reconnector)
        ensures
            r.state == (ReconnectorState::Backoff { delay_ms: 0u64 }),
            r.attempts_made == 0,
            r.address == address,
            r.maximum_retry_attempts == maximum_retry_attempts,
            r.reconnection_backoff_ms == reconnection_backoff_ms,
            r.maximum_reconnection_backoff_ms == maximum_reconnection_backoff_ms,
            r.wf(),
    {
        Reconnector {
            address,
            state: ReconnectorState::Backoff { delay_ms: 0 },
            attempts_made: 0,
            maximum_retry_attempts,
            reconnection_backoff_ms,
            maximum_reconnection_backoff_ms,
        }
    }

    /// Drives the state machine by one observed event.
    pub fn step(&mut self, e: ReconnectEvent) -> (done: bool)
        requires
            old(self).wf(),
        ensures
            *final(self) == old(self).step_spec(e),
            final(self).wf(),
            done == final(self).is_terminal(),
    {
        proof {
            old(self).lemma_step_preserves_wf(e);
        }
        match self.state {
            ReconnectorState::Backoff { delay_ms } => {
                if let ReconnectEvent::TimerElapsed = e {
                    self.state = ReconnectorState::Connecting;
                }
            },
            ReconnectorState::Connecting => match e {
                ReconnectEvent::ConnectSucceeded { conn } => {
                    self.state = ReconnectorState::Succeeded { conn };
                },
                ReconnectEvent::ConnectFailed => {
                    let made = self.attempts_made + 1;
                    self.attempts_made = made;
                    let limit = if self.maximum_retry_attempts >= 1 {
                        self.maximum_retry_attempts
                    } else {
                        1
                    };
                    if made >= limit {
                        self.state = ReconnectorState::Failed {
                            error: TransportError::MaxRetriesExceeded,
                        };
                    } else {
                        let delay = backoff::next_delay(
                            made,
                            self.reconnection_backoff_ms,
                            self.maximum_reconnection_backoff_ms,
                        );
                        self.state = ReconnectorState::Backoff { delay_ms: delay };
                    }
                },
                _ => {},
            },
            _ => {},
        }
        match self.state {
            ReconnectorState::Succeeded { .. } => true,
            ReconnectorState::Failed { .. } => true,
            _ => false,
        }
    }

    /// Stepping preserves well-formedness.
    pub proof fn lemma_step_preserves_wf(self, e: ReconnectEvent)
        requires
            self.wf(),
        ensures
            self.step_spec(e).wf(),
    {
    }
}

/// The state after a whole sequence of observed events.
pub open spec fn run_spec(r: Reconnector, events: Seq<ReconnectEvent>) -> Reconnector
    decreases events.len(),
{
    if events.len() == 0 {
        r
    } else {
        run_spec(r.step_spec(events[0]), events.drop_first())
    }
}

/// The events of `j` whole connect attempts that each resolve with a failure:
/// the armed timer elapses, then the connect fails.
pub open spec fn failed_attempt_events(j: nat) -> Seq<ReconnectEvent>
    decreases j,
{
    if j == 0 {
        Seq::empty()
    } else {
        failed_attempt_events((j - 1) as nat) + seq![
            ReconnectEvent::TimerElapsed,
            ReconnectEvent::ConnectFailed,
        ]
    }
}

/// Running a concatenation is running the parts in order.
pub proof fn lemma_run_append(r: Reconnector, s: Seq<ReconnectEvent>, t: Seq<ReconnectEvent>)
    ensures
        run_spec(r, s + t) == run_spec(run_spec(r, s), t),
    decreases s.len(),
{
    if s.len() == 0 {
        assert(s + t =~= t);
    } else {
        assert((s + t)[0] == s[0]);
        assert((s + t).drop_first() =~= s.drop_first() + t);
        lemma_run_append(r.step_spec(s[0]), s.drop_first(), t);
    }
}

/// Retry budget exhaustion: a fresh reconnector whose connect attempts keep
/// failing makes exactly `max(maximum_retry_attempts, 1)` attempts. After any
/// smaller number of failed attempts it is still working — armed for another
/// try — and after exactly that many it is terminally `Failed`, with the
/// counter showing one failure per attempt made.
pub proof fn lemma_retry_budget(r0: Reconnector, j: nat)
    requires
        r0.state == (ReconnectorState::Backoff { delay_ms: 0u64 }),
        r0.attempts_made == 0,
        j <= r0.budget(),
    ensures
        run_spec(r0, failed_attempt_events(j)).attempts_made == j,
        run_spec(r0, failed_attempt_events(j)).budget() == r0.budget(),
        j < r0.budget() ==> run_spec(r0, failed_attempt_events(j)).state is Backoff,
        j == r0.budget() ==> run_spec(r0, failed_attempt_events(j)).state == (ReconnectorState::Failed {
            error: TransportError::MaxRetriesExceeded,
        }),
    decreases j,
{
    if j == 0 {
    } else {
        lemma_retry_budget(r0, (j - 1) as nat);
        let prev = run_spec(r0, failed_attempt_events((j - 1) as nat));
        let cycle = seq![ReconnectEvent::TimerElapsed, ReconnectEvent::ConnectFailed];
        lemma_run_append(r0, failed_attempt_events((j - 1) as nat), cycle);
        let one = cycle.drop_first();
        assert(one =~= seq![ReconnectEvent::ConnectFailed]);
        assert(cycle[0] == ReconnectEvent::TimerElapsed);
        assert(one[0] == ReconnectEvent::ConnectFailed);
        assert(one.drop_first() =~= Seq::<ReconnectEvent>::empty());
        let connecting = prev.step_spec(ReconnectEvent::TimerElapsed);
        assert(run_spec(prev, cycle) == run_spec(connecting, one));
        let after = connecting.step_spec(ReconnectEvent::ConnectFailed);
        assert(run_spec(connecting, one) == run_spec(after, one.drop_first()));
        assert(run_spec(after, one.drop_first()) == after);
    }
}

} // verus!
