use vstd::prelude::*;
use crate::config::SerialConfig;
use crate::codec::same_text;

verus! {

/// The pause after a successful validation before the port is reopened.
pub const VALIDATION_RELEASE_MS: u64 = 500;

/// The idle time after which a read reports a liveness tick.
pub const IDLE_TIMEOUT_MS: u64 = 30000;

/// Where the connection manager stands.
#[derive(Clone, Copy, Debug, PartialEq, Eq, Structural)]
pub enum ConnectionState {
    Initializing,
    Validating,
    Connected,
    Reconnecting { attempts: u32 },
    Failed,
}

/// What happened outside, reported to the connection manager.
#[derive(Clone, Copy, Debug, PartialEq, Eq, Structural)]
pub enum LinkEvent {
    /// Resolve the port: configured, or found by auto-detection.
    Start,
    /// The reconnect delay has passed: go back to discovery.
    Reattempt,
    /// Auto-detection ended; `true` when it found a port.
    Detected(bool),
    /// The chosen port answered the handshake.
    ProbeSucceeded,
    /// The chosen port did not answer the handshake.
    ProbeFailed,
    /// The port was opened for the read loop.
    Opened,
    /// The port could not be opened, a read failed, the stream ended, or an
    /// acknowledgement could not be written.
    LinkLost,
    /// A read waited for the idle timeout and saw nothing.
    IdleTimeout,
}

/// What the connection manager asks to be done next.
#[derive(Clone, Copy, Debug, PartialEq, Eq, Structural)]
pub enum LinkAction {
    /// Start discovery again from `Initializing`.
    Resume,
    /// Scan the available ports.
    Detect,
    /// Wait, then probe the chosen port.
    Probe { delay_ms: u64 },
    /// Wait, then open the chosen port.
    Open { delay_ms: u64 },
    /// Send the handshake request and start reading frames.
    Listen,
    /// Go on reading.
    KeepReading,
    /// Close the port, wait, then report `Reattempt`.
    Reconnect { delay_ms: u64 },
    /// Give up: surface the error and stop.
    Fail,
    /// The event does not apply in this state.
    Ignore,
}

/// The connection state machine: discover, validate, open, read, reconnect.
#[derive(Clone, Copy, Debug)]
pub struct LinkManager {
    pub max_retry_count: u32,
    pub retry_delay_ms: u64,
    pub auto_detect: bool,
    pub state: ConnectionState,
    /// The number of the current validation attempt, from 1.
    pub attempt: u32,
}

impl LinkManager {
    /// At least one validation attempt is allowed, and while validating the
    /// attempt number lies between 1 and that maximum.
    pub open spec fn wf(self) -> bool {
        &&& self.max_retry_count > 0
        &&& self.state is Validating ==> 1 <= self.attempt <= self.max_retry_count
    }

    /// The state and attempt number after `ev`.
    pub open spec fn next(self, ev: LinkEvent) -> (ConnectionState, u32) {
        match (self.state, ev) {
            (ConnectionState::Initializing, LinkEvent::Start) => if self.auto_detect {
                (ConnectionState::Initializing, 0)
            } else {
                (ConnectionState::Validating, 1)
            },
            (ConnectionState::Reconnecting { .. }, LinkEvent::Reattempt) => (
                ConnectionState::Initializing,
                0,
            ),
            (ConnectionState::Initializing, LinkEvent::Detected(found)) => if found {
                (ConnectionState::Validating, 1)
            } else {
                (ConnectionState::Failed, self.attempt)
            },
            (ConnectionState::Validating, LinkEvent::ProbeSucceeded) => (
                ConnectionState::Connected,
                self.attempt,
            ),
            (ConnectionState::Validating, LinkEvent::ProbeFailed) => if self.attempt
                < self.max_retry_count {
                (ConnectionState::Validating, (self.attempt + 1) as u32)
            } else {
                (ConnectionState::Failed, self.attempt)
            },
            (ConnectionState::Connected, LinkEvent::LinkLost) => (
                ConnectionState::Reconnecting { attempts: 0 },
                self.attempt,
            ),
            _ => (self.state, self.attempt),
        }
    }

    /// The action that answers `ev`.
    pub open spec fn action(self, ev: LinkEvent) -> LinkAction {
        match (self.state, ev) {
            (ConnectionState::Initializing, LinkEvent::Start) => if self.auto_detect {
                LinkAction::Detect
            } else {
                LinkAction::Probe { delay_ms: 0 }
            },
            (ConnectionState::Reconnecting { .. }, LinkEvent::Reattempt) => LinkAction::Resume,
            (ConnectionState::Initializing, LinkEvent::Detected(found)) => if found {
                LinkAction::Probe { delay_ms: crate::probe::PORT_RELEASE_GRACE_MS }
            } else {
                LinkAction::Fail
            },
            (ConnectionState::Validating, LinkEvent::ProbeSucceeded) => LinkAction::Open {
                delay_ms: VALIDATION_RELEASE_MS,
            },
            (ConnectionState::Validating, LinkEvent::ProbeFailed) => if self.attempt
                < self.max_retry_count {
                LinkAction::Probe { delay_ms: self.retry_delay_ms }
            } else {
                LinkAction::Fail
            },
            (ConnectionState::Connected, LinkEvent::Opened) => LinkAction::Listen,
            (ConnectionState::Connected, LinkEvent::LinkLost) => LinkAction::Reconnect {
                delay_ms: self.retry_delay_ms,
            },
            (_, LinkEvent::IdleTimeout) => LinkAction::KeepReading,
            _ => LinkAction::Ignore,
        }
    }

    /// A manager in `Initializing` for a validated serial configuration.
    pub fn new(config: &SerialConfig, auto_detect: bool) -> (r: LinkManager)
        requires
            config.max_retry_count > 0,
        ensures
            r.wf(),
            r.state == ConnectionState::Initializing,
            r.attempt == 0,
            r.max_retry_count == config.max_retry_count,
            r.retry_delay_ms == config.retry_delay_ms,
            r.auto_detect == auto_detect,
    {
        LinkManager {
            max_retry_count: config.max_retry_count,
            retry_delay_ms: config.retry_delay_ms,
            auto_detect,
            state: ConnectionState::Initializing,
            attempt: 0,
        }
    }

    /// The current state.
    pub fn get_state(&self) -> (r: ConnectionState)
        ensures
            r == self.state,
    {
        self.state
    }

    /// Takes one event and answers with the next action.
    pub fn step(&mut self, ev: LinkEvent) -> (r: LinkAction)
        requires
            old(self).wf(),
        ensures
            final(self).wf(),
            (final(self).state, final(self).attempt) == old(self).next(ev),
            r == old(self).action(ev),
            final(self).max_retry_count == old(self).max_retry_count,
            final(self).retry_delay_ms == old(self).retry_delay_ms,
            final(self).auto_detect == old(self).auto_detect,
    {
        match (self.state, ev) {
            (ConnectionState::Reconnecting { .. }, LinkEvent::Reattempt) => {
                self.state = ConnectionState::Initializing;
                self.attempt = 0;
                LinkAction::Resume
            },
            (ConnectionState::Initializing, LinkEvent::Start) => {
                if self.auto_detect {
                    self.state = ConnectionState::Initializing;
                    self.attempt = 0;
                    LinkAction::Detect
                } else {
                    self.state = ConnectionState::Validating;
                    self.attempt = 1;
                    LinkAction::Probe { delay_ms: 0 }
                }
            },
            (ConnectionState::Initializing, LinkEvent::Detected(found)) => {
                if found {
                    self.state = ConnectionState::Validating;
                    self.attempt = 1;
                    LinkAction::Probe { delay_ms: crate::probe::PORT_RELEASE_GRACE_MS }
                } else {
                    self.state = ConnectionState::Failed;
                    LinkAction::Fail
                }
            },
            (ConnectionState::Validating, LinkEvent::ProbeSucceeded) => {
                self.state = ConnectionState::Connected;
                LinkAction::Open { delay_ms: VALIDATION_RELEASE_MS }
            },
            (ConnectionState::Validating, LinkEvent::ProbeFailed) => {
                if self.attempt < self.max_retry_count {
                    self.attempt = self.attempt + 1;
                    LinkAction::Probe { delay_ms: self.retry_delay_ms }
                } else {
                    self.state = ConnectionState::Failed;
                    LinkAction::Fail
                }
            },
            (ConnectionState::Connected, LinkEvent::Opened) => LinkAction::Listen,
            (ConnectionState::Connected, LinkEvent::LinkLost) => {
                self.state = ConnectionState::Reconnecting { attempts: 0 };
                LinkAction::Reconnect { delay_ms: self.retry_delay_ms }
            },
            (_, LinkEvent::IdleTimeout) => LinkAction::KeepReading,
            _ => LinkAction::Ignore,
        }
    }
}

/// After a lost link the manager reconnects through `Initializing`: a
/// reattempt from `Reconnecting` lands there with the attempt counter reset,
/// and the next `Start` resolves the port as on the first connection.
pub proof fn lemma_reconnect_restarts_discovery(m: LinkManager)
    requires
        m.wf(),
        m.state is Reconnecting,
    ensures
        m.next(LinkEvent::Reattempt) == (ConnectionState::Initializing, 0u32),
        m.action(LinkEvent::Reattempt) == LinkAction::Resume,
        m.next(LinkEvent::Start) == (m.state, m.attempt),
{
}

/// An idle tick leaves the state and the attempt counter as they were, and
/// only asks to keep reading.
pub proof fn lemma_idle_tick_is_inert(m: LinkManager)
    requires
        m.wf(),
    ensures
        m.next(LinkEvent::IdleTimeout) == (m.state, m.attempt),
        m.action(LinkEvent::IdleTimeout) == LinkAction::KeepReading,
{
}

/// Validation makes at most `max_retry_count` probes: a failed probe on the
/// last allowed attempt ends in `Failed`, and any earlier one probes again
/// after the configured delay with the next attempt number.
pub proof fn lemma_probe_failure_bounded(m: LinkManager)
    requires
        m.wf(),
        m.state is Validating,
    ensures
        m.attempt == m.max_retry_count ==> m.next(LinkEvent::ProbeFailed).0 is Failed
            && m.action(LinkEvent::ProbeFailed) == LinkAction::Fail,
        m.attempt < m.max_retry_count ==> m.next(LinkEvent::ProbeFailed) == (
            ConnectionState::Validating,
            (m.attempt + 1) as u32,
        ) && m.action(LinkEvent::ProbeFailed) == (LinkAction::Probe {
            delay_ms: m.retry_delay_ms,
        }),
{
}


/// The lower-case form of a text, as Unicode defines it.
pub uninterp spec fn lower_of(s: Seq<char>) -> Seq<char>;

/// Relies on `str::to_lowercase`: the result depends on the characters alone.
#[verifier::external_body]
fn lowercase(s: &str) -> (r: String)
    ensures
        r@ == lower_of(s@),
{
    s.to_lowercase()
}

/// Whether an already lower-cased port name asks for auto-detection.
pub fn names_auto_detect(lowered: &str) -> (r: bool)
    ensures
        r == (lowered@ == "auto"@),
{
    same_text(lowered, "auto")
}

/// Whether a configured port name asks for auto-detection: it reads `auto`
/// in any case.
pub fn wants_auto_detect(port_name: &str) -> (r: bool)
    ensures
        r == (lower_of(port_name@) == "auto"@),
{
    let lowered = lowercase(port_name);
    names_auto_detect(lowered.as_str())
}

} // verus!
