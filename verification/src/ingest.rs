//! The ingestion loop as a state machine.
//!
//! The loop that talks to the transport performs one action at a time and
//! reports what came of it as an event; [`step`] decides what the loop does
//! next. Every received message becomes exactly one store action, lost
//! connections are retried a bounded number of times per round, and a
//! successful reconnect is followed by a new subscription before the loop
//! polls again.

use vstd::prelude::*;

verus! {

/// How long the loop waits and how a lost connection is retried.
#[derive(Clone, Copy, Debug, PartialEq, Eq, Structural)]
pub struct RetryPolicy {
    /// The number of reconnect attempts in one round.
    pub max_attempts: u32,
    /// The pause before each attempt, in seconds.
    pub delay_secs: u64,
    /// The time to wait for a message in one poll cycle, in seconds. It
    /// bounds how long a shutdown request stays unnoticed.
    pub poll_secs: u64,
}

/// Where the loop stands.
#[derive(Clone, Copy, Debug, PartialEq, Eq, Structural)]
pub enum LinkState {
    /// Nothing has happened yet.
    Disconnected,
    /// The first connection attempt is under way.
    Connecting,
    /// The connection stands and the subscription is under way.
    Subscribing,
    /// Subscribed and polling for messages.
    Connected,
    /// A received message is being stored.
    Storing,
    /// The connection was lost; so many attempts of this round have failed.
    Reconnecting { failed: u32 },
    /// A round of attempts was used up. The loop does not end: it keeps
    /// polling, and the next idle cycle without connection starts a new
    /// round.
    TerminallyDisconnected,
    /// Shutdown was requested and the connection is being closed.
    Stopping,
    /// The loop has ended after a shutdown request.
    Stopped,
    /// The loop has ended on a fatal failure.
    Failed,
}

/// What the loop observed.
#[derive(Debug)]
pub enum LinkEvent {
    /// The loop starts.
    Started,
    /// The connection attempt has ended.
    ConnectDone { ok: bool },
    /// The subscription to all configured topics has ended.
    SubscribeDone { ok: bool },
    /// A message arrived within the polling time.
    Message { topic: String, payload: String },
    /// The transport woke the loop without a message.
    Empty,
    /// The polling time passed without anything being received.
    Idle { connected: bool },
    /// The store has handled the message.
    StoreDone { ok: bool },
    /// One reconnect attempt has ended.
    ReconnectDone { ok: bool },
    /// The shutdown flag was found set at the start of a poll cycle.
    ShutdownRequested { connected: bool },
    /// Unsubscribing and disconnecting has ended.
    DisconnectDone { ok: bool },
}

/// What the loop is to do next.
#[derive(Debug)]
pub enum LinkAction {
    /// Connect to the broker.
    Connect,
    /// Subscribe to every configured topic.
    Subscribe,
    /// Check the shutdown flag, then wait for a message for at most the
    /// given seconds.
    Poll { timeout_secs: u64 },
    /// Insert the message into the store.
    Store { topic: String, payload: String },
    /// Wait for the given seconds, then try once to reconnect.
    Reconnect { delay_secs: u64 },
    /// Unsubscribe from every topic and disconnect.
    Disconnect,
    /// Leave the loop and end the process with this status.
    Exit { code: i32 },
    /// End the process abnormally: data would otherwise be lost.
    Abort,
}

/// The loop is waiting for messages.
pub open spec fn is_waiting(state: LinkState) -> bool {
    state == LinkState::Connected || state == LinkState::TerminallyDisconnected
}

/// The loop has ended.
pub open spec fn is_final(state: LinkState) -> bool {
    state == LinkState::Stopped || state == LinkState::Failed
}

/// The start of a round of reconnect attempts.
pub open spec fn begin_round(policy: RetryPolicy) -> (LinkState, LinkAction) {
    if policy.max_attempts == 0 {
        (
            LinkState::TerminallyDisconnected,
            LinkAction::Poll { timeout_secs: policy.poll_secs },
        )
    } else {
        (
            LinkState::Reconnecting { failed: 0 },
            LinkAction::Reconnect { delay_secs: policy.delay_secs },
        )
    }
}

/// What follows an event while the loop waits for messages.
pub open spec fn next_waiting(policy: RetryPolicy, state: LinkState, event: LinkEvent) -> (
    LinkState,
    LinkAction,
) {
    match event {
        LinkEvent::Message { topic, payload } => (
            LinkState::Storing,
            LinkAction::Store { topic, payload },
        ),
        LinkEvent::Empty => (state, LinkAction::Poll { timeout_secs: policy.poll_secs }),
        LinkEvent::Idle { connected } => if connected {
            (LinkState::Connected, LinkAction::Poll { timeout_secs: policy.poll_secs })
        } else {
            begin_round(policy)
        },
        LinkEvent::ShutdownRequested { connected } => if connected {
            (LinkState::Stopping, LinkAction::Disconnect)
        } else {
            (LinkState::Stopped, LinkAction::Exit { code: 0 })
        },
        _ => (LinkState::Failed, LinkAction::Abort),
    }
}

/// The transition function: the state and the action that follow an event.
/// An event that the state does not await ends the loop abnormally.
pub open spec fn next(policy: RetryPolicy, state: LinkState, event: LinkEvent) -> (
    LinkState,
    LinkAction,
) {
    match state {
        LinkState::Disconnected => match event {
            LinkEvent::Started => (LinkState::Connecting, LinkAction::Connect),
            _ => (LinkState::Failed, LinkAction::Abort),
        },
        LinkState::Connecting => match event {
            LinkEvent::ConnectDone { ok } => if ok {
                (LinkState::Subscribing, LinkAction::Subscribe)
            } else {
                (LinkState::Failed, LinkAction::Exit { code: 1 })
            },
            _ => (LinkState::Failed, LinkAction::Abort),
        },
        LinkState::Subscribing => match event {
            LinkEvent::SubscribeDone { ok } => if ok {
                (LinkState::Connected, LinkAction::Poll { timeout_secs: policy.poll_secs })
            } else {
                (LinkState::Failed, LinkAction::Exit { code: 1 })
            },
            _ => (LinkState::Failed, LinkAction::Abort),
        },
        LinkState::Connected => next_waiting(policy, state, event),
        LinkState::TerminallyDisconnected => next_waiting(policy, state, event),
        LinkState::Storing => match event {
            LinkEvent::StoreDone { ok } => if ok {
                (LinkState::Connected, LinkAction::Poll { timeout_secs: policy.poll_secs })
            } else {
                (LinkState::Failed, LinkAction::Abort)
            },
            _ => (LinkState::Failed, LinkAction::Abort),
        },
        LinkState::Reconnecting { failed } => match event {
            LinkEvent::ReconnectDone { ok } => if ok {
                (LinkState::Subscribing, LinkAction::Subscribe)
            } else if failed + 1 < policy.max_attempts {
                (
                    LinkState::Reconnecting { failed: (failed + 1) as u32 },
                    LinkAction::Reconnect { delay_secs: policy.delay_secs },
                )
            } else {
                (
                    LinkState::TerminallyDisconnected,
                    LinkAction::Poll { timeout_secs: policy.poll_secs },
                )
            },
            _ => (LinkState::Failed, LinkAction::Abort),
        },
        LinkState::Stopping => match event {
            LinkEvent::DisconnectDone { ok } => if ok {
                (LinkState::Stopped, LinkAction::Exit { code: 0 })
            } else {
                (LinkState::Failed, LinkAction::Abort)
            },
            _ => (LinkState::Failed, LinkAction::Abort),
        },
        LinkState::Stopped => (LinkState::Stopped, LinkAction::Exit { code: 0 }),
        LinkState::Failed => (LinkState::Failed, LinkAction::Exit { code: 1 }),
    }
}

/// The state after a run of events.
pub open spec fn state_after(
    policy: RetryPolicy,
    state: LinkState,
    events: Seq<LinkEvent>,
) -> LinkState
    decreases events.len(),
{
    if events.len() == 0 {
        state
    } else {
        next(policy, state_after(policy, state, events.drop_last()), events.last()).0
    }
}

/// A run of so many failed reconnect attempts.
pub open spec fn failures(count: nat) -> Seq<LinkEvent> {
    Seq::new(count, |i: int| LinkEvent::ReconnectDone { ok: false })
}

/// The policy of the ingestion loop: poll cycles of one second, and twelve
/// reconnect attempts five seconds apart.
pub fn default_policy() -> (policy: RetryPolicy)
    ensures
        policy == (RetryPolicy { max_attempts: 12, delay_secs: 5, poll_secs: 1 }),
{
    RetryPolicy { max_attempts: 12, delay_secs: 5, poll_secs: 1 }
}

/// The state in which the loop begins.
pub fn initial_state() -> (state: LinkState)
    ensures
        state == LinkState::Disconnected,
{
    LinkState::Disconnected
}

/// Whether the loop has ended in this state.
pub fn finished(state: LinkState) -> (r: bool)
    ensures
        r == is_final(state),
{
    match state {
        LinkState::Stopped => true,
        LinkState::Failed => true,
        _ => false,
    }
}

/// Starts a round of reconnect attempts.
fn start_round(policy: &RetryPolicy) -> (r: (LinkState, LinkAction))
    ensures
        r == begin_round(*policy),
{
    if policy.max_attempts == 0 {
        (
            LinkState::TerminallyDisconnected,
            LinkAction::Poll { timeout_secs: policy.poll_secs },
        )
    } else {
        (
            LinkState::Reconnecting { failed: 0 },
            LinkAction::Reconnect { delay_secs: policy.delay_secs },
        )
    }
}

/// Decides what follows an event while the loop waits for messages.
fn step_waiting(policy: &RetryPolicy, state: LinkState, event: LinkEvent) -> (r: (
    LinkState,
    LinkAction,
))
    ensures
        r == next_waiting(*policy, state, event),
{
    match event {
        LinkEvent::Message { topic, payload } => (
            LinkState::Storing,
            LinkAction::Store { topic, payload },
        ),
        LinkEvent::Empty => (state, LinkAction::Poll { timeout_secs: policy.poll_secs }),
        LinkEvent::Idle { connected } => if connected {
            (LinkState::Connected, LinkAction::Poll { timeout_secs: policy.poll_secs })
        } else {
            start_round(policy)
        },
        LinkEvent::ShutdownRequested { connected } => if connected {
            (LinkState::Stopping, LinkAction::Disconnect)
        } else {
            (LinkState::Stopped, LinkAction::Exit { code: 0 })
        },
        _ => (LinkState::Failed, LinkAction::Abort),
    }
}

/// Decides the state and the action that follow an event.
pub fn step(policy: &RetryPolicy, state: LinkState, event: LinkEvent) -> (r: (
    LinkState,
    LinkAction,
))
    ensures
        r == next(*policy, state, event),
{
    match state {
        LinkState::Disconnected => match event {
            LinkEvent::Started => (LinkState::Connecting, LinkAction::Connect),
            _ => (LinkState::Failed, LinkAction::Abort),
        },
        LinkState::Connecting => match event {
            LinkEvent::ConnectDone { ok: true } => (LinkState::Subscribing, LinkAction::Subscribe),
            LinkEvent::ConnectDone { ok: false } => (
                LinkState::Failed,
                LinkAction::Exit { code: 1 },
            ),
            _ => (LinkState::Failed, LinkAction::Abort),
        },
        LinkState::Subscribing => match event {
            LinkEvent::SubscribeDone { ok: true } => (
                LinkState::Connected,
                LinkAction::Poll { timeout_secs: policy.poll_secs },
            ),
            LinkEvent::SubscribeDone { ok: false } => (
                LinkState::Failed,
                LinkAction::Exit { code: 1 },
            ),
            _ => (LinkState::Failed, LinkAction::Abort),
        },
        LinkState::Connected => step_waiting(policy, state, event),
        LinkState::TerminallyDisconnected => step_waiting(policy, state, event),
        LinkState::Storing => match event {
            LinkEvent::StoreDone { ok: true } => (
                LinkState::Connected,
                LinkAction::Poll { timeout_secs: policy.poll_secs },
            ),
            _ => (LinkState::Failed, LinkAction::Abort),
        },
        LinkState::Reconnecting { failed } => match event {
            LinkEvent::ReconnectDone { ok: true } => (
                LinkState::Subscribing,
                LinkAction::Subscribe,
            ),
            LinkEvent::ReconnectDone { ok: false } => {
                if failed < policy.max_attempts && failed + 1 < policy.max_attempts {
                    (
                        LinkState::Reconnecting { failed: failed + 1 },
                        LinkAction::Reconnect { delay_secs: policy.delay_secs },
                    )
                } else {
                    (
                        LinkState::TerminallyDisconnected,
                        LinkAction::Poll { timeout_secs: policy.poll_secs },
                    )
                }
            },
            _ => (LinkState::Failed, LinkAction::Abort),
        },
        LinkState::Stopping => match event {
            LinkEvent::DisconnectDone { ok: true } => (
                LinkState::Stopped,
                LinkAction::Exit { code: 0 },
            ),
            _ => (LinkState::Failed, LinkAction::Abort),
        },
        LinkState::Stopped => (LinkState::Stopped, LinkAction::Exit { code: 0 }),
        LinkState::Failed => (LinkState::Failed, LinkAction::Exit { code: 1 }),
    }
}

/// Law of bounded retry. When an idle cycle finds the connection lost and
/// every attempt of the round fails, the loop ends the round in the state
/// `TerminallyDisconnected`, which keeps polling: it has neither stopped nor
/// failed. Before the round is used up the loop is still reconnecting.
pub proof fn lemma_round_is_bounded(policy: RetryPolicy, state: LinkState, attempts: nat)
    requires
        is_waiting(state),
        attempts <= policy.max_attempts,
    ensures
        ({
            let begun = next(policy, state, LinkEvent::Idle { connected: false }).0;
            let after = state_after(policy, begun, failures(attempts));
            &&& attempts == policy.max_attempts ==> after == LinkState::TerminallyDisconnected
            &&& attempts < policy.max_attempts ==> after == (LinkState::Reconnecting {
                failed: attempts as u32,
            })
            &&& !is_final(after)
        }),
    decreases attempts,
{
    let begun = next(policy, state, LinkEvent::Idle { connected: false }).0;
    if attempts > 0 {
        lemma_round_is_bounded(policy, state, (attempts - 1) as nat);
        assert(failures(attempts).drop_last() =~= failures((attempts - 1) as nat));
        assert(failures(attempts).last() == LinkEvent::ReconnectDone { ok: false });
    }
}

/// Law of recovery. After a round was used up, the next idle cycle without
/// connection starts a new attempt; when it succeeds, the loop subscribes
/// again, and only the success of that subscription brings it back to
/// polling for messages.
pub proof fn lemma_recovery(policy: RetryPolicy)
    requires
        policy.max_attempts > 0,
    ensures
        next(policy, LinkState::TerminallyDisconnected, LinkEvent::Idle { connected: false }) == (
            LinkState::Reconnecting { failed: 0 },
            LinkAction::Reconnect { delay_secs: policy.delay_secs },
        ),
        next(
            policy,
            LinkState::Reconnecting { failed: 0 },
            LinkEvent::ReconnectDone { ok: true },
        ) == (LinkState::Subscribing, LinkAction::Subscribe),
        forall|event: LinkEvent|
            (#[trigger] next(policy, LinkState::Subscribing, event)).1 is Poll ==> event
                == (LinkEvent::SubscribeDone { ok: true }),
        forall|state: LinkState, event: LinkEvent|
            (#[trigger] next(policy, state, event)).1 is Store ==> is_waiting(state)
                && event is Message,
{
}

} // verus!
