//! Decisions of the sample reader: when to connect, read, deliver, back off
//! and stop. The caller performs each action (connect to the socket, wait
//! for a line racing the shutdown flag, push on the channel, sleep racing the
//! flag) and reports what happened as the next event.

use vstd::prelude::*;

verus! {

/// One decoded record: amplitude in thousandths of full scale, not yet
/// clamped, and whether recording is on.
#[derive(Clone, Copy, Debug, PartialEq, Eq, Structural)]
pub struct AmplitudeMessage {
    pub amplitude: i64,
    pub recording: bool,
}

/// How long the reader waits before reconnecting after a failure.
pub const BACKOFF_MS: u64 = 2000;

/// Result of pushing a sample on the output channel. The channel is bounded
/// and the reader never waits on it: when it is full the sample is dropped.
#[derive(Clone, Copy, Debug, PartialEq, Eq, Structural)]
pub enum SendOutcome {
    Delivered,
    Full,
    Closed,
}

/// What the caller observed after performing the pending action.
#[derive(Clone, Copy, Debug, PartialEq, Eq)]
pub enum ClientEvent {
    /// The shutdown flag, as read at a suspension point.
    Shutdown(bool),
    Connected,
    ConnectFailed,
    /// One line of input: the decoded sample, or `None` when malformed.
    Record(Option<AmplitudeMessage>),
    EndOfStream,
    ReadFailed,
    Sent(SendOutcome),
    BackoffElapsed,
}

#[derive(Clone, Copy, Debug, PartialEq, Eq)]
pub enum ClientState {
    /// About to (re)connect once the shutdown flag has been checked.
    Starting,
    Connecting,
    Reading,
    Delivering(AmplitudeMessage),
    BackingOff,
    Finished,
}

/// What the caller must do next.
#[derive(Clone, Copy, Debug, PartialEq, Eq)]
pub enum ClientAction {
    CheckShutdown,
    Connect,
    /// Wait for the next line, racing the shutdown flag.
    ReadRecord,
    Send(AmplitudeMessage),
    /// Sleep `BACKOFF_MS`, racing the shutdown flag.
    WaitBackoff,
    /// Return successfully.
    Stop,
}

/// The action each state waits on.
pub open spec fn action_of(s: ClientState) -> ClientAction {
    match s {
        ClientState::Starting => ClientAction::CheckShutdown,
        ClientState::Connecting => ClientAction::Connect,
        ClientState::Reading => ClientAction::ReadRecord,
        ClientState::Delivering(m) => ClientAction::Send(m),
        ClientState::BackingOff => ClientAction::WaitBackoff,
        ClientState::Finished => ClientAction::Stop,
    }
}

/// The transition table. A raised shutdown flag ends the client from any
/// state; an event that the state does not wait for changes nothing.
pub open spec fn next_state(s: ClientState, e: ClientEvent) -> ClientState {
    match (s, e) {
        (ClientState::Finished, _) => ClientState::Finished,
        (_, ClientEvent::Shutdown(true)) => ClientState::Finished,
        (ClientState::Starting, ClientEvent::Shutdown(false)) => ClientState::Connecting,
        (ClientState::Connecting, ClientEvent::Connected) => ClientState::Reading,
        (ClientState::Connecting, ClientEvent::ConnectFailed) => ClientState::BackingOff,
        (ClientState::Reading, ClientEvent::Shutdown(false)) => ClientState::Reading,
        (ClientState::Reading, ClientEvent::Record(None)) => ClientState::Reading,
        (ClientState::Reading, ClientEvent::Record(Some(m))) => ClientState::Delivering(m),
        (ClientState::Reading, ClientEvent::EndOfStream) => ClientState::Starting,
        (ClientState::Reading, ClientEvent::ReadFailed) => ClientState::BackingOff,
        (ClientState::Delivering(_), ClientEvent::Sent(SendOutcome::Closed)) => ClientState::Finished,
        (ClientState::Delivering(_), ClientEvent::Sent(_)) => ClientState::Reading,
        (ClientState::BackingOff, ClientEvent::BackoffElapsed) => ClientState::Starting,
        (ClientState::BackingOff, ClientEvent::Shutdown(false)) => ClientState::Starting,
        _ => s,
    }
}

/// The state after each event of `events`, in order.
pub open spec fn run_events(s: ClientState, events: Seq<ClientEvent>) -> ClientState
    decreases events.len(),
{
    if events.len() == 0 {
        s
    } else {
        next_state(run_events(s, events.drop_last()), events.last())
    }
}

/// Whether some prefix of `events` leads from `s` to a state that connects.
pub open spec fn ever_connects(s: ClientState, events: Seq<ClientEvent>) -> bool {
    exists|k: int|
        0 <= k <= events.len() && action_of(#[trigger] run_events(s, events.subrange(0, k)))
            == ClientAction::Connect
}

impl ClientState {
    /// The state a fresh client starts in.
    pub fn new() -> (r: ClientState)
        ensures
            r == ClientState::Starting,
    {
        ClientState::Starting
    }

    pub fn action(&self) -> (r: ClientAction)
        ensures
            r == action_of(*self),
    {
        match self {
            ClientState::Starting => ClientAction::CheckShutdown,
            ClientState::Connecting => ClientAction::Connect,
            ClientState::Reading => ClientAction::ReadRecord,
            ClientState::Delivering(m) => ClientAction::Send(*m),
            ClientState::BackingOff => ClientAction::WaitBackoff,
            ClientState::Finished => ClientAction::Stop,
        }
    }

    pub fn step(self, event: ClientEvent) -> (r: ClientState)
        ensures
            r == next_state(self, event),
    {
        match (self, event) {
            (ClientState::Finished, _) => ClientState::Finished,
            (_, ClientEvent::Shutdown(true)) => ClientState::Finished,
            (ClientState::Starting, ClientEvent::Shutdown(false)) => ClientState::Connecting,
            (ClientState::Connecting, ClientEvent::Connected) => ClientState::Reading,
            (ClientState::Connecting, ClientEvent::ConnectFailed) => ClientState::BackingOff,
            (ClientState::Reading, ClientEvent::Shutdown(false)) => ClientState::Reading,
            (ClientState::Reading, ClientEvent::Record(None)) => ClientState::Reading,
            (ClientState::Reading, ClientEvent::Record(Some(m))) => ClientState::Delivering(m),
            (ClientState::Reading, ClientEvent::EndOfStream) => ClientState::Starting,
            (ClientState::Reading, ClientEvent::ReadFailed) => ClientState::BackingOff,
            (ClientState::Delivering(_), ClientEvent::Sent(SendOutcome::Closed)) => {
                ClientState::Finished
            },
            (ClientState::Delivering(_), ClientEvent::Sent(_)) => ClientState::Reading,
            (ClientState::BackingOff, ClientEvent::BackoffElapsed) => ClientState::Starting,
            (ClientState::BackingOff, ClientEvent::Shutdown(false)) => ClientState::Starting,
            (s, _) => s,
        }
    }
}

/// A finished client stays finished, whatever follows.
proof fn lemma_finished_stays(events: Seq<ClientEvent>)
    ensures
        run_events(ClientState::Finished, events) == ClientState::Finished,
    decreases events.len(),
{
    if events.len() > 0 {
        lemma_finished_stays(events.drop_last());
    }
}

/// A finished client stays finished and never connects, whatever follows.
pub proof fn lemma_finished_is_final(events: Seq<ClientEvent>)
    ensures
        run_events(ClientState::Finished, events) == ClientState::Finished,
        !ever_connects(ClientState::Finished, events),
{
    lemma_finished_stays(events);
    assert forall|k: int| 0 <= k <= events.len() implies #[trigger] run_events(
        ClientState::Finished,
        events.subrange(0, k),
    ) == ClientState::Finished by {
        lemma_finished_stays(events.subrange(0, k));
    }
}

/// A malformed line does not end reading: the reader goes on waiting for
/// lines, and a valid line that follows is still delivered.
pub proof fn lemma_malformed_line_is_skipped(m: AmplitudeMessage)
    ensures
        next_state(ClientState::Reading, ClientEvent::Record(None)) == ClientState::Reading,
        action_of(next_state(ClientState::Reading, ClientEvent::Record(None)))
            == ClientAction::ReadRecord,
        run_events(
            ClientState::Reading,
            seq![ClientEvent::Record(None), ClientEvent::Record(Some(m))],
        ) == ClientState::Delivering(m),
        action_of(
            run_events(
                ClientState::Reading,
                seq![ClientEvent::Record(None), ClientEvent::Record(Some(m))],
            ),
        ) == ClientAction::Send(m),
{
    let evs = seq![ClientEvent::Record(None), ClientEvent::Record(Some(m))];
    assert(evs.drop_last() =~= seq![ClientEvent::Record(None)]);
    assert(evs.drop_last().drop_last() =~= Seq::<ClientEvent>::empty());
    assert(run_events(ClientState::Reading, evs.drop_last().drop_last()) == ClientState::Reading);
    assert(run_events(ClientState::Reading, evs.drop_last()) == ClientState::Reading);
}

/// Once a send finds the channel closed, the client stops at once and never
/// connects again, whatever events follow.
pub proof fn lemma_closed_channel_stops(m: AmplitudeMessage, later: Seq<ClientEvent>)
    ensures
        next_state(ClientState::Delivering(m), ClientEvent::Sent(SendOutcome::Closed))
            == ClientState::Finished,
        action_of(next_state(ClientState::Delivering(m), ClientEvent::Sent(SendOutcome::Closed)))
            == ClientAction::Stop,
        run_events(ClientState::Delivering(m), seq![ClientEvent::Sent(SendOutcome::Closed)]
            + later) == ClientState::Finished,
        !ever_connects(next_state(ClientState::Delivering(m), ClientEvent::Sent(SendOutcome::Closed)), later),
{
    lemma_finished_is_final(later);
    lemma_run_split(ClientState::Delivering(m), seq![ClientEvent::Sent(SendOutcome::Closed)], later);
    let first = seq![ClientEvent::Sent(SendOutcome::Closed)];
    assert(first.drop_last() =~= Seq::<ClientEvent>::empty());
    assert(run_events(ClientState::Delivering(m), first.drop_last()) == ClientState::Delivering(m));
    assert(run_events(ClientState::Delivering(m), first) == ClientState::Finished);
}

/// A raised shutdown flag, observed in any state (during a backoff wait in
/// particular), ends the client at once; it never connects afterwards.
pub proof fn lemma_shutdown_stops(s: ClientState, later: Seq<ClientEvent>)
    ensures
        next_state(s, ClientEvent::Shutdown(true)) == ClientState::Finished,
        action_of(next_state(s, ClientEvent::Shutdown(true))) == ClientAction::Stop,
        !ever_connects(next_state(s, ClientEvent::Shutdown(true)), later),
{
    lemma_finished_is_final(later);
}

/// Running two sequences of events one after the other.
proof fn lemma_run_split(s: ClientState, a: Seq<ClientEvent>, b: Seq<ClientEvent>)
    ensures
        run_events(s, a + b) == run_events(run_events(s, a), b),
    decreases b.len(),
{
    if b.len() == 0 {
        assert(a + b =~= a);
    } else {
        lemma_run_split(s, a, b.drop_last());
        assert((a + b).drop_last() =~= a + b.drop_last());
        assert((a + b).last() == b.last());
    }
}

} // verus!
