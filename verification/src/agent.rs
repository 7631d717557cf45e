//! The privileged agent: a service that processes events for callers without
//! privilege, one connection at a time.
//!
//! The agent is a state machine. Whoever runs it feeds it what happens on
//! the socket and does what it answers. In each state the agent looks at one
//! thing only: for a new connection while it is idle, for the next request
//! of the connection that it serves, for the end of the work in progress.
//! Nothing else is seen until the agent is back in a state that looks for
//! it, so no two connections are ever served at once.

use crate::error::{Error, ErrorView, message_of};
use crate::plan::result_view;
use vstd::prelude::*;

verus! {

/// Where the agent stands.
#[derive(Clone, Copy, Debug, PartialEq, Eq, Structural)]
pub enum AgentState {
    /// No connection is open: the agent waits for one.
    Idle,
    /// The connection `conn` is open: the agent waits for its next request.
    Serving { conn: u64 },
    /// A request of the connection `conn` is being processed.
    Processing { conn: u64 },
}

/// What happens to the agent.
#[derive(Debug, PartialEq, Eq)]
pub enum AgentEvent {
    /// The connection `conn` has been made.
    Connected { conn: u64 },
    /// A request has arrived on the connection `conn`.
    Requested { conn: u64 },
    /// The request in progress has been processed, with this result.
    Processed { result: Result<(), Error> },
    /// The connection `conn` has ended, in order or by a failure of the
    /// channel.
    Closed { conn: u64 },
}

/// What an `AgentEvent` holds, as mathematical values.
pub enum AgentEventView {
    Connected { conn: u64 },
    Requested { conn: u64 },
    Processed { result: Result<(), ErrorView> },
    Closed { conn: u64 },
}

impl View for AgentEvent {
    type V = AgentEventView;

    open spec fn view(&self) -> AgentEventView {
        match self {
            AgentEvent::Connected { conn } => AgentEventView::Connected { conn: *conn },
            AgentEvent::Requested { conn } => AgentEventView::Requested { conn: *conn },
            AgentEvent::Processed { result } => AgentEventView::Processed {
                result: result_view(*result),
            },
            AgentEvent::Closed { conn } => AgentEventView::Closed { conn: *conn },
        }
    }
}

/// What the agent wants done.
#[derive(Debug, PartialEq, Eq)]
pub enum AgentAction {
    /// Wait for a connection and accept it.
    Accept,
    /// Wait for the next request of the connection `conn`.
    Receive { conn: u64 },
    /// Process the request that has arrived on the connection `conn`.
    Process { conn: u64 },
    /// Send `reply` on the connection `conn`, then wait for its next request.
    Respond { conn: u64, reply: Result<(), String> },
    /// Nothing: the event is not one that the agent looks for in its present
    /// state, and has to wait until it is.
    Wait,
}

/// What an `AgentAction` holds, as mathematical values.
pub enum AgentActionView {
    Accept,
    Receive { conn: u64 },
    Process { conn: u64 },
    Respond { conn: u64, reply: Result<(), Seq<char>> },
    Wait,
}

/// The view of a reply.
pub open spec fn reply_view(reply: Result<(), String>) -> Result<(), Seq<char>> {
    match reply {
        Ok(_) => Ok(()),
        Err(text) => Err(text@),
    }
}

impl View for AgentAction {
    type V = AgentActionView;

    open spec fn view(&self) -> AgentActionView {
        match self {
            AgentAction::Accept => AgentActionView::Accept,
            AgentAction::Receive { conn } => AgentActionView::Receive { conn: *conn },
            AgentAction::Process { conn } => AgentActionView::Process { conn: *conn },
            AgentAction::Respond { conn, reply } => AgentActionView::Respond {
                conn: *conn,
                reply: reply_view(*reply),
            },
            AgentAction::Wait => AgentActionView::Wait,
        }
    }
}

impl AgentState {
    /// The connection that the agent is busy with.
    pub open spec fn connection(self) -> Option<u64> {
        match self {
            AgentState::Idle => None,
            AgentState::Serving { conn } => Some(conn),
            AgentState::Processing { conn } => Some(conn),
        }
    }
}

impl AgentActionView {
    /// The connection on whose behalf the action is done.
    pub open spec fn serves(self) -> Option<u64> {
        match self {
            AgentActionView::Accept => None,
            AgentActionView::Receive { conn } => Some(conn),
            AgentActionView::Process { conn } => Some(conn),
            AgentActionView::Respond { conn, reply } => Some(conn),
            AgentActionView::Wait => None,
        }
    }
}

/// What a caller is told of a result: of a success that it is one, of a
/// failure its message.
pub open spec fn reply_of(result: Result<(), ErrorView>) -> Result<(), Seq<char>> {
    match result {
        Ok(_) => Ok(()),
        Err(e) => Err(message_of(e)),
    }
}

/// The agent's next state and its action, for a state and an event.
pub open spec fn react(state: AgentState, event: AgentEventView) -> (AgentState, AgentActionView) {
    match (state, event) {
        (AgentState::Idle, AgentEventView::Connected { conn }) => (
            AgentState::Serving { conn },
            AgentActionView::Receive { conn },
        ),
        (AgentState::Serving { conn }, AgentEventView::Requested { conn: from }) if from == conn => (
            AgentState::Processing { conn },
            AgentActionView::Process { conn },
        ),
        (AgentState::Serving { conn }, AgentEventView::Closed { conn: ended }) if ended == conn => (
            AgentState::Idle,
            AgentActionView::Accept,
        ),
        (AgentState::Processing { conn }, AgentEventView::Processed { result }) => (
            AgentState::Serving { conn },
            AgentActionView::Respond { conn, reply: reply_of(result) },
        ),
        _ => (state, AgentActionView::Wait),
    }
}

/// The reply that reports `result` to the caller.
pub fn reply(result: Result<(), Error>) -> (reply: Result<(), String>)
    ensures
        reply_view(reply) == reply_of(result_view(result)),
{
    match result {
        Ok(_) => Ok(()),
        Err(e) => Err(e.message()),
    }
}

/// The agent.
#[derive(Debug, PartialEq, Eq)]
pub struct Agent {
    state: AgentState,
}

impl Agent {
    /// Where the agent stands.
    pub closed spec fn state(&self) -> AgentState {
        self.state
    }

    /// An agent that has no connection yet. The first thing to do for it is
    /// to accept one.
    pub fn new() -> (agent: Agent)
        ensures
            agent.state() == AgentState::Idle,
    {
        Agent { state: AgentState::Idle }
    }

    /// Where the agent stands.
    pub fn current(&self) -> (state: AgentState)
        ensures
            state == self.state(),
    {
        self.state
    }

    /// Takes an event and says what to do.
    pub fn step(&mut self, event: AgentEvent) -> (action: AgentAction)
        ensures
            (final(self).state(), action@) == react(old(self).state(), event@),
    {
        match (self.state, event) {
            (AgentState::Idle, AgentEvent::Connected { conn }) => {
                self.state = AgentState::Serving { conn };
                AgentAction::Receive { conn }
            },
            (AgentState::Serving { conn }, AgentEvent::Requested { conn: from }) => {
                if from == conn {
                    self.state = AgentState::Processing { conn };
                    AgentAction::Process { conn }
                } else {
                    AgentAction::Wait
                }
            },
            (AgentState::Serving { conn }, AgentEvent::Closed { conn: ended }) => {
                if ended == conn {
                    self.state = AgentState::Idle;
                    AgentAction::Accept
                } else {
                    AgentAction::Wait
                }
            },
            (AgentState::Processing { conn }, AgentEvent::Processed { result }) => {
                self.state = AgentState::Serving { conn };
                AgentAction::Respond { conn, reply: reply(result) }
            },
            _ => AgentAction::Wait,
        }
    }
}

/// Where the agent stands after `events`, when it stood at `start` before
/// them.
pub open spec fn state_after(start: AgentState, events: Seq<AgentEventView>) -> AgentState
    decreases events.len(),
{
    if events.len() == 0 {
        start
    } else {
        react(state_after(start, events.drop_last()), events.last()).0
    }
}

/// What the agent does at the event `events[i]`, when it stood at `start`
/// before `events`.
pub open spec fn action_at(start: AgentState, events: Seq<AgentEventView>, i: int) -> AgentActionView
    recommends
        0 <= i < events.len(),
{
    react(state_after(start, events.take(i)), events[i]).1
}

/// An agent that is busy with a connection admits no other: the new
/// connection waits, and the agent stays where it is.
pub proof fn law_busy_agent_admits_nobody(state: AgentState, conn: u64)
    requires
        state != AgentState::Idle,
    ensures
        react(state, (AgentEventView::Connected { conn })) == (state, AgentActionView::Wait),
{
}

/// Whatever the agent does for a connection, it does for the one that it is
/// busy with afterwards; and an agent that is busy with a connection stays
/// with it until that connection ends.
pub proof fn law_one_connection_at_a_time(state: AgentState, event: AgentEventView)
    ensures
        react(state, event).1.serves() matches Some(conn) ==> react(state, event).0.connection()
            == Some(conn),
        state.connection() matches Some(conn) ==> react(state, event).0.connection() == Some(conn)
            || (react(state, event).0 == AgentState::Idle && state == (AgentState::Serving { conn })
            && event == (AgentEventView::Closed { conn })),
        react(state, event).1 is Accept <==> state != AgentState::Idle && react(state, event).0
            == AgentState::Idle,
{
}

/// While the connection that the agent is busy with has not ended, nothing
/// is done for any other connection, whatever happens and in whatever order:
/// no request of another connection is received, processed or answered.
pub proof fn law_others_wait_until_the_end(
    start: AgentState,
    events: Seq<AgentEventView>,
    conn: u64,
)
    requires
        start.connection() == Some(conn),
        forall|i: int| 0 <= i < events.len() ==> #[trigger] events[i] != (AgentEventView::Closed {
            conn,
        }),
    ensures
        state_after(start, events).connection() == Some(conn),
        forall|i: int|
            0 <= i < events.len() ==> (#[trigger] action_at(start, events, i)).serves() is None
                || action_at(start, events, i).serves() == Some(conn),
        forall|i: int| 0 <= i < events.len() ==> !(#[trigger] action_at(start, events, i) is Accept),
    decreases events.len(),
{
    if events.len() > 0 {
        let before = events.drop_last();
        law_others_wait_until_the_end(start, before, conn);
        law_one_connection_at_a_time(state_after(start, before), events.last());
        assert forall|i: int| 0 <= i < events.len() implies ((#[trigger] action_at(
            start,
            events,
            i,
        )).serves() is None || action_at(start, events, i).serves() == Some(conn)) && !(action_at(
            start,
            events,
            i,
        ) is Accept) by {
            if i < before.len() {
                assert(events.take(i) =~= before.take(i));
                assert(action_at(start, events, i) == action_at(start, before, i));
            } else {
                assert(events.take(i) =~= before);
            }
        }
    }
}

/// A request that fails is answered with the failure's message, and the
/// agent goes on as after any other request: it waits for the next request
/// of the same connection, and when that connection has ended it accepts
/// the next one and serves it.
pub proof fn law_failure_is_reported(conn: u64, failure: ErrorView, next: u64)
    ensures
        react(
            (AgentState::Processing { conn }),
            (AgentEventView::Processed { result: Err(failure) }),
        ) == (
            (AgentState::Serving { conn }),
            (AgentActionView::Respond { conn, reply: Err(message_of(failure)) }),
        ),
        react((AgentState::Serving { conn }), (AgentEventView::Requested { conn })) == (
            (AgentState::Processing { conn }),
            (AgentActionView::Process { conn }),
        ),
        react((AgentState::Serving { conn }), (AgentEventView::Closed { conn })) == (
            AgentState::Idle,
            AgentActionView::Accept,
        ),
        react(AgentState::Idle, (AgentEventView::Connected { conn: next })) == (
            (AgentState::Serving { conn: next }),
            (AgentActionView::Receive { conn: next }),
        ),
{
}

/// The agent has no last state: wherever it stands, there is an event that
/// it looks for and acts on.
pub proof fn law_agent_never_stops(state: AgentState)
    ensures
        exists|event: AgentEventView| !(#[trigger] react(state, event).1 is Wait),
{
    let event = match state {
        AgentState::Idle => AgentEventView::Connected { conn: 0 },
        AgentState::Serving { conn } => AgentEventView::Requested { conn },
        AgentState::Processing { conn } => AgentEventView::Processed { result: Ok(()) },
    };
    assert(!(react(state, event).1 is Wait));
}

/// A request is processed only while none is in progress, and a reply is
/// sent only for the request in progress: between two requests that are
/// processed lies the reply to the first.
pub proof fn law_one_request_in_flight(state: AgentState, event: AgentEventView)
    ensures
        react(state, event).1 is Process ==> state is Serving && react(state, event).0
            is Processing,
        react(state, event).1 is Respond ==> state is Processing && react(state, event).0
            is Serving,
        state is Processing ==> !(react(state, event).1 is Process),
{
}

} // verus!
