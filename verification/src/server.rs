//! The service loops: what each does on what happens to it.
//!
//! A loop serves one transport. Its driver performs the outside work (binding,
//! accepting, receiving, writing) and reports each outcome as an `Event`;
//! `step` answers with the loop's next state and what the driver is to do.

use vstd::prelude::*;

verus! {

/// The two transports on which the service answers.
#[derive(Debug, PartialEq, Eq, Structural, Clone, Copy)]
pub enum Transport {
    Tcp,
    Udp,
}

/// The outside operations of a loop.
#[derive(Debug, PartialEq, Eq, Structural, Clone, Copy)]
pub enum Operation {
    /// Binding the socket.
    Bind,
    /// Taking a request in: accepting a connection, receiving a datagram.
    Intake,
    /// Writing the reply back.
    Reply,
}

/// The state of a loop.
#[derive(Debug, PartialEq, Eq, Structural, Clone, Copy)]
pub enum LoopState {
    /// The loop binds its socket and serves requests.
    Running,
    /// The socket could not be bound; the loop has ended for good.
    Terminated,
}

/// An outcome that the driver reports to its loop.
#[derive(Debug, PartialEq, Eq, Structural, Clone, Copy)]
pub enum Event {
    /// The socket is bound.
    Bound,
    /// The socket could not be bound.
    BindFailed,
    /// A connection was accepted, or a datagram received.
    Request,
    /// Accepting or receiving failed.
    IntakeFailed,
    /// The reply was written.
    ReplySent,
    /// Writing the reply failed.
    ReplyFailed,
}

/// What the driver is to do next.
#[derive(Debug, PartialEq, Eq, Structural, Clone, Copy)]
pub enum Action {
    /// Wait for the next request.
    Wait,
    /// Write one reply to the requester, then release the exchange.
    Serve,
    /// Report that the operation failed, then wait for the next request.
    Report(Operation),
    /// Report that binding failed and end the process with a failure.
    Abort,
}

/// The state that follows `state` on `event`. Only a failure to bind ends a
/// running loop, and an ended loop stays so.
pub open spec fn next_state(state: LoopState, event: Event) -> LoopState {
    match state {
        LoopState::Terminated => LoopState::Terminated,
        LoopState::Running => match event {
            Event::BindFailed => LoopState::Terminated,
            _ => LoopState::Running,
        },
    }
}

/// What the driver is to do on `event` in `state`.
pub open spec fn action_for(state: LoopState, event: Event) -> Action {
    match state {
        LoopState::Terminated => Action::Abort,
        LoopState::Running => match event {
            Event::Bound => Action::Wait,
            Event::BindFailed => Action::Abort,
            Event::Request => Action::Serve,
            Event::IntakeFailed => Action::Report(Operation::Intake),
            Event::ReplySent => Action::Wait,
            Event::ReplyFailed => Action::Report(Operation::Reply),
        },
    }
}

/// Takes one event: the loop's next state, and what its driver is to do.
pub fn step(state: LoopState, event: Event) -> (next: (LoopState, Action))
    ensures
        next.0 == next_state(state, event),
        next.1 == action_for(state, event),
{
    match state {
        LoopState::Terminated => (LoopState::Terminated, Action::Abort),
        LoopState::Running => match event {
            Event::Bound => (LoopState::Running, Action::Wait),
            Event::BindFailed => (LoopState::Terminated, Action::Abort),
            Event::Request => (LoopState::Running, Action::Serve),
            Event::IntakeFailed => (LoopState::Running, Action::Report(Operation::Intake)),
            Event::ReplySent => (LoopState::Running, Action::Wait),
            Event::ReplyFailed => (LoopState::Running, Action::Report(Operation::Reply)),
        },
    }
}

/// The words under which a failure of `operation` on `transport` is reported.
pub open spec fn report_label(transport: Transport, operation: Operation) -> Seq<char> {
    match (transport, operation) {
        (Transport::Tcp, Operation::Bind) => "TCP bind"@,
        (Transport::Tcp, Operation::Intake) => "TCP accept"@,
        (Transport::Tcp, Operation::Reply) => "TCP request"@,
        (Transport::Udp, Operation::Bind) => "UDP bind"@,
        (Transport::Udp, Operation::Intake) => "UDP inbound"@,
        (Transport::Udp, Operation::Reply) => "UDP outbound"@,
    }
}

/// Names the transport and the operation of a failure for the diagnostics.
pub fn label(transport: Transport, operation: Operation) -> (words: &'static str)
    ensures
        words@ == report_label(transport, operation),
{
    match (transport, operation) {
        (Transport::Tcp, Operation::Bind) => "TCP bind",
        (Transport::Tcp, Operation::Intake) => "TCP accept",
        (Transport::Tcp, Operation::Reply) => "TCP request",
        (Transport::Udp, Operation::Bind) => "UDP bind",
        (Transport::Udp, Operation::Intake) => "UDP inbound",
        (Transport::Udp, Operation::Reply) => "UDP outbound",
    }
}

/// The transport whose loop has ended, the connection-oriented one first, or
/// `None` while both loops run.
pub open spec fn ended_transport(tcp: LoopState, udp: LoopState) -> Option<Transport> {
    if tcp == LoopState::Terminated {
        Some(Transport::Tcp)
    } else if udp == LoopState::Terminated {
        Some(Transport::Udp)
    } else {
        None
    }
}

/// Looks over both loops: the service runs only while both do. Names the
/// transport whose loop has ended, which is fatal to the whole service.
pub fn supervise(tcp: LoopState, udp: LoopState) -> (ended: Option<Transport>)
    ensures
        ended == ended_transport(tcp, udp),
{
    match tcp {
        LoopState::Terminated => Some(Transport::Tcp),
        LoopState::Running => match udp {
            LoopState::Terminated => Some(Transport::Udp),
            LoopState::Running => None,
        },
    }
}

/// The state of a loop that started in `state` and took `events` in turn.
pub open spec fn run(state: LoopState, events: Seq<Event>) -> LoopState
    decreases events.len(),
{
    if events.len() == 0 {
        state
    } else {
        next_state(run(state, events.drop_last()), events.last())
    }
}

/// How many replies a loop that started in `state` had its driver write
/// while it took `events` in turn.
pub open spec fn replies(state: LoopState, events: Seq<Event>) -> nat
    decreases events.len(),
{
    if events.len() == 0 {
        0
    } else {
        let before = events.drop_last();
        let served: nat = if action_for(run(state, before), events.last()) == Action::Serve {
            1
        } else {
            0
        };
        replies(state, before) + served
    }
}

/// How many requests arrived among `events`.
pub open spec fn requests(events: Seq<Event>) -> nat
    decreases events.len(),
{
    if events.len() == 0 {
        0
    } else {
        let arrived: nat = if events.last() == Event::Request {
            1
        } else {
            0
        };
        requests(events.drop_last()) + arrived
    }
}

/// A reply is written for a request that arrives at a running loop, and for
/// nothing else: no failure is answered by a second attempt.
pub proof fn lemma_serve_only_on_request(state: LoopState, event: Event)
    ensures
        action_for(state, event) == Action::Serve <==> state == LoopState::Running && event
            == Event::Request,
{
}

/// A running loop ends on a failure to bind and on nothing else; whatever
/// fails for a single request leaves it running.
pub proof fn lemma_only_bind_failure_ends(event: Event)
    ensures
        next_state(LoopState::Running, event) == LoopState::Terminated <==> event
            == Event::BindFailed,
{
}

/// A loop keeps running through any events among which no bind fails.
pub proof fn lemma_keeps_running(events: Seq<Event>)
    ensures
        run(LoopState::Running, events) == LoopState::Running <==> !events.contains(
            Event::BindFailed,
        ),
    decreases events.len(),
{
    if events.len() > 0 {
        let before = events.drop_last();
        lemma_keeps_running(before);
        if before.contains(Event::BindFailed) {
            let i: int = choose|i: int| 0 <= i < before.len() && before[i] == Event::BindFailed;
            assert(events[i] == Event::BindFailed);
        }
        if events.contains(Event::BindFailed) && events.last() != Event::BindFailed {
            let i: int = choose|i: int| 0 <= i < events.len() && events[i] == Event::BindFailed;
            assert(before[i] == Event::BindFailed);
        }
    }
}

/// While no bind fails, a loop has exactly one reply written for each request
/// that arrives, whatever else fails in between.
pub proof fn lemma_one_reply_per_request(events: Seq<Event>)
    requires
        !events.contains(Event::BindFailed),
    ensures
        replies(LoopState::Running, events) == requests(events),
    decreases events.len(),
{
    if events.len() > 0 {
        let before = events.drop_last();
        if before.contains(Event::BindFailed) {
            let i: int = choose|i: int| 0 <= i < before.len() && before[i] == Event::BindFailed;
            assert(events[i] == Event::BindFailed);
        }
        lemma_one_reply_per_request(before);
        lemma_keeps_running(before);
    }
}

/// A loop that has ended stays ended and has nothing written.
pub proof fn lemma_terminated_is_final(events: Seq<Event>)
    ensures
        run(LoopState::Terminated, events) == LoopState::Terminated,
        replies(LoopState::Terminated, events) == 0,
    decreases events.len(),
{
    if events.len() > 0 {
        lemma_terminated_is_final(events.drop_last());
    }
}

/// A report tells which transport and which operation failed: no two pairs
/// share their words.
pub proof fn lemma_label_identifies(
    transport: Transport,
    operation: Operation,
    other_transport: Transport,
    other_operation: Operation,
)
    requires
        report_label(transport, operation) == report_label(other_transport, other_operation),
    ensures
        transport == other_transport,
        operation == other_operation,
{
    reveal_strlit("TCP bind");
    reveal_strlit("TCP accept");
    reveal_strlit("TCP request");
    reveal_strlit("UDP bind");
    reveal_strlit("UDP inbound");
    reveal_strlit("UDP outbound");
    let a = report_label(transport, operation);
    let b = report_label(other_transport, other_operation);
    assert(a.len() == b.len());
    assert(a[0] == b[0]);
}

/// The service starts with both sockets bound or not at all: after the
/// outcomes of the two binds no loop has ended exactly when neither bind failed.
pub proof fn lemma_no_partial_startup(tcp_bind: Event, udp_bind: Event)
    ensures
        ended_transport(
            next_state(LoopState::Running, tcp_bind),
            next_state(LoopState::Running, udp_bind),
        ) is None <==> tcp_bind != Event::BindFailed && udp_bind != Event::BindFailed,
{
}

/// What fails for single requests is fatal to neither transport: while no
/// bind fails, both loops run on, whatever events each of them takes.
pub proof fn lemma_request_failures_are_not_fatal(tcp_events: Seq<Event>, udp_events: Seq<Event>)
    requires
        !tcp_events.contains(Event::BindFailed),
        !udp_events.contains(Event::BindFailed),
    ensures
        ended_transport(
            run(LoopState::Running, tcp_events),
            run(LoopState::Running, udp_events),
        ) is None,
{
    lemma_keeps_running(tcp_events);
    lemma_keeps_running(udp_events);
}

} // verus!
