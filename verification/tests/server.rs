use qotd::server::{label, step, supervise, Action, Event, LoopState, Operation, Transport};

const EVENTS: [Event; 6] = [
    Event::Bound,
    Event::BindFailed,
    Event::Request,
    Event::IntakeFailed,
    Event::ReplySent,
    Event::ReplyFailed,
];

#[test]
fn a_bound_loop_waits() {
    assert_eq!(step(LoopState::Running, Event::Bound), (LoopState::Running, Action::Wait));
}

#[test]
fn a_failed_bind_ends_the_loop() {
    assert_eq!(step(LoopState::Running, Event::BindFailed), (LoopState::Terminated, Action::Abort));
}

#[test]
fn a_request_is_served() {
    assert_eq!(step(LoopState::Running, Event::Request), (LoopState::Running, Action::Serve));
}

#[test]
fn a_failed_intake_is_reported_and_the_loop_goes_on() {
    assert_eq!(
        step(LoopState::Running, Event::IntakeFailed),
        (LoopState::Running, Action::Report(Operation::Intake))
    );
}

#[test]
fn a_failed_reply_is_reported_and_not_repeated() {
    assert_eq!(
        step(LoopState::Running, Event::ReplyFailed),
        (LoopState::Running, Action::Report(Operation::Reply))
    );
}

#[test]
fn a_sent_reply_leaves_the_loop_waiting() {
    assert_eq!(step(LoopState::Running, Event::ReplySent), (LoopState::Running, Action::Wait));
}

#[test]
fn an_ended_loop_stays_ended() {
    for event in EVENTS {
        assert_eq!(step(LoopState::Terminated, event), (LoopState::Terminated, Action::Abort));
    }
}

#[test]
fn only_a_failed_bind_ends_a_running_loop() {
    for event in EVENTS {
        let (next, _) = step(LoopState::Running, event);
        assert_eq!(next == LoopState::Terminated, event == Event::BindFailed);
    }
}

#[test]
fn one_reply_is_written_per_request() {
    let mut state = LoopState::Running;
    let mut requests = 0;
    let mut replies = 0;
    let mut reports = 0;
    let (next, _) = step(state, Event::Bound);
    state = next;
    for round in 0..100 {
        let arrival = if round % 7 == 3 { Event::IntakeFailed } else { Event::Request };
        if arrival == Event::Request {
            requests += 1;
        }
        let (next, action) = step(state, arrival);
        state = next;
        match action {
            Action::Serve => {
                replies += 1;
                let outcome = if round % 5 == 0 { Event::ReplyFailed } else { Event::ReplySent };
                let (next, action) = step(state, outcome);
                state = next;
                match action {
                    Action::Wait => assert_eq!(outcome, Event::ReplySent),
                    Action::Report(Operation::Reply) => {
                        assert_eq!(outcome, Event::ReplyFailed);
                        reports += 1;
                    },
                    other => panic!("after a reply: {:?}", other),
                }
            },
            Action::Report(Operation::Intake) => {
                assert_eq!(arrival, Event::IntakeFailed);
                reports += 1;
            },
            other => panic!("on an arrival: {:?}", other),
        }
        assert_eq!(state, LoopState::Running);
    }
    assert_eq!(requests, 86);
    assert_eq!(replies, requests);
    // 14 arrivals fail; of the 20 rounds whose reply fails, 3 have no request.
    assert_eq!(reports, 14 + 17);
}

#[test]
fn failures_on_one_transport_leave_the_other_running() {
    let mut tcp = LoopState::Running;
    let udp = LoopState::Running;
    for event in [Event::IntakeFailed, Event::Request, Event::ReplyFailed, Event::IntakeFailed] {
        let (next, _) = step(tcp, event);
        tcp = next;
        assert_eq!(udp, LoopState::Running);
        assert_eq!(step(udp, Event::Request), (LoopState::Running, Action::Serve));
    }
    assert_eq!(tcp, LoopState::Running);
}

#[test]
fn the_service_runs_only_while_both_loops_do() {
    let running = LoopState::Running;
    let ended = LoopState::Terminated;
    assert_eq!(supervise(running, running), None);
    assert_eq!(supervise(ended, running), Some(Transport::Tcp));
    assert_eq!(supervise(running, ended), Some(Transport::Udp));
    assert_eq!(supervise(ended, ended), Some(Transport::Tcp));
}

#[test]
fn the_service_starts_only_with_both_sockets() {
    let after = |bound: bool| {
        let event = if bound { Event::Bound } else { Event::BindFailed };
        step(LoopState::Running, event).0
    };
    assert_eq!(supervise(after(true), after(true)), None);
    assert_eq!(supervise(after(false), after(true)), Some(Transport::Tcp));
    assert_eq!(supervise(after(true), after(false)), Some(Transport::Udp));
    assert_eq!(supervise(after(false), after(false)), Some(Transport::Tcp));
}

#[test]
fn reports_name_transport_and_operation() {
    assert_eq!(label(Transport::Tcp, Operation::Bind), "TCP bind");
    assert_eq!(label(Transport::Tcp, Operation::Intake), "TCP accept");
    assert_eq!(label(Transport::Tcp, Operation::Reply), "TCP request");
    assert_eq!(label(Transport::Udp, Operation::Bind), "UDP bind");
    assert_eq!(label(Transport::Udp, Operation::Intake), "UDP inbound");
    assert_eq!(label(Transport::Udp, Operation::Reply), "UDP outbound");
}

#[test]
fn no_two_reports_share_their_words() {
    let transports = [Transport::Tcp, Transport::Udp];
    let operations = [Operation::Bind, Operation::Intake, Operation::Reply];
    let mut seen: Vec<&str> = Vec::new();
    for transport in transports {
        for operation in operations {
            let words = label(transport, operation);
            assert!(!seen.contains(&words));
            seen.push(words);
        }
    }
    assert_eq!(seen.len(), 6);
}
