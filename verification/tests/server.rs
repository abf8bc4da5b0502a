use epoll_server::machine::RECEIVE_LIMIT;
use epoll_server::response::response;
use epoll_server::{Action, Event, Interest, Phase, Readiness, Server};

const LISTENER: i32 = 3;

fn readable() -> Readiness {
    Readiness::of(Interest::Readable)
}

fn writable() -> Readiness {
    Readiness::of(Interest::Writable)
}

fn teardown(id: i32) -> Vec<Action> {
    vec![Action::Deregister { id }, Action::Shutdown { id }, Action::Close { id }]
}

fn respond_and_teardown(id: i32) -> Vec<Action> {
    let mut actions = vec![Action::Send { id, payload: response() }];
    actions.extend(teardown(id));
    actions
}

fn started() -> Server {
    let (server, _) = Server::new(LISTENER);
    server
}

fn accept(server: &mut Server, id: i32) {
    assert_eq!(server.ready(LISTENER, readable()), vec![Action::Accept { id: LISTENER }]);
    assert_eq!(
        server.accepted(id),
        vec![Action::Register { id, interest: Interest::Readable, oneshot: true }]
    );
}

#[test]
fn new_server_registers_its_listener_without_oneshot() {
    let (server, actions) = Server::new(LISTENER);
    assert_eq!(
        actions,
        vec![Action::Register { id: LISTENER, interest: Interest::Readable, oneshot: false }]
    );
    assert_eq!(server.listener(), LISTENER);
    assert_eq!(server.connections(), 0);
    assert!(!server.is_open(LISTENER));
}

#[test]
fn readable_listener_asks_for_one_accept() {
    let mut server = started();
    assert_eq!(server.ready(LISTENER, readable()), vec![Action::Accept { id: LISTENER }]);
    assert_eq!(server.connections(), 0);
}

#[test]
fn listener_reports_other_than_readable_are_passed_over() {
    let mut server = started();
    assert_eq!(server.ready(LISTENER, writable()), vec![]);
    assert_eq!(
        server.ready(LISTENER, Readiness { readable: true, writable: false, other: true }),
        vec![]
    );
    assert_eq!(
        server.ready(LISTENER, Readiness { readable: true, writable: true, other: false }),
        vec![]
    );
    assert_eq!(
        server.ready(LISTENER, Readiness { readable: false, writable: false, other: false }),
        vec![]
    );
    assert_eq!(server.connections(), 0);
}

#[test]
fn accepted_connection_is_recorded_reading_and_registered_oneshot() {
    let mut server = started();
    let actions = server.accepted(5);
    assert_eq!(actions, vec![Action::Register { id: 5, interest: Interest::Readable, oneshot: true }]);
    assert!(server.is_open(5));
    assert_eq!(server.phase(5), Some(Phase::Reading));
    assert_eq!(server.buffered(5), Some(Vec::new()));
    assert_eq!(server.connections(), 1);
}

#[test]
fn readable_reading_connection_receives_a_bounded_chunk() {
    let mut server = started();
    accept(&mut server, 5);
    assert_eq!(RECEIVE_LIMIT, 64);
    assert_eq!(server.ready(5, readable()), vec![Action::Receive { id: 5, limit: 64 }]);
    assert_eq!(server.phase(5), Some(Phase::Reading));
}

#[test]
fn reading_connection_passes_over_other_reports() {
    let mut server = started();
    accept(&mut server, 5);
    assert_eq!(server.ready(5, writable()), vec![]);
    assert_eq!(server.ready(5, Readiness { readable: true, writable: false, other: true }), vec![]);
    assert_eq!(server.ready(5, Readiness { readable: true, writable: true, other: false }), vec![]);
    assert_eq!(server.ready(5, Readiness { readable: false, writable: false, other: false }), vec![]);
    assert_eq!(server.phase(5), Some(Phase::Reading));
    assert_eq!(server.connections(), 1);
}

#[test]
fn received_terminator_rearms_for_writable() {
    let mut server = started();
    accept(&mut server, 5);
    let actions = server.received(5, b"GET / HTTP/1.1\r\n\r\n");
    assert_eq!(actions, vec![Action::Modify { id: 5, interest: Interest::Writable }]);
    assert_eq!(server.phase(5), Some(Phase::Writing));
    assert_eq!(server.buffered(5), Some(b"GET / HTTP/1.1\r\n\r\n".to_vec()));
}

#[test]
fn received_without_terminator_asks_for_the_next_receive() {
    let mut server = started();
    accept(&mut server, 5);
    let actions = server.received(5, b"GET / HTTP/1.1\r\n");
    assert_eq!(actions, vec![Action::Receive { id: 5, limit: 64 }]);
    assert_eq!(server.phase(5), Some(Phase::Reading));
    assert_eq!(server.buffered(5), Some(b"GET / HTTP/1.1\r\n".to_vec()));
}

#[test]
fn received_nothing_tears_the_connection_down() {
    let mut server = started();
    accept(&mut server, 5);
    assert_eq!(server.received(5, b"partial"), vec![Action::Receive { id: 5, limit: 64 }]);
    assert_eq!(server.received(5, b""), teardown(5));
    assert!(!server.is_open(5));
    assert_eq!(server.phase(5), None);
    assert_eq!(server.connections(), 0);
}

#[test]
fn failed_receive_tears_the_connection_down() {
    let mut server = started();
    accept(&mut server, 5);
    assert_eq!(server.receive_failed(5), teardown(5));
    assert!(!server.is_open(5));
    assert_eq!(server.connections(), 0);
}

#[test]
fn writable_writing_connection_is_answered_once_and_torn_down() {
    let mut server = started();
    accept(&mut server, 5);
    server.received(5, b"\n\n");
    let actions = server.ready(5, writable());
    assert_eq!(actions, respond_and_teardown(5));
    assert_eq!(actions.len(), 4);
    assert!(!server.is_open(5));
    assert_eq!(server.connections(), 0);
}

#[test]
fn writing_connection_passes_over_other_reports() {
    let mut server = started();
    accept(&mut server, 5);
    server.received(5, b"\n\n");
    assert_eq!(server.ready(5, readable()), vec![]);
    assert_eq!(server.ready(5, Readiness { readable: true, writable: true, other: false }), vec![]);
    assert_eq!(server.ready(5, Readiness { readable: false, writable: true, other: true }), vec![]);
    assert_eq!(server.received(5, b"late"), vec![]);
    assert_eq!(server.received(5, b""), vec![]);
    assert_eq!(server.receive_failed(5), vec![]);
    assert_eq!(server.phase(5), Some(Phase::Writing));
    assert_eq!(server.buffered(5), Some(b"\n\n".to_vec()));
}

#[test]
fn unknown_identifiers_are_passed_over() {
    let mut server = started();
    accept(&mut server, 5);
    assert_eq!(server.ready(6, readable()), vec![]);
    assert_eq!(server.ready(6, writable()), vec![]);
    assert_eq!(server.received(6, b"\n\n"), vec![]);
    assert_eq!(server.received(6, b""), vec![]);
    assert_eq!(server.receive_failed(6), vec![]);
    assert_eq!(server.received(LISTENER, b"\n\n"), vec![]);
    assert_eq!(server.receive_failed(LISTENER), vec![]);
    assert!(!server.is_open(6));
    assert_eq!(server.connections(), 1);
    assert_eq!(server.phase(5), Some(Phase::Reading));
}

#[test]
fn torn_down_identifier_is_never_operated_on_again() {
    let mut server = started();
    accept(&mut server, 5);
    server.received(5, b"\r\n\r\n");
    assert_eq!(server.ready(5, writable()), respond_and_teardown(5));
    assert_eq!(server.ready(5, writable()), vec![]);
    assert_eq!(server.ready(5, readable()), vec![]);
    assert_eq!(server.received(5, b"x"), vec![]);
    assert_eq!(server.received(5, b""), vec![]);
    assert_eq!(server.receive_failed(5), vec![]);
    assert_eq!(server.connections(), 0);
}

#[test]
fn identifier_can_be_taken_again_after_teardown() {
    let mut server = started();
    accept(&mut server, 5);
    server.received(5, b"first request\n");
    assert_eq!(server.received(5, b""), teardown(5));
    accept(&mut server, 5);
    assert_eq!(server.phase(5), Some(Phase::Reading));
    assert_eq!(server.buffered(5), Some(Vec::new()));
    assert_eq!(server.received(5, b"\n"), vec![Action::Receive { id: 5, limit: 64 }]);
    assert_eq!(server.phase(5), Some(Phase::Reading));
}

#[test]
fn step_takes_each_event_as_its_own_function_does() {
    let mut by_step = started();
    let mut by_call = started();
    assert_eq!(
        by_step.step(Event::Ready { id: LISTENER, events: readable() }),
        by_call.ready(LISTENER, readable())
    );
    assert_eq!(by_step.step(Event::Accepted { id: 8 }), by_call.accepted(8));
    assert_eq!(by_step.step(Event::Accepted { id: 9 }), by_call.accepted(9));
    assert_eq!(by_step.step(Event::Ready { id: 8, events: readable() }), by_call.ready(8, readable()));
    assert_eq!(
        by_step.step(Event::Received { id: 8, data: b"GET /\r\n".to_vec() }),
        by_call.received(8, b"GET /\r\n")
    );
    assert_eq!(
        by_step.step(Event::Received { id: 8, data: b"\r\n".to_vec() }),
        by_call.received(8, b"\r\n")
    );
    assert_eq!(by_step.step(Event::ReceiveFailed { id: 9 }), by_call.receive_failed(9));
    assert_eq!(by_step.step(Event::ReceiveFailed { id: 9 }), vec![]);
    assert_eq!(by_step.step(Event::Ready { id: 8, events: writable() }), by_call.ready(8, writable()));
    assert_eq!(by_step.connections(), 0);
    assert_eq!(by_call.connections(), 0);
}

#[test]
fn action_and_event_name_their_identifier() {
    assert_eq!(Action::Accept { id: 1 }.id(), 1);
    assert_eq!(Action::Register { id: 2, interest: Interest::Readable, oneshot: true }.id(), 2);
    assert_eq!(Action::Modify { id: 3, interest: Interest::Writable }.id(), 3);
    assert_eq!(Action::Receive { id: 4, limit: 64 }.id(), 4);
    assert_eq!(Action::Send { id: 5, payload: vec![1] }.id(), 5);
    assert_eq!(Action::Deregister { id: 6 }.id(), 6);
    assert_eq!(Action::Shutdown { id: 7 }.id(), 7);
    assert_eq!(Action::Close { id: 8 }.id(), 8);
    assert_eq!(Event::Ready { id: 9, events: readable() }.id(), 9);
    assert_eq!(Event::Accepted { id: 10 }.id(), 10);
    assert_eq!(Event::Received { id: 11, data: Vec::new() }.id(), 11);
    assert_eq!(Event::ReceiveFailed { id: 12 }.id(), 12);
}

#[test]
fn received_chunk_larger_than_asked_for_is_taken_whole() {
    let mut server = started();
    accept(&mut server, 5);
    let mut big: Vec<u8> = vec![b'h'; 200];
    big.extend_from_slice(b"\r\n\r\n");
    assert_eq!(server.received(5, &big), vec![Action::Modify { id: 5, interest: Interest::Writable }]);
    assert_eq!(server.buffered(5), Some(big));
}
