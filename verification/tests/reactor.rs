use netmux::reactor::Net;
use netmux::reactor::OwnedMode;
use netmux::stream::ReadOutcome;
use netmux::stream::WriteOutcome;
use netmux::Direction;
use netmux::Event;

fn accepted_conn(net: &mut Net) -> netmux::Token {
    let t = net.accept_conn();
    assert_eq!(net.next(), Some(Event::NewConnection(t)));
    t
}

#[test]
fn empty_reactor_has_no_resources_and_no_events() {
    let mut net = Net::empty();
    assert_eq!(net.last_token, 1);
    assert_eq!(net.tokens.len(), 0);
    assert_eq!(net.next(), None);
}

#[test]
fn tokens_are_allocated_monotonically_and_never_zero() {
    let mut net = Net::empty();
    let a = net.tcp_listen();
    let b = net.accept_conn();
    let c = net.accept_conn();
    assert_eq!(a.0, 2);
    assert_eq!(b.0, 3);
    assert_eq!(c.0, 4);
    assert!(a.0 > 1 && b.0 > a.0 && c.0 > b.0);
}

#[test]
fn listener_entry_is_recorded_without_events() {
    let mut net = Net::empty();
    let t = net.tcp_listen();
    assert_eq!(net.tokens.len(), 1);
    assert_eq!(net.tokens[0].token, t);
    assert!(matches!(net.tokens[0].mode, OwnedMode::Server));
    assert_eq!(net.next(), None);
}

#[test]
fn accept_queues_new_connection_event() {
    let mut net = Net::empty();
    let t = net.accept_conn();
    assert_eq!(net.next(), Some(Event::NewConnection(t)));
    assert_eq!(net.next(), None);
    assert_eq!(net.tokens.len(), 1);
    match &net.tokens[0].mode {
        OwnedMode::Conn(c) => {
            assert_eq!(c.read_buffer.buf().unwrap().len(), 0);
            assert_eq!(c.write_buffer.buf().unwrap().len(), 0);
        }
        OwnedMode::Server => panic!("accepted entry must be a connection"),
    }
}

#[test]
fn reads_accumulate_in_arrival_order() {
    let mut net = Net::empty();
    let t = accepted_conn(&mut net);
    assert!(net.wants_read(t));
    assert!(net.do_a_read(t, ReadOutcome::Data(vec![1, 2])));
    assert!(net.do_a_read(t, ReadOutcome::Data(vec![3])));
    assert!(!net.do_a_read(t, ReadOutcome::WouldBlock));
    assert_eq!(net.next(), Some(Event::Data(t)));
    assert_eq!(net.next(), Some(Event::Data(t)));
    assert_eq!(net.next(), None);
    assert_eq!(net.io(t).buf(&net), &[1u8, 2, 3][..]);
}

#[test]
fn consume_removes_exactly_the_first_bytes() {
    let mut net = Net::empty();
    let t = accepted_conn(&mut net);
    net.do_a_read(t, ReadOutcome::Data(b"abcdef".to_vec()));
    net.io(t).consume(&mut net, 2);
    assert_eq!(net.io(t).buf(&net), &b"cdef"[..]);
    net.io(t).consume(&mut net, 0);
    assert_eq!(net.io(t).buf(&net), &b"cdef"[..]);
    net.io(t).consume(&mut net, 4);
    assert_eq!(net.io(t).buf(&net), &b""[..]);
}

#[test]
fn eof_while_accepting_keeps_buffered_bytes_readable() {
    let mut net = Net::empty();
    let t = accepted_conn(&mut net);
    net.do_a_read(t, ReadOutcome::Data(b"tail".to_vec()));
    assert!(!net.do_a_read(t, ReadOutcome::Eof));
    assert_eq!(net.next(), Some(Event::Data(t)));
    assert_eq!(net.next(), Some(Event::Done(t, Direction::Read)));
    // the natural end stopped further fills, but the bytes stay readable
    assert!(!net.wants_read(t));
    assert_eq!(net.io(t).buf(&net), &b"tail"[..]);
}

#[test]
fn read_error_discards_and_keeps_watching() {
    let mut net = Net::empty();
    let t = accepted_conn(&mut net);
    net.do_a_read(t, ReadOutcome::Data(b"garbled".to_vec()));
    assert!(net.do_a_read(t, ReadOutcome::Error));
    // no event for the error itself, only the earlier data
    assert_eq!(net.next(), Some(Event::Data(t)));
    assert_eq!(net.next(), None);
    // force-closed: still watching for the natural end
    assert!(net.wants_read(t));
    assert!(!net.do_a_read(t, ReadOutcome::Eof));
    assert_eq!(net.next(), Some(Event::Done(t, Direction::Read)));
    match &net.tokens[0].mode {
        OwnedMode::Conn(c) => assert!(c.read_buffer.is_done()),
        OwnedMode::Server => unreachable!(),
    }
}

#[test]
fn data_while_force_closed_is_discarded() {
    let mut net = Net::empty();
    let t = accepted_conn(&mut net);
    net.io(t).close(&mut net);
    assert!(net.wants_read(t));
    assert!(net.do_a_read(t, ReadOutcome::Data(b"late".to_vec())));
    assert_eq!(net.next(), None);
    match &net.tokens[0].mode {
        OwnedMode::Conn(c) => assert!(c.read_buffer.buf().is_none()),
        OwnedMode::Server => unreachable!(),
    }
}

#[test]
fn write_drain_removes_accepted_prefix() {
    let mut net = Net::empty();
    let t = accepted_conn(&mut net);
    net.io(t).write(&mut net, b"response body");
    assert_eq!(net.write_pending(t).unwrap().as_slice(), &b"response body"[..]);
    assert!(net.do_a_write(t, WriteOutcome::Accepted(8)));
    assert_eq!(net.write_pending(t).unwrap().as_slice(), &b" body"[..]);
    assert!(!net.do_a_write(t, WriteOutcome::WouldBlock));
    assert_eq!(net.next(), Some(Event::Data(t)));
    assert_eq!(net.next(), None);
}

#[test]
fn rejected_write_finishes_the_outbound_direction() {
    let mut net = Net::empty();
    let t = accepted_conn(&mut net);
    net.io(t).write(&mut net, b"unsent");
    assert!(!net.do_a_write(t, WriteOutcome::Closed));
    assert_eq!(net.next(), Some(Event::Done(t, Direction::Write)));
    match &net.tokens[0].mode {
        OwnedMode::Conn(c) => assert!(c.write_buffer.is_done()),
        OwnedMode::Server => unreachable!(),
    }
}

#[test]
fn write_error_finishes_the_outbound_direction_silently() {
    let mut net = Net::empty();
    let t = accepted_conn(&mut net);
    net.io(t).write(&mut net, b"unsent");
    assert!(!net.do_a_write(t, WriteOutcome::Error));
    assert_eq!(net.next(), None);
    match &net.tokens[0].mode {
        OwnedMode::Conn(c) => assert!(c.write_buffer.is_done()),
        OwnedMode::Server => unreachable!(),
    }
}

#[test]
fn backpressure_gates_read_readiness_until_consume() {
    let mut net = Net::empty();
    let t = accepted_conn(&mut net);
    net.do_a_read(t, ReadOutcome::Data(vec![9u8; 8 * 1024]));
    net.next();
    // at the threshold: no read readiness requested for this connection
    let regs = net.reregister();
    assert_eq!(regs.len(), 1);
    assert_eq!(regs[0], (t, false, false));
    // one byte below the threshold: readiness is requested again
    net.io(t).consume(&mut net, 1);
    let regs = net.reregister();
    assert_eq!(regs[0], (t, true, false));
}

#[test]
fn reregister_reports_writable_interest_while_bytes_pend() {
    let mut net = Net::empty();
    let listener = net.tcp_listen();
    let t = accepted_conn(&mut net);
    net.io(t).write(&mut net, b"x");
    let regs = net.reregister();
    // listeners never appear; the one connection wants both directions
    assert_eq!(regs.len(), 1);
    assert_ne!(regs[0].0, listener);
    assert_eq!(regs[0], (t, true, true));
}

#[test]
fn close_some_removes_only_fully_done_connections() {
    let mut net = Net::empty();
    let listener = net.tcp_listen();
    let half = accepted_conn(&mut net);
    let full = accepted_conn(&mut net);
    // half: only the outbound direction finishes
    net.io(half).write(&mut net, b"z");
    net.do_a_write(half, WriteOutcome::Error);
    // full: both directions finish
    net.io(full).write(&mut net, b"bye");
    net.io(full).close(&mut net);
    net.do_a_write(full, WriteOutcome::Accepted(3));
    net.do_a_read(full, ReadOutcome::Eof);
    let closed = net.close_some();
    assert_eq!(closed, vec![full]);
    assert_eq!(net.tokens.len(), 2);
    assert_eq!(net.tokens[0].token, listener);
    assert_eq!(net.tokens[1].token, half);
    // and a second reap removes nothing further
    assert_eq!(net.close_some(), vec![]);
}

#[test]
fn allocator_boundary_is_the_drivers_guard() {
    let mut net = Net::empty();
    net.last_token = usize::MAX - 1;
    let t = net.accept_conn();
    assert_eq!(t.0, usize::MAX);
    // one more allocation would violate the allocator's contract: the
    // driver tests exactly this condition and aborts instead of calling,
    // since identifier exhaustion is a fatal contract violation, not a
    // recoverable error
    assert_eq!(net.last_token, usize::MAX);
}
