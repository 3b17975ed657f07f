use netmux::reactor::block_to_none;
use netmux::reactor::Net;
use netmux::reactor::OwnedMode;
use netmux::stream::ReadOutcome;
use netmux::stream::WriteOutcome;
use netmux::Direction;
use netmux::Event;

#[test]
fn request_response_close_lifecycle() {
    let mut net = Net::empty();
    let listener = net.tcp_listen();
    assert_eq!(net.next(), None);

    // the listener becomes ready; the driver accepts one peer
    assert!(matches!(net.tokens[0].mode, OwnedMode::Server));
    let id = net.accept_conn();
    assert_ne!(id, listener);
    assert_eq!(net.next(), Some(Event::NewConnection(id)));

    // the peer sends a request; the driver's read drain hands it over
    let request = b"GET / HTTP/1.0\r\n\r\n";
    assert!(net.wants_read(id));
    assert!(net.do_a_read(id, ReadOutcome::Data(request.to_vec())));
    assert!(!net.do_a_read(id, ReadOutcome::WouldBlock));
    assert_eq!(net.next(), Some(Event::Data(id)));
    assert_eq!(net.io(id).buf(&net), &request[..]);

    // the application consumes the request, answers, and closes
    let len = net.io(id).buf(&net).len();
    net.io(id).consume(&mut net, len);
    let response = b"HTTP/1.0 200 OK\r\n\r\n";
    net.io(id).write(&mut net, response);
    net.io(id).close(&mut net);

    // the write drain flushes the whole response: terminal success
    let pending = net.write_pending(id).unwrap().len();
    assert_eq!(pending, response.len());
    assert!(!net.do_a_write(id, WriteOutcome::Accepted(pending)));
    assert_eq!(net.next(), Some(Event::Data(id)));
    assert_eq!(net.next(), Some(Event::Done(id, Direction::Write)));

    // the peer's natural end-of-stream confirms the forced read close
    assert!(net.wants_read(id));
    assert!(!net.do_a_read(id, ReadOutcome::Eof));
    assert_eq!(net.next(), Some(Event::Done(id, Direction::Read)));

    // the next cycle removes the connection; the listener stays
    assert_eq!(net.close_some(), vec![id]);
    assert_eq!(net.tokens.len(), 1);
    assert_eq!(net.tokens[0].token, listener);
    assert_eq!(net.next(), None);
}

#[test]
fn immediate_peer_close_yields_no_data() {
    let mut net = Net::empty();
    net.tcp_listen();
    let id = net.accept_conn();
    assert!(!net.do_a_read(id, ReadOutcome::Eof));
    assert_eq!(net.next(), Some(Event::NewConnection(id)));
    assert_eq!(net.next(), Some(Event::Done(id, Direction::Read)));
    assert_eq!(net.next(), None);
}

#[test]
fn outbound_buffering_is_unbounded_without_backpressure() {
    let mut net = Net::empty();
    let id = net.accept_conn();
    net.next();
    // the application writes 20 KiB before the peer reads anything
    let chunk = vec![5u8; 4 * 1024];
    for _ in 0..5 {
        net.io(id).write(&mut net, chunk.as_slice());
    }
    assert_eq!(net.write_pending(id).unwrap().len(), 20 * 1024);
    // well past the inbound threshold, yet no event and no gating appears
    assert_eq!(net.next(), None);
    let regs = net.reregister();
    assert_eq!(regs[0], (id, true, true));
    // inbound backpressure still works independently of the 20 KiB backlog
    net.do_a_read(id, ReadOutcome::Data(vec![1u8; 8 * 1024]));
    let regs = net.reregister();
    assert_eq!(regs[0], (id, false, true));
}

#[test]
fn would_block_is_not_an_error() {
    let blocked: Result<usize, std::io::Error> =
        Err(std::io::Error::new(std::io::ErrorKind::WouldBlock, "try again"));
    match block_to_none(blocked) {
        Ok(None) => {}
        _ => panic!("would-block must become an absent value"),
    }
}

#[test]
fn success_and_real_errors_pass_through() {
    let fine: Result<usize, std::io::Error> = Ok(17);
    match block_to_none(fine) {
        Ok(Some(17)) => {}
        _ => panic!("success must be kept"),
    }
    let broken: Result<usize, std::io::Error> =
        Err(std::io::Error::new(std::io::ErrorKind::ConnectionReset, "gone"));
    match block_to_none(broken) {
        Err(e) => assert_eq!(e.kind(), std::io::ErrorKind::ConnectionReset),
        Ok(_) => panic!("a real error must be handed back"),
    }
}
