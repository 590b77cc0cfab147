use reactor_core::executor::async_io::reactor::Reactor;
use reactor_core::executor::async_net::client::{
    poll_offload, poll_read, poll_write, Attempt, Progress, TcpClient,
};
use reactor_core::executor::async_net::listener::TcpListener;
use reactor_core::multiplexer::{Interest, RegistrationError};

#[test]
fn a_finished_attempt_is_ready() {
    let mut reactor: Reactor<u32> = Reactor::new();
    let p: Progress<usize, &str> = poll_read(3, Attempt::Done(12), 1, &mut reactor);
    assert!(matches!(p, Progress::Ready(Ok(12))));
    let p: Progress<usize, &str> = poll_write(3, Attempt::Failed("reset"), 1, &mut reactor);
    assert!(matches!(p, Progress::Ready(Err("reset"))));
    assert!(!reactor.waiting_on_events());
}

#[test]
fn an_attempt_that_would_block_suspends() {
    let mut reactor: Reactor<u32> = Reactor::new();
    reactor.add(3).unwrap();
    let client = TcpClient::new("socket", 3);
    let p: Progress<usize, &str> = client.read().poll(Attempt::WouldBlock, 1, &mut reactor);
    assert!(matches!(p, Progress::Pending(i) if i == Interest::readable(3)));
    let p: Progress<usize, &str> = client.write().poll(Attempt::WouldBlock, 2, &mut reactor);
    assert!(matches!(p, Progress::Pending(i) if i == Interest::all(3)));
    assert_eq!(reactor.interest(3), Some(Interest::all(3)));
    let (stream, removed) = client.close(&mut reactor);
    assert_eq!(stream, "socket");
    assert_eq!(removed, Ok(()));
    assert!(!reactor.waiting_on_events());
}

#[test]
fn an_unregistered_handle_cannot_suspend() {
    let mut reactor: Reactor<u32> = Reactor::new();
    let p: Progress<usize, &str> = poll_read(3, Attempt::WouldBlock, 1, &mut reactor);
    assert!(matches!(p, Progress::Refused(RegistrationError::NotRegistered)));
    let p: Progress<usize, &str> = poll_write(3, Attempt::WouldBlock, 1, &mut reactor);
    assert!(matches!(p, Progress::Refused(RegistrationError::NotRegistered)));
    let client = TcpClient::new((), 3);
    let (_, removed) = client.close(&mut reactor);
    assert_eq!(removed, Err(RegistrationError::NotRegistered));
}

#[test]
fn accept_registers_the_listener_and_hands_out_connections() {
    let mut reactor: Reactor<u32> = Reactor::new();
    let listener = TcpListener::bind("listening", 7);
    let (accept, interest) = listener.accept(&mut reactor).unwrap();
    assert_eq!(interest, Interest::none(7));
    assert!(matches!(listener.accept(&mut reactor), Err(RegistrationError::AlreadyRegistered)));
    let p: Progress<(TcpClient<&str>, u16), &str> =
        accept.poll(Attempt::WouldBlock, 1, &mut reactor);
    assert!(matches!(p, Progress::Pending(i) if i == Interest::readable(7)));
    let p: Progress<(TcpClient<&str>, u16), &str> =
        accept.poll(Attempt::Done(("peer", 9, 8080)), 1, &mut reactor);
    match p {
        Progress::Ready(Ok((client, port))) => {
            assert_eq!(client.stream, "peer");
            assert_eq!(client.key, 9);
            assert_eq!(port, 8080);
        }
        _ => panic!("the accepted socket is handed out"),
    }
    assert_eq!(accept.close(&mut reactor), Ok(()));
    assert_eq!(reactor.interest(7), None);
    assert!(!reactor.waiting_on_events());
}

#[test]
fn a_background_operation_that_has_not_ended_parks_the_computation() {
    let mut reactor: Reactor<u32> = Reactor::new();
    let p: Progress<Vec<u8>, &str> = poll_offload(Attempt::WouldBlock, 5, &mut reactor);
    assert!(matches!(p, Progress::Parked));
    assert!(reactor.waiting_on_events());
    assert_eq!(reactor.finished_offloads(), vec![5]);
    let p: Progress<Vec<u8>, &str> = poll_offload(Attempt::Done(vec![1]), 5, &mut reactor);
    assert!(matches!(p, Progress::Ready(Ok(bytes)) if bytes == vec![1]));
    let p: Progress<Vec<u8>, &str> = poll_offload(Attempt::Failed("gone"), 5, &mut reactor);
    assert!(matches!(p, Progress::Ready(Err("gone"))));
    assert!(!reactor.waiting_on_events());
}
