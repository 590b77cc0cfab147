use reactor_core::async_io::client::{answer, Action, ClientState, FileRead, Work};
use reactor_core::async_io::event_handler::EventHandler;
use reactor_core::async_io::event_loop::{EventLoop, Step};
use reactor_core::async_io::listener::{
    AsyncTcpListener, Completion, ListenerState, Unit, UnitAction,
};
use reactor_core::async_io::reactor::Reactor;
use reactor_core::multiplexer::{Interest, RegistrationError};
use reactor_core::response::Response;
use reactor_core::router::{Method, Route, Router};
use std::collections::HashMap;

#[derive(Debug, PartialEq)]
struct Socket(usize);

type Units = Unit<&'static str, Socket, u32>;

const LISTENER: usize = 3;

/// A stand-in for everything outside the loop: the sockets, the files, and
/// the background operations, which end when the test says so.
struct Server {
    el: EventLoop<Units>,
    router: Router<Route>,
    files: HashMap<String, Vec<u8>>,
    requests: HashMap<usize, String>,
    sent: HashMap<usize, Vec<u8>>,
    armed: HashMap<usize, Interest>,
    reads: Vec<(usize, i32, String)>,
    writes: Vec<(usize, Socket, i32, Vec<u8>, String)>,
    dispatched: HashMap<usize, usize>,
    offloads: usize,
    closed: Vec<usize>,
    next_handle: u32,
    joined: Vec<u32>,
}

impl Server {
    fn new() -> Server {
        let mut reactor: Reactor<Units> = Reactor::new();
        let listener = match AsyncTcpListener::bind("listening", LISTENER, &mut reactor) {
            Ok(listener) => listener,
            Err(_) => panic!("a new reactor takes the listener"),
        };
        reactor.register(LISTENER, Unit::Listener(listener));
        let mut router = Router::new();
        router.insert(Method::GET, "/", Route { code: 200, path: "static/index.html".to_string() });
        let mut files = HashMap::new();
        files.insert("static/index.html".to_string(), b"<html>start</html>".to_vec());
        files.insert("static/404.html".to_string(), b"<html>no such page</html>".to_vec());
        let mut armed = HashMap::new();
        armed.insert(LISTENER, Interest::readable(LISTENER));
        let mut server = Server {
            el: EventLoop::new(reactor),
            router,
            files,
            requests: HashMap::new(),
            sent: HashMap::new(),
            armed,
            reads: Vec::new(),
            writes: Vec::new(),
            dispatched: HashMap::new(),
            offloads: 0,
            closed: Vec::new(),
            next_handle: 0,
            joined: Vec::new(),
        };
        // The listener was registered while the loop was idle: the first turn
        // lets it into the table and gives it its first pass.
        assert!(matches!(server.el.run(), Step::Dispatched(LISTENER, UnitAction::Idle)));
        assert!(matches!(server.el.run(), Step::Wait));
        assert!(server.el.source(LISTENER).is_some());
        server
    }

    fn offload(&mut self, id: usize) {
        self.next_handle += 1;
        self.offloads += 1;
        let r = self.el.resume(id, Completion::Offloaded(self.next_handle));
        assert!(matches!(r, Ok(UnitAction::Idle)));
    }

    fn perform(&mut self, id: usize, action: UnitAction<Socket, u32>) {
        match action {
            UnitAction::Idle | UnitAction::Accept => {}
            UnitAction::Rearm(interest) => {
                assert!(self.armed.insert(interest.key, interest).is_some());
            }
            UnitAction::Drop(_) => panic!("no accepted connection is pushed out"),
            UnitAction::Refused(e) => panic!("the listener is registered, not {:?}", e),
            UnitAction::Client(Action { join, work }) => {
                if let Some(handle) = join {
                    self.joined.push(handle);
                }
                match work {
                    Work::Idle => {}
                    Work::Register(interest) => {
                        assert!(self.armed.insert(interest.key, interest).is_none());
                    }
                    Work::ReadRequest => {
                        let request = self.requests.remove(&id).unwrap();
                        let (code, path) = self.router.resolve(&request);
                        let r = self.el.resume(id, Completion::Request(code, path));
                        assert!(matches!(r, Ok(UnitAction::Idle)));
                    }
                    Work::ReadFile(code, path) => {
                        self.reads.push((id, code, path));
                        self.offload(id);
                    }
                    Work::WriteResponse(socket, code, body, path) => {
                        self.writes.push((id, socket, code, body, path));
                        self.offload(id);
                    }
                    Work::Close(socket) => {
                        assert_eq!(socket, Socket(id));
                        assert!(self.armed.remove(&id).is_some());
                        self.closed.push(id);
                    }
                    Work::Release(_) => panic!("the readiness facility took every socket"),
                    Work::Refused(_, e) => panic!("every socket was registered, not {:?}", e),
                }
            }
        }
    }

    /// Takes turns until the loop is ready to block.
    fn settle(&mut self) {
        loop {
            match self.el.run() {
                Step::Dispatched(id, action) => {
                    *self.dispatched.entry(id).or_insert(0) += 1;
                    self.perform(id, action);
                }
                Step::Skipped(_) => {}
                Step::Wait => break,
            }
        }
        assert!(self.el.is_idle());
    }

    /// What the readiness facility would report where every armed handle in
    /// `keys` is readable; a report uses the interest up.
    fn readable(&mut self, keys: &[usize]) {
        let mut reports = Vec::new();
        for key in keys {
            let interest = self.armed.get_mut(key).unwrap();
            assert!(interest.readable);
            *interest = Interest::none(*key);
            reports.push(Interest::readable(*key));
        }
        for (id, action) in self.el.dispatch(&reports) {
            if let UnitAction::Accept = action {
                panic!("connections are accepted by `connect`, which got {}", id);
            }
        }
    }

    fn connect(&mut self, fd: usize, request: &str) {
        self.requests.insert(fd, request.to_string());
        *self.armed.get_mut(&LISTENER).unwrap() = Interest::none(LISTENER);
        let asked = self.el.dispatch(&vec![Interest::readable(LISTENER)]);
        assert_eq!(asked.len(), 1);
        assert!(matches!(asked[0], (LISTENER, UnitAction::Accept)));
        let r = self.el.resume(LISTENER, Completion::Accepted(Socket(fd), fd));
        assert!(matches!(r, Ok(UnitAction::Idle)));
        self.settle();
    }

    fn finish_read(&mut self, k: usize) {
        let (id, code, path) = self.reads.remove(k);
        let read = match self.files.get(&path) {
            Some(bytes) => FileRead::Contents(bytes.clone()),
            None => FileRead::NotFound,
        };
        let (code, body) = answer(code, read);
        let r = self.el.resume(id, Completion::FileRead(code, body, path));
        assert!(matches!(r, Ok(UnitAction::Idle)));
        assert!(!self.el.is_idle());
        self.offloads -= 1;
    }

    fn finish_write(&mut self, k: usize) {
        let (id, socket, code, body, path) = self.writes.remove(k);
        let mut response = Response::new();
        response.sendfile(code, &path, &body);
        self.sent.insert(id, response.into_inner());
        let r = self.el.resume(id, Completion::ResponseWritten(socket));
        assert!(matches!(r, Ok(UnitAction::Idle)));
        assert!(!self.el.is_idle());
        self.offloads -= 1;
    }

    fn state_of(&self, id: usize) -> Option<&ClientState<Socket>> {
        match self.el.source(id) {
            Some(Unit::Client(unit)) => unit.state(),
            _ => None,
        }
    }
}

fn response(status: &str, body: &[u8]) -> Vec<u8> {
    let mut expected = format!(
        "HTTP/1.1 {}\r\ncontent-type: text/html; charset=utf-8\r\ncontent-length: {}\r\n\r\n",
        status,
        body.len()
    )
    .into_bytes();
    expected.extend_from_slice(body);
    expected
}

#[test]
fn a_request_for_a_known_page_is_served_from_its_file() {
    let mut server = Server::new();
    server.connect(10, "GET / HTTP/1.1\r\n\r\n");
    assert!(matches!(server.state_of(10), Some(ClientState::Waiting)));
    assert_eq!(server.el.interest(10), Some(Interest::readable(10)));
    assert_eq!(server.el.interest(LISTENER), Some(Interest::readable(LISTENER)));

    server.readable(&[10]);
    server.settle();
    assert!(matches!(server.state_of(10), Some(ClientState::WaitingReadFile)));
    assert_eq!(server.reads.len(), 1);
    assert_eq!(server.reads[0], (10, 200, "static/index.html".to_string()));

    server.finish_read(0);
    server.settle();
    assert!(matches!(server.state_of(10), Some(ClientState::WritingResponse)));
    server.finish_write(0);
    server.settle();

    let sent = &server.sent[&10];
    assert!(sent.starts_with(b"HTTP/1.1 200 OK\r\n"));
    assert_eq!(sent, &response("200 OK", b"<html>start</html>"));
    assert!(sent.ends_with(b"<html>start</html>"));
    assert_eq!(server.closed, vec![10]);
    assert_eq!(server.joined, vec![1, 2]);
}

#[test]
fn a_malformed_request_is_refused_without_reading_a_file() {
    let mut server = Server::new();
    server.connect(10, "short line\n");
    server.readable(&[10]);
    server.settle();
    assert!(server.reads.is_empty());
    assert!(matches!(server.state_of(10), Some(ClientState::WritingResponse)));
    assert_eq!(server.writes.len(), 1);
    server.finish_write(0);
    server.settle();
    let sent = &server.sent[&10];
    assert!(sent.starts_with(b"HTTP/1.1 400 Bad Request\r\n"));
    assert_eq!(sent, &response("400 Bad Request", b""));
    assert_eq!(server.closed, vec![10]);
    assert!(server.el.source(10).is_none());
}

#[test]
fn a_request_for_a_missing_page_is_answered_and_closed() {
    let mut server = Server::new();
    server.connect(10, "GET /missing HTTP/1.1\r\n\r\n");
    server.readable(&[10]);
    server.settle();
    assert_eq!(server.reads, vec![(10, 404, "static/404.html".to_string())]);
    server.finish_read(0);
    server.settle();
    server.finish_write(0);
    server.settle();
    let sent = &server.sent[&10];
    assert!(sent.starts_with(b"HTTP/1.1 404 Not Found\r\n"));
    assert_eq!(sent, &response("404 Not Found", b"<html>no such page</html>"));
    assert_eq!(server.closed, vec![10]);
    assert!(server.el.source(10).is_none());
    assert_eq!(server.el.interest(10), None);
}

#[test]
fn a_finished_connection_leaves_table_and_multiplexer() {
    let mut server = Server::new();
    server.connect(10, "GET / HTTP/1.1\r\n\r\n");
    server.readable(&[10]);
    server.settle();
    server.finish_read(0);
    server.settle();
    server.finish_write(0);
    assert!(matches!(server.state_of(10), Some(ClientState::Close(Socket(10)))));
    assert!(matches!(server.el.run(), Step::Dispatched(10, UnitAction::Client(_))));
    assert!(matches!(server.state_of(10), Some(ClientState::Closed)));
    assert_eq!(server.el.interest(10), None);
    assert!(server.el.source(10).is_some());
    assert!(matches!(server.el.run(), Step::Dispatched(10, UnitAction::Client(_))));
    assert!(matches!(server.el.run(), Step::Wait));
    assert!(server.el.source(10).is_none());
    assert_eq!(server.el.interest(10), None);
    assert!(server.el.source(LISTENER).is_some());
    assert!(matches!(
        server.el.resume(10, Completion::Offloaded(1)),
        Err(Completion::Offloaded(1))
    ));
}

#[test]
fn each_new_connection_is_processed_once_before_any_report() {
    let mut server = Server::new();
    for fd in 10..15 {
        server.connect(fd, "GET / HTTP/1.1\r\n\r\n");
    }
    for fd in 10..15 {
        assert_eq!(server.dispatched[&fd], 1);
        assert!(matches!(server.state_of(fd), Some(ClientState::Waiting)));
    }
    assert_eq!(server.dispatched[&LISTENER], 5);
}

#[test]
fn a_unit_registered_on_an_idle_loop_gets_its_first_pass() {
    let mut el: EventLoop<Units> = EventLoop::new(Reactor::new());
    el.register(7, Unit::Client(reactor_core::async_io::client::ClientRequest::new(Socket(7), 7)));
    assert!(el.source(7).is_none());
    match el.run() {
        Step::Dispatched(7, UnitAction::Client(Action { join: None, work: Work::Register(i) })) => {
            assert_eq!(i, Interest::readable(7));
        }
        _ => panic!("the unit makes its first pass"),
    }
    assert!(matches!(el.run(), Step::Wait));
    assert!(matches!(el.run(), Step::Wait));
    assert!(el.source(7).is_some());
    assert_eq!(el.interest(7), Some(Interest::readable(7)));
}

#[test]
fn units_staged_together_each_get_one_first_pass() {
    let mut el: EventLoop<Units> = EventLoop::new(Reactor::new());
    for fd in [4, 5, 6, 7] {
        el.register(
            fd,
            Unit::Client(reactor_core::async_io::client::ClientRequest::new(Socket(fd), fd)),
        );
    }
    for fd in [7, 6, 5, 4] {
        match el.run() {
            Step::Dispatched(id, UnitAction::Client(Action { join: None, work: Work::Register(i) })) => {
                assert_eq!(id, fd);
                assert_eq!(i, Interest::readable(fd));
            }
            _ => panic!("the unit makes its first pass"),
        }
        for other in [4, 5, 6, 7] {
            assert!(el.source(other).is_some());
        }
    }
    assert!(matches!(el.run(), Step::Wait));
    for fd in [4, 5, 6, 7] {
        match el.source(fd) {
            Some(Unit::Client(unit)) => assert!(matches!(unit.state(), Some(ClientState::Waiting))),
            _ => panic!("the unit is in the table"),
        }
    }
}

#[test]
fn an_identifier_without_unit_is_skipped() {
    let mut reactor: Reactor<Units> = Reactor::new();
    reactor.schedule(9);
    let mut el = EventLoop::new(reactor);
    assert!(matches!(el.run(), Step::Skipped(9)));
    assert!(matches!(el.run(), Step::Wait));
}

#[test]
fn a_socket_that_the_facility_refuses_closes_its_unit() {
    let mut server = Server::new();
    server.connect(10, "GET / HTTP/1.1\r\n\r\n");
    assert!(matches!(server.state_of(10), Some(ClientState::Waiting)));
    match server.el.resume(10, Completion::RegistrationFailed) {
        Ok(UnitAction::Client(Action { join: None, work: Work::Release(socket) })) => {
            assert_eq!(socket, Socket(10));
        }
        _ => panic!("the unit gives its socket up"),
    }
    assert!(matches!(server.state_of(10), Some(ClientState::Closed)));
    assert_eq!(server.el.interest(10), None);
    assert!(matches!(server.el.run(), Step::Dispatched(10, UnitAction::Client(_))));
    assert!(matches!(server.el.run(), Step::Wait));
    assert!(server.el.source(10).is_none());
    assert!(matches!(
        server.el.resume(LISTENER, Completion::RegistrationFailed),
        Err(Completion::RegistrationFailed)
    ));
}

#[test]
fn a_listener_that_is_not_registered_says_so() {
    let mut reactor: Reactor<Units> = Reactor::new();
    let mut listener: AsyncTcpListener<&str, Socket> =
        AsyncTcpListener { listener: "listening", fd: 3, state: Some(ListenerState::Waiting) };
    assert!(listener.accepted(Socket(8), 8, &mut reactor).is_none());
    assert!(matches!(
        listener.poll(&mut reactor),
        UnitAction::Refused(RegistrationError::NotRegistered)
    ));
    assert!(matches!(listener.state, Some(ListenerState::Waiting)));
    assert!(matches!(reactor.next_registration(), Some((8, Unit::Client(_)))));
}

#[test]
fn fifty_connections_get_their_own_files() {
    let mut server = Server::new();
    let fds: Vec<usize> = (100..150).collect();
    for fd in &fds {
        let page = format!("/page{}", fd);
        let path = format!("static/page{}.html", fd);
        server.router.insert(Method::GET, &page, Route { code: 200, path: path.clone() });
        let body = format!("<html>{}</html>", "x".repeat(*fd)).into_bytes();
        server.files.insert(path, body);
    }
    for fd in &fds {
        server.connect(*fd, &format!("GET /page{} HTTP/1.1\r\n\r\n", fd));
    }
    server.readable(&fds);
    server.settle();
    assert_eq!(server.reads.len(), 50);
    assert_eq!(server.offloads, 50);
    // The reads end in another order than they were started.
    let mut seed: u32 = 7;
    while !server.reads.is_empty() {
        seed = seed.wrapping_mul(1664525).wrapping_add(1013904223);
        let k = (seed >> 8) as usize % server.reads.len();
        server.finish_read(k);
        if seed % 3 == 0 {
            server.settle();
        }
    }
    server.settle();
    assert_eq!(server.writes.len(), 50);
    while !server.writes.is_empty() {
        seed = seed.wrapping_mul(1664525).wrapping_add(1013904223);
        let k = (seed >> 8) as usize % server.writes.len();
        server.finish_write(k);
        if seed % 2 == 0 {
            server.settle();
        }
    }
    server.settle();
    assert_eq!(server.offloads, 0);
    for fd in &fds {
        let body = format!("<html>{}</html>", "x".repeat(*fd)).into_bytes();
        assert_eq!(server.sent[fd], response("200 OK", &body));
        assert!(server.el.source(*fd).is_none());
        assert_eq!(server.el.interest(*fd), None);
        assert_eq!(server.dispatched[fd], 6);
    }
    let mut closed = server.closed.clone();
    closed.sort();
    assert_eq!(closed, fds);
    assert_eq!(server.joined.len(), 100);
    assert!(server.el.source(LISTENER).is_some());
}

#[test]
fn the_listener_hands_each_connection_to_the_loop() {
    let mut reactor: Reactor<Units> = Reactor::new();
    let mut listener: AsyncTcpListener<&str, Socket> =
        match AsyncTcpListener::bind("listening", 3, &mut reactor) {
            Ok(listener) => listener,
            Err(_) => panic!("a new reactor takes the listener"),
        };
    assert_eq!(listener.id(), 3);
    assert_eq!(listener.name(), "TcpListener 3");
    assert!(matches!(listener.state, Some(ListenerState::Waiting)));
    assert_eq!(reactor.interest(3), Some(Interest::readable(3)));
    assert!(listener.event(Interest::readable(3)));
    assert!(listener.event(Interest::all(3)));
    assert!(!listener.event(Interest::writable(3)));

    assert!(matches!(listener.poll(&mut reactor), UnitAction::Idle));
    assert!(listener.accepted(Socket(8), 8, &mut reactor).is_none());
    assert_eq!(listener.accepted(Socket(9), 9, &mut reactor), Some(Socket(8)));
    assert_eq!(reactor.next_task(), Some(3));
    assert_eq!(reactor.next_task(), Some(3));
    reactor.deliver(3);
    assert_eq!(reactor.interest(3), Some(Interest::none(3)));
    assert!(matches!(listener.poll(&mut reactor), UnitAction::Rearm(i) if i == Interest::readable(3)));
    assert_eq!(reactor.interest(3), Some(Interest::readable(3)));
    assert!(matches!(listener.state, Some(ListenerState::Waiting)));
    assert_eq!(reactor.next_task(), Some(9));
    match reactor.next_registration() {
        Some((9, Unit::Client(unit))) => assert_eq!(unit.client, Some(Socket(9))),
        _ => panic!("the connection is staged"),
    }
}

#[test]
fn a_second_listener_on_one_identifier_is_refused() {
    let mut reactor: Reactor<Units> = Reactor::new();
    let first: Result<AsyncTcpListener<&str, Socket>, _> =
        AsyncTcpListener::bind("one", 3, &mut reactor);
    assert!(first.is_ok());
    let second: Result<AsyncTcpListener<&str, Socket>, _> =
        AsyncTcpListener::bind("two", 3, &mut reactor);
    assert!(matches!(second, Err(("two", RegistrationError::AlreadyRegistered))));
    let reserved: Result<AsyncTcpListener<&str, Socket>, _> =
        AsyncTcpListener::bind("three", usize::MAX, &mut reactor);
    assert!(matches!(reserved, Err(("three", RegistrationError::ReservedKey))));
}

#[test]
fn registering_leaves_the_eviction_queue_alone() {
    let mut reactor: Reactor<Units> = Reactor::new();
    reactor.add(Interest::readable(5)).unwrap();
    assert_eq!(reactor.remove(5), Ok(()));
    assert_eq!(reactor.remove(5), Err(RegistrationError::NotRegistered));
    reactor.register(5, Unit::Client(reactor_core::async_io::client::ClientRequest::new(Socket(5), 5)));
    reactor.register(6, Unit::Client(reactor_core::async_io::client::ClientRequest::new(Socket(6), 6)));
    assert_eq!(reactor.next_eviction(), Some(5));
    assert_eq!(reactor.next_eviction(), None);
    assert_eq!(reactor.next_task(), Some(6));
    assert_eq!(reactor.next_task(), Some(5));
    assert_eq!(reactor.next_task(), Some(5));
    assert_eq!(reactor.next_task(), None);
    assert!(matches!(reactor.next_registration(), Some((6, _))));
    assert!(matches!(reactor.next_registration(), Some((5, _))));
    assert!(reactor.next_registration().is_none());
}

#[test]
fn a_unit_under_an_identifier_that_waits_for_eviction_leaves_with_it() {
    let mut reactor: Reactor<Units> = Reactor::new();
    reactor.add(Interest::readable(5)).unwrap();
    assert_eq!(reactor.remove(5), Ok(()));
    reactor.register(5, Unit::Client(reactor_core::async_io::client::ClientRequest::new(Socket(5), 5)));
    let mut el = EventLoop::new(reactor);
    assert!(matches!(
        el.run(),
        Step::Dispatched(5, UnitAction::Client(Action { join: None, work: Work::Register(_) }))
    ));
    assert!(el.source(5).is_some());
    assert!(matches!(
        el.run(),
        Step::Dispatched(5, UnitAction::Client(Action { join: None, work: Work::Idle }))
    ));
    assert!(el.source(5).is_some());
    assert!(matches!(el.run(), Step::Wait));
    assert!(el.source(5).is_none());
}

#[test]
fn a_wait_that_failed_ends_the_loop() {
    let mut server = Server::new();
    server.connect(10, "GET / HTTP/1.1\r\n\r\n");
    let waited: Result<&polling::Events, &str> = Err("interrupted for good");
    assert!(matches!(server.el.after_wait(waited), Err("interrupted for good")));
    assert!(matches!(server.state_of(10), Some(ClientState::Waiting)));
    assert_eq!(server.el.interest(10), Some(Interest::readable(10)));
    assert!(server.el.is_idle());
    let events = polling::Events::new();
    let waited: Result<&polling::Events, &str> = Ok(&events);
    assert!(matches!(server.el.after_wait(waited), Ok(asked) if asked.is_empty()));
}

#[test]
fn reactor_queues() {
    let mut reactor: Reactor<Units> = Reactor::new();
    assert!(reactor.is_idle());
    assert_eq!(reactor.next_task(), None);
    assert!(reactor.next_registration().is_none());
    reactor.schedule(1);
    reactor.schedule(2);
    reactor.retire(4);
    assert!(!reactor.is_idle());
    assert_eq!(reactor.next_task(), Some(4));
    assert_eq!(reactor.next_task(), Some(2));
    assert_eq!(reactor.next_task(), Some(1));
    assert_eq!(reactor.next_eviction(), Some(4));
    assert_eq!(reactor.modify(Interest::all(1)), Err(RegistrationError::NotRegistered));
    assert_eq!(reactor.add(Interest::none(1)), Ok(()));
    assert_eq!(reactor.add(Interest::none(1)), Err(RegistrationError::AlreadyRegistered));
    assert_eq!(reactor.modify(Interest::all(1)), Ok(()));
    assert_eq!(reactor.interest(1), Some(Interest::all(1)));
    let events = polling::Events::new();
    let mut el = EventLoop::new(reactor);
    assert!(el.wait_for_io(&events).is_empty());
}

#[test]
fn a_page_whose_file_is_gone_is_answered_with_404() {
    let mut server = Server::new();
    server.router.insert(Method::GET, "/gone", Route { code: 200, path: "static/gone.html".to_string() });
    server.connect(10, "GET /gone HTTP/1.1\r\n\r\n");
    server.readable(&[10]);
    server.settle();
    assert_eq!(server.reads, vec![(10, 200, "static/gone.html".to_string())]);
    server.finish_read(0);
    server.settle();
    server.finish_write(0);
    server.settle();
    assert_eq!(server.sent[&10], response("404 Not Found", b""));
    assert_eq!(server.closed, vec![10]);
}

#[test]
fn units_are_named_by_kind_and_identifier() {
    let mut reactor: Reactor<Units> = Reactor::new();
    let listener: Units = match AsyncTcpListener::bind("listening", 3, &mut reactor) {
        Ok(listener) => Unit::Listener(listener),
        Err(_) => panic!("a new reactor takes the listener"),
    };
    let client: Units = Unit::Client(reactor_core::async_io::client::ClientRequest::new(Socket(41), 41));
    assert_eq!(listener.name(), "TcpListener 3");
    assert_eq!(client.name(), "ClientRequest 41");
    assert_eq!(listener.id(), 3);
    assert_eq!(client.id(), 41);
    assert!(client.matches(Interest::readable(41)));
    assert!(!client.matches(Interest::readable(3)));
}
