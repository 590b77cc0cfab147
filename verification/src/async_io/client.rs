use crate::async_io::reactor::{Reactor, ReactorState};
use crate::async_io::slot::Slot;
use crate::multiplexer::{Interest, Multiplexer, RegistrationError};
use vstd::prelude::*;

verus! {

/// Where a connection stands in its life. `S` is the socket.
pub enum ClientState<S> {
    /// Registered for read readiness, waiting for the request to arrive.
    Waiting,
    /// The request has arrived and is to be read.
    ReadRequest,
    /// Parked while the file is read in the background.
    WaitingReadFile,
    /// The request asks for the file at this path, under this status.
    ReadResponseFile(i32, String),
    /// The response with this status, body and path is to be written.
    WriteResponse(i32, Vec<u8>, String),
    /// Parked while the response is written in the background.
    WritingResponse,
    /// The response is written; the socket is back and is to be closed.
    Close(S),
    /// The connection is over.
    Closed,
}

/// A state of a connection as contracts see it.
pub enum Stage<S> {
    Waiting,
    ReadRequest,
    WaitingReadFile,
    ReadResponseFile(i32, Seq<char>),
    WriteResponse(i32, Seq<u8>, Seq<char>),
    WritingResponse,
    Close(S),
    Closed,
}

impl<S> View for ClientState<S> {
    type V = Stage<S>;

    open spec fn view(&self) -> Stage<S> {
        match *self {
            ClientState::Waiting => Stage::Waiting,
            ClientState::ReadRequest => Stage::ReadRequest,
            ClientState::WaitingReadFile => Stage::WaitingReadFile,
            ClientState::ReadResponseFile(code, path) => Stage::ReadResponseFile(code, path@),
            ClientState::WriteResponse(code, body, path) => Stage::WriteResponse(
                code,
                body@,
                path@,
            ),
            ClientState::WritingResponse => Stage::WritingResponse,
            ClientState::Close(client) => Stage::Close(client),
            ClientState::Closed => Stage::Closed,
        }
    }
}

/// The work that a pass over a connection leaves to do outside.
pub enum Work<S> {
    /// Nothing.
    Idle,
    /// Register the socket with the readiness facility, with this interest.
    Register(Interest),
    /// Read the request from the socket, resolve it, and hand status and
    /// path to `read_request`.
    ReadRequest,
    /// Read the file at this path in the background, then hand its bytes to
    /// `file_read` under this status.
    ReadFile(i32, String),
    /// Write the response with this status, body and path to this socket in
    /// the background, then hand the socket to `response_written`.
    WriteResponse(S, i32, Vec<u8>, String),
    /// Remove this socket from the readiness facility, and close it once
    /// the loop has got ready to block: until then the eviction of the unit
    /// is staged, and the identifier of the socket must not be given out
    /// again.
    Close(S),
    /// Close this socket, which the readiness facility does not know.
    Release(S),
    /// Close this socket and report the error: the reactor refused what the
    /// unit asked of it, which the life of a unit does not allow for.
    Refused(S, RegistrationError),
}

/// Outside work as contracts see it.
pub enum Job<S> {
    Idle,
    Register(Interest),
    ReadRequest,
    ReadFile(i32, Seq<char>),
    WriteResponse(S, i32, Seq<u8>, Seq<char>),
    Close(S),
    Release(S),
    Refused(S, RegistrationError),
}

impl<S> View for Work<S> {
    type V = Job<S>;

    open spec fn view(&self) -> Job<S> {
        match *self {
            Work::Idle => Job::Idle,
            Work::Register(interest) => Job::Register(interest),
            Work::ReadRequest => Job::ReadRequest,
            Work::ReadFile(code, path) => Job::ReadFile(code, path@),
            Work::WriteResponse(client, code, body, path) => Job::WriteResponse(
                client,
                code,
                body@,
                path@,
            ),
            Work::Close(client) => Job::Close(client),
            Work::Release(client) => Job::Release(client),
            Work::Refused(client, error) => Job::Refused(client, error),
        }
    }
}

/// What a pass over a connection asks of the caller: the background
/// operation to join first, if one was in flight, and the work to do then.
pub struct Action<S, J> {
    pub join: Option<J>,
    pub work: Work<S>,
}

/// How the background read of a file came out.
pub enum FileRead {
    /// The file was read: its bytes.
    Contents(Vec<u8>),
    /// There is no such file.
    NotFound,
    /// The file could not be read.
    Failed,
}

/// The status and the body that answer a request once its file was read, or
/// was not: the bytes of the file under the status that the request
/// resolved to; no body under 404 where the file is missing; no body under
/// 500 where reading failed. A failed read is answered like any other, so
/// that the connection goes on to its end.
pub open spec fn answered(code: i32, read: FileRead) -> (i32, Seq<u8>) {
    match read {
        FileRead::Contents(bytes) => (code, bytes@),
        FileRead::NotFound => (404, Seq::empty()),
        FileRead::Failed => (500, Seq::empty()),
    }
}

/// The status and the body that answer a request once the read of its file
/// has come out, as `answered` says.
pub fn answer(code: i32, read: FileRead) -> (r: (i32, Vec<u8>))
    ensures
        r.0 == answered(code, read).0,
        r.1@ == answered(code, read).1,
{
    match read {
        FileRead::Contents(bytes) => (code, bytes),
        FileRead::NotFound => (404, Vec::new()),
        FileRead::Failed => (500, Vec::new()),
    }
}

/// One connection: the socket while the unit owns it, the identifier under
/// which it is registered, the pending state, and the background operation
/// in flight. `S` is the socket, `J` the handle by which a background
/// operation is joined.
pub struct ClientRequest<S, J> {
    pub client: Option<S>,
    pub fd: usize,
    started: bool,
    state: Slot<ClientState<S>>,
    pub wait_handle: Option<J>,
}

/// A connection as contracts see it.
pub struct Client<S, J> {
    pub client: Option<S>,
    pub fd: usize,
    /// Whether the first pass has been made.
    pub started: bool,
    /// The pending state. None before the first pass, and while the request
    /// is read.
    pub state: Option<Stage<S>>,
    pub wait_handle: Option<J>,
}

/// A connection, the reactor, and the action asked for, after one turn.
pub struct Turn<S, J, V> {
    pub unit: Client<S, J>,
    pub reactor: ReactorState<V>,
    pub join: Option<J>,
    pub work: Job<S>,
}

impl<S, J> Client<S, J> {
    /// How far the connection has come: every turn leaves this number as it
    /// is or raises it.
    pub open spec fn progress(self) -> nat {
        match self.state {
            None => if self.started {
                3
            } else {
                0
            },
            Some(Stage::Waiting) => 1,
            Some(Stage::ReadRequest) => 2,
            Some(Stage::ReadResponseFile(_, _)) => 4,
            Some(Stage::WaitingReadFile) => 5,
            Some(Stage::WriteResponse(_, _, _)) => 6,
            Some(Stage::WritingResponse) => 7,
            Some(Stage::Close(_)) => 8,
            Some(Stage::Closed) => 9,
        }
    }

    /// The processing pass.
    ///
    /// - Before the first pass: a unit with a socket registers it for read
    ///   readiness and waits; where the registration is refused it gives the
    ///   socket up, reports the error and is closed; a unit without a socket
    ///   is closed.
    /// - Request to read: the unit asks for the request to be read; without
    ///   a socket it is closed.
    /// - File to read: the unit asks for the background read and parks.
    /// - Response to write: the unit hands out its socket for the background
    ///   write and parks; without a socket it is closed.
    /// - Socket to close: the unit ends its registration, which stages its
    ///   eviction and a last pass, and hands out the socket to be closed.
    ///   Where the unit turns out not to be registered, it is evicted all
    ///   the same and reports the error.
    /// - Parked, waiting or closed: nothing happens.
    pub open spec fn poll<V>(self, reactor: ReactorState<V>) -> Turn<S, J, V> {
        match self.state {
            None => if self.started {
                Turn { unit: self, reactor, join: None, work: Job::Idle }
            } else {
                match self.client {
                    Some(client) => {
                        let interest = Interest { key: self.fd, readable: true, writable: false };
                        match Multiplexer::spec_add(reactor.registered, interest) {
                            Ok(_) => Turn {
                                unit: Client {
                                    started: true,
                                    state: Some(Stage::Waiting),
                                    ..self
                                },
                                reactor: reactor.arm(interest),
                                join: None,
                                work: Job::Register(interest),
                            },
                            Err(error) => Turn {
                                unit: Client {
                                    client: None,
                                    started: true,
                                    state: Some(Stage::Closed),
                                    ..self
                                },
                                reactor,
                                join: None,
                                work: Job::Refused(client, error),
                            },
                        }
                    },
                    None => Turn {
                        unit: Client { started: true, state: Some(Stage::Closed), ..self },
                        reactor,
                        join: None,
                        work: Job::Idle,
                    },
                }
            },
            Some(Stage::ReadRequest) => if self.client is Some {
                Turn {
                    unit: Client { started: true, state: None, ..self },
                    reactor,
                    join: None,
                    work: Job::ReadRequest,
                }
            } else {
                Turn {
                    unit: Client { state: Some(Stage::Closed), ..self },
                    reactor,
                    join: None,
                    work: Job::Idle,
                }
            },
            Some(Stage::ReadResponseFile(code, path)) => Turn {
                unit: Client { state: Some(Stage::WaitingReadFile), ..self },
                reactor,
                join: None,
                work: Job::ReadFile(code, path),
            },
            Some(Stage::WriteResponse(code, body, path)) => match self.client {
                Some(client) => Turn {
                    unit: Client {
                        client: None,
                        state: Some(Stage::WritingResponse),
                        wait_handle: None,
                        ..self
                    },
                    reactor,
                    join: self.wait_handle,
                    work: Job::WriteResponse(client, code, body, path),
                },
                None => Turn {
                    unit: Client { state: Some(Stage::Closed), wait_handle: None, ..self },
                    reactor,
                    join: self.wait_handle,
                    work: Job::Idle,
                },
            },
            Some(Stage::Close(client)) => Turn {
                unit: Client { state: Some(Stage::Closed), wait_handle: None, ..self },
                reactor: reactor.remove(self.fd),
                join: self.wait_handle,
                work: match Multiplexer::spec_find(reactor.registered, self.fd) {
                    Ok(_) => Job::Close(client),
                    Err(error) => Job::Refused(client, error),
                },
            },
            Some(_) => Turn { unit: self, reactor, join: None, work: Job::Idle },
        }
    }

    /// The turn on a readiness report: a unit that waits for its request
    /// and is told that its socket is readable goes on to read the request
    /// and becomes due for processing. Any other unit stays as it is.
    pub open spec fn event<V>(self, report: Interest, reactor: ReactorState<V>) -> Turn<S, J, V> {
        if self.state == Some(Stage::<S>::Waiting) && report.readable {
            Turn {
                unit: Client { state: Some(Stage::ReadRequest), ..self },
                reactor: reactor.schedule(self.fd),
                join: None,
                work: Job::Idle,
            }
        } else {
            Turn { unit: self, reactor, join: None, work: Job::Idle }
        }
    }

    /// Whether the unit is reading its request, and so expects its outcome.
    pub open spec fn reads_request(self) -> bool {
        self.state is None && self.started
    }

    /// The state that follows a resolved request: a bad request is answered
    /// at once, without a body; any other asks for its file first.
    pub open spec fn resolved(code: i32, path: Seq<char>) -> Stage<S> {
        if code == 400 {
            Stage::WriteResponse(code, Seq::empty(), path)
        } else {
            Stage::ReadResponseFile(code, path)
        }
    }

    /// The turn on the outcome of reading the request. A unit that reads
    /// its request goes on as `resolved` says and becomes due for
    /// processing. Any other unit stays as it is.
    pub open spec fn read_request<V>(
        self,
        code: i32,
        path: Seq<char>,
        reactor: ReactorState<V>,
    ) -> Turn<S, J, V> {
        if self.reads_request() {
            Turn {
                unit: Client { state: Some(Self::resolved(code, path)), ..self },
                reactor: reactor.schedule(self.fd),
                join: None,
                work: Job::Idle,
            }
        } else {
            Turn { unit: self, reactor, join: None, work: Job::Idle }
        }
    }

    /// The turn on the outcome of the background read. A unit that is
    /// parked for it goes on to write the response and becomes due for
    /// processing. Any other unit stays as it is.
    pub open spec fn file_read<V>(
        self,
        code: i32,
        body: Seq<u8>,
        path: Seq<char>,
        reactor: ReactorState<V>,
    ) -> Turn<S, J, V> {
        if self.state == Some(Stage::<S>::WaitingReadFile) {
            Turn {
                unit: Client { state: Some(Stage::WriteResponse(code, body, path)), ..self },
                reactor: reactor.schedule(self.fd),
                join: None,
                work: Job::Idle,
            }
        } else {
            Turn { unit: self, reactor, join: None, work: Job::Idle }
        }
    }

    /// The turn on the end of the background write. A unit that is parked
    /// for it takes the socket back, goes on to close it and becomes due
    /// for processing. Any other unit stays as it is.
    pub open spec fn response_written<V>(self, client: S, reactor: ReactorState<V>) -> Turn<
        S,
        J,
        V,
    > {
        if self.state == Some(Stage::<S>::WritingResponse) {
            Turn {
                unit: Client { state: Some(Stage::Close(client)), ..self },
                reactor: reactor.schedule(self.fd),
                join: None,
                work: Job::Idle,
            }
        } else {
            Turn { unit: self, reactor, join: None, work: Job::Idle }
        }
    }

    /// The turn on the news that the readiness facility refused the socket
    /// of a unit that has just registered it. The unit is closed without
    /// more ado: it gives the socket up, its registration ends, and its
    /// eviction and a last pass are staged. Any other unit stays as it is.
    pub open spec fn registration_failed<V>(self, reactor: ReactorState<V>) -> Turn<S, J, V> {
        if self.state == Some(Stage::<S>::Waiting) {
            Turn {
                unit: Client { client: None, state: Some(Stage::Closed), ..self },
                reactor: reactor.remove(self.fd),
                join: None,
                work: match self.client {
                    Some(client) => Job::Release(client),
                    None => Job::Idle,
                },
            }
        } else {
            Turn { unit: self, reactor, join: None, work: Job::Idle }
        }
    }

    /// The turn on one input.
    pub open spec fn step<V>(self, input: Input<S>, reactor: ReactorState<V>) -> Turn<S, J, V> {
        match input {
            Input::Poll => self.poll(reactor),
            Input::Event(report) => self.event(report, reactor),
            Input::Request(code, path) => self.read_request(code, path, reactor),
            Input::FileRead(code, body, path) => self.file_read(code, body, path, reactor),
            Input::ResponseWritten(client) => self.response_written(client, reactor),
            Input::RegistrationFailed => self.registration_failed(reactor),
        }
    }

    /// Where a unit and the reactor stand after a history of inputs, and
    /// what the last of them asked for.
    pub open spec fn run<V>(self, inputs: Seq<Input<S>>, reactor: ReactorState<V>) -> Turn<S, J, V>
        decreases inputs.len(),
    {
        if inputs.len() == 0 {
            Turn { unit: self, reactor, join: None, work: Job::Idle }
        } else {
            let before = self.run(inputs.drop_last(), reactor);
            before.unit.step(inputs.last(), before.reactor)
        }
    }
}

/// What can happen to a connection.
pub enum Input<S> {
    /// The scheduler processes the unit.
    Poll,
    /// Readiness is reported for its socket.
    Event(Interest),
    /// The request was read and resolved to this status and path.
    Request(i32, Seq<char>),
    /// The background read ended with this status, body and path.
    FileRead(i32, Seq<u8>, Seq<char>),
    /// The background write ended and gives this socket back.
    ResponseWritten(S),
    /// The readiness facility refused the socket.
    RegistrationFailed,
}

/// No turn takes a connection back: its progress stays or grows. A
/// processing pass that asks for work outside moves the connection on.
pub proof fn lemma_step_progress<S, J, V>(
    unit: Client<S, J>,
    input: Input<S>,
    reactor: ReactorState<V>,
)
    ensures
        unit.step(input, reactor).unit.progress() >= unit.progress(),
        input is Poll && !(unit.step(input, reactor).work is Idle) ==> unit.step(
            input,
            reactor,
        ).unit.progress() > unit.progress(),
        unit.step(input, reactor).unit.fd == unit.fd,
{
}

/// Along any history of inputs the progress of a connection never falls.
pub proof fn lemma_run_progress<S, J, V>(
    unit: Client<S, J>,
    inputs: Seq<Input<S>>,
    reactor: ReactorState<V>,
    n: int,
)
    requires
        0 <= n <= inputs.len(),
    ensures
        unit.run(inputs.take(n), reactor).unit.progress() <= unit.run(
            inputs,
            reactor,
        ).unit.progress(),
    decreases inputs.len(),
{
    if n < inputs.len() {
        let shorter = inputs.drop_last();
        assert(shorter.take(n) =~= inputs.take(n));
        lemma_run_progress(unit, shorter, reactor, n);
        let before = unit.run(shorter, reactor);
        lemma_step_progress(before.unit, inputs.last(), before.reactor);
    } else {
        assert(inputs.take(n) =~= inputs);
    }
}

/// No double dispatch: whatever readiness reports, completions and
/// processing passes a connection sees, no two processing passes that ask
/// for work outside find it in the same pending state. The connection has
/// moved on by the time the later one comes.
pub proof fn lemma_no_double_dispatch<S, J, V>(
    unit: Client<S, J>,
    inputs: Seq<Input<S>>,
    reactor: ReactorState<V>,
    i: int,
    j: int,
)
    requires
        0 <= i < j < inputs.len(),
        inputs[i] is Poll,
        inputs[j] is Poll,
        !(unit.run(inputs.take(i + 1), reactor).work is Idle),
        !(unit.run(inputs.take(j + 1), reactor).work is Idle),
    ensures
        unit.run(inputs.take(i), reactor).unit.progress() < unit.run(
            inputs.take(j),
            reactor,
        ).unit.progress(),
        unit.run(inputs.take(i), reactor).unit.state != unit.run(
            inputs.take(j),
            reactor,
        ).unit.state || unit.run(inputs.take(i), reactor).unit.started != unit.run(
            inputs.take(j),
            reactor,
        ).unit.started,
{
    let first = inputs.take(i + 1);
    assert(first.drop_last() =~= inputs.take(i));
    assert(first.last() == inputs[i]);
    let before = unit.run(inputs.take(i), reactor);
    lemma_step_progress(before.unit, Input::Poll, before.reactor);
    let later = inputs.take(j);
    assert(later.take(i + 1) =~= first);
    lemma_run_progress(unit, later, reactor, i + 1);
}

impl<S, J> View for ClientRequest<S, J> {
    type V = Client<S, J>;

    closed spec fn view(&self) -> Client<S, J> {
        Client {
            client: self.client,
            fd: self.fd,
            started: self.started,
            state: match self.state@ {
                Some(state) => Some(state@),
                None => None,
            },
            wait_handle: self.wait_handle,
        }
    }
}

impl<S, J> ClientRequest<S, J> {
    /// A new connection on the socket `client`, known to the readiness
    /// facility as `fd`. It has made no pass yet.
    pub fn new(client: S, fd: usize) -> (unit: ClientRequest<S, J>)
        ensures
            unit@ == (Client::<S, J> {
                client: Some(client),
                fd,
                started: false,
                state: None,
                wait_handle: None,
            }),
    {
        ClientRequest {
            client: Some(client),
            fd,
            started: false,
            state: Slot::new(),
            wait_handle: None,
        }
    }

    /// The identifier of the unit.
    pub fn id(&self) -> (id: usize)
        ensures
            id == self@.fd,
    {
        self.fd
    }

    /// A name for the unit, for diagnostics.
    pub fn name(&self) -> (name: String)
        ensures
            name@ == "ClientRequest "@ + crate::text::decimal_text(self@.fd as nat),
    {
        crate::text::numbered("ClientRequest ", self.fd)
    }

    /// The pending state, left in place.
    pub fn state(&self) -> (r: Option<&ClientState<S>>)
        ensures
            match r {
                Some(state) => self@.state == Some(state@),
                None => self@.state is None,
            },
    {
        self.state.peek()
    }

    /// Whether the connection is over.
    pub fn is_closed(&self) -> (b: bool)
        ensures
            b == (self@.state == Some(Stage::<S>::Closed)),
    {
        match self.state.peek() {
            Some(ClientState::Closed) => true,
            _ => false,
        }
    }

    fn set_state(&mut self, st: ClientState<S>)
        requires
            old(self)@.state is None,
        ensures
            final(self)@ == (Client { state: Some(st@), ..old(self)@ }),
    {
        let r = self.state.put(st);
        assert(r is Ok);
    }

    fn take_state(&mut self) -> (st: Option<ClientState<S>>)
        ensures
            final(self)@ == (Client { state: None, ..old(self)@ }),
            match st {
                Some(s) => old(self)@.state == Some(s@),
                None => old(self)@.state is None,
            },
    {
        self.state.take()
    }

    fn initialize<U: View>(&mut self, reactor: &mut Reactor<U>) -> (work: Work<S>)
        requires
            old(reactor).wf(),
            old(self)@.state is None,
            !old(self)@.started,
        ensures
            final(reactor).wf(),
            final(self)@ == old(self)@.poll(old(reactor)@).unit,
            final(reactor)@ == old(self)@.poll(old(reactor)@).reactor,
            work@ == old(self)@.poll(old(reactor)@).work,
    {
        self.started = true;
        match self.client.take() {
            Some(client) => {
                let interest = Interest::readable(self.fd);
                match reactor.add(interest) {
                    Ok(()) => {
                        self.client = Some(client);
                        self.set_state(ClientState::Waiting);
                        Work::Register(interest)
                    },
                    Err(error) => {
                        self.set_state(ClientState::Closed);
                        Work::Refused(client, error)
                    },
                }
            },
            None => {
                self.set_state(ClientState::Closed);
                Work::Idle
            },
        }
    }

    /// Takes the outcome of reading the request: the status `code` and the
    /// `path` of the file to serve. The unit goes on as `Client::resolved`
    /// says and becomes due for processing. A unit that is not reading its
    /// request refuses the outcome, hands the path back and stays as it is.
    pub fn read_request<U: View>(&mut self, code: i32, path: String, reactor: &mut Reactor<U>) -> (r:
        Result<(), String>)
        ensures
            r == (if old(self)@.reads_request() {
                Ok::<(), String>(())
            } else {
                Err::<(), String>(path)
            }),
            final(self)@ == old(self)@.read_request(code, path@, old(reactor)@).unit,
            final(reactor)@ == old(self)@.read_request(code, path@, old(reactor)@).reactor,
    {
        if !self.started || !self.state.is_empty() {
            return Err(path);
        }
        if code == 400 {
            self.set_state(ClientState::WriteResponse(code, Vec::new(), path));
        } else {
            self.set_state(ClientState::ReadResponseFile(code, path));
        }
        reactor.schedule(self.fd);
        Ok(())
    }

    /// Files the handle of the background operation that was started for
    /// this unit, to be joined before its result is used.
    pub fn offloaded(&mut self, handle: J)
        ensures
            final(self)@ == (Client { wait_handle: Some(handle), ..old(self)@ }),
    {
        self.wait_handle = Some(handle);
    }

    /// Takes the outcome of the background read: the response to write. A
    /// unit that is parked for it goes on to write the response and becomes
    /// due for processing. Any other unit refuses the outcome, hands body
    /// and path back and stays as it is.
    pub fn file_read<U: View>(
        &mut self,
        code: i32,
        body: Vec<u8>,
        path: String,
        reactor: &mut Reactor<U>,
    ) -> (r: Result<(), (Vec<u8>, String)>)
        ensures
            r == (if old(self)@.state == Some(Stage::<S>::WaitingReadFile) {
                Ok::<(), (Vec<u8>, String)>(())
            } else {
                Err::<(), (Vec<u8>, String)>((body, path))
            }),
            final(self)@ == old(self)@.file_read(code, body@, path@, old(reactor)@).unit,
            final(reactor)@ == old(self)@.file_read(code, body@, path@, old(reactor)@).reactor,
    {
        match self.take_state() {
            Some(ClientState::WaitingReadFile) => {
                self.set_state(ClientState::WriteResponse(code, body, path));
                reactor.schedule(self.fd);
                Ok(())
            },
            Some(other) => {
                self.set_state(other);
                Err((body, path))
            },
            None => Err((body, path)),
        }
    }

    /// Takes the socket back from the background write. A unit that is
    /// parked for it goes on to close the socket and becomes due for
    /// processing. Any other unit refuses the socket, hands it back and
    /// stays as it is.
    pub fn response_written<U: View>(&mut self, client: S, reactor: &mut Reactor<U>) -> (r: Result<
        (),
        S,
    >)
        ensures
            r == (if old(self)@.state == Some(Stage::<S>::WritingResponse) {
                Ok::<(), S>(())
            } else {
                Err::<(), S>(client)
            }),
            final(self)@ == old(self)@.response_written(client, old(reactor)@).unit,
            final(reactor)@ == old(self)@.response_written(client, old(reactor)@).reactor,
    {
        match self.take_state() {
            Some(ClientState::WritingResponse) => {
                self.set_state(ClientState::Close(client));
                reactor.schedule(self.fd);
                Ok(())
            },
            Some(other) => {
                self.set_state(other);
                Err(client)
            },
            None => Err(client),
        }
    }

    /// Takes the news that the readiness facility refused the socket, as
    /// `Client::registration_failed` says, and returns the work that is left:
    /// the socket to close. A unit that has not just registered its socket
    /// returns nothing and stays as it is.
    pub fn registration_failed<U: View>(&mut self, reactor: &mut Reactor<U>) -> (work: Option<
        Work<S>,
    >)
        requires
            old(reactor).wf(),
        ensures
            final(reactor).wf(),
            work is Some <==> old(self)@.state == Some(Stage::<S>::Waiting),
            final(self)@ == old(self)@.registration_failed(old(reactor)@).unit,
            final(reactor)@ == old(self)@.registration_failed(old(reactor)@).reactor,
            match work {
                Some(work) => work@ == old(self)@.registration_failed(old(reactor)@).work,
                None => true,
            },
    {
        match self.take_state() {
            Some(ClientState::Waiting) => {
                self.set_state(ClientState::Closed);
                match reactor.remove(self.fd) {
                    Ok(()) => {},
                    Err(_) => {
                        reactor.retire(self.fd);
                        assert(reactor@.registered =~= old(reactor)@.registered.remove(self.fd));
                    },
                }
                match self.client.take() {
                    Some(client) => Some(Work::Release(client)),
                    None => Some(Work::Idle),
                }
            },
            Some(other) => {
                self.set_state(other);
                None
            },
            None => None,
        }
    }

    fn write_response(&mut self, code: i32, body: Vec<u8>, path: String) -> (action: Action<S, J>)
        requires
            old(self)@.state is None,
        ensures
            final(self)@ == (Client {
                client: None,
                state: Some(
                    if old(self)@.client is Some {
                        Stage::WritingResponse
                    } else {
                        Stage::Closed
                    },
                ),
                wait_handle: None,
                ..old(self)@
            }),
            action.join == old(self)@.wait_handle,
            action.work@ == (match old(self)@.client {
                Some(client) => Job::WriteResponse(client, code, body@, path@),
                None => Job::Idle,
            }),
    {
        let join = self.wait_handle.take();
        match self.client.take() {
            Some(client) => {
                self.set_state(ClientState::WritingResponse);
                Action { join, work: Work::WriteResponse(client, code, body, path) }
            },
            None => {
                self.set_state(ClientState::Closed);
                Action { join, work: Work::Idle }
            },
        }
    }

    fn close<U: View>(&mut self, client: S, reactor: &mut Reactor<U>) -> (action: Action<S, J>)
        requires
            old(reactor).wf(),
            old(self)@.state is None,
        ensures
            final(reactor).wf(),
            final(self)@ == (Client {
                state: Some(Stage::Closed),
                wait_handle: None,
                ..old(self)@
            }),
            final(reactor)@ == old(reactor)@.remove(old(self)@.fd),
            action.join == old(self)@.wait_handle,
            action.work@ == (match Multiplexer::spec_find(
                old(reactor)@.registered,
                old(self)@.fd,
            ) {
                Ok(_) => Job::Close(client),
                Err(error) => Job::Refused(client, error),
            }),
    {
        let join = self.wait_handle.take();
        self.set_state(ClientState::Closed);
        match reactor.remove(self.fd) {
            Ok(()) => Action { join, work: Work::Close(client) },
            Err(error) => {
                reactor.retire(self.fd);
                assert(reactor@.registered =~= old(reactor)@.registered.remove(self.fd));
                Action { join, work: Work::Refused(client, error) }
            },
        }
    }

    /// The turn on a readiness report, as `Client::event` says.
    pub fn event<U: View>(&mut self, event: Interest, reactor: &mut Reactor<U>)
        ensures
            final(self)@ == old(self)@.event(event, old(reactor)@).unit,
            final(reactor)@ == old(self)@.event(event, old(reactor)@).reactor,
    {
        match self.take_state() {
            Some(ClientState::Waiting) => {
                if event.readable {
                    self.set_state(ClientState::ReadRequest);
                    reactor.schedule(self.fd);
                } else {
                    self.set_state(ClientState::Waiting);
                }
            },
            Some(s) => {
                self.set_state(s);
            },
            None => {},
        }
    }

    /// The processing pass, as `Client::poll` says.
    pub fn poll<U: View>(&mut self, reactor: &mut Reactor<U>) -> (action: Action<S, J>)
        requires
            old(reactor).wf(),
        ensures
            final(reactor).wf(),
            final(self)@ == old(self)@.poll(old(reactor)@).unit,
            final(reactor)@ == old(self)@.poll(old(reactor)@).reactor,
            action.join == old(self)@.poll(old(reactor)@).join,
            action.work@ == old(self)@.poll(old(reactor)@).work,
    {
        match self.take_state() {
            None => {
                if self.started {
                    Action { join: None, work: Work::Idle }
                } else {
                    let work = self.initialize(reactor);
                    Action { join: None, work }
                }
            },
            Some(ClientState::ReadRequest) => {
                if self.client.is_some() {
                    self.started = true;
                    Action { join: None, work: Work::ReadRequest }
                } else {
                    self.set_state(ClientState::Closed);
                    Action { join: None, work: Work::Idle }
                }
            },
            Some(ClientState::ReadResponseFile(code, path)) => {
                self.set_state(ClientState::WaitingReadFile);
                Action { join: None, work: Work::ReadFile(code, path) }
            },
            Some(ClientState::WriteResponse(code, contents, path)) => {
                self.write_response(code, contents, path)
            },
            Some(ClientState::Close(client)) => self.close(client, reactor),
            Some(parked) => {
                self.set_state(parked);
                Action { join: None, work: Work::Idle }
            },
        }
    }
}

} // verus!
