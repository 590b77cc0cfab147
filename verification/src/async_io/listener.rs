use crate::async_io::client::{Action, Client, ClientRequest, Job, Stage};
use crate::async_io::event_loop::{
    lemma_admitted_keeps, lemma_exactly_one_initial_dispatch, lemma_wait_evicts, EventLoop,
    LoopState,
};
use crate::async_io::event_handler::{EventHandler, Outcome};
use crate::async_io::reactor::{Reactor, ReactorState};
use crate::multiplexer::{Interest, Multiplexer, RegistrationError};
use crate::text::{decimal_text, numbered};
use vstd::prelude::*;

verus! {

/// Where a listener stands. `S` is the socket of an accepted connection.
pub enum ListenerState<S> {
    /// Registered for read readiness, waiting for a connection.
    Waiting,
    /// A connection was accepted: its socket and the identifier under which
    /// the readiness facility will know it.
    Accepting(S, usize),
    /// The listener is over.
    Closed,
}

/// A listening socket `L` that accepts connections on sockets `S`.
pub struct AsyncTcpListener<L, S> {
    pub listener: L,
    pub fd: usize,
    pub state: Option<ListenerState<S>>,
}

/// A unit of the handler table: the listener or one connection.
pub enum Unit<L, S, J> {
    Listener(AsyncTcpListener<L, S>),
    Client(ClientRequest<S, J>),
}

/// A unit as contracts see it.
pub enum UnitView<L, S, J> {
    Listener(AsyncTcpListener<L, S>),
    Client(Client<S, J>),
}

impl<L, S, J> View for Unit<L, S, J> {
    type V = UnitView<L, S, J>;

    open spec fn view(&self) -> UnitView<L, S, J> {
        match *self {
            Unit::Listener(listener) => UnitView::Listener(listener),
            Unit::Client(client) => UnitView::Client(client@),
        }
    }
}

/// What a turn of a unit asks of the caller.
pub enum UnitAction<S, J> {
    /// Nothing.
    Idle,
    /// What a connection asks for.
    Client(Action<S, J>),
    /// Accept the connection that is waiting on the listening socket and
    /// hand it to the listener.
    Accept,
    /// Set this interest again for the listening socket.
    Rearm(Interest),
    /// Close this socket: a connection that was accepted and never served.
    Drop(S),
    /// Report the error: the reactor refused what the listener asked of it.
    Refused(RegistrationError),
}

/// What a turn of a unit asks of the caller, as contracts see it.
pub enum UnitJob<S, J> {
    Idle,
    Client(Option<J>, Job<S>),
    Accept,
    Rearm(Interest),
    Drop(S),
    Refused(RegistrationError),
}

impl<S, J> View for UnitAction<S, J> {
    type V = UnitJob<S, J>;

    open spec fn view(&self) -> UnitJob<S, J> {
        match *self {
            UnitAction::Idle => UnitJob::Idle,
            UnitAction::Client(action) => UnitJob::Client(action.join, action.work@),
            UnitAction::Accept => UnitJob::Accept,
            UnitAction::Rearm(interest) => UnitJob::Rearm(interest),
            UnitAction::Drop(client) => UnitJob::Drop(client),
            UnitAction::Refused(error) => UnitJob::Refused(error),
        }
    }
}

/// What the outside hands back to a unit.
pub enum Completion<S, J> {
    /// The request was read and resolved to this status and path.
    Request(i32, String),
    /// The background operation that the unit asked for was started and is
    /// joined by this handle.
    Offloaded(J),
    /// The background read ended with this status, body and path.
    FileRead(i32, Vec<u8>, String),
    /// The background write ended and gives this socket back.
    ResponseWritten(S),
    /// A connection was accepted: its socket and its identifier.
    Accepted(S, usize),
    /// The readiness facility refused the socket that the unit asked to
    /// have registered.
    RegistrationFailed,
}

impl<L, S> AsyncTcpListener<L, S> {
    /// The turn on a readiness report: a listener that is told that its
    /// socket is readable asks for the waiting connection to be accepted.
    pub open spec fn on_event(self, event: Interest) -> bool {
        event.readable
    }

    /// The listener once a connection was accepted.
    pub open spec fn accepting(self, client: S, client_fd: usize) -> AsyncTcpListener<L, S> {
        AsyncTcpListener { state: Some(ListenerState::Accepting(client, client_fd)), ..self }
    }

    /// The socket that an accepted connection pushes out: that of an earlier
    /// one that was never processed.
    pub open spec fn displaced(self) -> Option<S> {
        match self.state {
            Some(ListenerState::Accepting(client, _)) => Some(client),
            _ => None,
        }
    }

    /// The processing pass. A listener that holds an accepted connection
    /// sets its read interest again, goes back to waiting, and registers the
    /// connection as a new unit, which makes it due for its first pass.
    /// Where the listener turns out not to be registered, the connection is
    /// registered all the same and the error is reported. Any other
    /// listener stays as it is.
    pub open spec fn on_poll<J>(self, reactor: ReactorState<UnitView<L, S, J>>) -> Outcome<
        UnitView<L, S, J>,
        UnitJob<S, J>,
    > {
        match self.state {
            Some(ListenerState::Accepting(client, client_fd)) => {
                let interest = Interest { key: self.fd, readable: true, writable: false };
                let armed = Multiplexer::spec_find(reactor.registered, self.fd) is Ok;
                let unit = UnitView::Client(
                    Client::<S, J> {
                        client: Some(client),
                        fd: client_fd,
                        started: false,
                        state: None,
                        wait_handle: None,
                    },
                );
                Outcome {
                    unit: UnitView::Listener(
                        AsyncTcpListener { state: Some(ListenerState::Waiting), ..self },
                    ),
                    reactor: (if armed {
                        reactor.arm(interest)
                    } else {
                        reactor
                    }).register(client_fd, unit),
                    action: match Multiplexer::spec_find(reactor.registered, self.fd) {
                        Ok(_) => UnitJob::Rearm(interest),
                        Err(error) => UnitJob::Refused(error),
                    },
                }
            },
            _ => Outcome { unit: UnitView::Listener(self), reactor, action: UnitJob::Idle },
        }
    }

    /// A listener on the socket `listener`, known to the readiness facility
    /// as `fd`, registered with the reactor for read readiness. Where the
    /// reactor refuses the registration the socket comes back.
    pub fn bind<U: View>(listener: L, fd: usize, reactor: &mut Reactor<U>) -> (r: Result<
        AsyncTcpListener<L, S>,
        (L, RegistrationError),
    >)
        requires
            old(reactor).wf(),
        ensures
            final(reactor).wf(),
            match r {
                Ok(unit) => {
                    &&& Multiplexer::spec_add(
                        old(reactor)@.registered,
                        Interest { key: fd, readable: true, writable: false },
                    ) is Ok
                    &&& unit == (AsyncTcpListener {
                        listener,
                        fd,
                        state: Some(ListenerState::<S>::Waiting),
                    })
                    &&& final(reactor)@ == old(reactor)@.arm(
                        Interest { key: fd, readable: true, writable: false },
                    )
                },
                Err(refused) => {
                    &&& Multiplexer::spec_add(
                        old(reactor)@.registered,
                        Interest { key: fd, readable: true, writable: false },
                    ) == Err::<(), RegistrationError>(refused.1)
                    &&& refused.0 == listener
                    &&& final(reactor)@ == old(reactor)@
                },
            },
    {
        match reactor.add(Interest::readable(fd)) {
            Ok(()) => Ok(AsyncTcpListener { listener, fd, state: Some(ListenerState::Waiting) }),
            Err(e) => Err((listener, e)),
        }
    }

    /// The identifier of the listener.
    pub fn id(&self) -> (id: usize)
        ensures
            id == self.fd,
    {
        self.fd
    }

    /// A name for the listener, for diagnostics.
    pub fn name(&self) -> (name: String)
        ensures
            name@ == "TcpListener "@ + decimal_text(self.fd as nat),
    {
        numbered("TcpListener ", self.fd)
    }

    /// Whether a readiness report asks for a connection to be accepted.
    pub fn event(&self, event: Interest) -> (accept: bool)
        ensures
            accept == self.on_event(event),
    {
        event.readable
    }

    /// Takes an accepted connection and makes the listener due for
    /// processing. An earlier connection that was accepted and not yet
    /// processed comes back, to be closed.
    pub fn accepted<U: View>(&mut self, client: S, client_fd: usize, reactor: &mut Reactor<U>) -> (r:
        Option<S>)
        ensures
            *final(self) == old(self).accepting(client, client_fd),
            final(reactor)@ == old(reactor)@.schedule(old(self).fd),
            r == old(self).displaced(),
    {
        let before = self.state.take();
        self.state = Some(ListenerState::Accepting(client, client_fd));
        reactor.schedule(self.fd);
        match before {
            Some(ListenerState::Accepting(earlier, _)) => Some(earlier),
            _ => None,
        }
    }

    /// The processing pass, as `on_poll` says.
    pub fn poll<J>(&mut self, reactor: &mut Reactor<Unit<L, S, J>>) -> (action: UnitAction<S, J>)
        requires
            old(reactor).wf(),
        ensures
            final(reactor).wf(),
            UnitView::<L, S, J>::Listener(*final(self)) == old(self).on_poll(old(reactor)@).unit,
            final(reactor)@ == old(self).on_poll(old(reactor)@).reactor,
            action@ == old(self).on_poll::<J>(old(reactor)@).action,
    {
        match self.state.take() {
            Some(ListenerState::Accepting(client, client_fd)) => {
                let interest = Interest::readable(self.fd);
                let armed = reactor.modify(interest);
                self.state = Some(ListenerState::Waiting);
                let unit = ClientRequest::new(client, client_fd);
                reactor.register(client_fd, Unit::Client(unit));
                match armed {
                    Ok(()) => UnitAction::Rearm(interest),
                    Err(error) => UnitAction::Refused(error),
                }
            },
            other => {
                self.state = other;
                UnitAction::Idle
            },
        }
    }
}

impl<L, S, J> UnitView<L, S, J> {
    /// The turn of a unit on an outcome from outside, or `None` where the
    /// unit does not expect that outcome.
    pub open spec fn on_input(
        self,
        input: Completion<S, J>,
        reactor: ReactorState<UnitView<L, S, J>>,
    ) -> Option<Outcome<UnitView<L, S, J>, UnitJob<S, J>>> {
        match (self, input) {
            (UnitView::Client(unit), Completion::Request(code, path)) => if unit.reads_request() {
                let turn = unit.read_request(code, path@, reactor);
                Some(
                    Outcome {
                        unit: UnitView::Client(turn.unit),
                        reactor: turn.reactor,
                        action: UnitJob::Idle,
                    },
                )
            } else {
                None
            },
            (UnitView::Client(unit), Completion::Offloaded(handle)) => Some(
                Outcome {
                    unit: UnitView::Client(Client { wait_handle: Some(handle), ..unit }),
                    reactor,
                    action: UnitJob::Idle,
                },
            ),
            (UnitView::Client(unit), Completion::FileRead(code, body, path)) => if unit.state
                == Some(Stage::<S>::WaitingReadFile) {
                let turn = unit.file_read(code, body@, path@, reactor);
                Some(
                    Outcome {
                        unit: UnitView::Client(turn.unit),
                        reactor: turn.reactor,
                        action: UnitJob::Idle,
                    },
                )
            } else {
                None
            },
            (UnitView::Client(unit), Completion::ResponseWritten(client)) => if unit.state == Some(
                Stage::<S>::WritingResponse,
            ) {
                let turn = unit.response_written(client, reactor);
                Some(
                    Outcome {
                        unit: UnitView::Client(turn.unit),
                        reactor: turn.reactor,
                        action: UnitJob::Idle,
                    },
                )
            } else {
                None
            },
            (UnitView::Client(unit), Completion::RegistrationFailed) => if unit.state == Some(
                Stage::<S>::Waiting,
            ) {
                let turn = unit.registration_failed(reactor);
                Some(
                    Outcome {
                        unit: UnitView::Client(turn.unit),
                        reactor: turn.reactor,
                        action: UnitJob::Client(None, turn.work),
                    },
                )
            } else {
                None
            },
            (UnitView::Listener(unit), Completion::Accepted(client, client_fd)) => Some(
                Outcome {
                    unit: UnitView::Listener(unit.accepting(client, client_fd)),
                    reactor: reactor.schedule(unit.fd),
                    action: match unit.displaced() {
                        Some(earlier) => UnitJob::Drop(earlier),
                        None => UnitJob::Idle,
                    },
                },
            ),
            _ => None,
        }
    }
}

impl<L, S, J> EventHandler for Unit<L, S, J> {
    type Action = UnitAction<S, J>;

    type Input = Completion<S, J>;

    open spec fn key(unit: UnitView<L, S, J>) -> usize {
        match unit {
            UnitView::Listener(listener) => listener.fd,
            UnitView::Client(client) => client.fd,
        }
    }

    /// The kind of the unit, then its identifier in decimal.
    open spec fn label(unit: UnitView<L, S, J>) -> Seq<char> {
        match unit {
            UnitView::Listener(listener) => "TcpListener "@ + decimal_text(listener.fd as nat),
            UnitView::Client(client) => "ClientRequest "@ + decimal_text(client.fd as nat),
        }
    }

    open spec fn on_event(
        unit: UnitView<L, S, J>,
        event: Interest,
        reactor: ReactorState<UnitView<L, S, J>>,
    ) -> Outcome<UnitView<L, S, J>, UnitJob<S, J>> {
        match unit {
            UnitView::Listener(listener) => Outcome {
                unit,
                reactor,
                action: if listener.on_event(event) {
                    UnitJob::Accept
                } else {
                    UnitJob::Idle
                },
            },
            UnitView::Client(client) => {
                let turn = client.event(event, reactor);
                Outcome {
                    unit: UnitView::Client(turn.unit),
                    reactor: turn.reactor,
                    action: UnitJob::Idle,
                }
            },
        }
    }

    open spec fn on_poll(unit: UnitView<L, S, J>, reactor: ReactorState<UnitView<L, S, J>>) -> Outcome<
        UnitView<L, S, J>,
        UnitJob<S, J>,
    > {
        match unit {
            UnitView::Listener(listener) => listener.on_poll(reactor),
            UnitView::Client(client) => {
                let turn = client.poll(reactor);
                Outcome {
                    unit: UnitView::Client(turn.unit),
                    reactor: turn.reactor,
                    action: UnitJob::Client(turn.join, turn.work),
                }
            },
        }
    }

    open spec fn on_input(
        unit: UnitView<L, S, J>,
        input: Completion<S, J>,
        reactor: ReactorState<UnitView<L, S, J>>,
    ) -> Option<Outcome<UnitView<L, S, J>, UnitJob<S, J>>> {
        unit.on_input(input, reactor)
    }

    fn id(&self) -> (id: usize) {
        match self {
            Unit::Listener(listener) => listener.id(),
            Unit::Client(client) => client.id(),
        }
    }

    fn name(&self) -> (name: String) {
        match self {
            Unit::Listener(listener) => listener.name(),
            Unit::Client(client) => client.name(),
        }
    }

    fn event(&mut self, event: Interest, reactor: &mut Reactor<Self>) -> (action: UnitAction<S, J>) {
        match self {
            Unit::Listener(listener) => {
                if listener.event(event) {
                    UnitAction::Accept
                } else {
                    UnitAction::Idle
                }
            },
            Unit::Client(client) => {
                client.event(event, reactor);
                UnitAction::Idle
            },
        }
    }

    fn poll(&mut self, reactor: &mut Reactor<Self>) -> (action: UnitAction<S, J>) {
        match self {
            Unit::Listener(listener) => listener.poll(reactor),
            Unit::Client(client) => UnitAction::Client(client.poll(reactor)),
        }
    }

    fn resume(&mut self, input: Completion<S, J>, reactor: &mut Reactor<Self>) -> (r: Result<
        UnitAction<S, J>,
        Completion<S, J>,
    >) {
        match self {
            Unit::Client(client) => match input {
                Completion::Request(code, path) => match client.read_request(code, path, reactor) {
                    Ok(()) => Ok(UnitAction::Idle),
                    Err(path) => Err(Completion::Request(code, path)),
                },
                Completion::Offloaded(handle) => {
                    client.offloaded(handle);
                    Ok(UnitAction::Idle)
                },
                Completion::FileRead(code, body, path) => match client.file_read(
                    code,
                    body,
                    path,
                    reactor,
                ) {
                    Ok(()) => Ok(UnitAction::Idle),
                    Err((body, path)) => Err(Completion::FileRead(code, body, path)),
                },
                Completion::ResponseWritten(socket) => match client.response_written(
                    socket,
                    reactor,
                ) {
                    Ok(()) => Ok(UnitAction::Idle),
                    Err(socket) => Err(Completion::ResponseWritten(socket)),
                },
                Completion::Accepted(socket, fd) => Err(Completion::Accepted(socket, fd)),
                Completion::RegistrationFailed => match client.registration_failed(reactor) {
                    Some(work) => Ok(UnitAction::Client(Action { join: None, work })),
                    None => Err(Completion::RegistrationFailed),
                },
            },
            Unit::Listener(listener) => match input {
                Completion::Accepted(socket, fd) => match listener.accepted(socket, fd, reactor) {
                    Some(earlier) => Ok(UnitAction::Drop(earlier)),
                    None => Ok(UnitAction::Idle),
                },
                other => Err(other),
            },
        }
    }
}

/// A connection that has made no pass yet makes nothing due and stages
/// nothing on its first pass: it only registers its socket.
pub proof fn lemma_first_pass_is_quiet<L, S, J>(unit: Client<S, J>)
    requires
        !unit.started,
        unit.state is None,
    ensures
        EventLoop::<Unit<L, S, J>>::quiet(UnitView::Client(unit)),
{
}

/// The closing pass. Whatever else is due, when the unit that a turn takes
/// up is a connection whose response is written and whose socket is back,
/// the turn leaves the connection closed and still in the table, its
/// identifier without registration, its eviction from the handler table
/// staged, and the connection due for one last pass.
pub proof fn lemma_closing_pass<L, S, J>(state: LoopState<UnitView<L, S, J>>, unit: Client<S, J>)
    requires
        state.reactor.ready.len() > 0,
        state.reactor.ready.last() == unit.fd,
        state.handle_register().sources.contains_key(unit.fd),
        state.handle_register().sources[unit.fd] == UnitView::<L, S, J>::Client(unit),
        unit.state is Some,
        unit.state->0 is Close,
    ensures
        EventLoop::<Unit<L, S, J>>::step(state) is Dispatched,
        EventLoop::<Unit<L, S, J>>::step(state)->Dispatched_0 == unit.fd,
        EventLoop::<Unit<L, S, J>>::next(state).sources.contains_key(unit.fd),
        EventLoop::<Unit<L, S, J>>::next(state).sources[unit.fd] == UnitView::<L, S, J>::Client(
            Client { state: Some(Stage::Closed), wait_handle: None, ..unit },
        ),
        !EventLoop::<Unit<L, S, J>>::next(state).reactor.registered.contains_key(unit.fd),
        EventLoop::<Unit<L, S, J>>::next(state).reactor.retiring == state.reactor.retiring.push(
            unit.fd,
        ),
        EventLoop::<Unit<L, S, J>>::next(state).reactor.ready
            == state.reactor.ready.drop_last().push(unit.fd),
        EventLoop::<Unit<L, S, J>>::next(state).reactor.staged.len() == 0,
{
    let id = unit.fd;
    let entered = state.handle_register();
    let reactor = ReactorState { ready: entered.reactor.ready.drop_last(), ..entered.reactor };
    let outcome = Unit::<L, S, J>::on_poll(entered.sources[id], reactor);
    assert(outcome.reactor.staged =~= Seq::empty());
    let polled = LoopState {
        reactor: outcome.reactor,
        sources: entered.sources.insert(id, outcome.unit),
    };
    assert(polled.handle_register() == polled);
}

/// Lifecycle termination. Take a connection that has come to the end of its
/// states: its response is written, its socket is back, and it is the one
/// unit due, the one that the next turn finds under its identifier. Its
/// next pass closes it and ends its registration; a last pass
/// finds it closed; and when the loop then gets ready to block, the
/// connection has left the handler table. Its identifier is then neither in
/// the table nor registered with the multiplexer.
pub proof fn lemma_lifecycle_termination<L, S, J>(
    state: LoopState<UnitView<L, S, J>>,
    unit: Client<S, J>,
)
    requires
        state.handle_register().sources.contains_key(unit.fd),
        state.handle_register().sources[unit.fd] == UnitView::<L, S, J>::Client(unit),
        unit.state is Some,
        unit.state->0 is Close,
        state.reactor.ready == seq![unit.fd],
    ensures
        EventLoop::<Unit<L, S, J>>::turns(state, 1).sources[unit.fd] == UnitView::<
            L,
            S,
            J,
        >::Client(
            Client { state: Some(Stage::Closed), wait_handle: None, ..unit },
        ),
        EventLoop::<Unit<L, S, J>>::step(EventLoop::<Unit<L, S, J>>::turns(state, 1))
            is Dispatched,
        EventLoop::<Unit<L, S, J>>::step(EventLoop::<Unit<L, S, J>>::turns(state, 2)) is Wait,
        !EventLoop::<Unit<L, S, J>>::turns(state, 3).sources.contains_key(unit.fd),
        !EventLoop::<Unit<L, S, J>>::turns(state, 3).reactor.registered.contains_key(unit.fd),
{
    let id = unit.fd;
    reveal_with_fuel(EventLoop::turns, 4);
    assert(EventLoop::<Unit<L, S, J>>::turns(state, 0) == state);
    // The pass that closes the connection.
    lemma_closing_pass(state, unit);
    let s1 = EventLoop::<Unit<L, S, J>>::turns(state, 1);
    assert(s1 == EventLoop::<Unit<L, S, J>>::next(state));
    assert(state.reactor.ready.drop_last() =~= Seq::<usize>::empty());
    assert(s1.reactor.ready =~= seq![id]);
    // The last pass.
    assert(s1.reactor.staged =~= Seq::empty());
    assert(s1.handle_register() == s1);
    assert(s1.reactor.ready.last() == id);
    let r1 = ReactorState { ready: s1.reactor.ready.drop_last(), ..s1.reactor };
    let o2 = Unit::<L, S, J>::on_poll(s1.sources[id], r1);
    assert(o2.unit == s1.sources[id]);
    assert(o2.reactor == r1);
    assert(s1.sources.insert(id, o2.unit) =~= s1.sources);
    let polled = LoopState { reactor: r1, sources: s1.sources };
    assert(polled.handle_register() == polled);
    let s2 = EventLoop::<Unit<L, S, J>>::turns(state, 2);
    assert(s2 == polled);
    assert(s2.reactor.ready =~= Seq::<usize>::empty());
    // The loop gets ready to block.
    assert(s2.reactor.retiring.last() == id);
    lemma_wait_evicts::<Unit<L, S, J>>(s2, id);
}

/// No blocking on a finished offload. Once a connection has taken the
/// outcome of a background operation, it is due for processing: the next
/// turn of the loop processes it and does not get ready to block.
pub proof fn lemma_outcome_is_due<L, S, J>(
    state: LoopState<UnitView<L, S, J>>,
    unit: Client<S, J>,
    input: Completion<S, J>,
)
    requires
        state.sources.contains_key(unit.fd),
        state.sources[unit.fd] == UnitView::<L, S, J>::Client(unit),
        input is FileRead || input is ResponseWritten || input is Request,
        UnitView::<L, S, J>::Client(unit).on_input(input, state.reactor) is Some,
    ensures
        ({
            let outcome = UnitView::<L, S, J>::Client(unit).on_input(input, state.reactor)->0;
            let after = LoopState {
                reactor: outcome.reactor,
                sources: state.sources.insert(unit.fd, outcome.unit),
            };
            &&& after.reactor.ready == state.reactor.ready.push(unit.fd)
            &&& EventLoop::<Unit<L, S, J>>::step(after) is Dispatched
            &&& EventLoop::<Unit<L, S, J>>::step(after)->Dispatched_0 == unit.fd
        }),
{
    let outcome = UnitView::<L, S, J>::Client(unit).on_input(input, state.reactor)->0;
    assert(outcome.reactor.ready == state.reactor.ready.push(unit.fd));
    assert(outcome.reactor.ready.last() == unit.fd);
    lemma_admitted_keeps(
        state.sources.insert(unit.fd, outcome.unit),
        outcome.reactor.staged,
        unit.fd,
    );
}

/// New connections get exactly one first pass. Connections that were
/// registered under distinct identifiers and have made no pass yet are
/// processed once each by the next turns, the one registered last first,
/// and are all in the handler table from the first of these turns on; where
/// nothing else was due, the loop is then ready to block. The first pass of
/// such a connection only registers its socket, so nothing needs to be
/// assumed of it.
pub proof fn lemma_new_connections_get_one_pass<L, S, J>(
    state: LoopState<UnitView<L, S, J>>,
    ids: Seq<usize>,
    j: nat,
)
    requires
        ids.no_duplicates(),
        state.reactor.staged.len() == ids.len(),
        forall|k: int|
            0 <= k < ids.len() ==> (#[trigger] state.reactor.staged[k]).0 == ids[k] && (
            state.reactor.staged[k].1 matches UnitView::Client(unit) && !unit.started
                && unit.state is None),
        state.reactor.ready.len() >= ids.len(),
        state.reactor.ready.skip(state.reactor.ready.len() - ids.len()) == ids,
        1 <= j <= ids.len(),
    ensures
        EventLoop::<Unit<L, S, J>>::step(
            EventLoop::<Unit<L, S, J>>::turns(state, (j - 1) as nat),
        ) is Dispatched,
        EventLoop::<Unit<L, S, J>>::step(
            EventLoop::<Unit<L, S, J>>::turns(state, (j - 1) as nat),
        )->Dispatched_0 == ids[ids.len() - j],
        forall|k: int|
            0 <= k < ids.len() ==> EventLoop::<Unit<L, S, J>>::turns(
                state,
                j,
            ).sources.contains_key(#[trigger] ids[k]),
        j == ids.len() && state.reactor.ready.len() == ids.len() ==> EventLoop::<
            Unit<L, S, J>,
        >::step(EventLoop::<Unit<L, S, J>>::turns(state, j)) is Wait,
{
    assert forall|k: int| 0 <= k < ids.len() implies (#[trigger] state.reactor.staged[k]).0
        == ids[k] && EventLoop::<Unit<L, S, J>>::quiet(state.reactor.staged[k].1) by {
        match state.reactor.staged[k].1 {
            UnitView::Client(unit) => {
                lemma_first_pass_is_quiet::<L, S, J>(unit);
            },
            UnitView::Listener(_) => {},
        }
    }
    lemma_exactly_one_initial_dispatch::<Unit<L, S, J>>(state, ids, j);
}

} // verus!
