use crate::executor::async_io::reactor::{Reactor, Registry};
use crate::multiplexer::{Interest, Multiplexer, RegistrationError};
use vstd::prelude::*;

verus! {

/// How one attempt at an operation that does not block came out.
pub enum Attempt<T, E> {
    /// It was carried out, with this result.
    Done(T),
    /// It would have had to block.
    WouldBlock,
    /// It failed with this error.
    Failed(E),
}

/// Where a cooperative operation stands after one attempt.
pub enum Progress<T, E> {
    /// The operation is over, with this result.
    Ready(Result<T, E>),
    /// The computation is suspended until the handle is ready; this is the
    /// interest to set on the readiness facility.
    Pending(Interest),
    /// The computation is suspended until a background operation ends.
    Parked,
    /// The computation cannot be suspended: the reactor does not know the
    /// handle.
    Refused(RegistrationError),
}

/// The registry after an attempt to read from `key`: where the attempt
/// would have blocked and the handle is registered, `waker` waits for the
/// handle to become readable. In every other case nothing changes.
pub open spec fn after_read<T, E, W>(
    registry: Registry<W>,
    key: usize,
    attempt: Attempt<T, E>,
    waker: W,
) -> Registry<W> {
    if attempt is WouldBlock && Multiplexer::spec_find(registry.registered, key) is Ok {
        registry.wake_on_readable(key, waker)
    } else {
        registry
    }
}

/// The registry after an attempt to write to `key`, as `after_read` for
/// the other direction.
pub open spec fn after_write<T, E, W>(
    registry: Registry<W>,
    key: usize,
    attempt: Attempt<T, E>,
    waker: W,
) -> Registry<W> {
    if attempt is WouldBlock && Multiplexer::spec_find(registry.registered, key) is Ok {
        registry.wake_on_writable(key, waker)
    } else {
        registry
    }
}

/// Where a read stands after an attempt: over where the attempt was carried
/// out or failed, suspended with the interest that the waiters of the
/// handle now demand where it would have blocked, refused where the reactor
/// does not know the handle.
pub open spec fn read_progress<T, E, W>(
    registry: Registry<W>,
    key: usize,
    attempt: Attempt<T, E>,
    waker: W,
) -> Progress<T, E> {
    match attempt {
        Attempt::Done(value) => Progress::Ready(Ok(value)),
        Attempt::Failed(error) => Progress::Ready(Err(error)),
        Attempt::WouldBlock => match Multiplexer::spec_find(registry.registered, key) {
            Ok(_) => Progress::Pending(registry.wake_on_readable(key, waker).demand(key)),
            Err(e) => Progress::Refused(e),
        },
    }
}

/// Where a write stands after an attempt, as `read_progress` for the other
/// direction.
pub open spec fn write_progress<T, E, W>(
    registry: Registry<W>,
    key: usize,
    attempt: Attempt<T, E>,
    waker: W,
) -> Progress<T, E> {
    match attempt {
        Attempt::Done(value) => Progress::Ready(Ok(value)),
        Attempt::Failed(error) => Progress::Ready(Err(error)),
        Attempt::WouldBlock => match Multiplexer::spec_find(registry.registered, key) {
            Ok(_) => Progress::Pending(registry.wake_on_writable(key, waker).demand(key)),
            Err(e) => Progress::Refused(e),
        },
    }
}

/// Takes the outcome of an attempt to read from `key` on behalf of the
/// computation that `waker` resumes.
pub fn poll_read<T, E, W>(key: usize, attempt: Attempt<T, E>, waker: W, reactor: &mut Reactor<W>) -> (p:
    Progress<T, E>)
    requires
        old(reactor).wf(),
    ensures
        final(reactor).wf(),
        final(reactor)@ == after_read(old(reactor)@, key, attempt, waker),
        p == read_progress(old(reactor)@, key, attempt, waker),
{
    match attempt {
        Attempt::Done(value) => Progress::Ready(Ok(value)),
        Attempt::Failed(error) => Progress::Ready(Err(error)),
        Attempt::WouldBlock => match reactor.wake_on_readable(key, waker) {
            Ok(interest) => Progress::Pending(interest),
            Err(e) => Progress::Refused(e),
        },
    }
}

/// Takes the outcome of an attempt to write to `key` on behalf of the
/// computation that `waker` resumes.
pub fn poll_write<T, E, W>(key: usize, attempt: Attempt<T, E>, waker: W, reactor: &mut Reactor<W>) -> (p:
    Progress<T, E>)
    requires
        old(reactor).wf(),
    ensures
        final(reactor).wf(),
        final(reactor)@ == after_write(old(reactor)@, key, attempt, waker),
        p == write_progress(old(reactor)@, key, attempt, waker),
{
    match attempt {
        Attempt::Done(value) => Progress::Ready(Ok(value)),
        Attempt::Failed(error) => Progress::Ready(Err(error)),
        Attempt::WouldBlock => match reactor.wake_on_writable(key, waker) {
            Ok(interest) => Progress::Pending(interest),
            Err(e) => Progress::Refused(e),
        },
    }
}

/// Takes the outcome of a look at a background operation on behalf of the
/// computation that `waker` resumes: where the operation has ended, the
/// computation goes on with its result; where it has not, the computation
/// is suspended and `waker` waits for the operation to end.
pub fn poll_offload<T, E, W>(attempt: Attempt<T, E>, waker: W, reactor: &mut Reactor<W>) -> (p:
    Progress<T, E>)
    ensures
        final(reactor)@ == (if attempt is WouldBlock {
            old(reactor)@.wake_on_offload(waker)
        } else {
            old(reactor)@
        }),
        p == (match attempt {
            Attempt::Done(value) => Progress::Ready(Ok(value)),
            Attempt::Failed(error) => Progress::Ready(Err(error)),
            Attempt::WouldBlock => Progress::Parked,
        }),
{
    match attempt {
        Attempt::Done(value) => Progress::Ready(Ok(value)),
        Attempt::Failed(error) => Progress::Ready(Err(error)),
        Attempt::WouldBlock => {
            reactor.wake_on_offload(waker);
            Progress::Parked
        },
    }
}

/// A connection of the cooperative model: the socket `S` and the key under
/// which the reactor knows it.
pub struct TcpClient<S> {
    pub stream: S,
    pub key: usize,
}

/// A read from a connection that is under way.
pub struct ReadFuture {
    pub key: usize,
}

/// A write to a connection that is under way.
pub struct WriteFuture {
    pub key: usize,
}

impl<S> TcpClient<S> {
    /// A connection on the socket `stream`, which the reactor knows as `key`.
    pub fn new(stream: S, key: usize) -> (client: TcpClient<S>)
        ensures
            client == (TcpClient { stream, key }),
    {
        TcpClient { stream, key }
    }

    /// A read from the connection.
    pub fn read(&self) -> (future: ReadFuture)
        ensures
            future.key == self.key,
    {
        ReadFuture { key: self.key }
    }

    /// A write to the connection.
    pub fn write(&self) -> (future: WriteFuture)
        ensures
            future.key == self.key,
    {
        WriteFuture { key: self.key }
    }

    /// Ends the connection: its registration and the wakers that wait for it
    /// leave the reactor, and the socket comes back to be closed. Where the
    /// reactor does not know the connection it says so.
    pub fn close<W>(self, reactor: &mut Reactor<W>) -> (r: (S, Result<(), RegistrationError>))
        requires
            old(reactor).wf(),
        ensures
            final(reactor).wf(),
            r.0 == self.stream,
            r.1 == Multiplexer::spec_find(old(reactor)@.registered, self.key),
            r.1 is Ok ==> final(reactor)@ == old(reactor)@.remove(self.key),
            r.1 is Err ==> final(reactor)@ == old(reactor)@,
    {
        let removed = reactor.remove(self.key);
        (self.stream, removed)
    }
}

impl ReadFuture {
    /// Takes the outcome of one attempt to read, as `poll_read` does.
    pub fn poll<E, W>(&self, attempt: Attempt<usize, E>, waker: W, reactor: &mut Reactor<W>) -> (p:
        Progress<usize, E>)
        requires
            old(reactor).wf(),
        ensures
            final(reactor).wf(),
            final(reactor)@ == after_read(old(reactor)@, self.key, attempt, waker),
            p == read_progress(old(reactor)@, self.key, attempt, waker),
    {
        poll_read(self.key, attempt, waker, reactor)
    }
}

impl WriteFuture {
    /// Takes the outcome of one attempt to write, as `poll_write` does.
    pub fn poll<E, W>(&self, attempt: Attempt<usize, E>, waker: W, reactor: &mut Reactor<W>) -> (p:
        Progress<usize, E>)
        requires
            old(reactor).wf(),
        ensures
            final(reactor).wf(),
            final(reactor)@ == after_write(old(reactor)@, self.key, attempt, waker),
            p == write_progress(old(reactor)@, self.key, attempt, waker),
    {
        poll_write(self.key, attempt, waker, reactor)
    }
}

} // verus!
