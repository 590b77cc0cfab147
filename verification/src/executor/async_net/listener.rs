use crate::executor::async_io::reactor::Reactor;
use crate::executor::async_net::client::{
    after_read, poll_read, read_progress, Attempt, Progress, TcpClient,
};
use crate::multiplexer::{Interest, Multiplexer, RegistrationError};
use vstd::prelude::*;

verus! {

/// A listening socket `L` of the cooperative model, and the key under which
/// the reactor knows it.
pub struct TcpListener<L> {
    pub inner: L,
    pub key: usize,
}

/// An accept on a listening socket that is under way.
pub struct Accept {
    pub key: usize,
}

/// What an accept hands to the caller: the connection on the accepted
/// socket, and the address of the peer as the attempt gave it.
pub open spec fn accepted<S, A, E>(attempt: Attempt<(S, usize, A), E>) -> Attempt<
    (TcpClient<S>, A),
    E,
> {
    match attempt {
        Attempt::Done(found) => Attempt::Done((TcpClient { stream: found.0, key: found.1 }, found.2)),
        Attempt::WouldBlock => Attempt::WouldBlock,
        Attempt::Failed(error) => Attempt::Failed(error),
    }
}

impl<L> TcpListener<L> {
    /// A listener on the socket `inner`, which the reactor will know as
    /// `key`.
    pub fn bind(inner: L, key: usize) -> (listener: TcpListener<L>)
        ensures
            listener == (TcpListener { inner, key }),
    {
        TcpListener { inner, key }
    }

    /// Starts an accept: registers the listening socket with the reactor
    /// and returns the interest to set on the readiness facility. A socket
    /// that is already registered is refused.
    pub fn accept<W>(&self, reactor: &mut Reactor<W>) -> (r: Result<
        (Accept, Interest),
        RegistrationError,
    >)
        requires
            old(reactor).wf(),
        ensures
            final(reactor).wf(),
            match r {
                Ok(started) => {
                    &&& Multiplexer::spec_add(
                        old(reactor)@.registered,
                        old(reactor)@.demand(self.key),
                    ) is Ok
                    &&& started.0.key == self.key
                    &&& started.1 == old(reactor)@.demand(self.key)
                    &&& final(reactor)@ == old(reactor)@.add(self.key)
                },
                Err(e) => {
                    &&& Multiplexer::spec_add(
                        old(reactor)@.registered,
                        old(reactor)@.demand(self.key),
                    ) == Err::<(), RegistrationError>(e)
                    &&& final(reactor)@ == old(reactor)@
                },
            },
    {
        match reactor.add(self.key) {
            Ok(interest) => Ok((Accept { key: self.key }, interest)),
            Err(e) => Err(e),
        }
    }
}

impl Accept {
    /// Takes the outcome of one attempt to accept: the socket, its key and
    /// the address of the peer. An accepted socket becomes a connection; an
    /// attempt that would have blocked suspends the computation until the
    /// listening socket is readable.
    pub fn poll<S, A, E, W>(
        &self,
        attempt: Attempt<(S, usize, A), E>,
        waker: W,
        reactor: &mut Reactor<W>,
    ) -> (p: Progress<(TcpClient<S>, A), E>)
        requires
            old(reactor).wf(),
        ensures
            final(reactor).wf(),
            final(reactor)@ == after_read(old(reactor)@, self.key, accepted(attempt), waker),
            p == read_progress(old(reactor)@, self.key, accepted(attempt), waker),
    {
        let attempt = match attempt {
            Attempt::Done((stream, key, address)) => Attempt::Done(
                (TcpClient::new(stream, key), address),
            ),
            Attempt::WouldBlock => Attempt::WouldBlock,
            Attempt::Failed(error) => Attempt::Failed(error),
        };
        poll_read(self.key, attempt, waker, reactor)
    }

    /// Ends the accept: the registration of the listening socket and the
    /// wakers that wait for it leave the reactor. Where the reactor does not
    /// know the socket it says so.
    pub fn close<W>(self, reactor: &mut Reactor<W>) -> (r: Result<(), RegistrationError>)
        requires
            old(reactor).wf(),
        ensures
            final(reactor).wf(),
            r == Multiplexer::spec_find(old(reactor)@.registered, self.key),
            r is Ok ==> final(reactor)@ == old(reactor)@.remove(self.key),
            r is Err ==> final(reactor)@ == old(reactor)@,
    {
        reactor.remove(self.key)
    }
}

} // verus!
