use crate::multiplexer::{Interest, Multiplexer, RegistrationError};
use vstd::prelude::*;

verus! {

/// The reactor of the state-machine model as contracts see it.
pub struct ReactorState<V> {
    /// The interest that is registered for each handle.
    pub registered: Map<usize, Interest>,
    /// The new units that wait to enter the handler table, oldest first.
    pub staged: Seq<(usize, V)>,
    /// The identifiers that wait to leave the handler table, oldest first.
    pub retiring: Seq<usize>,
    /// The identifiers that are due for processing; the last is next.
    pub ready: Seq<usize>,
}

impl<V> ReactorState<V> {
    /// Every registration is filed under its own key, and never under the
    /// reserved one.
    pub open spec fn wf(self) -> bool {
        forall|k: usize| #[trigger]
            self.registered.contains_key(k) ==> self.registered[k].key == k && k
                != crate::multiplexer::reserved_key()
    }

    /// The reactor once `id` is due for processing.
    pub open spec fn schedule(self, id: usize) -> ReactorState<V> {
        ReactorState { ready: self.ready.push(id), ..self }
    }

    /// The reactor once the handle of `interest` is registered with it, or
    /// once its registration is changed to it.
    pub open spec fn arm(self, interest: Interest) -> ReactorState<V> {
        ReactorState { registered: self.registered.insert(interest.key, interest), ..self }
    }

    /// The reactor once `id` is removed: its registration is gone, it waits
    /// to leave the handler table, and it is due for one last pass.
    pub open spec fn remove(self, id: usize) -> ReactorState<V> {
        ReactorState {
            registered: self.registered.remove(id),
            retiring: self.retiring.push(id),
            ready: self.ready.push(id),
            ..self
        }
    }

    /// The reactor once `unit` is registered under `id`: the unit waits to
    /// enter the handler table and is due for its first pass. Nothing else
    /// changes; an eviction that is staged for the identifier stays staged.
    pub open spec fn register(self, id: usize, unit: V) -> ReactorState<V> {
        ReactorState {
            staged: self.staged.push((id, unit)),
            ready: self.ready.push(id),
            ..self
        }
    }
}

/// The reactor of the state-machine model: the interest registered for each
/// handle, and the queues through which units ask the event loop for work.
pub struct Reactor<U> {
    poller: Multiplexer,
    register: Vec<(usize, U)>,
    unregister: Vec<usize>,
    tasks: Vec<usize>,
}

/// The staged units, each seen through its view.
pub open spec fn staged_views<U: View>(staged: Seq<(usize, U)>) -> Seq<(usize, U::V)> {
    Seq::new(staged.len(), |i: int| (staged[i].0, staged[i].1@))
}

impl<U: View> View for Reactor<U> {
    type V = ReactorState<U::V>;

    closed spec fn view(&self) -> ReactorState<U::V> {
        ReactorState {
            registered: self.poller@,
            staged: staged_views(self.register@),
            retiring: self.unregister@,
            ready: self.tasks@,
        }
    }
}

impl<U: View> Reactor<U> {
    /// The invariant of the reactor, see `ReactorState::wf`.
    pub open spec fn wf(&self) -> bool {
        self@.wf()
    }

    /// A reactor without registrations, with empty queues.
    pub fn new() -> (r: Reactor<U>)
        ensures
            r.wf(),
            r@.registered == Map::<usize, Interest>::empty(),
            r@.staged == Seq::<(usize, U::V)>::empty(),
            r@.retiring == Seq::<usize>::empty(),
            r@.ready == Seq::<usize>::empty(),
    {
        let r = Reactor {
            poller: Multiplexer::new(),
            register: Vec::new(),
            unregister: Vec::new(),
            tasks: Vec::new(),
        };
        assert(r@.staged =~= Seq::<(usize, U::V)>::empty());
        r
    }

    /// Registers a handle with its initial interest. A handle that is
    /// already registered, or the reserved key, is refused.
    pub fn add(&mut self, interest: Interest) -> (r: Result<(), RegistrationError>)
        requires
            old(self).wf(),
        ensures
            final(self).wf(),
            r == Multiplexer::spec_add(old(self)@.registered, interest),
            r is Ok ==> final(self)@ == old(self)@.arm(interest),
            r is Err ==> final(self)@ == old(self)@,
    {
        self.poller.add(interest)
    }

    /// Changes the interest of a registered handle. A handle that is not
    /// registered is refused.
    pub fn modify(&mut self, interest: Interest) -> (r: Result<(), RegistrationError>)
        requires
            old(self).wf(),
        ensures
            final(self).wf(),
            r == Multiplexer::spec_find(old(self)@.registered, interest.key),
            r is Ok ==> final(self)@ == old(self)@.arm(interest),
            r is Err ==> final(self)@ == old(self)@,
    {
        self.poller.modify(interest)
    }

    /// Makes `id` due for processing.
    pub fn schedule(&mut self, id: usize)
        ensures
            final(self)@ == old(self)@.schedule(id),
    {
        self.tasks.push(id);
    }

    /// Ends the registration of `id`, stages its eviction from the handler
    /// table and makes it due for one last pass. An identifier that is not
    /// registered is refused and changes nothing.
    pub fn remove(&mut self, id: usize) -> (r: Result<(), RegistrationError>)
        requires
            old(self).wf(),
        ensures
            final(self).wf(),
            r == Multiplexer::spec_find(old(self)@.registered, id),
            r is Ok ==> final(self)@ == old(self)@.remove(id),
            r is Err ==> final(self)@ == old(self)@,
    {
        match self.poller.remove(id) {
            Ok(()) => {
                self.unregister.push(id);
                self.schedule(id);
                Ok(())
            },
            Err(e) => Err(e),
        }
    }

    /// Stages the eviction of `id` from the handler table and makes it due
    /// for one last pass, whatever is registered for it.
    pub fn retire(&mut self, id: usize)
        ensures
            final(self)@ == (ReactorState {
                retiring: old(self)@.retiring.push(id),
                ready: old(self)@.ready.push(id),
                ..old(self)@
            }),
    {
        self.unregister.push(id);
        self.schedule(id);
    }

    /// Stages `client` to enter the handler table under `id` and makes it
    /// due for its first pass. The identifier should be free: while an
    /// eviction is staged for it, the unit would leave the table with its
    /// predecessor.
    pub fn register(&mut self, id: usize, client: U)
        ensures
            final(self)@ == old(self)@.register(id, client@),
    {
        self.schedule(id);
        self.register.push((id, client));
        assert(self@.staged =~= old(self)@.staged.push((id, client@)));
    }

    /// Takes the identifier that is processed next, if any is due.
    pub fn next_task(&mut self) -> (id: Option<usize>)
        ensures
            old(self)@.ready.len() == 0 ==> id is None && final(self)@ == old(self)@,
            old(self)@.ready.len() > 0 ==> id == Some(old(self)@.ready.last()) && final(self)@ == (
            ReactorState { ready: old(self)@.ready.drop_last(), ..old(self)@ }),
    {
        self.tasks.pop()
    }

    /// Whether no identifier is due for processing.
    pub fn is_idle(&self) -> (b: bool)
        ensures
            b == (self@.ready.len() == 0),
    {
        self.tasks.is_empty()
    }

    /// Takes the unit that was staged last, if any waits to enter the table.
    pub fn next_registration(&mut self) -> (r: Option<(usize, U)>)
        ensures
            old(self)@.staged.len() == 0 ==> r is None && final(self)@ == old(self)@,
            old(self)@.staged.len() > 0 ==> match r {
                Some(pair) => (pair.0, pair.1@) == old(self)@.staged.last() && final(self)@ == (
                ReactorState { staged: old(self)@.staged.drop_last(), ..old(self)@ }),
                None => false,
            },
    {
        let r = self.register.pop();
        assert(self@.staged =~= if old(self)@.staged.len() > 0 {
            old(self)@.staged.drop_last()
        } else {
            old(self)@.staged
        });
        r
    }

    /// Takes the identifier whose eviction was staged last, if any waits.
    pub fn next_eviction(&mut self) -> (id: Option<usize>)
        ensures
            old(self)@.retiring.len() == 0 ==> id is None && final(self)@ == old(self)@,
            old(self)@.retiring.len() > 0 ==> id == Some(old(self)@.retiring.last())
                && final(self)@ == (ReactorState {
                retiring: old(self)@.retiring.drop_last(),
                ..old(self)@
            }),
    {
        self.unregister.pop()
    }

    /// Records that readiness was reported for `key`: what was registered
    /// for it is used up.
    pub fn deliver(&mut self, key: usize)
        requires
            old(self).wf(),
        ensures
            final(self).wf(),
            final(self)@ == (ReactorState {
                registered: Multiplexer::spec_deliver(old(self)@.registered, key),
                ..old(self)@
            }),
    {
        self.poller.deliver(key);
    }

    /// The interest that is registered for `key`, if any is.
    pub fn interest(&self, key: usize) -> (r: Option<Interest>)
        ensures
            r == (if self@.registered.contains_key(key) {
                Some(self@.registered[key])
            } else {
                None
            }),
    {
        self.poller.interest(key)
    }
}

} // verus!
