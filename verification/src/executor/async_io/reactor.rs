use crate::multiplexer::{delivered, reports, reserved_key, Interest, Multiplexer, RegistrationError};
use std::collections::HashMap;
use vstd::prelude::*;

verus! {

/// The reactor of the cooperative model as contracts see it: the wakers that
/// wait for each handle to become readable or writable, the interest that
/// is registered for each handle, and the wakers that wait for a background
/// operation to end.
pub struct Registry<W> {
    pub readable: Map<usize, Seq<W>>,
    pub writable: Map<usize, Seq<W>>,
    pub registered: Map<usize, Interest>,
    pub offloaded: Seq<W>,
}

impl<W> Registry<W> {
    /// The union of the directions in which some waker waits for `key`.
    pub open spec fn demand(self, key: usize) -> Interest {
        Interest {
            key,
            readable: self.readable.contains_key(key),
            writable: self.writable.contains_key(key),
        }
    }

    /// Waiters exist only for registered handles, no list of waiters is
    /// empty, and the interest registered for a handle is exactly its demand.
    pub open spec fn wf(self) -> bool {
        &&& forall|k: usize| #[trigger]
            self.registered.contains_key(k) ==> k != reserved_key() && self.registered[k]
                == self.demand(k)
        &&& forall|k: usize| #[trigger]
            self.readable.contains_key(k) ==> self.registered.contains_key(k)
                && self.readable[k].len() > 0
        &&& forall|k: usize| #[trigger]
            self.writable.contains_key(k) ==> self.registered.contains_key(k)
                && self.writable[k].len() > 0
    }

    /// The wakers that wait for `key` to become readable, oldest first.
    pub open spec fn readers(self, key: usize) -> Seq<W> {
        if self.readable.contains_key(key) {
            self.readable[key]
        } else {
            Seq::empty()
        }
    }

    /// The wakers that wait for `key` to become writable, oldest first.
    pub open spec fn writers(self, key: usize) -> Seq<W> {
        if self.writable.contains_key(key) {
            self.writable[key]
        } else {
            Seq::empty()
        }
    }

    /// The registry once `key` has been registered.
    pub open spec fn add(self, key: usize) -> Registry<W> {
        Registry { registered: self.registered.insert(key, self.demand(key)), ..self }
    }

    /// The registry once `key` has been removed: its registration and all
    /// its waiters are gone.
    pub open spec fn remove(self, key: usize) -> Registry<W> {
        Registry {
            readable: self.readable.remove(key),
            writable: self.writable.remove(key),
            registered: self.registered.remove(key),
            offloaded: self.offloaded,
        }
    }

    /// The registry once `waker` waits for `key` to become readable.
    pub open spec fn wake_on_readable(self, key: usize, waker: W) -> Registry<W> {
        Registry {
            readable: self.readable.insert(key, self.readers(key).push(waker)),
            writable: self.writable,
            registered: self.registered.insert(
                key,
                Interest { key, readable: true, writable: self.writable.contains_key(key) },
            ),
            offloaded: self.offloaded,
        }
    }

    /// The registry once `waker` waits for `key` to become writable.
    pub open spec fn wake_on_writable(self, key: usize, waker: W) -> Registry<W> {
        Registry {
            readable: self.readable,
            writable: self.writable.insert(key, self.writers(key).push(waker)),
            registered: self.registered.insert(
                key,
                Interest { key, readable: self.readable.contains_key(key), writable: true },
            ),
            offloaded: self.offloaded,
        }
    }

    /// The wakers that one readiness report releases: those that wait for a
    /// direction that the report satisfies, readers before writers. A report
    /// for an unregistered handle releases none.
    pub open spec fn released(self, report: Interest) -> Seq<W> {
        if self.registered.contains_key(report.key) {
            (if report.readable {
                self.readers(report.key)
            } else {
                Seq::empty()
            }) + (if report.writable {
                self.writers(report.key)
            } else {
                Seq::empty()
            })
        } else {
            Seq::empty()
        }
    }

    /// The registry after one readiness report: the released wakers are
    /// gone and the registered interest is what the remaining ones demand.
    pub open spec fn fire(self, report: Interest) -> Registry<W> {
        if self.registered.contains_key(report.key) {
            let readable = if report.readable {
                self.readable.remove(report.key)
            } else {
                self.readable
            };
            let writable = if report.writable {
                self.writable.remove(report.key)
            } else {
                self.writable
            };
            Registry {
                readable,
                writable,
                registered: self.registered.insert(
                    report.key,
                    Interest {
                        key: report.key,
                        readable: readable.contains_key(report.key),
                        writable: writable.contains_key(report.key),
                    },
                ),
                offloaded: self.offloaded,
            }
        } else {
            self
        }
    }

    /// The interest to set again after one report, if wakers still wait for
    /// the handle: the report used up what was registered for it.
    pub open spec fn renewed(self, report: Interest) -> Seq<Interest> {
        let after = self.fire(report);
        if self.registered.contains_key(report.key) && !after.demand(report.key).is_none() {
            seq![after.demand(report.key)]
        } else {
            Seq::empty()
        }
    }

    /// The registry after a sequence of readiness reports, taken in order.
    pub open spec fn drain(self, reports: Seq<Interest>) -> Registry<W>
        decreases reports.len(),
    {
        if reports.len() == 0 {
            self
        } else {
            self.drain(reports.drop_last()).fire(reports.last())
        }
    }

    /// The wakers that a sequence of readiness reports releases, in order.
    pub open spec fn drained(self, reports: Seq<Interest>) -> Seq<W>
        decreases reports.len(),
    {
        if reports.len() == 0 {
            Seq::empty()
        } else {
            self.drained(reports.drop_last()) + self.drain(reports.drop_last()).released(
                reports.last(),
            )
        }
    }

    /// The interests to set again after a sequence of readiness reports.
    pub open spec fn rearmed(self, reports: Seq<Interest>) -> Seq<Interest>
        decreases reports.len(),
    {
        if reports.len() == 0 {
            Seq::empty()
        } else {
            self.rearmed(reports.drop_last()) + self.drain(reports.drop_last()).renewed(
                reports.last(),
            )
        }
    }

    /// The registry once `waker` waits for a background operation to end.
    pub open spec fn wake_on_offload(self, waker: W) -> Registry<W> {
        Registry { offloaded: self.offloaded.push(waker), ..self }
    }

    /// The registry once the wakers that wait for background operations
    /// have been released.
    pub open spec fn released_offloads(self) -> Registry<W> {
        Registry { offloaded: Seq::empty(), ..self }
    }

    /// True when some waker waits, for a handle or for a background
    /// operation.
    pub open spec fn waiting(self) -> bool {
        self.readable.len() > 0 || self.writable.len() > 0 || self.offloaded.len() > 0
    }
}

/// One step in the history of a registry.
pub enum Change<W> {
    /// A handle is registered.
    Add(usize),
    /// A handle is removed.
    Remove(usize),
    /// A computation suspends until the handle is readable.
    WaitReadable(usize, W),
    /// A computation suspends until the handle is writable.
    WaitWritable(usize, W),
    /// Readiness is reported, and the wakers that it releases resume.
    Report(Interest),
    /// A computation suspends until a background operation ends.
    WaitOffload(W),
    /// The wakers that wait for background operations are released.
    OffloadsDone,
}

impl<W> Registry<W> {
    /// The registry after one step. A step that the reactor refuses leaves
    /// it as it was.
    pub open spec fn apply(self, change: Change<W>) -> Registry<W> {
        match change {
            Change::Add(key) => if Multiplexer::spec_add(self.registered, self.demand(key)) is Ok {
                self.add(key)
            } else {
                self
            },
            Change::Remove(key) => if Multiplexer::spec_find(self.registered, key) is Ok {
                self.remove(key)
            } else {
                self
            },
            Change::WaitReadable(key, waker) => if Multiplexer::spec_find(self.registered, key) is Ok {
                self.wake_on_readable(key, waker)
            } else {
                self
            },
            Change::WaitWritable(key, waker) => if Multiplexer::spec_find(self.registered, key) is Ok {
                self.wake_on_writable(key, waker)
            } else {
                self
            },
            Change::Report(report) => self.fire(report),
            Change::WaitOffload(waker) => self.wake_on_offload(waker),
            Change::OffloadsDone => self.released_offloads(),
        }
    }

    /// The registry after a history of steps, taken in order.
    pub open spec fn apply_all(self, changes: Seq<Change<W>>) -> Registry<W>
        decreases changes.len(),
    {
        if changes.len() == 0 {
            self
        } else {
            self.apply_all(changes.drop_last()).apply(changes.last())
        }
    }
}

/// No single step breaks the invariant of the registry.
pub proof fn lemma_apply_preserves_wf<W>(registry: Registry<W>, change: Change<W>)
    requires
        registry.wf(),
    ensures
        registry.apply(change).wf(),
{
}

/// Interest accuracy: after any history of registrations, removals, suspensions
/// and readiness reports, the interest registered for a handle is exactly the
/// union of the directions in which a waker still waits for it, and wakers
/// wait only for handles that are registered.
pub proof fn lemma_interest_accuracy<W>(registry: Registry<W>, changes: Seq<Change<W>>, key: usize)
    requires
        registry.wf(),
    ensures
        registry.apply_all(changes).wf(),
        registry.apply_all(changes).registered.contains_key(key) ==> registry.apply_all(
            changes,
        ).registered[key] == registry.apply_all(changes).demand(key),
        !registry.apply_all(changes).registered.contains_key(key) ==> registry.apply_all(
            changes,
        ).demand(key).is_none(),
    decreases changes.len(),
{
    if changes.len() > 0 {
        lemma_interest_accuracy(registry, changes.drop_last(), key);
        lemma_apply_preserves_wf(registry.apply_all(changes.drop_last()), changes.last());
    }
}

/// Readiness reports leave the wakers that wait for background operations
/// where they are.
pub proof fn lemma_drain_keeps_offloads<W>(registry: Registry<W>, reports: Seq<Interest>)
    ensures
        registry.drain(reports).offloaded == registry.offloaded,
    decreases reports.len(),
{
    if reports.len() > 0 {
        lemma_drain_keeps_offloads(registry, reports.drop_last());
    }
}

/// A batch of reports is a history of single reports: it keeps the invariant.
pub proof fn lemma_drain_preserves_wf<W>(registry: Registry<W>, reports: Seq<Interest>)
    requires
        registry.wf(),
    ensures
        registry.drain(reports).wf(),
    decreases reports.len(),
{
    if reports.len() > 0 {
        lemma_drain_preserves_wf(registry, reports.drop_last());
        lemma_apply_preserves_wf(
            registry.drain(reports.drop_last()),
            Change::Report(reports.last()),
        );
    }
}

/// What a batch of readiness reports leaves to do: the wakers to invoke and
/// the interests to set again on the readiness facility.
pub struct Drained<W> {
    pub wakers: Vec<W>,
    pub rearm: Vec<Interest>,
}

/// The reactor of the cooperative model: the waker registry and the
/// interest registered for each handle.
pub struct Reactor<W> {
    readable: HashMap<usize, Vec<W>>,
    writeable: HashMap<usize, Vec<W>>,
    poller: Multiplexer,
    offloads: Vec<W>,
}

/// The lists of a waker table, each as a sequence.
pub open spec fn lists<W>(m: Map<usize, Vec<W>>) -> Map<usize, Seq<W>> {
    Map::new(|k: usize| m.contains_key(k), |k: usize| m[k]@)
}

proof fn lemma_lists_insert<W>(m: Map<usize, Vec<W>>, k: usize, v: Vec<W>)
    ensures
        lists(m.insert(k, v)) == lists(m).insert(k, v@),
{
    assert(lists(m.insert(k, v)) =~= lists(m).insert(k, v@));
}

proof fn lemma_lists_remove<W>(m: Map<usize, Vec<W>>, k: usize)
    ensures
        lists(m.remove(k)) == lists(m).remove(k),
{
    assert(lists(m.remove(k)) =~= lists(m).remove(k));
}

proof fn lemma_lists_len<W>(m: Map<usize, Vec<W>>)
    requires
        m.dom().finite(),
    ensures
        lists(m).len() == m.len(),
        lists(m).dom() == m.dom(),
{
    assert(lists(m).dom() =~= m.dom());
}

impl<W> View for Reactor<W> {
    type V = Registry<W>;

    closed spec fn view(&self) -> Registry<W> {
        Registry {
            readable: lists(self.readable@),
            writable: lists(self.writeable@),
            registered: self.poller@,
            offloaded: self.offloads@,
        }
    }
}

impl<W> Reactor<W> {
    /// The invariant of the registry, see `Registry::wf`.
    pub open spec fn wf(&self) -> bool {
        self@.wf()
    }

    /// A reactor without registrations and without waiters.
    pub fn new() -> (r: Reactor<W>)
        ensures
            r.wf(),
            r@.readable == Map::<usize, Seq<W>>::empty(),
            r@.writable == Map::<usize, Seq<W>>::empty(),
            r@.registered == Map::<usize, Interest>::empty(),
            r@.offloaded == Seq::<W>::empty(),
    {
        let r = Reactor {
            readable: HashMap::new(),
            writeable: HashMap::new(),
            poller: Multiplexer::new(),
            offloads: Vec::new(),
        };
        assert(r@.readable =~= Map::<usize, Seq<W>>::empty());
        assert(r@.writable =~= Map::<usize, Seq<W>>::empty());
        r
    }

    /// The interest that the waiters of `key` demand at this moment.
    pub fn get_interest(&self, key: usize) -> (i: Interest)
        ensures
            i == self@.demand(key),
    {
        let readable = self.readable.contains_key(&key);
        let writeable = self.writeable.contains_key(&key);
        Interest::of(key, readable, writeable)
    }

    /// Registers the handle `key` with the interest that its waiters demand
    /// and returns that interest, for the readiness facility. A handle that
    /// is already registered, or the reserved key, is refused.
    pub fn add(&mut self, key: usize) -> (r: Result<Interest, RegistrationError>)
        requires
            old(self).wf(),
        ensures
            final(self).wf(),
            match r {
                Ok(i) => {
                    &&& Multiplexer::spec_add(old(self)@.registered, old(self)@.demand(key)) is Ok
                    &&& i == old(self)@.demand(key)
                    &&& final(self)@ == old(self)@.add(key)
                },
                Err(e) => {
                    &&& Multiplexer::spec_add(old(self)@.registered, old(self)@.demand(key)) == Err::<
                        (),
                        RegistrationError,
                    >(e)
                    &&& final(self)@ == old(self)@
                },
            },
    {
        let interest = self.get_interest(key);
        match self.poller.add(interest) {
            Ok(()) => Ok(interest),
            Err(e) => Err(e),
        }
    }

    /// Ends the registration of `key` and drops every waker that waits for
    /// it. A handle that is not registered is refused.
    pub fn remove(&mut self, key: usize) -> (r: Result<(), RegistrationError>)
        requires
            old(self).wf(),
        ensures
            final(self).wf(),
            r == Multiplexer::spec_find(old(self)@.registered, key),
            r is Ok ==> final(self)@ == old(self)@.remove(key),
            r is Err ==> final(self)@ == old(self)@,
    {
        match self.poller.remove(key) {
            Ok(()) => {
                self.readable.remove(&key);
                self.writeable.remove(&key);
                proof {
                    lemma_lists_remove(old(self).readable@, key);
                    lemma_lists_remove(old(self).writeable@, key);
                }
                Ok(())
            },
            Err(e) => Err(e),
        }
    }

    /// Files `waker` under `key` as waiting for read readiness and returns
    /// the interest to set on the readiness facility. A handle that is not
    /// registered is refused, and the waker is dropped.
    pub fn wake_on_readable(&mut self, key: usize, waker: W) -> (r: Result<
        Interest,
        RegistrationError,
    >)
        requires
            old(self).wf(),
        ensures
            final(self).wf(),
            match r {
                Ok(i) => {
                    &&& Multiplexer::spec_find(old(self)@.registered, key) is Ok
                    &&& final(self)@ == old(self)@.wake_on_readable(key, waker)
                    &&& i == final(self)@.demand(key)
                },
                Err(e) => {
                    &&& Multiplexer::spec_find(old(self)@.registered, key) == Err::<
                        (),
                        RegistrationError,
                    >(e)
                    &&& final(self)@ == old(self)@
                },
            },
    {
        if key == usize::MAX {
            return Err(RegistrationError::ReservedKey);
        }
        if !self.poller.is_registered(key) {
            return Err(RegistrationError::NotRegistered);
        }
        let mut list = match self.readable.remove(&key) {
            Some(l) => l,
            None => Vec::new(),
        };
        list.push(waker);
        proof {
            lemma_lists_remove(old(self).readable@, key);
            lemma_lists_insert(old(self).readable@.remove(key), key, list);
        }
        self.readable.insert(key, list);
        let interest = self.get_interest(key);
        let armed = self.poller.modify(interest);
        assert(armed is Ok);
        assert(self@.readable =~= old(self)@.wake_on_readable(key, waker).readable);
        Ok(interest)
    }

    /// Files `waker` under `key` as waiting for write readiness and returns
    /// the interest to set on the readiness facility. A handle that is not
    /// registered is refused, and the waker is dropped.
    pub fn wake_on_writable(&mut self, key: usize, waker: W) -> (r: Result<
        Interest,
        RegistrationError,
    >)
        requires
            old(self).wf(),
        ensures
            final(self).wf(),
            match r {
                Ok(i) => {
                    &&& Multiplexer::spec_find(old(self)@.registered, key) is Ok
                    &&& final(self)@ == old(self)@.wake_on_writable(key, waker)
                    &&& i == final(self)@.demand(key)
                },
                Err(e) => {
                    &&& Multiplexer::spec_find(old(self)@.registered, key) == Err::<
                        (),
                        RegistrationError,
                    >(e)
                    &&& final(self)@ == old(self)@
                },
            },
    {
        if key == usize::MAX {
            return Err(RegistrationError::ReservedKey);
        }
        if !self.poller.is_registered(key) {
            return Err(RegistrationError::NotRegistered);
        }
        let mut list = match self.writeable.remove(&key) {
            Some(l) => l,
            None => Vec::new(),
        };
        list.push(waker);
        proof {
            lemma_lists_remove(old(self).writeable@, key);
            lemma_lists_insert(old(self).writeable@.remove(key), key, list);
        }
        self.writeable.insert(key, list);
        let interest = self.get_interest(key);
        let armed = self.poller.modify(interest);
        assert(armed is Ok);
        assert(self@.writable =~= old(self)@.wake_on_writable(key, waker).writable);
        Ok(interest)
    }

    /// Takes one readiness report: moves the wakers that it releases to the
    /// end of `out.wakers` and, where wakers still wait for the handle, puts
    /// the interest to set again at the end of `out.rearm`.
    fn fire(&mut self, report: Interest, out: &mut Drained<W>)
        requires
            old(self).wf(),
        ensures
            final(self).wf(),
            final(self)@ == old(self)@.fire(report),
            final(out).wakers@ == old(out).wakers@ + old(self)@.released(report),
            final(out).rearm@ == old(out).rearm@ + old(self)@.renewed(report),
    {
        if !self.poller.is_registered(report.key) {
            assert(out.wakers@ + Seq::<W>::empty() =~= out.wakers@);
            assert(out.rearm@ + Seq::<Interest>::empty() =~= out.rearm@);
            return ;
        }
        let ghost before = out.wakers@;
        if report.readable {
            match self.readable.remove(&report.key) {
                Some(mut readers) => {
                    out.wakers.append(&mut readers);
                },
                None => {},
            }
            proof {
                lemma_lists_remove(old(self).readable@, report.key);
            }
        }
        let ghost middle = out.wakers@;
        assert(middle =~= before + (if report.readable {
            old(self)@.readers(report.key)
        } else {
            Seq::empty()
        }));
        if report.writable {
            match self.writeable.remove(&report.key) {
                Some(mut writers) => {
                    out.wakers.append(&mut writers);
                },
                None => {},
            }
            proof {
                lemma_lists_remove(old(self).writeable@, report.key);
            }
        }
        assert(out.wakers@ =~= before + old(self)@.released(report));
        let interest = self.get_interest(report.key);
        let armed = self.poller.modify(interest);
        assert(armed is Ok);
        assert(self@.readable =~= old(self)@.fire(report).readable);
        assert(self@.writable =~= old(self)@.fire(report).writable);
        assert(self@.registered =~= old(self)@.fire(report).registered);
        if !interest.is_none() {
            out.rearm.push(interest);
            assert(out.rearm@ =~= old(out).rearm@ + old(self)@.renewed(report));
        } else {
            assert(out.rearm@ =~= old(out).rearm@ + old(self)@.renewed(report));
        }
    }

    /// Takes a batch of readiness reports in order. Each report releases the
    /// wakers that wait, on its handle, for a direction that it satisfies;
    /// what is registered for the handle afterwards is what the remaining
    /// wakers demand, and where that is not empty it is listed to be set again.
    pub fn drain_ready(&mut self, ready: &Vec<Interest>) -> (out: Drained<W>)
        requires
            old(self).wf(),
        ensures
            final(self).wf(),
            final(self)@ == old(self)@.drain(ready@),
            out.wakers@ == old(self)@.drained(ready@),
            out.rearm@ == old(self)@.rearmed(ready@),
    {
        let mut out = Drained { wakers: Vec::new(), rearm: Vec::new() };
        let mut i: usize = 0;
        while i < ready.len()
            invariant
                i <= ready.len(),
                self.wf(),
                self@ == old(self)@.drain(ready@.take(i as int)),
                out.wakers@ == old(self)@.drained(ready@.take(i as int)),
                out.rearm@ == old(self)@.rearmed(ready@.take(i as int)),
            decreases ready.len() - i,
        {
            let report = ready[i];
            proof {
                let next = ready@.take(i + 1);
                assert(next.drop_last() =~= ready@.take(i as int));
                assert(next.last() == report);
            }
            self.fire(report, &mut out);
            i = i + 1;
        }
        assert(ready@.take(i as int) =~= ready@);
        out
    }

    /// Takes the readiness reports of a filled buffer, as `drain_ready` does.
    pub fn drain_wakers(&mut self, events: polling::Events) -> (out: Drained<W>)
        requires
            old(self).wf(),
        ensures
            final(self).wf(),
            final(self)@ == old(self)@.drain(reports(events)),
            out.wakers@ == old(self)@.drained(reports(events)),
            out.rearm@ == old(self)@.rearmed(reports(events)),
    {
        let ready = delivered(&events);
        self.drain_ready(&ready)
    }

    /// The interest that is registered for `key`, if the handle is
    /// registered.
    pub fn interest(&self, key: usize) -> (r: Option<Interest>)
        ensures
            r == (if self@.registered.contains_key(key) {
                Some(self@.registered[key])
            } else {
                None
            }),
    {
        self.poller.interest(key)
    }

    /// Whether some waker waits for some handle.
    pub fn waiting_on_events(&self) -> (b: bool)
        ensures
            b == self@.waiting(),
    {
        proof {
            lemma_lists_len(self.readable@);
            lemma_lists_len(self.writeable@);
        }
        !self.readable.is_empty() || !self.writeable.is_empty() || !self.offloads.is_empty()
    }

    /// Files `waker` as waiting for a background operation to end. The
    /// operation makes itself known by a notification, which reports no
    /// handle: `finished_offloads` then releases the waker.
    pub fn wake_on_offload(&mut self, waker: W)
        ensures
            final(self)@ == old(self)@.wake_on_offload(waker),
    {
        self.offloads.push(waker);
    }

    /// Releases the wakers that wait for background operations, oldest
    /// first. A released waker whose operation has not ended files itself
    /// again when its computation is resumed.
    pub fn finished_offloads(&mut self) -> (wakers: Vec<W>)
        ensures
            wakers@ == old(self)@.offloaded,
            final(self)@ == old(self)@.released_offloads(),
    {
        let mut wakers: Vec<W> = Vec::new();
        wakers.append(&mut self.offloads);
        assert(wakers@ =~= old(self)@.offloaded);
        wakers
    }
}

} // verus!
