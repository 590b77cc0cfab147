use crate::async_io::event_handler::EventHandler;
use crate::async_io::reactor::{Reactor, ReactorState};
use crate::multiplexer::{delivered, reports, Interest, Multiplexer};
use std::collections::HashMap;
use vstd::prelude::*;

verus! {

/// The event loop as contracts see it: the reactor and the handler table.
pub struct LoopState<V> {
    pub reactor: ReactorState<V>,
    pub sources: Map<usize, V>,
}

/// What one turn of the event loop came to.
pub enum Step<A> {
    /// The unit under this identifier was processed and asks for this.
    Dispatched(usize, A),
    /// This identifier was due, but no unit lives under it.
    Skipped(usize),
    /// Nothing is due: block on the readiness facility, then hand what it
    /// reports to `wait_for_io`.
    Wait,
}

/// A turn of the event loop as contracts see it.
pub enum StepView<A> {
    Dispatched(usize, A),
    Skipped(usize),
    Wait,
}

impl<A: View> View for Step<A> {
    type V = StepView<A::V>;

    open spec fn view(&self) -> StepView<A::V> {
        match *self {
            Step::Dispatched(id, action) => StepView::Dispatched(id, action@),
            Step::Skipped(id) => StepView::Skipped(id),
            Step::Wait => StepView::Wait,
        }
    }
}

/// The handler table once the staged units have entered it. The unit that
/// was staged last enters first, so of two units staged under one
/// identifier the one staged first stays.
pub open spec fn admitted<V>(sources: Map<usize, V>, staged: Seq<(usize, V)>) -> Map<usize, V>
    decreases staged.len(),
{
    if staged.len() == 0 {
        sources
    } else {
        admitted(sources.insert(staged.last().0, staged.last().1), staged.drop_last())
    }
}

/// The handler table once the units under the retiring identifiers have
/// left it.
pub open spec fn evicted<V>(sources: Map<usize, V>, retiring: Seq<usize>) -> Map<usize, V>
    decreases retiring.len(),
{
    if retiring.len() == 0 {
        sources
    } else {
        evicted(sources.remove(retiring.last()), retiring.drop_last())
    }
}

/// A unit that has left the table under one of the retiring identifiers is
/// not in it, and no other unit has left.
pub proof fn lemma_evicted<V>(sources: Map<usize, V>, retiring: Seq<usize>, id: usize)
    ensures
        evicted(sources, retiring).contains_key(id) <==> sources.contains_key(id)
            && !retiring.contains(id),
        evicted(sources, retiring).contains_key(id) ==> evicted(sources, retiring)[id]
            == sources[id],
    decreases retiring.len(),
{
    if retiring.len() > 0 {
        lemma_evicted(sources.remove(retiring.last()), retiring.drop_last(), id);
        if retiring.contains(id) {
            let k = choose|k: int| 0 <= k < retiring.len() && retiring[k] == id;
            if k < retiring.len() - 1 {
                assert(retiring.drop_last()[k] == id);
            }
        } else {
            assert(forall|k: int|
                0 <= k < retiring.drop_last().len() ==> retiring.drop_last()[k] == retiring[k]);
        }
    }
}

/// Staged units enter the table under their own identifiers only: what
/// lives under any other identifier stays as it is.
pub proof fn lemma_admitted<V>(sources: Map<usize, V>, staged: Seq<(usize, V)>, id: usize)
    requires
        forall|i: int| 0 <= i < staged.len() ==> (#[trigger] staged[i]).0 != id,
    ensures
        admitted(sources, staged).contains_key(id) <==> sources.contains_key(id),
        admitted(sources, staged).contains_key(id) ==> admitted(sources, staged)[id]
            == sources[id],
    decreases staged.len(),
{
    if staged.len() > 0 {
        assert(staged.last() == staged[staged.len() - 1]);
        assert forall|i: int| 0 <= i < staged.drop_last().len() implies (
        #[trigger] staged.drop_last()[i]).0 != id by {
            assert(staged.drop_last()[i] == staged[i]);
        }
        lemma_admitted(
            sources.insert(staged.last().0, staged.last().1),
            staged.drop_last(),
            id,
        );
    }
}

/// No unit leaves the table when staged units enter it.
pub proof fn lemma_admitted_keeps<V>(sources: Map<usize, V>, staged: Seq<(usize, V)>, id: usize)
    requires
        sources.contains_key(id),
    ensures
        admitted(sources, staged).contains_key(id),
    decreases staged.len(),
{
    if staged.len() > 0 {
        lemma_admitted_keeps(
            sources.insert(staged.last().0, staged.last().1),
            staged.drop_last(),
            id,
        );
    }
}

impl<V> LoopState<V> {
    /// The loop once the staged registrations are applied.
    pub open spec fn handle_register(self) -> LoopState<V> {
        LoopState {
            reactor: ReactorState { staged: Seq::empty(), ..self.reactor },
            sources: admitted(self.sources, self.reactor.staged),
        }
    }

    /// The loop once the staged evictions are applied.
    pub open spec fn handle_unregister(self) -> LoopState<V> {
        LoopState {
            reactor: ReactorState { retiring: Seq::empty(), ..self.reactor },
            sources: evicted(self.sources, self.reactor.retiring),
        }
    }
}

/// The scheduler of the state-machine model: the reactor and the table of
/// the units that live under their identifiers.
pub struct EventLoop<U: EventHandler> {
    reactor: Reactor<U>,
    sources: HashMap<usize, U>,
}

/// The units of a table, each seen through its view.
pub open spec fn views<U: View>(m: Map<usize, U>) -> Map<usize, U::V> {
    Map::new(|k: usize| m.contains_key(k), |k: usize| m[k]@)
}

proof fn lemma_views_insert<U: View>(m: Map<usize, U>, k: usize, u: U)
    ensures
        views(m.insert(k, u)) == views(m).insert(k, u@),
{
    assert(views(m.insert(k, u)) =~= views(m).insert(k, u@));
}

proof fn lemma_views_remove<U: View>(m: Map<usize, U>, k: usize)
    ensures
        views(m.remove(k)) == views(m).remove(k),
{
    assert(views(m.remove(k)) =~= views(m).remove(k));
}

impl<U: EventHandler> View for EventLoop<U> {
    type V = LoopState<U::V>;

    closed spec fn view(&self) -> LoopState<U::V> {
        LoopState { reactor: self.reactor@, sources: views(self.sources@) }
    }
}

impl<U: EventHandler> EventLoop<U> {
    /// The invariant of the loop: that of its reactor.
    pub open spec fn wf(&self) -> bool {
        self@.reactor.wf()
    }

    /// The loop after one turn.
    ///
    /// First the staged registrations are applied, so that a unit that was
    /// registered since the last turn is in the table when its identifier
    /// is taken. While identifiers are due, the one that became due last is
    /// taken. If a unit lives under it, the unit makes its processing pass,
    /// and what the pass staged enters the table. When nothing is due, the
    /// staged evictions are applied, and the loop is ready to block.
    pub open spec fn next(state: LoopState<U::V>) -> LoopState<U::V> {
        let entered = state.handle_register();
        if entered.reactor.ready.len() > 0 {
            let id = entered.reactor.ready.last();
            let reactor = ReactorState {
                ready: entered.reactor.ready.drop_last(),
                ..entered.reactor
            };
            if entered.sources.contains_key(id) {
                let outcome = U::on_poll(entered.sources[id], reactor);
                (LoopState {
                    reactor: outcome.reactor,
                    sources: entered.sources.insert(id, outcome.unit),
                }).handle_register()
            } else {
                LoopState { reactor, sources: entered.sources }
            }
        } else {
            entered.handle_unregister()
        }
    }

    /// What one turn of the loop comes to.
    pub open spec fn step(state: LoopState<U::V>) -> StepView<<U::Action as View>::V> {
        let entered = state.handle_register();
        if entered.reactor.ready.len() > 0 {
            let id = entered.reactor.ready.last();
            let reactor = ReactorState {
                ready: entered.reactor.ready.drop_last(),
                ..entered.reactor
            };
            if entered.sources.contains_key(id) {
                StepView::Dispatched(id, U::on_poll(entered.sources[id], reactor).action)
            } else {
                StepView::Skipped(id)
            }
        } else {
            StepView::Wait
        }
    }

    /// The loop after one readiness report: what was registered for the
    /// handle is used up, and the unit that lives under its key, if any,
    /// takes the report.
    pub open spec fn reported(state: LoopState<U::V>, report: Interest) -> LoopState<U::V> {
        let reactor = ReactorState {
            registered: Multiplexer::spec_deliver(state.reactor.registered, report.key),
            ..state.reactor
        };
        if state.sources.contains_key(report.key) {
            let outcome = U::on_event(state.sources[report.key], report, reactor);
            LoopState {
                reactor: outcome.reactor,
                sources: state.sources.insert(report.key, outcome.unit),
            }
        } else {
            LoopState { reactor, sources: state.sources }
        }
    }

    /// What the unit that takes a readiness report asks for.
    pub open spec fn asked(state: LoopState<U::V>, report: Interest) -> Seq<
        (usize, <U::Action as View>::V),
    > {
        let reactor = ReactorState {
            registered: Multiplexer::spec_deliver(state.reactor.registered, report.key),
            ..state.reactor
        };
        if state.sources.contains_key(report.key) {
            seq![(report.key, U::on_event(state.sources[report.key], report, reactor).action)]
        } else {
            Seq::empty()
        }
    }

    /// The loop after a batch of readiness reports, taken in order.
    pub open spec fn reported_all(state: LoopState<U::V>, batch: Seq<Interest>) -> LoopState<U::V>
        decreases batch.len(),
    {
        if batch.len() == 0 {
            state
        } else {
            Self::reported(Self::reported_all(state, batch.drop_last()), batch.last())
        }
    }

    /// What the units that take a batch of readiness reports ask for, each
    /// with the identifier of the unit, in the order of the reports.
    pub open spec fn asked_all(state: LoopState<U::V>, batch: Seq<Interest>) -> Seq<
        (usize, <U::Action as View>::V),
    >
        decreases batch.len(),
    {
        if batch.len() == 0 {
            Seq::empty()
        } else {
            Self::asked_all(state, batch.drop_last()) + Self::asked(
                Self::reported_all(state, batch.drop_last()),
                batch.last(),
            )
        }
    }

    /// A loop around `reactor`, with an empty handler table.
    pub fn new(reactor: Reactor<U>) -> (el: EventLoop<U>)
        ensures
            el@.reactor == reactor@,
            el@.sources == Map::<usize, U::V>::empty(),
    {
        let el = EventLoop { reactor, sources: HashMap::new() };
        assert(el@.sources =~= Map::<usize, U::V>::empty());
        el
    }

    /// Applies the staged registrations.
    fn handle_register(&mut self)
        ensures
            final(self)@ == old(self)@.handle_register(),
    {
        loop
            invariant
                admitted(self@.sources, self@.reactor.staged) == admitted(
                    old(self)@.sources,
                    old(self)@.reactor.staged,
                ),
                self@.reactor.registered == old(self)@.reactor.registered,
                self@.reactor.retiring == old(self)@.reactor.retiring,
                self@.reactor.ready == old(self)@.reactor.ready,
            ensures
                self@.reactor.staged.len() == 0,
            decreases self@.reactor.staged.len(),
        {
            let ghost before = self.sources@;
            match self.reactor.next_registration() {
                Some((id, source)) => {
                    self.sources.insert(id, source);
                    proof {
                        lemma_views_insert(before, id, source);
                    }
                },
                None => {
                    break ;
                },
            }
        }
        assert(self@.reactor.staged =~= Seq::empty());
    }

    /// Applies the staged evictions.
    fn handle_unregister(&mut self)
        ensures
            final(self)@ == old(self)@.handle_unregister(),
    {
        loop
            invariant
                evicted(self@.sources, self@.reactor.retiring) == evicted(
                    old(self)@.sources,
                    old(self)@.reactor.retiring,
                ),
                self@.reactor.registered == old(self)@.reactor.registered,
                self@.reactor.staged == old(self)@.reactor.staged,
                self@.reactor.ready == old(self)@.reactor.ready,
            ensures
                self@.reactor.retiring.len() == 0,
            decreases self@.reactor.retiring.len(),
        {
            let ghost before = self.sources@;
            match self.reactor.next_eviction() {
                Some(id) => {
                    self.sources.remove(&id);
                    proof {
                        lemma_views_remove(before, id);
                    }
                },
                None => {
                    break ;
                },
            }
        }
        assert(self@.reactor.retiring =~= Seq::empty());
    }

    /// One turn of the loop, as `next` and `step` say. The caller does what
    /// the step asks for before it takes the next turn.
    pub fn run(&mut self) -> (step: Step<U::Action>)
        requires
            old(self).wf(),
        ensures
            final(self).wf(),
            final(self)@ == Self::next(old(self)@),
            step@ == Self::step(old(self)@),
    {
        self.handle_register();
        match self.reactor.next_task() {
            Some(id) => {
                let ghost before = self.sources@;
                match self.sources.remove(&id) {
                    Some(mut source) => {
                        let action = source.poll(&mut self.reactor);
                        proof {
                            lemma_views_remove(before, id);
                            lemma_views_insert(before.remove(id), id, source);
                            assert(views(before).remove(id).insert(id, source@) =~= views(
                                before,
                            ).insert(id, source@));
                        }
                        self.sources.insert(id, source);
                        self.handle_register();
                        Step::Dispatched(id, action)
                    },
                    None => {
                        assert(self.sources@ =~= before);
                        Step::Skipped(id)
                    },
                }
            },
            None => {
                self.handle_unregister();
                Step::Wait
            },
        }
    }

    /// Takes one readiness report.
    fn report(&mut self, report: Interest, out: &mut Vec<(usize, U::Action)>)
        requires
            old(self).wf(),
        ensures
            final(self).wf(),
            final(self)@ == Self::reported(old(self)@, report),
            final(out)@.len() == old(out)@.len() + Self::asked(old(self)@, report).len(),
            forall|i: int| 0 <= i < old(out)@.len() ==> final(out)@[i] == old(out)@[i],
            forall|i: int|
                0 <= i < Self::asked(old(self)@, report).len() ==> (#[trigger] final(out)@[old(out)@.len() + i]).0 == Self::asked(old(self)@, report)[i].0 && final(out)@[old(out)@.len() + i].1@ == Self::asked(old(self)@, report)[i].1,
    {
        self.reactor.deliver(report.key);
        let ghost before = self.sources@;
        match self.sources.remove(&report.key) {
            Some(mut source) => {
                let action = source.event(report, &mut self.reactor);
                proof {
                    lemma_views_remove(before, report.key);
                    lemma_views_insert(before.remove(report.key), report.key, source);
                    assert(views(before).remove(report.key).insert(report.key, source@) =~= views(
                        before,
                    ).insert(report.key, source@));
                }
                self.sources.insert(report.key, source);
                out.push((report.key, action));
            },
            None => {
                assert(self.sources@ =~= before);
            },
        }
    }

    /// Takes a batch of readiness reports in order, as `reported_all` says,
    /// and returns what the units that took them ask for, as `asked_all`
    /// says: each action with the identifier of its unit.
    pub fn dispatch(&mut self, ready: &Vec<Interest>) -> (out: Vec<(usize, U::Action)>)
        requires
            old(self).wf(),
        ensures
            final(self).wf(),
            final(self)@ == Self::reported_all(old(self)@, ready@),
            out@.len() == Self::asked_all(old(self)@, ready@).len(),
            forall|i: int|
                0 <= i < out@.len() ==> (#[trigger] out@[i]).0 == Self::asked_all(
                    old(self)@,
                    ready@,
                )[i].0 && out@[i].1@ == Self::asked_all(old(self)@, ready@)[i].1,
    {
        let mut out: Vec<(usize, U::Action)> = Vec::new();
        let mut i: usize = 0;
        while i < ready.len()
            invariant
                i <= ready.len(),
                self.wf(),
                self@ == Self::reported_all(old(self)@, ready@.take(i as int)),
                out@.len() == Self::asked_all(old(self)@, ready@.take(i as int)).len(),
                forall|k: int|
                    0 <= k < out@.len() ==> (#[trigger] out@[k]).0 == Self::asked_all(
                        old(self)@,
                        ready@.take(i as int),
                    )[k].0 && out@[k].1@ == Self::asked_all(old(self)@, ready@.take(i as int))[k].1,
            decreases ready.len() - i,
        {
            let report = ready[i];
            proof {
                let next = ready@.take(i + 1);
                assert(next.drop_last() =~= ready@.take(i as int));
                assert(next.last() == report);
            }
            let ghost before = out@;
            let ghost state = self@;
            self.report(report, &mut out);
            proof {
                let earlier = Self::asked_all(old(self)@, ready@.take(i as int));
                let now = Self::asked_all(old(self)@, ready@.take(i + 1));
                assert(now == earlier + Self::asked(state, report));
                assert forall|k: int| 0 <= k < out@.len() implies (#[trigger] out@[k]).0
                    == now[k].0 && out@[k].1@ == now[k].1 by {
                    if k < before.len() {
                        assert(out@[k] == before[k]);
                    } else {
                        let j = k - before.len();
                        assert(out@[before.len() + j].0 == Self::asked(state, report)[j].0);
                    }
                }
            }
            i = i + 1;
        }
        assert(ready@.take(i as int) =~= ready@);
        out
    }

    /// Takes the readiness reports of a filled buffer, as `dispatch` does.
    pub fn wait_for_io(&mut self, events: &polling::Events) -> (out: Vec<(usize, U::Action)>)
        requires
            old(self).wf(),
        ensures
            final(self).wf(),
            final(self)@ == Self::reported_all(old(self)@, reports(*events)),
            out@.len() == Self::asked_all(old(self)@, reports(*events)).len(),
            forall|i: int|
                0 <= i < out@.len() ==> (#[trigger] out@[i]).0 == Self::asked_all(
                    old(self)@,
                    reports(*events),
                )[i].0 && out@[i].1@ == Self::asked_all(old(self)@, reports(*events))[i].1,
    {
        let ready = delivered(events);
        self.dispatch(&ready)
    }

    /// Takes how the wait on the readiness facility came out. A wait that
    /// failed ends the loop: the error comes back, nothing is dispatched, and
    /// the loop stays as it is. A wait that returned hands its reports to the
    /// units, as `wait_for_io` does.
    pub fn after_wait<E>(&mut self, waited: Result<&polling::Events, E>) -> (r: Result<
        Vec<(usize, U::Action)>,
        E,
    >)
        requires
            old(self).wf(),
        ensures
            final(self).wf(),
            match waited {
                Ok(events) => match r {
                    Ok(out) => {
                        &&& final(self)@ == Self::reported_all(old(self)@, reports(*events))
                        &&& out@.len() == Self::asked_all(old(self)@, reports(*events)).len()
                        &&& forall|i: int|
                            0 <= i < out@.len() ==> (#[trigger] out@[i]).0 == Self::asked_all(
                                old(self)@,
                                reports(*events),
                            )[i].0 && out@[i].1@ == Self::asked_all(
                                old(self)@,
                                reports(*events),
                            )[i].1
                    },
                    Err(_) => false,
                },
                Err(error) => r == Err::<Vec<(usize, U::Action)>, E>(error) && final(self)@ == old(self)@,
            },
    {
        match waited {
            Ok(events) => Ok(self.wait_for_io(events)),
            Err(error) => Err(error),
        }
    }

    /// Hands an outcome from outside to the unit that lives under `id`. The
    /// outcome comes back where no unit lives there, or where the unit does
    /// not expect it; the loop then stays as it is.
    pub fn resume(&mut self, id: usize, input: U::Input) -> (r: Result<U::Action, U::Input>)
        requires
            old(self).wf(),
        ensures
            final(self).wf(),
            match r {
                Ok(action) => old(self)@.sources.contains_key(id) && match U::on_input(
                    old(self)@.sources[id],
                    input,
                    old(self)@.reactor,
                ) {
                    Some(outcome) => final(self)@ == (LoopState {
                        reactor: outcome.reactor,
                        sources: old(self)@.sources.insert(id, outcome.unit),
                    }) && action@ == outcome.action,
                    None => false,
                },
                Err(refused) => refused == input && final(self)@ == old(self)@ && (old(self)@.sources.contains_key(id) ==> U::on_input(
                    old(self)@.sources[id],
                    input,
                    old(self)@.reactor,
                ) is None),
            },
    {
        let ghost before = self.sources@;
        match self.sources.remove(&id) {
            Some(mut source) => {
                let r = source.resume(input, &mut self.reactor);
                proof {
                    lemma_views_remove(before, id);
                    lemma_views_insert(before.remove(id), id, source);
                    assert(views(before).remove(id).insert(id, source@) =~= views(before).insert(
                        id,
                        source@,
                    ));
                    if r is Err {
                        assert(views(before).insert(id, source@) =~= views(before));
                    }
                }
                self.sources.insert(id, source);
                r
            },
            None => {
                assert(self.sources@ =~= before);
                Err(input)
            },
        }
    }

    /// The unit that lives under `id`, if any does.
    pub fn source(&self, id: usize) -> (r: Option<&U>)
        ensures
            match r {
                Some(unit) => self@.sources.contains_key(id) && self@.sources[id] == unit@,
                None => !self@.sources.contains_key(id),
            },
    {
        self.sources.get(&id)
    }

    /// Stages `unit` to enter the handler table under `id` and makes it due
    /// for its first pass.
    pub fn register(&mut self, id: usize, unit: U)
        ensures
            final(self)@ == (LoopState {
                reactor: old(self)@.reactor.register(id, unit@),
                ..old(self)@
            }),
    {
        self.reactor.register(id, unit);
    }

    /// The interest that is registered for `key`, if the handle is
    /// registered.
    pub fn interest(&self, key: usize) -> (r: Option<Interest>)
        ensures
            r == (if self@.reactor.registered.contains_key(key) {
                Some(self@.reactor.registered[key])
            } else {
                None
            }),
    {
        self.reactor.interest(key)
    }

    /// Whether no identifier is due for processing.
    pub fn is_idle(&self) -> (b: bool)
        ensures
            b == (self@.reactor.ready.len() == 0),
    {
        self.reactor.is_idle()
    }
}

impl<U: EventHandler> EventLoop<U> {
    /// The loop after `n` turns.
    pub open spec fn turns(state: LoopState<U::V>, n: nat) -> LoopState<U::V>
        decreases n,
    {
        if n == 0 {
            state
        } else {
            Self::next(Self::turns(state, (n - 1) as nat))
        }
    }

    /// Whether the processing pass of `unit` makes nothing due and stages
    /// nothing, whatever the reactor holds.
    pub open spec fn quiet(unit: U::V) -> bool {
        forall|reactor: ReactorState<U::V>|
            #![trigger U::on_poll(unit, reactor)]
            U::on_poll(unit, reactor).reactor.ready == reactor.ready && U::on_poll(
                unit,
                reactor,
            ).reactor.staged == reactor.staged
    }
}

/// A turn begins by letting the staged units in: it comes to the same as a
/// turn on the loop in which they have entered the table.
pub proof fn lemma_turn_enters_first<U: EventHandler>(state: LoopState<U::V>)
    ensures
        state.handle_register().handle_register() == state.handle_register(),
        EventLoop::<U>::next(state) == EventLoop::<U>::next(state.handle_register()),
        EventLoop::<U>::step(state) == EventLoop::<U>::step(state.handle_register()),
{
}

/// Staged units under distinct identifiers all enter the table, each under
/// its own identifier.
pub proof fn lemma_admitted_places<V>(sources: Map<usize, V>, staged: Seq<(usize, V)>, k: int)
    requires
        0 <= k < staged.len(),
        forall|i: int, j: int|
            0 <= i < j < staged.len() ==> (#[trigger] staged[i]).0 != (#[trigger] staged[j]).0,
    ensures
        admitted(sources, staged).contains_key(staged[k].0),
        admitted(sources, staged)[staged[k].0] == staged[k].1,
    decreases staged.len(),
{
    let first = sources.insert(staged.last().0, staged.last().1);
    let rest = staged.drop_last();
    if k == staged.len() - 1 {
        assert forall|i: int| 0 <= i < rest.len() implies (#[trigger] rest[i]).0
            != staged[k].0 by {
            assert(rest[i] == staged[i]);
        }
        lemma_admitted(first, rest, staged[k].0);
    } else {
        assert forall|i: int, j: int| 0 <= i < j < rest.len() implies (#[trigger] rest[i]).0 != (
        #[trigger] rest[j]).0 by {
            assert(rest[i] == staged[i]);
            assert(rest[j] == staged[j]);
        }
        assert(rest[k] == staged[k]);
        lemma_admitted_places(first, rest, k);
    }
}

/// Exactly one initial dispatch. Register units under distinct identifiers,
/// in any state of the loop: they are staged, and their identifiers are due
/// in the order of registration. Let the first pass of each be quiet. Then
/// the next turns process each of them exactly once, the one that was
/// registered last first: turn `j` processes the unit that was registered
/// `j`-th from last. From the first of these turns on all of them are in
/// the handler table. Nothing else becomes due meanwhile, so where nothing
/// else was due before, the turn after the last of them gets the loop ready
/// to block: none of the units sees a readiness report before its first
/// pass.
pub proof fn lemma_exactly_one_initial_dispatch<U: EventHandler>(
    state: LoopState<U::V>,
    ids: Seq<usize>,
    j: nat,
)
    requires
        ids.no_duplicates(),
        state.reactor.staged.len() == ids.len(),
        forall|k: int|
            0 <= k < ids.len() ==> (#[trigger] state.reactor.staged[k]).0 == ids[k]
                && EventLoop::<U>::quiet(state.reactor.staged[k].1),
        state.reactor.ready.len() >= ids.len(),
        state.reactor.ready.skip(state.reactor.ready.len() - ids.len()) == ids,
        1 <= j <= ids.len(),
    ensures
        EventLoop::<U>::step(EventLoop::<U>::turns(state, (j - 1) as nat)) is Dispatched,
        EventLoop::<U>::step(EventLoop::<U>::turns(state, (j - 1) as nat))->Dispatched_0
            == ids[ids.len() - j],
        EventLoop::<U>::turns(state, j).reactor.ready == state.reactor.ready.take(
            state.reactor.ready.len() - j,
        ),
        forall|k: int|
            0 <= k < ids.len() ==> EventLoop::<U>::turns(state, j).sources.contains_key(
                #[trigger] ids[k],
            ),
        j == ids.len() && state.reactor.ready.len() == ids.len() ==> EventLoop::<U>::step(
            EventLoop::<U>::turns(state, j),
        ) is Wait,
{
    let entered = state.handle_register();
    let staged = state.reactor.staged;
    assert forall|a: int, b: int| 0 <= a < b < staged.len() implies (#[trigger] staged[a]).0 != (
    #[trigger] staged[b]).0 by {
        assert(ids[a] != ids[b]);
    }
    assert forall|k: int| 0 <= k < ids.len() implies entered.sources.contains_key(
        #[trigger] ids[k],
    ) && EventLoop::<U>::quiet(entered.sources[ids[k]]) by {
        lemma_admitted_places(state.sources, staged, k);
    }
    lemma_turns_enter_first::<U>(state, (j - 1) as nat);
    lemma_turns_enter_first::<U>(state, j);
    lemma_turn_enters_first::<U>(state);
    lemma_initial_turns::<U>(entered, ids, (j - 1) as nat);
    lemma_initial_turns::<U>(entered, ids, j);
    let before = EventLoop::<U>::turns(entered, (j - 1) as nat);
    lemma_turn_enters_first::<U>(before);
    let ready = state.reactor.ready;
    let id = ids[ids.len() - j];
    assert(ids[ids.len() - j] == ready.skip(ready.len() - ids.len())[ids.len() - j]);
    assert(before.reactor.ready.last() == id);
    assert(before.handle_register() == before);
    if j == 1 {
        assert(EventLoop::<U>::step(state) == EventLoop::<U>::step(entered));
    }
    let after = EventLoop::<U>::turns(entered, j);
    assert(after.handle_register() == after);
}

/// After the first turn the staged units have entered: any number of turns
/// comes to the same as on the loop in which they have entered.
proof fn lemma_turns_enter_first<U: EventHandler>(state: LoopState<U::V>, n: nat)
    ensures
        n >= 1 ==> EventLoop::<U>::turns(state, n) == EventLoop::<U>::turns(
            state.handle_register(),
            n,
        ),
    decreases n,
{
    if n == 1 {
        lemma_turn_enters_first::<U>(state);
        assert(EventLoop::<U>::turns(state, 0) == state);
        assert(EventLoop::<U>::turns(state.handle_register(), 0) == state.handle_register());
    } else if n > 1 {
        lemma_turns_enter_first::<U>(state, (n - 1) as nat);
    }
}

/// Where the loop stands after the first `n` turns over units that are in
/// the table, quiet and due: the last `n` identifiers have left the queue,
/// nothing is staged, all the units are in the table, and those that are
/// still due are as they were.
proof fn lemma_initial_turns<U: EventHandler>(state: LoopState<U::V>, ids: Seq<usize>, n: nat)
    requires
        ids.no_duplicates(),
        state.reactor.staged.len() == 0,
        state.reactor.ready.len() >= ids.len(),
        state.reactor.ready.skip(state.reactor.ready.len() - ids.len()) == ids,
        forall|k: int|
            0 <= k < ids.len() ==> state.sources.contains_key(#[trigger] ids[k])
                && EventLoop::<U>::quiet(state.sources[ids[k]]),
        n <= ids.len(),
    ensures
        EventLoop::<U>::turns(state, n).reactor.ready == state.reactor.ready.take(
            state.reactor.ready.len() - n,
        ),
        EventLoop::<U>::turns(state, n).reactor.staged.len() == 0,
        forall|k: int|
            0 <= k < ids.len() ==> EventLoop::<U>::turns(state, n).sources.contains_key(
                #[trigger] ids[k],
            ),
        forall|k: int|
            0 <= k < ids.len() - n ==> EventLoop::<U>::turns(state, n).sources[#[trigger] ids[k]]
                == state.sources[ids[k]],
    decreases n,
{
    let ready = state.reactor.ready;
    if n == 0 {
        assert(ready.take(ready.len() - 0) =~= ready);
    } else {
        lemma_initial_turns::<U>(state, ids, (n - 1) as nat);
        let before = EventLoop::<U>::turns(state, (n - 1) as nat);
        assert(before.reactor.staged =~= Seq::empty());
        assert(before.handle_register() == before);
        let id = ids[ids.len() - n];
        assert(ids[ids.len() - n] == ready.skip(ready.len() - ids.len())[ids.len() - n]);
        assert(before.reactor.ready.last() == id);
        assert(before.reactor.ready.drop_last() =~= ready.take(ready.len() - n));
        assert(before.sources.contains_key(id));
        assert(EventLoop::<U>::quiet(before.sources[id]));
        let reactor = ReactorState { ready: before.reactor.ready.drop_last(), ..before.reactor };
        let outcome = U::on_poll(before.sources[id], reactor);
        assert(outcome.reactor.staged =~= Seq::empty());
        let after = EventLoop::<U>::turns(state, n);
        assert(after.sources == before.sources.insert(id, outcome.unit));
        assert forall|k: int| 0 <= k < ids.len() - n implies after.sources[#[trigger] ids[k]]
            == state.sources[ids[k]] by {
            assert(ids[k] != ids[ids.len() - n]);
        }
    }
}

/// Eviction at the turn that gets the loop ready to block: where nothing is
/// due, a unit whose eviction is staged has left the handler table after
/// the turn, whatever was staged to enter it; every eviction is applied and
/// no registration is touched.
pub proof fn lemma_wait_evicts<U: EventHandler>(state: LoopState<U::V>, id: usize)
    requires
        state.reactor.ready.len() == 0,
        state.reactor.retiring.contains(id),
    ensures
        EventLoop::<U>::step(state) is Wait,
        !EventLoop::<U>::next(state).sources.contains_key(id),
        EventLoop::<U>::next(state).reactor.registered == state.reactor.registered,
        EventLoop::<U>::next(state).reactor.retiring.len() == 0,
{
    lemma_evicted(state.handle_register().sources, state.reactor.retiring, id);
}

/// No turn that processes a unit takes a unit out of the table: staged
/// evictions are applied only by the turn that finds nothing due.
pub proof fn lemma_dispatch_keeps_table<U: EventHandler>(state: LoopState<U::V>, id: usize)
    requires
        state.reactor.ready.len() > 0,
        state.sources.contains_key(id),
    ensures
        !(EventLoop::<U>::step(state) is Wait),
        EventLoop::<U>::next(state).sources.contains_key(id),
{
    let entered = state.handle_register();
    lemma_admitted_keeps(state.sources, state.reactor.staged, id);
    let due = entered.reactor.ready.last();
    if entered.sources.contains_key(due) {
        let reactor = ReactorState { ready: entered.reactor.ready.drop_last(), ..entered.reactor };
        let outcome = U::on_poll(entered.sources[due], reactor);
        lemma_admitted_keeps(
            entered.sources.insert(due, outcome.unit),
            outcome.reactor.staged,
            id,
        );
    }
}

/// Each occurrence is processed once. Take a loop in which nothing is
/// staged, and let every pass of the drain be quiet: the unit that a turn
/// takes up is in the table and its pass makes nothing due and stages
/// nothing. Then the turns take the due identifiers up one by one, last
/// first: turn `j` processes the unit under the identifier that was due at
/// the `j`-th place from the end, and takes exactly that occurrence out of
/// the queue. So a unit whose identifier is due `k` times makes exactly `k`
/// passes in the drain, one after the other, and no identifier is taken up
/// that was not due.
pub proof fn lemma_drain_takes_each_occurrence_once<U: EventHandler>(
    state: LoopState<U::V>,
    j: nat,
)
    requires
        state.reactor.staged.len() == 0,
        j < state.reactor.ready.len(),
        forall|t: nat|
            t <= j ==> (#[trigger] EventLoop::<U>::turns(state, t)).sources.contains_key(
                state.reactor.ready[state.reactor.ready.len() - 1 - t],
            ) && EventLoop::<U>::quiet(
                EventLoop::<U>::turns(state, t).sources[state.reactor.ready[
                    state.reactor.ready.len() - 1 - t
                ]],
            ),
    ensures
        EventLoop::<U>::step(EventLoop::<U>::turns(state, j)) is Dispatched,
        EventLoop::<U>::step(EventLoop::<U>::turns(state, j))->Dispatched_0
            == state.reactor.ready[state.reactor.ready.len() - 1 - j],
        EventLoop::<U>::turns(state, j + 1).reactor.ready == state.reactor.ready.take(
            state.reactor.ready.len() - 1 - j,
        ),
        EventLoop::<U>::turns(state, j + 1).reactor.staged.len() == 0,
    decreases j,
{
    let ready = state.reactor.ready;
    if j == 0 {
        assert(EventLoop::<U>::turns(state, 0) == state);
        assert(ready.take(ready.len() as int) =~= ready);
    } else {
        lemma_drain_takes_each_occurrence_once::<U>(state, (j - 1) as nat);
    }
    let before = EventLoop::<U>::turns(state, j);
    assert(before.reactor.staged =~= Seq::empty());
    assert(before.handle_register() == before);
    assert(before.reactor.ready == ready.take(ready.len() - j));
    let id = ready[ready.len() - 1 - j];
    assert(before.reactor.ready.last() == id);
    assert(before.reactor.ready.drop_last() =~= ready.take(ready.len() - 1 - j));
    assert(before.sources.contains_key(id) && EventLoop::<U>::quiet(before.sources[id]));
    let reactor = ReactorState { ready: before.reactor.ready.drop_last(), ..before.reactor };
    let outcome = U::on_poll(before.sources[id], reactor);
    assert(outcome.reactor.staged =~= Seq::empty());
    assert(EventLoop::<U>::turns(state, j + 1) == EventLoop::<U>::next(before));
}

/// A unit stays in the table for the whole drain: as long as every turn
/// finds an identifier due, no unit leaves, whatever the passes stage for
/// eviction. A unit that has ended its registration is therefore still
/// there for its last pass.
pub proof fn lemma_unit_stays_through_drain<U: EventHandler>(
    state: LoopState<U::V>,
    id: usize,
    n: nat,
)
    requires
        state.sources.contains_key(id),
        forall|t: nat|
            t < n ==> (#[trigger] EventLoop::<U>::turns(state, t)).reactor.ready.len() > 0,
    ensures
        EventLoop::<U>::turns(state, n).sources.contains_key(id),
        forall|t: nat|
            t < n ==> !(EventLoop::<U>::step(#[trigger] EventLoop::<U>::turns(state, t)) is Wait),
    decreases n,
{
    if n > 0 {
        lemma_unit_stays_through_drain::<U>(state, id, (n - 1) as nat);
        let before = EventLoop::<U>::turns(state, (n - 1) as nat);
        lemma_dispatch_keeps_table::<U>(before, id);
    }
}

} // verus!
