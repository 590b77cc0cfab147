use crate::async_io::reactor::{Reactor, ReactorState};
use crate::multiplexer::Interest;
use vstd::prelude::*;

verus! {

/// A unit, the reactor, and the action asked for, after one turn.
pub struct Outcome<V, A> {
    pub unit: V,
    pub reactor: ReactorState<V>,
    pub action: A,
}

/// A unit that the event loop runs. The loop calls `event` when readiness is
/// reported for the unit, `poll` when the unit is due for processing, and
/// `resume` when work that the unit asked for outside has an outcome. Each
/// turn may change the unit and the reactor, and asks the caller for an
/// action. What a turn does is fixed by the three functions `on_event`,
/// `on_poll` and `on_input`.
pub trait EventHandler: View + Sized {
    /// What a turn asks of the caller.
    type Action: View;

    /// What the outside hands back to a unit.
    type Input;

    /// The identifier under which the unit is registered.
    spec fn key(unit: Self::V) -> usize;

    /// The name by which diagnostics speak of the unit.
    spec fn label(unit: Self::V) -> Seq<char>;

    /// The turn on a readiness report.
    spec fn on_event(unit: Self::V, event: Interest, reactor: ReactorState<Self::V>) -> Outcome<
        Self::V,
        <Self::Action as View>::V,
    >;

    /// The processing pass.
    spec fn on_poll(unit: Self::V, reactor: ReactorState<Self::V>) -> Outcome<
        Self::V,
        <Self::Action as View>::V,
    >;

    /// The turn on an outcome from outside, or `None` where the unit does
    /// not expect that outcome.
    spec fn on_input(unit: Self::V, input: Self::Input, reactor: ReactorState<Self::V>) -> Option<
        Outcome<Self::V, <Self::Action as View>::V>,
    >;

    /// The identifier under which the unit is registered.
    fn id(&self) -> (id: usize)
        ensures
            id == Self::key(self@),
    ;

    /// A name for the unit, for diagnostics.
    fn name(&self) -> (name: String)
        ensures
            name@ == Self::label(self@),
    ;

    /// Takes a readiness report.
    fn event(&mut self, event: Interest, reactor: &mut Reactor<Self>) -> (action: Self::Action)
        requires
            old(reactor).wf(),
        ensures
            final(reactor).wf(),
            final(self)@ == Self::on_event(old(self)@, event, old(reactor)@).unit,
            final(reactor)@ == Self::on_event(old(self)@, event, old(reactor)@).reactor,
            action@ == Self::on_event(old(self)@, event, old(reactor)@).action,
    ;

    /// Whether a readiness report is meant for this unit.
    fn matches(&self, event: Interest) -> (b: bool)
        ensures
            b == (Self::key(self@) == event.key),
    {
        self.id() == event.key
    }

    /// Makes the processing pass.
    fn poll(&mut self, reactor: &mut Reactor<Self>) -> (action: Self::Action)
        requires
            old(reactor).wf(),
        ensures
            final(reactor).wf(),
            final(self)@ == Self::on_poll(old(self)@, old(reactor)@).unit,
            final(reactor)@ == Self::on_poll(old(self)@, old(reactor)@).reactor,
            action@ == Self::on_poll(old(self)@, old(reactor)@).action,
    ;

    /// Takes an outcome from outside. A unit that does not expect it hands
    /// it back and stays as it is, and so does the reactor.
    fn resume(&mut self, input: Self::Input, reactor: &mut Reactor<Self>) -> (r: Result<
        Self::Action,
        Self::Input,
    >)
        requires
            old(reactor).wf(),
        ensures
            final(reactor).wf(),
            match r {
                Ok(action) => match Self::on_input(old(self)@, input, old(reactor)@) {
                    Some(outcome) => final(self)@ == outcome.unit && final(reactor)@
                        == outcome.reactor && action@ == outcome.action,
                    None => false,
                },
                Err(refused) => Self::on_input(old(self)@, input, old(reactor)@) is None && refused
                    == input && final(self)@ == old(self)@ && final(reactor)@ == old(reactor)@,
            },
    ;
}

} // verus!
