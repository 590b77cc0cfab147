use crate::executor::async_io::reactor::{Drained, Reactor};
use crate::executor::async_io::task_queue::{Task, TaskQueue};
use crate::multiplexer::reports;
use std::rc::Rc;
use vstd::prelude::*;

verus! {

/// What the run loop does next.
pub enum Step<F> {
    /// The computation to resume once.
    Poll(Rc<Task<F>>),
    /// No task is due and wakers wait for readiness: block on the readiness
    /// facility, then hand what it reports to `wait_for_io`.
    Wait,
    /// No task is due and nothing can make one due: the loop ends.
    Exit,
}

/// The scheduler of the cooperative model. Its view is the list of due
/// tasks; the one that runs next is the last.
#[verifier::reject_recursive_types(F)]
pub struct Executor<F> {
    tasks: TaskQueue<F>,
}

impl<F> View for Executor<F> {
    type V = Seq<Rc<Task<F>>>;

    closed spec fn view(&self) -> Seq<Rc<Task<F>>> {
        self.tasks@
    }
}

/// Makes the computation `f` a task of `executor` and starts the run loop:
/// the first step resumes that task.
pub fn block_on<F, W>(executor: &mut Executor<F>, reactor: &Reactor<W>, f: F) -> (step: Step<F>)
    ensures
        step == Step::Poll(Rc::new(Task { future: f })),
        final(executor)@ == old(executor)@,
{
    executor.spawn(f);
    let step = executor.run(reactor);
    assert(old(executor)@.push(Rc::new(Task { future: f })).drop_last() =~= old(executor)@);
    step
}

/// Makes the computation `f` a task of `executor`, due to run.
pub fn spawn<F>(executor: &mut Executor<F>, f: F)
    ensures
        final(executor)@ == old(executor)@.push(Rc::new(Task { future: f })),
{
    executor.spawn(f);
}

impl<F> Executor<F> {
    /// An executor without tasks.
    pub fn new() -> (e: Executor<F>)
        ensures
            e@ == Seq::<Rc<Task<F>>>::empty(),
    {
        Executor { tasks: TaskQueue::new() }
    }

    /// Makes the computation `f` a task, due to run.
    pub fn spawn(&mut self, f: F)
        ensures
            final(self)@ == old(self)@.push(Rc::new(Task { future: f })),
    {
        self.tasks.push(Task { future: f });
    }

    /// The step that the run loop takes when `due` tasks are due and
    /// `waiting` says whether wakers wait for readiness.
    pub open spec fn next_step(due: Seq<Rc<Task<F>>>, waiting: bool) -> Step<F> {
        if due.len() > 0 {
            Step::Poll(due.last())
        } else if waiting {
            Step::Wait
        } else {
            Step::Exit
        }
    }

    /// The tasks that stay due once the step is taken.
    pub open spec fn remaining(due: Seq<Rc<Task<F>>>) -> Seq<Rc<Task<F>>> {
        if due.len() > 0 {
            due.drop_last()
        } else {
            due
        }
    }

    /// Whether a turn that found `due` tasks due and `woken` tasks on the
    /// channel came to `step` and left `rest` due. The channel is looked at
    /// only when no task is due; what it holds becomes due before the step
    /// is chosen.
    pub open spec fn turned(
        due: Seq<Rc<Task<F>>>,
        woken: Seq<Rc<Task<F>>>,
        waiting: bool,
        step: Step<F>,
        rest: Seq<Rc<Task<F>>>,
    ) -> bool {
        &&& due.len() > 0 ==> woken.len() == 0
        &&& step == Self::next_step(due + woken, waiting)
        &&& rest == Self::remaining(due + woken)
    }

    /// Makes the `woken` tasks due and chooses the step: the task that
    /// became due last is resumed; when none is due the loop blocks for
    /// readiness if any waker waits for it, and ends if none does.
    pub fn decide<W>(&mut self, woken: Vec<Rc<Task<F>>>, reactor: &Reactor<W>) -> (step: Step<F>)
        ensures
            step == Self::next_step(old(self)@ + woken@, reactor@.waiting()),
            final(self)@ == Self::remaining(old(self)@ + woken@),
    {
        self.tasks.accept_all(woken);
        match self.tasks.pop() {
            Some(task) => Step::Poll(task),
            None => {
                if reactor.waiting_on_events() {
                    Step::Wait
                } else {
                    Step::Exit
                }
            },
        }
    }

    /// One turn of the run loop. While tasks are due, the one that was made
    /// due last leaves the queue to be resumed once. When none is due, the
    /// tasks that wakers have handed back since are taken from the channel
    /// and made due first, so that no wake is lost. Only when none is due
    /// and none was handed back does the loop block for readiness, if any
    /// waker waits for it, or end, if none does.
    pub fn run<W>(&mut self, reactor: &Reactor<W>) -> (step: Step<F>)
        ensures
            exists|woken: Seq<Rc<Task<F>>>| #[trigger]
                Self::turned(old(self)@, woken, reactor@.waiting(), step, final(self)@),
            old(self)@.len() > 0 ==> step == Step::Poll(old(self)@.last()) && final(self)@ == old(self)@.drop_last(),
            step is Wait ==> reactor@.waiting() && final(self)@.len() == 0,
            step is Exit ==> !reactor@.waiting() && final(self)@.len() == 0,
    {
        let woken = if self.tasks.is_empty() {
            self.tasks.received()
        } else {
            Vec::new()
        };
        let step = self.decide(woken, reactor);
        proof {
            assert(Self::turned(old(self)@, woken@, reactor@.waiting(), step, self@));
            if old(self)@.len() > 0 {
                assert(old(self)@ + woken@ =~= old(self)@);
            }
        }
        step
    }

    /// Takes what the readiness facility reported while the loop was
    /// blocked: the wakers to invoke and the interests to set again. The
    /// wakers are those that the reports release, as `Reactor::drain_wakers`
    /// gives them, and after them those that wait for background
    /// operations: the wait may have ended on the notification of one. The
    /// due tasks are not touched; the invoked wakers hand their tasks back
    /// through the channel.
    pub fn wait_for_io<W>(&self, reactor: &mut Reactor<W>, events: polling::Events) -> (out:
        Drained<W>)
        requires
            old(reactor).wf(),
        ensures
            final(reactor).wf(),
            final(reactor)@ == old(reactor)@.drain(reports(events)).released_offloads(),
            out.wakers@ == old(reactor)@.drained(reports(events)) + old(reactor)@.offloaded,
            out.rearm@ == old(reactor)@.rearmed(reports(events)),
    {
        let mut out = reactor.drain_wakers(events);
        proof {
            crate::executor::async_io::reactor::lemma_drain_keeps_offloads(
                old(reactor)@,
                reports(events),
            );
        }
        let mut offloads = reactor.finished_offloads();
        out.wakers.append(&mut offloads);
        out
    }

    /// Takes how the wait on the readiness facility came out. A wait that
    /// failed ends the loop: the error comes back, no waker is released, and
    /// the reactor stays as it is. A wait that returned is taken as
    /// `wait_for_io` takes it.
    pub fn after_wait<W, E>(
        &self,
        reactor: &mut Reactor<W>,
        waited: Result<polling::Events, E>,
    ) -> (r: Result<Drained<W>, E>)
        requires
            old(reactor).wf(),
        ensures
            final(reactor).wf(),
            match waited {
                Ok(events) => match r {
                    Ok(out) => {
                        &&& final(reactor)@ == old(reactor)@.drain(
                            reports(events),
                        ).released_offloads()
                        &&& out.wakers@ == old(reactor)@.drained(reports(events)) + old(reactor)@.offloaded
                        &&& out.rearm@ == old(reactor)@.rearmed(reports(events))
                    },
                    Err(_) => false,
                },
                Err(error) => r == Err::<Drained<W>, E>(error) && final(reactor)@ == old(reactor)@,
            },
    {
        match waited {
            Ok(events) => Ok(self.wait_for_io(reactor, events)),
            Err(error) => Err(error),
        }
    }

    /// Makes due every task that wakers have handed back so far. The tasks
    /// that were due before stay due, in their order.
    pub fn receive(&mut self)
        ensures
            old(self)@.is_prefix_of(final(self)@),
    {
        self.tasks.receiver();
    }

    /// A sender through which a waker hands its task back to this executor.
    pub fn sender(&self) -> std::sync::mpsc::Sender<Rc<Task<F>>> {
        self.tasks.sender()
    }

    /// Makes one task that was handed back due.
    pub fn accept(&mut self, task: Rc<Task<F>>)
        ensures
            final(self)@ == old(self)@.push(task),
    {
        self.tasks.accept(task);
    }
}

} // verus!
