use std::rc::Rc;
use std::sync::mpsc::{Receiver, Sender, TryRecvError};
use vstd::prelude::*;

verus! {

/// The sending half of a channel of the standard library.
#[verifier::external_type_specification]
#[verifier::external_body]
#[verifier::reject_recursive_types(T)]
pub struct ExSender<T>(Sender<T>);

/// The receiving half of a channel of the standard library.
#[verifier::external_type_specification]
#[verifier::external_body]
#[verifier::reject_recursive_types(T)]
pub struct ExReceiver<T>(Receiver<T>);

/// Why a receive that does not block came back without a value.
#[verifier::external_type_specification]
#[verifier::external_body]
pub struct ExTryRecvError(TryRecvError);

/// `std::sync::mpsc::channel`: a new channel. Nothing is claimed of it.
pub assume_specification<T>[ std::sync::mpsc::channel::<T> ]() -> (halves: (Sender<T>, Receiver<T>))
;

/// `Sender::clone`: one more sender for the same channel. Nothing is claimed
/// of it.
pub assume_specification<T>[ <Sender<T> as Clone>::clone ](sender: &Sender<T>) -> (copy: Sender<T>)
;

/// `Receiver::try_recv`: a value that was sent, if one is there now. What
/// comes back depends on the other threads, so nothing is claimed of it.
pub assume_specification<T>[ Receiver::<T>::try_recv ](receiver: &Receiver<T>) -> (r: Result<
    T,
    TryRecvError,
>)
;

/// A suspended computation.
pub struct Task<F> {
    pub future: F,
}

/// The tasks that are due to run, and the channel through which wakers hand
/// tasks back from any thread. The view is the list of due tasks; the one
/// that runs next is the last.
#[verifier::reject_recursive_types(F)]
pub struct TaskQueue<F> {
    sender: Sender<Rc<Task<F>>>,
    receiver: Receiver<Rc<Task<F>>>,
    tasks: Vec<Rc<Task<F>>>,
}

impl<F> View for TaskQueue<F> {
    type V = Seq<Rc<Task<F>>>;

    closed spec fn view(&self) -> Seq<Rc<Task<F>>> {
        self.tasks@
    }
}

impl<F> TaskQueue<F> {
    /// A queue without due tasks, with a channel of its own.
    pub fn new() -> (q: TaskQueue<F>)
        ensures
            q@ == Seq::<Rc<Task<F>>>::empty(),
    {
        let (s, r) = std::sync::mpsc::channel();
        TaskQueue { sender: s, receiver: r, tasks: Vec::new() }
    }

    /// A sender through which a waker hands its task back to this queue.
    pub fn sender(&self) -> Sender<Rc<Task<F>>> {
        self.sender.clone()
    }

    /// Makes one task that was handed back due.
    pub fn accept(&mut self, task: Rc<Task<F>>)
        ensures
            final(self)@ == old(self)@.push(task),
    {
        self.tasks.push(task);
    }

    /// Takes from the channel every task that wakers have handed back so
    /// far, without blocking, oldest first. Which tasks these are depends on
    /// who has sent, so nothing is claimed of them.
    pub fn received(&self) -> (woken: Vec<Rc<Task<F>>>) {
        let mut woken: Vec<Rc<Task<F>>> = Vec::new();
        while woken.len() < usize::MAX
            decreases usize::MAX - woken.len(),
        {
            match self.receiver.try_recv() {
                Ok(task) => {
                    woken.push(task);
                },
                Err(_) => {
                    break ;
                },
            }
        }
        woken
    }

    /// Makes due the tasks that were handed back, in their order.
    pub fn accept_all(&mut self, woken: Vec<Rc<Task<F>>>)
        ensures
            final(self)@ == old(self)@ + woken@,
    {
        let mut woken = woken;
        self.tasks.append(&mut woken);
    }

    /// Makes due every task that wakers have handed back so far, without
    /// blocking. The tasks that were due before stay due, in their order.
    pub fn receiver(&mut self)
        ensures
            old(self)@.is_prefix_of(final(self)@),
    {
        let woken = self.received();
        self.accept_all(woken);
    }

    /// Makes a new task due.
    pub fn push(&mut self, runnable: Task<F>)
        ensures
            final(self)@ == old(self)@.push(Rc::new(runnable)),
    {
        self.tasks.push(Rc::new(runnable));
    }

    /// Takes the task that runs next, if any is due.
    pub fn pop(&mut self) -> (task: Option<Rc<Task<F>>>)
        ensures
            old(self)@.len() == 0 ==> task is None && final(self)@ == old(self)@,
            old(self)@.len() > 0 ==> task == Some(old(self)@.last()) && final(self)@ == old(self)@.drop_last(),
    {
        self.tasks.pop()
    }

    /// Whether no task is due.
    pub fn is_empty(&self) -> (b: bool)
        ensures
            b == (self@.len() == 0),
    {
        self.tasks.is_empty()
    }
}

} // verus!
