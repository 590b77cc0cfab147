use crate::worker::{Task, Worker};
use std::sync::mpsc::Sender;
use vstd::prelude::*;

verus! {

/// `Sender::send`: puts a value on the channel. Where the receiver is gone
/// the value comes back, taken out of the error. Whether the receiver is
/// gone depends on the other threads, so no more is claimed.
#[verifier::external_body]
fn send<T>(sender: &Sender<T>, value: T) -> (sent: Result<(), T>)
    ensures
        match sent {
            Ok(_) => true,
            Err(back) => back == value,
        },
{
    sender.send(value).map_err(|e| e.0)
}

/// A pool of workers that take jobs `J` from one channel. `H` is the handle
/// by which the thread of a worker is joined.
#[verifier::reject_recursive_types(J)]
pub struct ThreadPool<J, H> {
    workers: Vec<Worker<H>>,
    sender: Sender<Task<J>>,
}

impl<J, H> View for ThreadPool<J, H> {
    type V = Seq<Worker<H>>;

    closed spec fn view(&self) -> Seq<Worker<H>> {
        self.workers@
    }
}

impl<J, H> ThreadPool<J, H> {
    /// A pool whose workers run on `threads` and receive what is sent
    /// through `sender`. The workers are numbered from zero in the order of
    /// their threads.
    pub fn new(sender: Sender<Task<J>>, threads: Vec<H>) -> (pool: ThreadPool<J, H>)
        ensures
            pool@.len() == threads@.len(),
            forall|i: int|
                0 <= i < threads@.len() ==> #[trigger] pool@[i] == (Worker::<H> {
                    id: i as usize,
                    thread: Some(threads@[i]),
                }),
    {
        let mut threads = threads;
        let ghost all = threads@;
        let mut workers: Vec<Worker<H>> = Vec::new();
        // The vector gives its handles from the end, so the workers are
        // built last to first and turned round after.
        while threads.len() > 0
            invariant
                threads@.len() + workers@.len() == all.len(),
                threads@ == all.take(threads@.len() as int),
                forall|k: int|
                    0 <= k < workers@.len() ==> #[trigger] workers@[k] == (Worker::<H> {
                        id: (all.len() - 1 - k) as usize,
                        thread: Some(all[all.len() - 1 - k]),
                    }),
            decreases threads.len(),
        {
            let id = threads.len() - 1;
            match threads.pop() {
                Some(thread) => {
                    workers.push(Worker::new(id, thread));
                },
                None => {},
            }
        }
        let mut ordered: Vec<Worker<H>> = Vec::new();
        while workers.len() > 0
            invariant
                ordered@.len() + workers@.len() == all.len(),
                forall|k: int|
                    0 <= k < workers@.len() ==> #[trigger] workers@[k] == (Worker::<H> {
                        id: (all.len() - 1 - k) as usize,
                        thread: Some(all[all.len() - 1 - k]),
                    }),
                forall|i: int|
                    0 <= i < ordered@.len() ==> #[trigger] ordered@[i] == (Worker::<H> {
                        id: i as usize,
                        thread: Some(all[i]),
                    }),
            decreases workers.len(),
        {
            match workers.pop() {
                Some(worker) => {
                    ordered.push(worker);
                },
                None => {},
            }
        }
        ThreadPool { workers: ordered, sender }
    }

    /// What the caller of `execute` learns from a send: a job that the
    /// channel handed back is refused and returned to the caller; a send
    /// that went through, or a stop request that came back, leaves nothing
    /// to return.
    pub open spec fn spec_refused(sent: Result<(), Task<J>>) -> Result<(), J> {
        match sent {
            Ok(_) => Ok(()),
            Err(Task::New(job)) => Err(job),
            Err(Task::Exit) => Ok(()),
        }
    }

    /// What the caller of `execute` learns from how the send came out, as
    /// `spec_refused` says.
    pub fn refused(sent: Result<(), Task<J>>) -> (r: Result<(), J>)
        ensures
            r == Self::spec_refused(sent),
    {
        match sent {
            Ok(()) => Ok(()),
            Err(Task::New(job)) => Err(job),
            Err(Task::Exit) => Ok(()),
        }
    }

    /// What is sent to the workers for the job `f`: the job as a new task.
    pub fn task(f: J) -> (t: Task<J>)
        ensures
            t == Task::New(f),
    {
        Task::New(f)
    }

    /// What is sent to the workers to shut the pool down: one request to
    /// stop for each worker.
    pub fn stop_requests(&self) -> (stops: Vec<Task<J>>)
        ensures
            stops@.len() == self@.len(),
            forall|i: int| 0 <= i < stops@.len() ==> #[trigger] stops@[i] is Exit,
    {
        let mut stops: Vec<Task<J>> = Vec::new();
        let mut i: usize = 0;
        while i < self.workers.len()
            invariant
                i <= self.workers@.len(),
                stops@.len() == i,
                forall|k: int| 0 <= k < stops@.len() ==> #[trigger] stops@[k] is Exit,
            decreases self.workers.len() - i,
        {
            stops.push(Task::Exit);
            i = i + 1;
        }
        stops
    }

    /// Hands the job `f` to the workers: what `task` makes of it is sent on
    /// the channel. Whether a worker is left to receive it is for the
    /// channel to say: where none is, the job comes back, as `refused`
    /// turns the failed send into it.
    pub fn execute(&self, f: J) -> (r: Result<(), J>)
        ensures
            r is Err ==> r == Err::<(), J>(f),
    {
        Self::refused(send(&self.sender, Self::task(f)))
    }

    /// Shuts the pool down: sends what `stop_requests` gives, then
    /// takes the handles of all threads that are not yet taken, in the
    /// order of the workers, to be joined. Afterwards no worker holds a
    /// handle.
    pub fn shutdown(&mut self) -> (threads: Vec<H>)
        ensures
            final(self)@.len() == old(self)@.len(),
            forall|i: int|
                0 <= i < old(self)@.len() ==> #[trigger] final(self)@[i] == (Worker::<H> {
                    id: old(self)@[i].id,
                    thread: None,
                }),
            threads@ == held(old(self)@),
    {
        let mut stops = self.stop_requests();
        while stops.len() > 0
            invariant
                self.workers == old(self).workers,
            decreases stops.len(),
        {
            match stops.pop() {
                Some(stop) => {
                    let _ = send(&self.sender, stop);
                },
                None => {},
            }
        }
        let mut threads: Vec<H> = Vec::new();
        let mut k: usize = 0;
        while k < self.workers.len()
            invariant
                k <= self.workers@.len(),
                self.workers@.len() == old(self).workers@.len(),
                forall|i: int|
                    0 <= i < k ==> #[trigger] self.workers@[i] == (Worker::<H> {
                        id: old(self).workers@[i].id,
                        thread: None,
                    }),
                forall|i: int|
                    k <= i < self.workers@.len() ==> #[trigger] self.workers@[i] == old(self).workers@[i],
                threads@ == held(old(self).workers@.take(k as int)),
            decreases self.workers.len() - k,
        {
            proof {
                assert(old(self).workers@.take(k + 1).drop_last() =~= old(self).workers@.take(
                    k as int,
                ));
            }
            match self.workers[k].thread.take() {
                Some(thread) => {
                    threads.push(thread);
                },
                None => {},
            }
            k = k + 1;
        }
        assert(old(self).workers@.take(k as int) =~= old(self).workers@);
        threads
    }
}

/// The handles that the workers hold, in the order of the workers.
pub open spec fn held<H>(workers: Seq<Worker<H>>) -> Seq<H>
    decreases workers.len(),
{
    if workers.len() == 0 {
        Seq::empty()
    } else {
        match workers.last().thread {
            Some(thread) => held(workers.drop_last()).push(thread),
            None => held(workers.drop_last()),
        }
    }
}

} // verus!
