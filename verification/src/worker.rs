use vstd::prelude::*;

verus! {

/// What is sent to the workers of a pool. `J` is a job.
pub enum Task<J> {
    /// A job to run to completion.
    New(J),
    /// The request to stop.
    Exit,
}

/// A worker of a pool: its number and the handle `H` by which its thread is
/// joined, until the handle is taken for joining.
pub struct Worker<H> {
    pub id: usize,
    pub thread: Option<H>,
}

impl<H> Worker<H> {
    /// The worker with the number `id` that runs on `thread`.
    pub fn new(id: usize, thread: H) -> (worker: Worker<H>)
        ensures
            worker == (Worker { id, thread: Some(thread) }),
    {
        Worker { id, thread: Some(thread) }
    }

    /// What a worker does with a task that it received: a job is to be run,
    /// after which the worker receives again; the request to stop ends the
    /// worker.
    pub fn next<J>(task: Task<J>) -> (job: Option<J>)
        ensures
            job == (match task {
                Task::New(job) => Some(job),
                Task::Exit => None,
            }),
    {
        match task {
            Task::New(job) => Some(job),
            Task::Exit => None,
        }
    }
}

} // verus!
