pub mod executor;
pub mod reactor;
pub mod task_queue;
