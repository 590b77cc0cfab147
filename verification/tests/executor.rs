use reactor_core::executor::async_io::executor::{block_on, spawn, Executor, Step};
use reactor_core::executor::async_io::reactor::Reactor;
use reactor_core::executor::async_io::task_queue::{Task, TaskQueue};
use std::rc::Rc;

#[test]
fn the_queue_hands_out_the_task_that_came_last() {
    let mut queue: TaskQueue<u32> = TaskQueue::new();
    assert!(queue.is_empty());
    assert!(queue.pop().is_none());
    queue.push(Task { future: 1 });
    queue.push(Task { future: 2 });
    assert!(!queue.is_empty());
    assert_eq!(queue.pop().unwrap().future, 2);
    assert_eq!(queue.pop().unwrap().future, 1);
    assert!(queue.pop().is_none());
    assert!(queue.is_empty());
}

#[test]
fn woken_tasks_become_due_when_received() {
    let mut queue: TaskQueue<u32> = TaskQueue::new();
    queue.push(Task { future: 1 });
    let sender = queue.sender();
    sender.send(Rc::new(Task { future: 2 })).unwrap();
    sender.send(Rc::new(Task { future: 3 })).unwrap();
    assert_eq!(queue.pop().unwrap().future, 1);
    assert!(queue.is_empty());
    queue.receiver();
    assert!(!queue.is_empty());
    assert_eq!(queue.pop().unwrap().future, 3);
    assert_eq!(queue.pop().unwrap().future, 2);
    queue.receiver();
    assert!(queue.is_empty());
}

#[test]
fn accept_makes_one_task_due() {
    let mut queue: TaskQueue<&str> = TaskQueue::new();
    queue.accept(Rc::new(Task { future: "a" }));
    assert_eq!(queue.pop().unwrap().future, "a");
}

#[test]
fn run_resumes_due_tasks_then_ends_without_waiters() {
    let reactor: Reactor<u32> = Reactor::new();
    let mut executor: Executor<u32> = Executor::new();
    executor.spawn(1);
    spawn(&mut executor, 2);
    match executor.run(&reactor) {
        Step::Poll(task) => assert_eq!(task.future, 2),
        _ => panic!("a task is due"),
    }
    match executor.run(&reactor) {
        Step::Poll(task) => assert_eq!(task.future, 1),
        _ => panic!("a task is due"),
    }
    assert!(matches!(executor.run(&reactor), Step::Exit));
    assert!(matches!(executor.run(&reactor), Step::Exit));
}

#[test]
fn run_waits_while_wakers_wait() {
    let mut reactor: Reactor<u32> = Reactor::new();
    reactor.add(3).unwrap();
    reactor.wake_on_readable(3, 77).unwrap();
    let mut executor: Executor<u32> = Executor::new();
    assert!(matches!(executor.run(&reactor), Step::Wait));
    executor.spawn(5);
    assert!(matches!(executor.run(&reactor), Step::Poll(_)));
    assert!(matches!(executor.run(&reactor), Step::Wait));
}

#[test]
fn block_on_resumes_the_new_task_first() {
    let reactor: Reactor<u32> = Reactor::new();
    let mut executor: Executor<u32> = Executor::new();
    executor.spawn(1);
    match block_on(&mut executor, &reactor, 9) {
        Step::Poll(task) => assert_eq!(task.future, 9),
        _ => panic!("the new task is due"),
    }
    match executor.run(&reactor) {
        Step::Poll(task) => assert_eq!(task.future, 1),
        _ => panic!("the older task is still due"),
    }
}

#[test]
fn a_task_is_resumed_once_for_each_wake() {
    let mut reactor: Reactor<usize> = Reactor::new();
    let mut executor: Executor<usize> = Executor::new();
    reactor.add(4).unwrap();
    executor.spawn(0);
    let task = match executor.run(&reactor) {
        Step::Poll(task) => task,
        _ => panic!("a task is due"),
    };
    // The task would block: its waker is filed, and the loop blocks.
    reactor.wake_on_readable(4, 0).unwrap();
    assert!(matches!(executor.run(&reactor), Step::Wait));
    let out = executor.wait_for_io(&mut reactor, polling::Events::new());
    assert!(out.wakers.is_empty());
    let out = reactor.drain_ready(&vec![reactor_core::multiplexer::Interest::readable(4)]);
    assert_eq!(out.wakers, vec![0]);
    let sender = executor.sender();
    for _ in out.wakers {
        sender.send(task.clone()).unwrap();
    }
    executor.receive();
    assert!(matches!(executor.run(&reactor), Step::Poll(_)));
    assert!(matches!(executor.run(&reactor), Step::Exit));
    executor.accept(task);
    assert!(matches!(executor.run(&reactor), Step::Poll(_)));
}

#[test]
fn a_wake_during_the_poll_is_not_lost() {
    let reactor: Reactor<u32> = Reactor::new();
    let mut executor: Executor<u32> = Executor::new();
    executor.spawn(1);
    let task = match executor.run(&reactor) {
        Step::Poll(task) => task,
        _ => panic!("a task is due"),
    };
    // The task wakes itself while it is resumed, and no waker waits for I/O.
    executor.sender().send(task.clone()).unwrap();
    match executor.run(&reactor) {
        Step::Poll(again) => assert!(Rc::ptr_eq(&again, &task)),
        _ => panic!("the woken task is resumed again"),
    }
    assert!(matches!(executor.run(&reactor), Step::Exit));
}

#[test]
fn woken_tasks_wait_behind_those_that_are_due() {
    let reactor: Reactor<u32> = Reactor::new();
    let mut executor: Executor<u32> = Executor::new();
    executor.spawn(1);
    executor.spawn(2);
    executor.sender().send(Rc::new(Task { future: 3 })).unwrap();
    executor.sender().send(Rc::new(Task { future: 4 })).unwrap();
    let mut order = Vec::new();
    loop {
        match executor.run(&reactor) {
            Step::Poll(task) => order.push(task.future),
            Step::Wait => panic!("no waker waits"),
            Step::Exit => break,
        }
    }
    assert_eq!(order, vec![2, 1, 4, 3]);
}

#[test]
fn decide_takes_the_woken_tasks_in() {
    let mut reactor: Reactor<u32> = Reactor::new();
    let mut executor: Executor<u32> = Executor::new();
    assert!(matches!(executor.decide(Vec::new(), &reactor), Step::Exit));
    executor.spawn(1);
    let woken = vec![Rc::new(Task { future: 2 }), Rc::new(Task { future: 3 })];
    assert!(matches!(executor.decide(woken, &reactor), Step::Poll(t) if t.future == 3));
    assert!(matches!(executor.decide(Vec::new(), &reactor), Step::Poll(t) if t.future == 2));
    assert!(matches!(executor.decide(Vec::new(), &reactor), Step::Poll(t) if t.future == 1));
    reactor.wake_on_offload(9);
    assert!(matches!(executor.decide(Vec::new(), &reactor), Step::Wait));
}

#[test]
fn wakers_of_background_operations_are_released_after_a_wait() {
    let mut reactor: Reactor<u32> = Reactor::new();
    let mut executor: Executor<u32> = Executor::new();
    assert!(!reactor.waiting_on_events());
    reactor.wake_on_offload(7);
    reactor.wake_on_offload(8);
    assert!(reactor.waiting_on_events());
    assert!(matches!(executor.run(&reactor), Step::Wait));
    reactor.add(3).unwrap();
    reactor.wake_on_readable(3, 1).unwrap();
    let out = executor.wait_for_io(&mut reactor, polling::Events::new());
    assert_eq!(out.wakers, vec![7, 8]);
    assert!(out.rearm.is_empty());
    assert!(reactor.waiting_on_events());
    assert!(reactor.finished_offloads().is_empty());
    reactor.wake_on_offload(9);
    assert_eq!(reactor.finished_offloads(), vec![9]);
    assert_eq!(reactor.remove(3), Ok(()));
    assert!(!reactor.waiting_on_events());
}

#[test]
fn the_queue_takes_what_the_channel_holds() {
    let mut queue: TaskQueue<u32> = TaskQueue::new();
    assert!(queue.received().is_empty());
    queue.sender().send(Rc::new(Task { future: 5 })).unwrap();
    queue.sender().send(Rc::new(Task { future: 6 })).unwrap();
    let woken = queue.received();
    assert_eq!(woken.iter().map(|t| t.future).collect::<Vec<u32>>(), vec![5, 6]);
    assert!(queue.received().is_empty());
    assert!(queue.is_empty());
    queue.push(Task { future: 4 });
    queue.accept_all(woken);
    assert_eq!(queue.pop().unwrap().future, 6);
    assert_eq!(queue.pop().unwrap().future, 5);
    assert_eq!(queue.pop().unwrap().future, 4);
}

#[test]
fn a_wait_that_failed_releases_no_waker() {
    let mut reactor: Reactor<u32> = Reactor::new();
    let executor: Executor<u32> = Executor::new();
    reactor.add(3).unwrap();
    reactor.wake_on_readable(3, 1).unwrap();
    reactor.wake_on_offload(2);
    let waited: Result<polling::Events, &str> = Err("broken");
    assert!(matches!(executor.after_wait(&mut reactor, waited), Err("broken")));
    assert_eq!(reactor.interest(3), Some(reactor_core::multiplexer::Interest::readable(3)));
    assert!(reactor.waiting_on_events());
    let waited: Result<polling::Events, &str> = Ok(polling::Events::new());
    match executor.after_wait(&mut reactor, waited) {
        Ok(out) => assert_eq!(out.wakers, vec![2]),
        Err(_) => panic!("the wait returned"),
    }
    assert_eq!(reactor.finished_offloads(), Vec::<u32>::new());
}
