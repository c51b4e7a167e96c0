use std::cell::RefCell;
use thread_pool::channel::Message;
use thread_pool::worker::{next_step, Step, Worker};

#[test]
fn a_job_is_run() {
    assert_eq!(next_step(Message::Job(42u32)), Step::Run(42));
}

#[test]
fn an_empty_channel_is_waited_on() {
    assert_eq!(next_step(Message::<u32>::Empty), Step::Wait);
}

#[test]
fn closure_ends_the_loop() {
    assert_eq!(next_step(Message::<u32>::Closed), Step::Exit);
}

#[test]
fn the_job_handed_to_the_loop_is_the_job_received() {
    let job: Box<dyn FnOnce() -> &'static str> = Box::new(|| "ran");
    match next_step(Message::Job(job)) {
        Step::Run(job) => assert_eq!(job(), "ran"),
        Step::Wait => panic!("a job must be run, not waited on"),
        Step::Exit => panic!("a job must be run, not dropped"),
    }
}

#[test]
fn new_worker_starts_its_thread_once_with_its_id() {
    let started = RefCell::new(Vec::new());
    let spawn = |id: usize, sender: &&str| {
        started.borrow_mut().push((id, String::from(*sender)));
        format!("thread-{}", id)
    };
    let worker = Worker::new(3, &"send side", &spawn);
    assert_eq!(worker.id(), 3);
    assert!(worker.is_running());
    assert_eq!(*started.borrow(), vec![(3, String::from("send side"))]);
}

#[test]
fn thread_handle_is_taken_exactly_once() {
    let spawn = |id: usize, _: &()| id * 10;
    let mut worker = Worker::new(4, &(), &spawn);
    assert_eq!(worker.take_thread(), Some(40));
    assert!(!worker.is_running());
    assert_eq!(worker.take_thread(), None);
    assert_eq!(worker.id(), 4);
}

#[test]
fn worker_zero_is_a_worker_like_any_other() {
    let spawn = |id: usize, _: &()| id;
    let mut worker = Worker::new(0, &(), &spawn);
    assert_eq!(worker.id(), 0);
    assert_eq!(worker.take_thread(), Some(0));
}
