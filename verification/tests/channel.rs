use thread_pool::channel::{JobChannel, Message};

#[test]
fn new_channel_is_open_and_empty() {
    let mut channel: JobChannel<u32> = JobChannel::new();
    assert!(channel.is_open());
    assert_eq!(channel.len(), 0);
    assert_eq!(channel.recv(), Message::Empty);
}

#[test]
fn jobs_come_out_in_the_order_they_went_in() {
    let mut channel = JobChannel::new();
    assert_eq!(channel.send(1u32), Ok(()));
    assert_eq!(channel.send(2), Ok(()));
    assert_eq!(channel.send(3), Ok(()));
    assert_eq!(channel.len(), 3);
    assert_eq!(channel.recv(), Message::Job(1));
    assert_eq!(channel.recv(), Message::Job(2));
    assert_eq!(channel.recv(), Message::Job(3));
    assert_eq!(channel.recv(), Message::Empty);
}

#[test]
fn back_to_back_jobs_are_dequeued_in_submission_order() {
    let mut channel = JobChannel::new();
    assert_eq!(channel.send("first"), Ok(()));
    assert_eq!(channel.send("second"), Ok(()));
    assert_eq!(channel.recv(), Message::Job("first"));
    assert_eq!(channel.recv(), Message::Job("second"));
}

#[test]
fn order_survives_interleaved_sends_and_receives() {
    let mut channel = JobChannel::new();
    assert_eq!(channel.send(10u8), Ok(()));
    assert_eq!(channel.send(20), Ok(()));
    assert_eq!(channel.recv(), Message::Job(10));
    assert_eq!(channel.send(30), Ok(()));
    assert_eq!(channel.len(), 2);
    assert_eq!(channel.recv(), Message::Job(20));
    assert_eq!(channel.recv(), Message::Job(30));
    assert_eq!(channel.len(), 0);
}

#[test]
fn equal_jobs_are_each_delivered() {
    let mut channel = JobChannel::new();
    assert_eq!(channel.send(7u32), Ok(()));
    assert_eq!(channel.send(7), Ok(()));
    assert_eq!(channel.recv(), Message::Job(7));
    assert_eq!(channel.recv(), Message::Job(7));
    assert_eq!(channel.recv(), Message::Empty);
}

#[test]
fn empty_open_channel_keeps_reporting_empty() {
    let mut channel: JobChannel<u32> = JobChannel::new();
    assert_eq!(channel.recv(), Message::Empty);
    assert_eq!(channel.recv(), Message::Empty);
    assert!(channel.is_open());
}

#[test]
fn closed_empty_channel_reports_closure() {
    let mut channel: JobChannel<u32> = JobChannel::new();
    channel.close();
    assert!(!channel.is_open());
    assert_eq!(channel.recv(), Message::Closed);
    assert_eq!(channel.recv(), Message::Closed);
}

#[test]
fn close_drains_before_it_reports_closure() {
    let mut channel = JobChannel::new();
    assert_eq!(channel.send('a'), Ok(()));
    assert_eq!(channel.send('b'), Ok(()));
    channel.close();
    assert_eq!(channel.len(), 2);
    assert_eq!(channel.recv(), Message::Job('a'));
    assert_eq!(channel.recv(), Message::Job('b'));
    assert_eq!(channel.recv(), Message::Closed);
}

#[test]
fn send_after_close_hands_the_job_back() {
    let mut channel = JobChannel::new();
    assert_eq!(channel.send(1u32), Ok(()));
    channel.close();
    assert_eq!(channel.send(2), Err(2));
    assert_eq!(channel.len(), 1);
    assert_eq!(channel.recv(), Message::Job(1));
    assert_eq!(channel.recv(), Message::Closed);
}

#[test]
fn close_is_idempotent() {
    let mut channel = JobChannel::new();
    assert_eq!(channel.send(5u32), Ok(()));
    channel.close();
    channel.close();
    assert!(!channel.is_open());
    assert_eq!(channel.len(), 1);
    assert_eq!(channel.recv(), Message::Job(5));
}

#[test]
fn channel_carries_boxed_closures() {
    let mut channel: JobChannel<Box<dyn FnOnce() -> u32>> = JobChannel::new();
    assert!(channel.send(Box::new(|| 1)).is_ok());
    assert!(channel.send(Box::new(|| 2)).is_ok());
    let mut results = Vec::new();
    while let Message::Job(job) = channel.recv() {
        results.push(job());
    }
    assert_eq!(results, vec![1, 2]);
}

#[test]
fn many_jobs_keep_their_order() {
    let mut channel = JobChannel::new();
    for i in 0..1000u32 {
        assert_eq!(channel.send(i), Ok(()));
    }
    assert_eq!(channel.len(), 1000);
    for i in 0..1000u32 {
        assert_eq!(channel.recv(), Message::Job(i));
    }
    assert_eq!(channel.recv(), Message::Empty);
}
