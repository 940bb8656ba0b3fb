use static_httpd::pool::{Message, PoolCore};

#[test]
fn pool_of_no_workers_is_refused() {
    let e = PoolCore::<u32>::new(0).err().unwrap();
    assert_eq!(e.kind, "thread_pool");
    assert_eq!(
        e.to_string(),
        "ThreadError{kind:thread_pool,message:The thread pool size must be greater than 0}"
    );
}

#[test]
fn pool_serves_as_many_workers_as_asked() {
    for n in 1..5usize {
        let p = PoolCore::<u32>::new(n).ok().unwrap();
        assert_eq!(p.worker_count(), n);
    }
}

#[test]
fn ten_jobs_on_three_workers_each_run_once() {
    let mut p = PoolCore::<u32>::new(3).ok().unwrap();
    for j in 0..10u32 {
        assert!(p.submit(j).is_ok());
    }
    p.shutdown();
    let mut ran = Vec::new();
    let mut stopped = [false; 3];
    let mut worker = 0usize;
    loop {
        if stopped.iter().all(|s| *s) {
            break;
        }
        if stopped[worker] {
            worker = (worker + 1) % 3;
            continue;
        }
        match p.next() {
            Some(Message::NewJob(j)) => ran.push(j),
            Some(Message::Terminate) => stopped[worker] = true,
            None => panic!("a worker waits on an empty queue"),
        }
        worker = (worker + 1) % 3;
    }
    assert_eq!(ran, (0..10u32).collect::<Vec<_>>());
    assert!(p.next().is_none());
}

#[test]
fn jobs_queued_before_shutdown_come_before_the_stop_signals() {
    let mut p = PoolCore::<&str>::new(2).ok().unwrap();
    p.submit("a").ok().unwrap();
    p.submit("b").ok().unwrap();
    p.shutdown();
    p.shutdown();
    assert_eq!(p.submit("late").err(), Some("late"));
    assert!(matches!(p.next(), Some(Message::NewJob("a"))));
    assert!(matches!(p.next(), Some(Message::NewJob("b"))));
    assert!(matches!(p.next(), Some(Message::Terminate)));
    assert!(matches!(p.next(), Some(Message::Terminate)));
    assert!(p.next().is_none());
}
