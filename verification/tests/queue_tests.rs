use cachekit::run_step;
use cachekit::Job;
use cachekit::Queue;

#[test]
fn test_queue() {
    let mut q: Queue<Job<String>> = Queue::new();
    assert_eq!(q.len(), 0);
    q.push(Job {
        title: "first".to_string(),
        handler: "a".to_string(),
    });
    q.push(Job {
        title: "second".to_string(),
        handler: "b".to_string(),
    });
    q.end();
    assert_eq!(q.len(), 3);

    let first = q.pop().unwrap();
    assert_eq!(first.title, "first");
    assert_eq!(first.handler, "a");
    let second = q.pop().unwrap();
    assert_eq!(second.title, "second");
    assert_eq!(second.handler, "b");
    // the end marker comes last
    assert!(q.pop().is_none());
    assert_eq!(q.len(), 0);
}

#[test]
fn test_queue_order_is_kept() {
    let mut q: Queue<u64> = Queue::new();
    for i in 0..100u64 {
        q.push(i);
    }
    for i in 0..100u64 {
        assert_eq!(q.pop(), Some(i));
    }
}

#[test]
fn test_run_step_counts_down() {
    assert_eq!(run_step(None), (None, false));
    assert_eq!(run_step(Some(5)), (Some(4), false));
    assert_eq!(run_step(Some(1)), (Some(0), true));
}
