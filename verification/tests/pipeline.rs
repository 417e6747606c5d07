use enfire::dispatcher::{DispatchError, Dispatcher, DEFAULT_QUEUE_CAPACITY};
use enfire::frame::{Frame, HeaderEntry, Reply};
use enfire::service::{EnfireService, EnfireTask};
use enfire::storage::{MemStorage, DEFAULT_THRESHOLD, DEFAULT_WINDOW_SECS};

const NOW: i64 = 1_000_000;

fn header(key: &str, value: &str) -> HeaderEntry {
    HeaderEntry::new(key.to_string(), value.to_string())
}

fn login_frame(ip: &str) -> Frame {
    Frame::RequestHeaders(vec![header("x-forwarded-for", ip), header(":path", "/login")])
}

fn task(ip: &str, path: &str) -> EnfireTask {
    EnfireTask {
        ip: ip.to_string(),
        path: path.to_string(),
        key: None,
    }
}

#[test]
fn one_reply_per_frame_in_order() {
    let mut service = EnfireService::new(
        DEFAULT_QUEUE_CAPACITY,
        DEFAULT_THRESHOLD,
        DEFAULT_WINDOW_SECS,
    );
    let frames = vec![
        login_frame("10.0.0.1"),
        Frame::RequestBody,
        Frame::ResponseHeaders(vec![header(":status", "200")]),
        Frame::ResponseBody,
        Frame::Unrecognized,
    ];
    let replies = service.process(&frames);
    assert_eq!(replies.len(), frames.len());
    assert!(replies.iter().all(|r| *r == Reply::Continue));
    // Only the request-header frame produced a task.
    assert_eq!(service.dispatcher.len(), 1);
}

#[test]
fn dispatcher_is_fifo() {
    let mut dispatcher = Dispatcher::new(DEFAULT_QUEUE_CAPACITY);
    dispatcher.try_enqueue(task("10.0.0.1", "/a")).unwrap();
    dispatcher.try_enqueue(task("10.0.0.2", "/b")).unwrap();
    dispatcher.try_enqueue(task("10.0.0.3", "/c")).unwrap();
    assert_eq!(dispatcher.dequeue().unwrap().path, "/a");
    assert_eq!(dispatcher.dequeue().unwrap().path, "/b");
    assert_eq!(dispatcher.dequeue().unwrap().path, "/c");
    assert!(dispatcher.dequeue().is_none());
}

#[test]
fn full_queue_rejects_and_drops() {
    let mut dispatcher = Dispatcher::new(2);
    assert_eq!(dispatcher.try_enqueue(task("10.0.0.1", "/a")), Ok(()));
    assert_eq!(dispatcher.try_enqueue(task("10.0.0.2", "/b")), Ok(()));
    assert_eq!(
        dispatcher.try_enqueue(task("10.0.0.3", "/c")),
        Err(DispatchError::Full)
    );
    assert_eq!(dispatcher.len(), 2);
    // The rejected task was dropped, never queued.
    assert_eq!(dispatcher.dequeue().unwrap().path, "/a");
    assert_eq!(dispatcher.dequeue().unwrap().path, "/b");
    assert!(dispatcher.dequeue().is_none());
}

#[test]
fn closed_queue_rejects() {
    let mut dispatcher = Dispatcher::new(DEFAULT_QUEUE_CAPACITY);
    dispatcher.close();
    assert_eq!(
        dispatcher.try_enqueue(task("10.0.0.1", "/a")),
        Err(DispatchError::Closed)
    );
    assert_eq!(dispatcher.len(), 0);
}

#[test]
fn full_queue_never_fails_the_reply() {
    let mut service = EnfireService::new(1, DEFAULT_THRESHOLD, DEFAULT_WINDOW_SECS);
    let frames = vec![
        login_frame("10.0.0.1"),
        login_frame("10.0.0.2"),
        login_frame("10.0.0.3"),
    ];
    let replies = service.process(&frames);
    assert_eq!(replies.len(), 3);
    assert!(replies.iter().all(|r| *r == Reply::Continue));
    assert_eq!(service.dispatcher.len(), 1);
}

#[test]
fn run_records_request_and_audit() {
    let mut storage = MemStorage::new(DEFAULT_THRESHOLD, DEFAULT_WINDOW_SECS);
    let abusive = task("10.0.0.1", "/login").run(&mut storage, NOW);
    assert!(!abusive);
    assert_eq!(storage.requests.len(), 1);
    assert_eq!(storage.requests[0].ip, "10.0.0.1");
    assert_eq!(storage.requests[0].path, "/login");
    assert_eq!(storage.requests[0].key, None);
    assert_eq!(storage.requests[0].ts, NOW);
    assert_eq!(storage.events, vec!["10.0.0.1 /login".to_string()]);
}

#[test]
fn unreachable_store_swallows_errors_and_fails_open() {
    let mut service = EnfireService::new(
        DEFAULT_QUEUE_CAPACITY,
        DEFAULT_THRESHOLD,
        DEFAULT_WINDOW_SECS,
    );
    service.storage.set_available(false);
    let frames = vec![login_frame("10.0.0.1"), Frame::RequestBody];
    let replies = service.process(&frames);
    // The stream still replies to every frame.
    assert_eq!(replies.len(), 2);
    assert!(replies.iter().all(|r| *r == Reply::Continue));
    // The task executes, swallows the failure, and is never abusive.
    assert_eq!(service.drain_one(NOW), Some(false));
    assert_eq!(service.storage.requests.len(), 0);
    assert_eq!(service.storage.events.len(), 0);
}

#[test]
fn end_to_end_thirty_first_request_is_abusive() {
    let mut service = EnfireService::new(
        DEFAULT_QUEUE_CAPACITY,
        DEFAULT_THRESHOLD,
        DEFAULT_WINDOW_SECS,
    );
    let frames: Vec<Frame> = (0..31).map(|_| login_frame("10.0.0.1")).collect();
    let replies = service.process(&frames);
    assert_eq!(replies.len(), 31);
    assert!(replies.iter().all(|r| *r == Reply::Continue));

    let mut verdicts = Vec::new();
    while let Some(v) = service.drain_one(NOW) {
        verdicts.push(v);
    }
    assert_eq!(verdicts.len(), 31);
    // The first thirty tasks stay at or under the threshold of 30.
    assert!(verdicts[..30].iter().all(|v| !v));
    // The task of the thirty-first request sees 31 in-window events.
    assert!(verdicts[30]);
}
