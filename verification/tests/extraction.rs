use enfire::frame::{Frame, HeaderEntry};
use enfire::service::EnfireTask;

fn header(key: &str, value: &str) -> HeaderEntry {
    HeaderEntry::new(key.to_string(), value.to_string())
}

fn headers_frame(entries: Vec<HeaderEntry>) -> Frame {
    Frame::RequestHeaders(entries)
}

#[test]
fn xff_takes_first_segment() {
    let frame = headers_frame(vec![
        header("x-forwarded-for", "10.1.1.1, 10.2.2.2"),
        header(":path", "/login"),
    ]);
    let task = EnfireTask::from_request(&frame).unwrap();
    assert_eq!(task.ip, "10.1.1.1");
    assert_eq!(task.path, "/login");
    assert!(task.key.is_none());
}

#[test]
fn missing_path_defaults_to_slash() {
    let frame = headers_frame(vec![header("x-forwarded-for", "10.1.1.1")]);
    let task = EnfireTask::from_request(&frame).unwrap();
    assert_eq!(task.path, "/");
}

#[test]
fn missing_xff_defaults_to_unknown() {
    let frame = headers_frame(vec![header(":path", "/login")]);
    let task = EnfireTask::from_request(&frame).unwrap();
    assert_eq!(task.ip, "unknown");
}

#[test]
fn empty_xff_value_defaults_to_unknown() {
    let frame = headers_frame(vec![header("x-forwarded-for", "")]);
    let task = EnfireTask::from_request(&frame).unwrap();
    assert_eq!(task.ip, "unknown");
}

#[test]
fn xff_segment_is_trimmed() {
    let frame = headers_frame(vec![header("x-forwarded-for", "  10.5.5.5\t , 192.168.0.9")]);
    let task = EnfireTask::from_request(&frame).unwrap();
    assert_eq!(task.ip, "10.5.5.5");
}

#[test]
fn xff_without_comma_is_whole_value() {
    let frame = headers_frame(vec![header("x-forwarded-for", "10.9.9.9")]);
    let task = EnfireTask::from_request(&frame).unwrap();
    assert_eq!(task.ip, "10.9.9.9");
}

#[test]
fn duplicate_keys_last_write_wins() {
    let frame = headers_frame(vec![
        header(":path", "/first"),
        header("x-forwarded-for", "10.0.0.1"),
        header(":path", "/second"),
        header("x-forwarded-for", "10.0.0.2"),
    ]);
    let task = EnfireTask::from_request(&frame).unwrap();
    assert_eq!(task.ip, "10.0.0.2");
    assert_eq!(task.path, "/second");
}

#[test]
fn unrelated_headers_are_ignored() {
    let frame = headers_frame(vec![
        header("x-foo-bar", "baz"),
        header("x-forwarded-for", "10.50.52.12, 192.168.97.33"),
        header(":path", "/login"),
    ]);
    let task = EnfireTask::from_request(&frame).unwrap();
    assert_eq!(task.ip, "10.50.52.12");
    assert_eq!(task.path, "/login");
}

#[test]
fn empty_header_list_gets_defaults() {
    let frame = headers_frame(vec![]);
    let task = EnfireTask::from_request(&frame).unwrap();
    assert_eq!(task.ip, "unknown");
    assert_eq!(task.path, "/");
}

#[test]
fn blank_xff_segment_trims_to_empty() {
    // A present but blank first segment is trimmed as-is; only an absent or
    // empty header value falls back to "unknown".
    let frame = headers_frame(vec![header("x-forwarded-for", "  , 10.2.2.2")]);
    let task = EnfireTask::from_request(&frame).unwrap();
    assert_eq!(task.ip, "");
}

#[test]
fn present_empty_path_is_kept() {
    let frame = headers_frame(vec![header(":path", "")]);
    let task = EnfireTask::from_request(&frame).unwrap();
    assert_eq!(task.path, "");
}

#[test]
fn non_header_frames_yield_no_task() {
    assert!(EnfireTask::from_request(&Frame::RequestBody).is_none());
    assert!(EnfireTask::from_request(&Frame::ResponseBody).is_none());
    assert!(EnfireTask::from_request(&Frame::Unrecognized).is_none());
    let response = Frame::ResponseHeaders(vec![header(":path", "/x")]);
    assert!(EnfireTask::from_request(&response).is_none());
}
