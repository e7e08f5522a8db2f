use lama_blanket::server::{
    health_address, health_from_response, health_request, start_log_line, status_from_wait,
    LogBuffer, ServerError, ServerStatus, WaitOutcome, LOG_CAPACITY,
};

#[test]
fn log_buffer_keeps_newest_lines() {
    let mut log = LogBuffer::new();
    assert!(log.lines().is_empty());
    for i in 0..(LOG_CAPACITY + 3) {
        log.push(format!("line {i}"));
    }
    assert_eq!(log.lines().len(), LOG_CAPACITY);
    assert_eq!(log.lines()[0], "line 3");
    assert_eq!(log.lines()[LOG_CAPACITY - 1], format!("line {}", LOG_CAPACITY + 2));
    log.clear();
    assert!(log.lines().is_empty());
}

#[test]
fn status_from_wait_outcomes() {
    assert_eq!(status_from_wait(None), (ServerStatus::Stopped, None));
    assert_eq!(status_from_wait(Some(WaitOutcome::StillRunning)), (ServerStatus::Running, None));
    assert_eq!(
        status_from_wait(Some(WaitOutcome::Failed)),
        (ServerStatus::Error("Process error".into()), None)
    );
    assert_eq!(
        status_from_wait(Some(WaitOutcome::Exited { success: true, code: Some(0) })),
        (ServerStatus::Stopped, Some(Some(0)))
    );
    assert_eq!(
        status_from_wait(Some(WaitOutcome::Exited { success: false, code: Some(-3) })),
        (ServerStatus::Error("Exit code: Some(-3)".into()), Some(Some(-3)))
    );
    assert_eq!(
        status_from_wait(Some(WaitOutcome::Exited { success: false, code: None })),
        (ServerStatus::Error("Exit code: None".into()), Some(None))
    );
}

#[test]
fn health_reply_with_200_is_healthy() {
    assert_eq!(health_from_response(b"HTTP/1.1 200 OK\r\n"), ServerStatus::Healthy);
    assert_eq!(health_from_response(b"HTTP/1.1 503 Busy\r\n"), ServerStatus::Running);
    assert_eq!(health_from_response(b""), ServerStatus::Running);
}

#[test]
fn health_request_text() {
    let addr = health_address(&"127.0.0.1".to_string(), 8080);
    assert_eq!(addr, "127.0.0.1:8080");
    assert_eq!(
        health_request(&addr),
        "GET /health HTTP/1.1\r\nHost: 127.0.0.1:8080\r\nConnection: close\r\n\r\n"
    );
}

#[test]
fn start_line_joins_arguments() {
    let args = vec!["-m".to_string(), "a.gguf".to_string()];
    assert_eq!(start_log_line(&"srv".to_string(), &args), "Starting: srv -m a.gguf");
}

#[test]
fn server_error_messages() {
    assert_eq!(ServerError::ExeNotFound("x.exe".into()).message(), "Executable not found: x.exe");
    assert_eq!(ServerError::StartFailed("denied".into()).message(), "Failed to start server: denied");
}

#[test]
fn log_holds_the_last_pushed_lines_in_order() {
    let mut log = LogBuffer::new();
    for i in 0..1000 {
        log.push(format!("old {i}"));
    }
    log.clear();
    for i in 0..3 {
        log.push(format!("new {i}"));
    }
    assert_eq!(log.lines(), &["new 0", "new 1", "new 2"]);
    for i in 3..1000 {
        log.push(format!("new {i}"));
    }
    let expected: Vec<String> = (500..1000).map(|i| format!("new {i}")).collect();
    assert_eq!(log.lines(), expected.as_slice());
}
