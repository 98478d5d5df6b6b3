use std::sync::{Arc, Mutex};
use std::time::{Duration, Instant};

use vibetunnel_pty::errors::VtError;
use vibetunnel_pty::pty::{PtyConfig, PtyReader, ReadOutcome};
use vibetunnel_pty::registry::{DataSink, IngestOutcome, SessionRegistry};

struct NoopSink;

impl DataSink for NoopSink {
    fn on_data(&mut self, _data: &[u8]) {}
}

#[derive(Clone)]
struct RecordingSink {
    chunks: Arc<Mutex<Vec<Vec<u8>>>>,
}

impl DataSink for RecordingSink {
    fn on_data(&mut self, data: &[u8]) {
        self.chunks.lock().unwrap().push(data.to_vec());
    }
}

fn config_for(shell: &str, args: &[&str]) -> PtyConfig {
    let mut config = PtyConfig::default();
    config.shell = Some(shell.to_string());
    config.args = args.iter().map(|a| a.to_string()).collect();
    config
}

/// Pump one blocking read from the PTY into the registry, as the dedicated
/// reader worker does.
fn pump_once(reg: &mut SessionRegistry<NoopSink>, id: u128, reader: &mut PtyReader) -> bool {
    match reader.read_chunk() {
        ReadOutcome::Data(chunk) => reg.ingest_chunk(id, chunk) != IngestOutcome::Gone,
        ReadOutcome::WouldBlock => true,
        ReadOutcome::Eof => false,
        ReadOutcome::Failed => false,
    }
}

#[test]
fn test_pty_manager_singleton() {
    let manager: Arc<Mutex<SessionRegistry<NoopSink>>> =
        Arc::new(Mutex::new(SessionRegistry::new()));
    let guard = manager.lock();
    assert!(guard.is_ok(), "PTY manager lock should be obtainable");
}

#[test]
fn test_pty_config_default() {
    let config = PtyConfig::default();
    assert_eq!(config.shell, None);
    assert!(config.args.is_empty());
    assert!(config.env.is_empty());
    assert_eq!(config.cwd, None);
    assert_eq!(config.cols, 80);
    assert_eq!(config.rows, 24);
}

#[test]
fn test_pty_config_custom() {
    let config = PtyConfig {
        shell: Some("/bin/sh".to_string()),
        args: vec!["-c".to_string(), "echo test".to_string()],
        env: vec![("TEST_VAR".to_string(), "test_value".to_string())],
        cwd: Some("/tmp".to_string()),
        cols: 120,
        rows: 40,
    };

    assert_eq!(config.shell, Some("/bin/sh".to_string()));
    assert_eq!(config.args.len(), 2);
    assert_eq!(config.env[0].1, "test_value");
    assert_eq!(config.cwd, Some("/tmp".to_string()));
    assert_eq!(config.cols, 120);
    assert_eq!(config.rows, 40);
}

#[test]
fn test_create_pty_default_shell() {
    let config = PtyConfig::default();

    let pty = vibetunnel_pty::pty::create_pty(&config).expect("Failed to create PTY");

    // The PTY should be created with the default shell; dropping the handle
    // closes the writer, which sends EOF to that shell.
    assert!(pty.pid > 0);
}

#[test]
fn echo_round_trip() {
    let mut reg: SessionRegistry<NoopSink> = SessionRegistry::new();
    let opened = reg.open_session(&config_for("/bin/cat", &[])).unwrap();
    let id = opened.id.bits;
    let mut reader = opened.reader;
    assert!(opened.pid > 0);

    reg.write(id, b"hello\n").unwrap();

    let deadline = Instant::now() + Duration::from_millis(500);
    let mut seen = Vec::new();
    while Instant::now() < deadline {
        pump_once(&mut reg, id, &mut reader);
        if let Ok(Some(bytes)) = reg.read_all_output(id) {
            seen.extend_from_slice(&bytes);
        }
        if String::from_utf8_lossy(&seen).contains("hello") {
            break;
        }
    }
    assert!(
        String::from_utf8_lossy(&seen).contains("hello"),
        "echoed output should contain the written text"
    );

    reg.kill(id, Some("SIGTERM".to_string())).unwrap();
    let deadline = Instant::now() + Duration::from_millis(2000);
    let mut exit_code = None;
    while Instant::now() < deadline {
        if let Ok(Some(code)) = reg.check_exit_status(id) {
            exit_code = Some(code);
            break;
        }
    }
    assert!(exit_code.is_some(), "the child should report a defined exit code");

    reg.destroy(id);
    assert!(reg.lookup(id).is_none());
}

#[test]
fn writes_are_observed_in_issue_order() {
    let mut reg: SessionRegistry<NoopSink> = SessionRegistry::new();
    let opened = reg.open_session(&config_for("/bin/cat", &[])).unwrap();
    let id = opened.id.bits;
    let mut reader = opened.reader;

    reg.write(id, b"abc").unwrap();
    reg.write(id, b"def\n").unwrap();

    let deadline = Instant::now() + Duration::from_millis(2000);
    let mut seen = Vec::new();
    while Instant::now() < deadline {
        pump_once(&mut reg, id, &mut reader);
        if let Ok(Some(bytes)) = reg.read_all_output(id) {
            seen.extend_from_slice(&bytes);
        }
        if String::from_utf8_lossy(&seen).contains("abcdef") {
            break;
        }
    }
    assert!(
        String::from_utf8_lossy(&seen).contains("abcdef"),
        "bytes of consecutive writes arrive in issue order"
    );

    reg.kill(id, Some("SIGTERM".to_string())).unwrap();
    reg.destroy(id);
}

#[test]
fn resize_propagation() {
    let mut reg: SessionRegistry<NoopSink> = SessionRegistry::new();
    let opened = reg.open_session(&config_for("/bin/sh", &[])).unwrap();
    let id = opened.id.bits;
    let mut reader = opened.reader;

    reg.resize(id, 120, 40).unwrap();
    reg.write(id, b"stty size\n").unwrap();

    let deadline = Instant::now() + Duration::from_millis(2000);
    let mut seen = Vec::new();
    let mut found = false;
    while Instant::now() < deadline {
        if !pump_once(&mut reg, id, &mut reader) {
            break;
        }
        if let Ok(Some(bytes)) = reg.read_all_output(id) {
            seen.extend_from_slice(&bytes);
        }
        let text = String::from_utf8_lossy(&seen).to_string();
        if text.contains("40 120") || text.contains("120 40") {
            found = true;
            break;
        }
    }
    assert!(found, "the shell should observe the new geometry: {:?}", String::from_utf8_lossy(&seen));

    reg.destroy(id);
}

#[test]
fn kill_semantics() {
    let mut reg: SessionRegistry<NoopSink> = SessionRegistry::new();
    let opened = reg.open_session(&config_for("/bin/sleep", &["100"])).unwrap();
    let id = opened.id.bits;

    assert_eq!(reg.check_exit_status(id).unwrap(), None, "the child should still run");

    reg.kill(id, Some("SIGTERM".to_string())).unwrap();

    let deadline = Instant::now() + Duration::from_millis(500);
    let mut exited = None;
    while Instant::now() < deadline {
        if let Ok(Some(code)) = reg.check_exit_status(id) {
            exited = Some(code);
            break;
        }
    }
    assert!(exited.is_some(), "the child should exit after SIGTERM");

    reg.destroy(id);
}

#[test]
fn kill_of_exited_child_is_not_an_error() {
    let mut reg: SessionRegistry<NoopSink> = SessionRegistry::new();
    let opened = reg.open_session(&config_for("/bin/sh", &["-c", "exit 0"])).unwrap();
    let id = opened.id.bits;

    // Wait until the child has exited and been reaped by the poll.
    let deadline = Instant::now() + Duration::from_millis(2000);
    let mut exited = false;
    while Instant::now() < deadline {
        if let Ok(Some(_)) = reg.check_exit_status(id) {
            exited = true;
            break;
        }
    }
    assert!(exited, "the child should have exited");

    // Killing the already-exited child is not an error.
    assert_eq!(reg.kill(id, None), Ok(()));
    assert_eq!(reg.kill(id, Some("SIGKILL".to_string())), Ok(()));

    reg.destroy(id);
}

#[test]
fn backpressure_drops_are_counted_and_destroy_returns() {
    let mut reg: SessionRegistry<NoopSink> = SessionRegistry::new();
    let opened = reg
        .open_session(&config_for("/bin/sh", &["-c", "head -c 1048576 /dev/zero; sleep 5"]))
        .unwrap();
    let id = opened.id.bits;
    let mut reader = opened.reader;

    // No consumer: pump the reader until drops appear or half a second passes.
    let deadline = Instant::now() + Duration::from_millis(500);
    while Instant::now() < deadline {
        if !pump_once(&mut reg, id, &mut reader) {
            break;
        }
        if reg.lookup(id).map(|s| s.dropped_count()).unwrap_or(0) > 0 {
            break;
        }
    }

    let session = reg.lookup(id).expect("the session should still be alive");
    assert!(session.dropped_count() > 0, "the drop counter should have grown");
    assert!(session.queue_len() <= 100);

    let start = Instant::now();
    reg.destroy(id);
    assert!(start.elapsed() < Duration::from_secs(1), "destroy should return promptly");
    assert!(reg.lookup(id).is_none());
}

#[test]
fn write_after_destroy_returns_session_not_found() {
    let mut reg: SessionRegistry<NoopSink> = SessionRegistry::new();
    let opened = reg.open_session(&config_for("/bin/sleep", &["100"])).unwrap();
    let id = opened.id.bits;

    reg.destroy(id);
    assert_eq!(reg.write(id, b"late"), Err(VtError::SessionNotFound));
    assert_eq!(reg.resize(id, 80, 24), Err(VtError::SessionNotFound));
    assert_eq!(reg.kill(id, None), Err(VtError::SessionNotFound));
    assert_eq!(reg.check_exit_status(id), Err(VtError::SessionNotFound));
}

#[test]
fn read_chunk_on_silent_session_returns_none_without_blocking() {
    let mut reg: SessionRegistry<NoopSink> = SessionRegistry::new();
    let opened = reg.open_session(&config_for("/bin/sleep", &["100"])).unwrap();
    let id = opened.id.bits;

    let start = Instant::now();
    let r = reg.read_output(id).unwrap();
    assert!(r.is_none());
    assert!(start.elapsed() < Duration::from_millis(100));

    reg.destroy(id);
}

#[test]
fn resize_extremes_succeed_on_live_session() {
    let mut reg: SessionRegistry<NoopSink> = SessionRegistry::new();
    let opened = reg.open_session(&config_for("/bin/sleep", &["100"])).unwrap();
    let id = opened.id.bits;

    assert!(reg.resize(id, 1, 1).is_ok());
    assert!(reg.resize(id, 999, 999).is_ok());
    assert_eq!(reg.lookup(id).unwrap().geometry().cols, 999);

    reg.destroy(id);
}

#[test]
fn destroy_is_idempotent() {
    let mut reg: SessionRegistry<NoopSink> = SessionRegistry::new();
    let opened = reg.open_session(&config_for("/bin/sleep", &["100"])).unwrap();
    let id = opened.id.bits;

    reg.destroy(id);
    assert!(reg.lookup(id).is_none());
    reg.destroy(id);
    assert!(reg.lookup(id).is_none());
    assert_eq!(reg.len(), 0);
}

#[test]
fn sink_receives_chunks_and_detaches_cleanly() {
    let mut reg: SessionRegistry<RecordingSink> = SessionRegistry::new();
    let opened = reg.open_session(&config_for("/bin/sleep", &["100"])).unwrap();
    let id = opened.id.bits;

    let recorded = Arc::new(Mutex::new(Vec::new()));
    let sink = RecordingSink { chunks: recorded.clone() };
    reg.set_on_data(id, Some(sink)).unwrap();

    assert_eq!(reg.ingest_chunk(id, b"one".to_vec()), IngestOutcome::Queued);
    assert_eq!(recorded.lock().unwrap().len(), 1);
    assert_eq!(recorded.lock().unwrap()[0], b"one");

    // Detach: later chunks still queue but reach no sink.
    reg.set_on_data(id, None).unwrap();
    assert_eq!(reg.ingest_chunk(id, b"two".to_vec()), IngestOutcome::Queued);
    assert_eq!(recorded.lock().unwrap().len(), 1);

    // After destroy nothing is delivered anywhere.
    reg.destroy(id);
    assert_eq!(reg.ingest_chunk(id, b"three".to_vec()), IngestOutcome::Gone);
    assert_eq!(recorded.lock().unwrap().len(), 1);
}

#[test]
fn queue_caps_at_capacity_and_counts_drops_in_order() {
    let mut reg: SessionRegistry<NoopSink> = SessionRegistry::new();
    let opened = reg.open_session(&config_for("/bin/sleep", &["100"])).unwrap();
    let id = opened.id.bits;

    for i in 0..100u32 {
        let chunk = format!("chunk-{}", i).into_bytes();
        assert_eq!(reg.ingest_chunk(id, chunk), IngestOutcome::Queued);
    }
    assert_eq!(reg.lookup(id).unwrap().queue_len(), 100);
    assert_eq!(reg.lookup(id).unwrap().dropped_count(), 0);

    // The 101st chunk is dropped whole and counted; nothing is reordered.
    assert_eq!(reg.ingest_chunk(id, b"overflow-1".to_vec()), IngestOutcome::Dropped);
    assert_eq!(reg.ingest_chunk(id, b"overflow-2".to_vec()), IngestOutcome::Dropped);
    assert_eq!(reg.lookup(id).unwrap().queue_len(), 100);
    assert_eq!(reg.lookup(id).unwrap().dropped_count(), 2);

    let first = reg.read_output(id).unwrap().unwrap();
    assert_eq!(first, b"chunk-0");
    let second = reg.read_output(id).unwrap().unwrap();
    assert_eq!(second, b"chunk-1");

    // A slot is free again, so a fresh chunk queues at the back.
    assert_eq!(reg.ingest_chunk(id, b"tail".to_vec()), IngestOutcome::Queued);
    assert_eq!(reg.lookup(id).unwrap().dropped_count(), 2);

    reg.destroy(id);
}

#[test]
fn drain_concatenates_in_order_and_stops_at_limit() {
    let mut reg: SessionRegistry<NoopSink> = SessionRegistry::new();
    let opened = reg.open_session(&config_for("/bin/sleep", &["100"])).unwrap();
    let id = opened.id.bits;

    assert_eq!(reg.read_all_output(id).unwrap(), None);

    reg.ingest_chunk(id, b"ab".to_vec());
    reg.ingest_chunk(id, b"cd".to_vec());
    reg.ingest_chunk(id, b"ef".to_vec());
    assert_eq!(reg.read_all_output(id).unwrap().unwrap(), b"abcdef");
    assert_eq!(reg.read_all_output(id).unwrap(), None);

    // 20 chunks of 4096 bytes exceed the 64 KiB drain limit: exactly 16
    // chunks (65536 bytes) come out first, the other 4 on the next call.
    for _ in 0..20 {
        assert_eq!(reg.ingest_chunk(id, vec![0x7u8; 4096]), IngestOutcome::Queued);
    }
    let first = reg.read_all_output(id).unwrap().unwrap();
    assert_eq!(first.len(), 65536);
    let rest = reg.read_all_output(id).unwrap().unwrap();
    assert_eq!(rest.len(), 4 * 4096);

    reg.destroy(id);
}

#[test]
fn reader_gone_after_worker_exit() {
    let mut reg: SessionRegistry<NoopSink> = SessionRegistry::new();
    let opened = reg.open_session(&config_for("/bin/sleep", &["100"])).unwrap();
    let id = opened.id.bits;

    reg.ingest_chunk(id, b"last".to_vec());
    reg.mark_reader_exited(id);

    // Queued output is still served, then the disconnect shows.
    assert_eq!(reg.read_output(id).unwrap().unwrap(), b"last");
    assert_eq!(reg.read_output(id), Err(VtError::ReaderGone));

    reg.destroy(id);
}

#[test]
fn open_session_failure_registers_nothing() {
    let mut reg: SessionRegistry<NoopSink> = SessionRegistry::new();
    let r = reg.open_session(&config_for("/nonexistent/not-a-shell", &[]));
    match r {
        Err(VtError::SpawnFailed(_)) => (),
        Err(other) => panic!("expected SpawnFailed, got {:?}", other),
        Ok(_) => panic!("expected SpawnFailed, got a session"),
    }
    assert_eq!(reg.len(), 0);
}

#[test]
fn multiple_sessions_are_independent() {
    let mut reg: SessionRegistry<NoopSink> = SessionRegistry::new();
    let a = reg.open_session(&config_for("/bin/sleep", &["100"])).unwrap();
    let b = reg.open_session(&config_for("/bin/sleep", &["100"])).unwrap();
    assert_ne!(a.id.bits, b.id.bits);
    assert_eq!(reg.len(), 2);

    reg.ingest_chunk(a.id.bits, b"for-a".to_vec());
    assert_eq!(reg.read_output(b.id.bits).unwrap(), None);
    assert_eq!(reg.read_output(a.id.bits).unwrap().unwrap(), b"for-a");

    reg.destroy(a.id.bits);
    assert!(reg.lookup(a.id.bits).is_none());
    assert!(reg.lookup(b.id.bits).is_some());
    reg.destroy(b.id.bits);
}
