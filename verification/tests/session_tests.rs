use picam_server::session::CameraError;
use picam_server::session::CameraManager;
use picam_server::session::CaptureAction;
use picam_server::session::CaptureEvent;
use picam_server::session::ReadAction;
use picam_server::session::ReadEvent;
use picam_server::session::ToolOutcome;
use picam_server::session::capture_result;
use picam_server::session::read_result;

fn streaming_manager() -> CameraManager {
    let mut m = CameraManager::new(640, 480, 15);
    let cmd = m.start_stream_command();
    assert!(cmd.is_some());
    m.note_stream_spawned();
    m
}

#[test]
fn start_stream_twice_spawns_once() {
    let mut m = CameraManager::new(640, 480, 15);
    let first = m.start_stream_command();
    assert!(first.is_some());
    let c = first.unwrap();
    assert_eq!((c.width, c.height, c.framerate), (640, 480, 15));
    m.note_stream_spawned();
    // The second request asks for no spawn at all.
    assert!(m.start_stream_command().is_none());
}

#[test]
fn stop_stream_without_stream_kills_nothing() {
    let mut m = CameraManager::new(640, 480, 15);
    let kill = m.stop_stream();
    assert!(!kill);
    assert!(!m.stream_active);
}

#[test]
fn stop_stream_kills_exactly_the_registered_stream() {
    let mut m = streaming_manager();
    assert!(m.stop_stream());
    assert!(!m.stop_stream());
}

#[test]
fn capture_pauses_stream_and_returns_photo_even_if_restart_fails() {
    let mut m = streaming_manager();
    let (mut s, a) = m.begin_capture();
    assert_eq!(a, CaptureAction::KillStream);
    let a = m.capture_step(&mut s, CaptureEvent::StreamKilled);
    assert_eq!(a, CaptureAction::Settle);
    assert!(!m.stream_active);
    let a = m.capture_step(&mut s, CaptureEvent::Settled);
    assert_eq!(a, CaptureAction::RunTool);
    // The one-shot tool only ever runs while the stream is down.
    assert!(!m.stream_active);
    let outcome = ToolOutcome::Finished {
        success: true,
        stdout: vec![1, 2, 3],
        diagnostic: String::new(),
    };
    let a = m.capture_step(&mut s, CaptureEvent::ToolDone(outcome));
    assert_eq!(a, CaptureAction::Settle);
    let a = m.capture_step(&mut s, CaptureEvent::Settled);
    assert_eq!(a, CaptureAction::RestartStream);
    // The restart fails: the stream stays down, the photo is still returned.
    let a = m.capture_step(&mut s, CaptureEvent::RestartResult(false));
    assert_eq!(a, CaptureAction::Finish);
    assert!(!m.stream_active);
    assert_eq!(capture_result(s), Ok(vec![1, 2, 3]));
}

#[test]
fn capture_restores_stream_on_successful_restart() {
    let mut m = streaming_manager();
    let (mut s, _) = m.begin_capture();
    m.capture_step(&mut s, CaptureEvent::StreamKilled);
    m.capture_step(&mut s, CaptureEvent::Settled);
    let outcome = ToolOutcome::Finished {
        success: true,
        stdout: vec![9],
        diagnostic: String::new(),
    };
    m.capture_step(&mut s, CaptureEvent::ToolDone(outcome));
    m.capture_step(&mut s, CaptureEvent::Settled);
    let a = m.capture_step(&mut s, CaptureEvent::RestartResult(true));
    assert_eq!(a, CaptureAction::Finish);
    assert!(m.stream_active);
    assert_eq!(capture_result(s), Ok(vec![9]));
}

#[test]
fn capture_without_stream_runs_tool_at_once() {
    let mut m = CameraManager::new(320, 240, 10);
    let (mut s, a) = m.begin_capture();
    assert_eq!(a, CaptureAction::RunTool);
    let outcome = ToolOutcome::Finished {
        success: false,
        stdout: Vec::new(),
        diagnostic: "sensor busy".to_string(),
    };
    let a = m.capture_step(&mut s, CaptureEvent::ToolDone(outcome));
    assert_eq!(a, CaptureAction::Finish);
    match capture_result(s) {
        Err(CameraError::CaptureToolFailure(d)) => assert_eq!(d, "sensor busy"),
        _ => panic!("expected a capture tool failure"),
    }
}

#[test]
fn capture_reports_spawn_failure() {
    let mut m = CameraManager::new(640, 480, 15);
    let (mut s, _) = m.begin_capture();
    m.capture_step(&mut s, CaptureEvent::ToolDone(ToolOutcome::SpawnFailed));
    assert!(matches!(capture_result(s), Err(CameraError::ProcessSpawn)));
}

#[test]
fn frame_read_reads_running_stream() {
    let mut m = streaming_manager();
    let (mut s, a) = m.begin_frame_read();
    assert_eq!(a, ReadAction::ReadChunk);
    let a = m.read_step(&mut s, ReadEvent::Chunk(vec![0x00, 0xff]));
    assert_eq!(a, ReadAction::ReadChunk);
    let a = m.read_step(&mut s, ReadEvent::Chunk(vec![0xd8, 0x42, 0xff, 0xd9]));
    assert_eq!(a, ReadAction::Finish);
    assert_eq!(read_result(s), Ok(vec![0xff, 0xd8, 0x42, 0xff, 0xd9]));
}

#[test]
fn frame_read_lazily_starts_missing_stream() {
    let mut m = CameraManager::new(640, 480, 15);
    let (mut s, a) = m.begin_frame_read();
    assert_eq!(a, ReadAction::SpawnStream);
    let a = m.read_step(&mut s, ReadEvent::StreamSpawned(true));
    assert_eq!(a, ReadAction::ReadChunk);
    assert!(m.stream_active);
}

#[test]
fn frame_read_reports_spawn_failure() {
    let mut m = CameraManager::new(640, 480, 15);
    let (mut s, a) = m.begin_frame_read();
    assert_eq!(a, ReadAction::SpawnStream);
    let a = m.read_step(&mut s, ReadEvent::StreamSpawned(false));
    assert_eq!(a, ReadAction::Finish);
    assert!(matches!(read_result(s), Err(CameraError::ProcessSpawn)));
    assert!(!m.stream_active);
}

#[test]
fn closed_stream_fails_read_and_next_read_restarts() {
    let mut m = streaming_manager();
    let (mut s, _) = m.begin_frame_read();
    // The producer closes its output mid-accumulation.
    let a = m.read_step(&mut s, ReadEvent::Chunk(vec![0xff, 0xd8, 0x01]));
    assert_eq!(a, ReadAction::ReadChunk);
    let a = m.read_step(&mut s, ReadEvent::Chunk(Vec::new()));
    assert_eq!(a, ReadAction::Finish);
    assert!(matches!(read_result(s), Err(CameraError::StreamEnded)));
    // The caller stops the stream; the next read lazily restarts it instead
    // of erroring immediately.
    assert!(m.stop_stream());
    let (s2, a) = m.begin_frame_read();
    assert_eq!(a, ReadAction::SpawnStream);
    assert!(s2.result.is_none());
}
