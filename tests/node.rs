use compress_node::compressor::ToolOutcome;
use compress_node::config::{log_level, Config, LogLevel};
use compress_node::cycle::{Action, Event, Note, Phase, Step};
use compress_node::node::{mode_of, Mode, Node, NodeError};
use compress_node::telemetry::{HealthMessage, Message};

fn config(mode: &str, clear_in_dir: bool) -> Config {
    Config {
        mode: mode.to_string(),
        in_dir: "in".to_string(),
        out_dir: "out".to_string(),
        polling_interval: 2,
        clear_in_dir,
        ffmpeg_path: "/opt/ffmpeg".to_string(),
        log_level: "info".to_string(),
    }
}

fn node(mode: &str, clear_in_dir: bool) -> Node {
    Node::new(config(mode, clear_in_dir), true).unwrap()
}

fn listed(paths: &[&str]) -> Event {
    Event::Listed(Ok(paths.iter().map(|p| p.to_string()).collect()))
}

fn step(action: Action, note: Note) -> Step {
    Step { action, note }
}

fn ran(success: bool) -> Event {
    Event::Ran(ToolOutcome::Exited { success, stderr: "diagnostics".to_string() })
}

fn probed() -> Event {
    Event::Probed { present: true, now: 1700000000 }
}

#[test]
fn invalid_mode_is_refused() {
    let r = Node::new(config("invalid", true), true);
    assert!(matches!(r, Err(NodeError::InvalidModeError(m)) if m == "invalid"));
    let r = Node::new(config("invalid", true), false);
    assert!(matches!(r, Err(NodeError::InvalidModeError(_))));
}

#[test]
fn missing_tool_is_refused() {
    let r = Node::new(config("worker", true), false);
    assert!(matches!(r, Err(NodeError::CompressorInitError(m)) if m == "FFmpeg not found at path: /opt/ffmpeg"));
}

#[test]
fn mode_names() {
    assert_eq!(mode_of("buffer"), Some(Mode::Buffer));
    assert_eq!(mode_of("worker"), Some(Mode::Worker));
    assert_eq!(mode_of("single"), Some(Mode::Single));
    assert_eq!(mode_of("Single"), None);
}

#[test]
fn invalid_mode_is_refused_whatever_the_interval() {
    let mut c = config("invalid", true);
    c.polling_interval = u64::MAX;
    assert!(matches!(Node::new(c, true), Err(NodeError::InvalidModeError(_))));
    let mut c = config("worker", true);
    c.polling_interval = u64::MAX;
    assert!(matches!(Node::new(c, false), Err(NodeError::CompressorInitError(_))));
}

#[test]
fn compression_failure_texts() {
    let n = node("worker", false);
    let (mut c, _) = n.start();
    n.step(&mut c, listed(&["in/a.mp4", "in/b.jpg"]));
    n.step(&mut c, probed());
    let s = n.step(&mut c, Event::Ran(ToolOutcome::Failed("no such program".to_string())));
    assert_eq!(s, step(Action::Probe(1), Note::CompressFailed(0)));
    assert!(matches!(c.fault(), Some(NodeError::CompressFileError(m)) if m == "Failed to execute FFmpeg: no such program"));
    let s = n.step(&mut c, Event::Probed { present: false, now: 3 });
    assert_eq!(s, step(Action::Sleep(120), Note::CompressFailed(1)));
    assert!(matches!(c.fault(), Some(NodeError::CompressFileError(m)) if m == "Input file not found: in/b.jpg"));
}

#[test]
fn node_settings() {
    let n = node("buffer", false);
    assert_eq!(n.mode(), Mode::Buffer);
    assert!(!n.clear_in_dir());
    assert_eq!(n.polling_interval(), 120);
    assert_eq!(n.file_manager().in_dir(), "in");
    assert_eq!(n.file_manager().out_dir(), "out");
    assert_eq!(n.compressor().ffmpeg_path(), "/opt/ffmpeg");
    assert_eq!(node("worker", true).mode(), Mode::Worker);
    assert_eq!(node("single", true).mode(), Mode::Single);
}

#[test]
fn worker_failure_does_not_stop_others() {
    let n = node("worker", true);
    let (mut c, s) = n.start();
    assert_eq!(s, step(Action::ListInput, Note::Quiet));
    let s = n.step(&mut c, listed(&["in/f1.mp4", "in/README", "in/f2.txt"]));
    assert_eq!(s, step(Action::Probe(0), Note::Quiet));
    assert_eq!(c.input_count(), 2);
    assert_eq!(c.input(0), "in/f1.mp4");
    let s = n.step(&mut c, probed());
    assert_eq!(s, step(Action::Run, Note::Quiet));
    assert_eq!(c.target(), "out/f1_compressed_1700000000.mp4");
    assert_eq!(c.invocation().unwrap().args[1], "in/f1.mp4");
    let s = n.step(&mut c, ran(true));
    assert_eq!(s, step(Action::Remove(0), Note::Compressed(0)));
    let s = n.step(&mut c, Event::Removed(Ok(())));
    assert_eq!(s, step(Action::Probe(1), Note::Removed(0)));
    let s = n.step(&mut c, probed());
    assert_eq!(s, step(Action::Sleep(120), Note::CompressFailed(1)));
    assert!(matches!(c.fault(), Some(NodeError::CompressFileError(m)) if m == "Unsupported file type: in/f2.txt"));
    assert_eq!(c.phase(), Phase::Resting);
}

#[test]
fn worker_failure_first_still_reaches_the_next_file() {
    let n = node("worker", false);
    let (mut c, _) = n.start();
    n.step(&mut c, listed(&["in/f2.mp4", "in/f1.mp4"]));
    assert_eq!(n.step(&mut c, probed()), step(Action::Run, Note::Quiet));
    assert_eq!(n.step(&mut c, ran(false)), step(Action::Probe(1), Note::CompressFailed(0)));
    assert!(matches!(c.fault(), Some(NodeError::CompressFileError(m)) if m == "FFmpeg error: diagnostics"));
    assert_eq!(n.step(&mut c, probed()), step(Action::Run, Note::Quiet));
    assert_eq!(n.step(&mut c, ran(true)), step(Action::Sleep(120), Note::Compressed(1)));
    assert_eq!(n.step(&mut c, Event::Begin), step(Action::ListInput, Note::Quiet));
}

#[test]
fn single_stops_at_first_failure() {
    let n = node("single", true);
    let (mut c, s) = n.start();
    assert_eq!(s, step(Action::ListInput, Note::Quiet));
    let s = n.step(&mut c, listed(&["in/f1.mp4", "in/f2.mp4", "in/f3.mp4"]));
    assert_eq!(s, step(Action::ListOutput, Note::Quiet));
    assert_eq!(n.step(&mut c, listed(&[])), step(Action::Probe(0), Note::Quiet));
    assert_eq!(n.step(&mut c, probed()), step(Action::Run, Note::Quiet));
    assert_eq!(n.step(&mut c, ran(true)), step(Action::Remove(0), Note::Compressed(0)));
    assert_eq!(n.step(&mut c, Event::Removed(Ok(()))), step(Action::ListOutput, Note::Removed(0)));
    assert_eq!(
        n.step(&mut c, listed(&["out/f1_compressed_1700000000.mp4"])),
        step(Action::Probe(1), Note::Quiet)
    );
    assert_eq!(
        n.step(&mut c, Event::Probed { present: false, now: 1700000001 }),
        step(Action::Stop, Note::CompressFailed(1))
    );
    assert!(matches!(c.fault(), Some(NodeError::CompressFileError(m)) if m == "Input file not found: in/f2.mp4"));
    assert_eq!(c.phase(), Phase::Done);
    assert_eq!(n.step(&mut c, Event::Begin), step(Action::Stop, Note::Quiet));
    assert_eq!(n.step(&mut c, probed()), step(Action::Stop, Note::Quiet));
}

#[test]
fn single_skips_files_already_compressed() {
    let n = node("single", false);
    let (mut c, _) = n.start();
    n.step(&mut c, listed(&["in/a.mp4", "in/b.mp4"]));
    let s = n.step(&mut c, listed(&["out/a_compressed_17.mp4"]));
    assert_eq!(s, step(Action::ListOutput, Note::AlreadyCompressed(0)));
    let s = n.step(&mut c, listed(&["out/a_compressed_17.mp4"]));
    assert_eq!(s, step(Action::Probe(1), Note::Quiet));
    assert_eq!(n.step(&mut c, probed()), step(Action::Run, Note::Quiet));
    assert_eq!(n.step(&mut c, ran(true)), step(Action::Stop, Note::Compressed(1)));
}

#[test]
fn buffer_without_clearing_touches_nothing() {
    let n = node("buffer", false);
    let (mut c, s) = n.start();
    assert_eq!(s, step(Action::Sleep(120), Note::BufferSkipped));
    assert_eq!(n.step(&mut c, Event::Begin), step(Action::Sleep(120), Note::BufferSkipped));
    assert_eq!(n.step(&mut c, listed(&["in/a.mp4"])), step(Action::Sleep(120), Note::Quiet));
    assert_eq!(n.step(&mut c, Event::Removed(Ok(()))), step(Action::Sleep(120), Note::Quiet));
}

#[test]
fn buffer_removes_paired_inputs() {
    let n = node("buffer", true);
    let (mut c, s) = n.start();
    assert_eq!(s, step(Action::ListInput, Note::Quiet));
    let s = n.step(&mut c, listed(&["in/a.mp4", "in/b.mp4", "in/c.jpg"]));
    assert_eq!(s, step(Action::ListOutput, Note::Quiet));
    let s = n.step(&mut c, listed(&["out/c_compressed_3.mp4", "out/a_compressed_1.mp4"]));
    assert_eq!(s, step(Action::Remove(0), Note::Quiet));
    assert_eq!(c.input(0), "in/a.mp4");
    assert_eq!(c.input(1), "in/c.jpg");
    let s = n.step(&mut c, Event::Removed(Err(NodeError::RemoveFileError("busy".to_string()))));
    assert_eq!(s, step(Action::Remove(1), Note::RemoveFailed(0)));
    assert!(matches!(c.fault(), Some(NodeError::RemoveFileError(m)) if m == "busy"));
    let s = n.step(&mut c, Event::Removed(Ok(())));
    assert_eq!(s, step(Action::Sleep(120), Note::Removed(1)));
}

#[test]
fn listing_failure_ends_the_tick() {
    let n = node("worker", true);
    let (mut c, _) = n.start();
    let s = n.step(&mut c, Event::Listed(Err(NodeError::ReadDirError("gone".to_string()))));
    assert_eq!(s, step(Action::Sleep(120), Note::ListFailed));
    assert!(matches!(c.fault(), Some(NodeError::ReadDirError(m)) if m == "gone"));
    let n = node("single", true);
    let (mut c, _) = n.start();
    let s = n.step(&mut c, Event::Listed(Err(NodeError::ReadDirError("gone".to_string()))));
    assert_eq!(s, step(Action::Stop, Note::ListFailed));
}

#[test]
fn answers_out_of_turn_are_ignored() {
    let n = node("worker", true);
    let (mut c, _) = n.start();
    assert_eq!(n.step(&mut c, probed()), step(Action::ListInput, Note::Quiet));
    assert_eq!(n.step(&mut c, Event::Begin), step(Action::ListInput, Note::Quiet));
    assert_eq!(n.step(&mut c, listed(&[])), step(Action::Sleep(120), Note::Quiet));
}

#[test]
fn node_messages() {
    let cases = [
        (NodeError::FileReadError("a".to_string()), "Failed to read config file: a"),
        (NodeError::ReadDirError("b".to_string()), "Failed to read directory: b"),
        (NodeError::RemoveFileError("c".to_string()), "Failed to remove file: c"),
        (NodeError::CompressFileError("d".to_string()), "Failed to compress file: d"),
        (NodeError::InvalidModeError("e".to_string()), "Invalid mode: e"),
        (NodeError::CompressorInitError("f".to_string()), "Failed to initialize compressor: f"),
    ];
    for (e, text) in cases {
        assert_eq!(e.message(), text);
    }
}

#[test]
fn log_levels() {
    assert_eq!(log_level("trace"), LogLevel::Trace);
    assert_eq!(log_level("debug"), LogLevel::Debug);
    assert_eq!(log_level("info"), LogLevel::Info);
    assert_eq!(log_level("warn"), LogLevel::Warn);
    assert_eq!(log_level("error"), LogLevel::Error);
    assert_eq!(log_level("INFO"), LogLevel::Off);
    assert_eq!(log_level(""), LogLevel::Off);
}

#[test]
fn health_envelope() {
    let m = Message::new(HealthMessage { log_type: "health".to_string(), status: "ok".to_string() });
    assert_eq!(m.message().status, "ok");
    assert_eq!(m.message().log_type, "health");
}
