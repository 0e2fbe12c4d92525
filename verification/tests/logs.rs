use statix_agent::jobs::JobLogStream;
use statix_agent::logs::emit::{emitted_line, env_flag, verbose_enabled};
use statix_agent::logs::format::{agent_line, job_phase_line, job_stream_line, LogLevel};
use statix_agent::logs::process::emit_process_segment;
use statix_agent::stream::{segment_text, SegmentReader};

#[test]
fn verbose_is_disabled_by_default() {
    // What is unset reads as nothing.
    assert!(!verbose_enabled(None));
}

#[test]
fn formats_job_phase_line_with_grouping() {
    let line = job_phase_line("job-1", "microvm.setup", LogLevel::Info, "created seed");
    assert_eq!(line, "[statix-agent] job job-1 [microvm.setup] created seed");
}

#[test]
fn formats_job_stream_line() {
    let line = job_stream_line("job-1", "lxc.attach", "stderr", "permission denied");
    assert_eq!(line, "[statix-agent] job job-1 [lxc.attach] stderr: permission denied");
}

#[test]
fn formats_debug_agent_line() {
    let line = agent_line(LogLevel::Debug, "qemu exited");
    assert_eq!(line, "[statix-agent][debug] qemu exited");
}

#[test]
fn levels_have_their_tags() {
    assert_eq!(agent_line(LogLevel::Info, "m"), "[statix-agent] m");
    assert_eq!(agent_line(LogLevel::Warn, "m"), "[statix-agent][warn] m");
    assert_eq!(agent_line(LogLevel::Error, "m"), "[statix-agent][error] m");
    assert_eq!(job_phase_line("j", "p", LogLevel::Warn, "m"), "[statix-agent] job j [p] [warn] m");
    assert_eq!(job_phase_line("j", "p", LogLevel::Error, "m"), "[statix-agent] job j [p] [error] m");
    assert_eq!(job_phase_line("j", "p", LogLevel::Debug, "m"), "[statix-agent] job j [p] [debug] m");
}

#[test]
fn debug_lines_are_written_only_where_asked() {
    assert_eq!(emitted_line(LogLevel::Debug, false, "m"), None);
    assert_eq!(
        emitted_line(LogLevel::Debug, true, "m"),
        Some("[statix-agent][debug] m".to_string())
    );
    assert_eq!(emitted_line(LogLevel::Warn, false, "m"), Some("[statix-agent][warn] m".to_string()));
}

#[test]
fn flags_are_read() {
    for on in ["1", "true", "YES", " on\n"] {
        assert!(env_flag(Some(on)), "{on}");
    }
    for off in ["", "0", "false", "onn", "2"] {
        assert!(!env_flag(Some(off)), "{off}");
    }
}

#[test]
fn process_output_is_logged() {
    assert_eq!(emit_process_segment("qemu", JobLogStream::Stdout, b"", None), None);
    assert_eq!(
        emit_process_segment("qemu", JobLogStream::Stdout, b"hi", None),
        Some("[statix-agent] qemu stdout: hi".to_string())
    );
    assert_eq!(
        emit_process_segment("qemu", JobLogStream::Stderr, &[b'a', 0xff], Some("j")),
        Some("[statix-agent] job j [process.qemu] stderr: a\u{fffd}".to_string())
    );
}

#[test]
fn output_is_cut_into_lines_whatever_the_chunks() {
    let data = b"one\r\ntwo\n\nthree\rfour";
    let expected: Vec<Vec<u8>> =
        vec![b"one".to_vec(), b"two".to_vec(), b"three".to_vec()];
    for size in 1..data.len() {
        let mut reader = SegmentReader::new();
        let mut lines = vec![];
        for chunk in data.chunks(size) {
            lines.extend(reader.feed(chunk));
        }
        assert_eq!(lines, expected);
        assert_eq!(reader.pending, b"four".to_vec());
    }
}

#[test]
fn empty_segments_are_not_told() {
    assert_eq!(segment_text(b""), None);
    assert_eq!(segment_text("é".as_bytes()), Some("é".to_string()));
    assert_eq!(segment_text(&[0xff]), Some("\u{fffd}".to_string()));
}
