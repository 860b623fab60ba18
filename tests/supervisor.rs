use screenshot_app::events::{OutputEvent, PipeInput, Supervisor};
use screenshot_app::lines::LineBuffer;

fn run(inputs: Vec<PipeInput>) -> Vec<OutputEvent> {
    let mut s = Supervisor::new();
    let mut all = Vec::new();
    for i in inputs {
        all.extend(s.step(i));
    }
    all
}

fn out(s: &str) -> OutputEvent {
    OutputEvent::StdoutLine(s.to_string())
}

fn err(s: &str) -> OutputEvent {
    OutputEvent::StderrLine(s.to_string())
}

#[test]
fn line_buffer_frames_across_chunks() {
    let mut b = LineBuffer::new();
    assert_eq!(b.push(b"ab"), Vec::<Vec<u8>>::new());
    assert_eq!(b.push(b"c\nde\n\nf"), vec![b"abc".to_vec(), b"de".to_vec(), Vec::new()]);
    assert_eq!(b.finish(), Some(b"f".to_vec()));
}

#[test]
fn line_buffer_finish_without_open_line() {
    let mut b = LineBuffer::new();
    assert_eq!(b.push(b"x\n"), vec![b"x".to_vec()]);
    assert_eq!(b.finish(), None);
}

#[test]
fn clean_run_lines_in_order_then_exit_zero() {
    let evs = run(vec![
        PipeInput::Stdout(b"one\ntw".to_vec()),
        PipeInput::Stdout(b"o\nthree\n".to_vec()),
        PipeInput::StdoutClosed,
        PipeInput::StderrClosed,
        PipeInput::Exited(Some(0)),
    ]);
    assert_eq!(evs, vec![out("one"), out("two"), out("three"), OutputEvent::Terminated(Some(0))]);
}

#[test]
fn stderr_lines_then_nonzero_exit_code() {
    let evs = run(vec![
        PipeInput::Stderr(b"bad thing\nworse\n".to_vec()),
        PipeInput::Exited(Some(3)),
        PipeInput::StdoutClosed,
        PipeInput::StderrClosed,
    ]);
    assert_eq!(evs, vec![err("bad thing"), err("worse"), OutputEvent::Terminated(Some(3))]);
}

#[test]
fn unterminated_last_line_is_delivered_whole() {
    let evs = run(vec![
        PipeInput::Stdout(b"first\nlast par".to_vec()),
        PipeInput::Stdout(b"t".to_vec()),
        PipeInput::StdoutClosed,
        PipeInput::StderrClosed,
        PipeInput::Exited(Some(0)),
    ]);
    assert_eq!(evs, vec![out("first"), out("last part"), OutputEvent::Terminated(Some(0))]);
}

#[test]
fn ready_then_exit_zero() {
    let evs = run(vec![
        PipeInput::Stdout(b"ready\n".to_vec()),
        PipeInput::Exited(Some(0)),
        PipeInput::StdoutClosed,
        PipeInput::StderrClosed,
    ]);
    assert_eq!(evs, vec![out("ready"), OutputEvent::Terminated(Some(0))]);
}

#[test]
fn termination_waits_for_both_streams() {
    let mut s = Supervisor::new();
    assert!(s.step(PipeInput::Exited(None)).is_empty());
    assert!(s.step(PipeInput::StdoutClosed).is_empty());
    assert!(!s.is_finished());
    assert_eq!(s.step(PipeInput::Stderr(b"late".to_vec())), Vec::new());
    assert_eq!(s.step(PipeInput::StderrClosed), vec![err("late"), OutputEvent::Terminated(None)]);
    assert!(s.is_finished());
}

#[test]
fn nothing_after_termination() {
    let mut s = Supervisor::new();
    s.step(PipeInput::StdoutClosed);
    s.step(PipeInput::StderrClosed);
    assert_eq!(s.step(PipeInput::Exited(Some(1))), vec![OutputEvent::Terminated(Some(1))]);
    assert!(s.step(PipeInput::Stdout(b"more\n".to_vec())).is_empty());
    assert!(s.step(PipeInput::Exited(Some(2))).is_empty());
}

#[test]
fn first_exit_is_kept() {
    let evs = run(vec![
        PipeInput::Exited(Some(5)),
        PipeInput::Exited(Some(6)),
        PipeInput::StdoutClosed,
        PipeInput::StderrClosed,
    ]);
    assert_eq!(evs, vec![OutputEvent::Terminated(Some(5))]);
}

#[test]
fn output_after_close_is_ignored() {
    let evs = run(vec![
        PipeInput::StdoutClosed,
        PipeInput::Stdout(b"ghost\n".to_vec()),
        PipeInput::StderrClosed,
        PipeInput::Exited(Some(0)),
    ]);
    assert_eq!(evs, vec![OutputEvent::Terminated(Some(0))]);
}

#[test]
fn undecodable_bytes_are_replaced() {
    let evs = run(vec![
        PipeInput::Stdout(vec![b'a', 0xff, b'b', b'\n']),
        PipeInput::StdoutClosed,
        PipeInput::StderrClosed,
        PipeInput::Exited(Some(0)),
    ]);
    assert_eq!(evs, vec![out("a\u{FFFD}b"), OutputEvent::Terminated(Some(0))]);
}

#[test]
fn empty_lines_are_events() {
    let evs = run(vec![
        PipeInput::Stdout(b"\n\n".to_vec()),
        PipeInput::StdoutClosed,
        PipeInput::StderrClosed,
        PipeInput::Exited(Some(0)),
    ]);
    assert_eq!(evs, vec![out(""), out(""), OutputEvent::Terminated(Some(0))]);
}
