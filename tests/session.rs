use wadm_terminal::pump::{pump_chunk, PUMP_BUFFER_SIZE};
use wadm_terminal::session::{Action, CloseCause, Event, Frame, Phase, TerminalSession};

fn active() -> TerminalSession {
    let mut s = TerminalSession::new();
    assert!(s.step(Event::ShellStarted).is_empty());
    assert_eq!(s.phase(), Phase::Active);
    s
}

fn text(t: &str) -> Event {
    Event::Inbound(Frame::Text(t.to_string()))
}

fn sent(actions: &[Action]) -> Vec<u8> {
    let mut out = Vec::new();
    for a in actions {
        if let Action::SendBinary(b) = a {
            out.extend_from_slice(b);
        }
    }
    out
}

#[test]
fn new_session_is_establishing_at_default_geometry() {
    let s = TerminalSession::new();
    assert_eq!(s.phase(), Phase::Establishing);
    assert_eq!(s.geometry(), (80, 24));
    assert!(!s.is_closed());
}

#[test]
fn output_is_sent_as_binary_frames_in_order() {
    let mut s = active();
    let chunks: Vec<Vec<u8>> = vec![b"hel".to_vec(), b"lo ".to_vec(), vec![0, 255, 27, 91], b"world".to_vec()];
    let mut actions = Vec::new();
    for (i, c) in chunks.iter().enumerate() {
        actions.extend(s.step(Event::Output(c.clone())));
        if i % 2 == 0 {
            actions.extend(s.step(text("RESIZE:100x40")));
            actions.extend(s.step(Event::Inbound(Frame::Binary(b"k".to_vec()))));
            actions.extend(s.step(Event::Inbound(Frame::Ping(b"p".to_vec()))));
        }
    }
    assert_eq!(sent(&actions), chunks.concat());
    let frames: Vec<&Action> = actions.iter().filter(|a| matches!(a, Action::SendBinary(_))).collect();
    assert_eq!(frames.len(), chunks.len());
    assert_eq!(s.phase(), Phase::Active);
}

#[test]
fn input_and_resize_keep_their_order() {
    let mut s = active();
    let mut actions = Vec::new();
    actions.extend(s.step(text("a")));
    actions.extend(s.step(text("RESIZE:100x40")));
    actions.extend(s.step(text("b")));
    assert_eq!(
        actions,
        vec![
            Action::WriteInput(b"a".to_vec()),
            Action::Resize { cols: 100, rows: 40 },
            Action::WriteInput(b"b".to_vec()),
        ]
    );
    assert_eq!(s.geometry(), (100, 40));
}

#[test]
fn repeated_resize_does_not_disturb_the_relay() {
    let mut s = active();
    let mut actions = Vec::new();
    actions.extend(s.step(Event::Output(b"abc".to_vec())));
    let first = s.step(text("RESIZE:80x24"));
    let after_first = s;
    let second = s.step(text("RESIZE:80x24"));
    assert_eq!(first, vec![Action::Resize { cols: 80, rows: 24 }]);
    assert_eq!(second, first);
    assert_eq!(s, after_first);
    actions.extend(first);
    actions.extend(second);
    actions.extend(s.step(Event::Output(b"def".to_vec())));
    assert_eq!(sent(&actions), b"abcdef".to_vec());
    assert_eq!(s.phase(), Phase::Active);
}

#[test]
fn shell_end_of_stream_tears_the_session_down() {
    let mut s = active();
    let actions = s.step(Event::OutputEnded);
    assert_eq!(actions, vec![Action::KillChild, Action::Close(CloseCause::ShellEnded)]);
    assert_eq!(s.phase(), Phase::Closing);
    assert!(s.step(Event::Output(b"late".to_vec())).is_empty());
    assert!(s.step(text("more")).is_empty());
    assert!(s.step(Event::TornDown).is_empty());
    assert_eq!(s.phase(), Phase::Closed);
    assert!(s.is_closed());
    assert!(s.step(Event::Output(b"later".to_vec())).is_empty());
}

#[test]
fn child_exit_and_io_failures_end_the_session() {
    let cases = vec![
        (Event::ChildExited, CloseCause::ShellEnded),
        (Event::InboundEnded, CloseCause::IoFailure),
        (Event::WriteFailed, CloseCause::IoFailure),
        (Event::SendFailed, CloseCause::IoFailure),
        (Event::Inbound(Frame::Close), CloseCause::ClientClosed),
    ];
    for (event, cause) in cases {
        let mut s = active();
        assert_eq!(s.step(event), vec![Action::KillChild, Action::Close(cause)]);
        assert_eq!(s.phase(), Phase::Closing);
    }
}

#[test]
fn spawn_failure_closes_without_a_child() {
    let mut s = TerminalSession::new();
    assert_eq!(s.step(Event::ShellFailed), vec![Action::Close(CloseCause::SpawnFailed)]);
    assert_eq!(s.phase(), Phase::Closing);
    assert!(s.step(Event::TornDown).is_empty());
    assert_eq!(s.phase(), Phase::Closed);
}

#[test]
fn establishing_session_ignores_traffic() {
    let mut s = TerminalSession::new();
    assert!(s.step(Event::Output(b"x".to_vec())).is_empty());
    assert!(s.step(text("ls")).is_empty());
    assert_eq!(s.phase(), Phase::Establishing);
}

#[test]
fn ping_is_answered_and_pong_ignored() {
    let mut s = active();
    assert_eq!(s.step(Event::Inbound(Frame::Ping(b"hi".to_vec()))), vec![Action::SendPong(b"hi".to_vec())]);
    assert!(s.step(Event::Inbound(Frame::Pong(b"hi".to_vec()))).is_empty());
}

#[test]
fn failed_resize_is_ignored() {
    let mut s = active();
    s.step(text("RESIZE:120x50"));
    assert!(s.step(Event::ResizeFailed).is_empty());
    assert_eq!(s.phase(), Phase::Active);
    assert_eq!(s.geometry(), (120, 50));
}

#[test]
fn malformed_resize_changes_nothing() {
    let mut s = active();
    assert!(s.step(text("RESIZE:80")).is_empty());
    assert!(s.step(text("RESIZE:0x0")).is_empty());
    assert_eq!(s.geometry(), (80, 24));
}

#[test]
fn binary_and_text_input_are_written_verbatim() {
    let mut s = active();
    assert_eq!(
        s.step(Event::Inbound(Frame::Binary(vec![3, 0, 255]))),
        vec![Action::WriteInput(vec![3, 0, 255])]
    );
    assert_eq!(s.step(text("é\n")), vec![Action::WriteInput("é\n".as_bytes().to_vec())]);
}

#[test]
fn closing_one_session_leaves_another_relaying() {
    let mut a = active();
    let mut b = active();
    assert_eq!(a.step(Event::Inbound(Frame::Close)), vec![Action::KillChild, Action::Close(CloseCause::ClientClosed)]);
    assert_eq!(a.step(Event::TornDown), vec![]);
    assert_eq!(a.phase(), Phase::Closed);
    assert_eq!(b.phase(), Phase::Active);
    assert_eq!(b.step(Event::Output(b"out".to_vec())), vec![Action::SendBinary(b"out".to_vec())]);
    assert_eq!(b.step(text("in")), vec![Action::WriteInput(b"in".to_vec())]);
    assert!(a.step(Event::Output(b"out".to_vec())).is_empty());
}

#[test]
fn example_session_from_open_to_close() {
    let mut s = TerminalSession::new();
    assert!(s.step(Event::ShellStarted).is_empty());
    assert_eq!(s.phase(), Phase::Active);
    assert_eq!(s.geometry(), (80, 24));
    assert_eq!(s.step(text("ls\n")), vec![Action::WriteInput(b"ls\n".to_vec())]);
    let echoed: Vec<Vec<u8>> = vec![b"ls\n".to_vec(), b"Cargo.toml  src\n".to_vec(), b"tests\n".to_vec()];
    let mut actions = Vec::new();
    for c in &echoed {
        actions.extend(s.step(Event::Output(c.clone())));
    }
    assert_eq!(sent(&actions), b"ls\nCargo.toml  src\ntests\n".to_vec());
    assert_eq!(s.step(text("RESIZE:120x50")), vec![Action::Resize { cols: 120, rows: 50 }]);
    assert_eq!(s.geometry(), (120, 50));
    assert_eq!(s.step(Event::Inbound(Frame::Close)), vec![Action::KillChild, Action::Close(CloseCause::ClientClosed)]);
    assert!(s.step(Event::TornDown).is_empty());
    assert_eq!(s.phase(), Phase::Closed);
}

#[test]
fn pump_forwards_exactly_the_bytes_read() {
    let mut buf = vec![0u8; PUMP_BUFFER_SIZE];
    buf[..5].copy_from_slice(b"hello");
    assert_eq!(pump_chunk(&buf, Some(5)), Some(b"hello".to_vec()));
    assert_eq!(pump_chunk(&buf, Some(PUMP_BUFFER_SIZE)).map(|c| c.len()), Some(PUMP_BUFFER_SIZE));
}

#[test]
fn pump_stops_on_end_of_stream_or_error() {
    let buf = vec![7u8; 16];
    assert_eq!(pump_chunk(&buf, Some(0)), None);
    assert_eq!(pump_chunk(&buf, None), None);
    assert_eq!(pump_chunk(&buf, Some(17)), None);
}

#[test]
fn pumped_chunks_relayed_reassemble_the_shell_output() {
    let produced: Vec<u8> = (0..10_000u32).map(|i| (i % 251) as u8).collect();
    let mut s = active();
    let mut actions = Vec::new();
    for piece in produced.chunks(PUMP_BUFFER_SIZE) {
        let mut buf = vec![0u8; PUMP_BUFFER_SIZE];
        buf[..piece.len()].copy_from_slice(piece);
        let chunk = pump_chunk(&buf, Some(piece.len())).unwrap();
        actions.extend(s.step(Event::Output(chunk)));
    }
    assert_eq!(sent(&actions), produced);
}
