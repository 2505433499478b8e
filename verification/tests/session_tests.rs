use trust::reader::LineReader;
use trust::session::{CompEffect, EditSession, StepEffect};

fn type_bytes(lr: &mut LineReader, s: &mut EditSession, bytes: &[u8]) {
    for &b in bytes {
        match lr.step(s, Some(b)) {
            StepEffect::Pending { .. } | StepEffect::Tab => {}
            _ => panic!("line terminated early"),
        }
    }
}

#[test]
fn typing_and_enter_submits_the_line() {
    let mut lr = LineReader::new();
    let mut s = EditSession::begin(lr.history.len());
    assert!(s.raw);
    type_bytes(&mut lr, &mut s, b"hi");
    match lr.step(&mut s, Some(b'\r')) {
        StepEffect::Submitted(line) => assert_eq!(line, "hi"),
        _ => panic!("expected submission"),
    }
    assert!(!s.raw, "terminal attributes must be restored on Enter");
    assert_eq!(lr.history, vec!["hi".to_string()]);
}

#[test]
fn end_of_stream_cancels_and_restores() {
    let mut lr = LineReader::new();
    let mut s = EditSession::begin(lr.history.len());
    type_bytes(&mut lr, &mut s, b"half a line");
    match lr.step(&mut s, None) {
        StepEffect::Cancelled => {}
        _ => panic!("expected cancellation"),
    }
    assert!(!s.raw, "terminal attributes must be restored on EOF");
    assert!(lr.history.is_empty(), "a cancelled line is not remembered");
}

#[test]
fn backspace_removes_left_of_cursor() {
    let mut lr = LineReader::new();
    let mut s = EditSession::begin(0);
    type_bytes(&mut lr, &mut s, b"abc");
    lr.step(&mut s, Some(127));
    assert_eq!(s.current_line(), "ab");
    // backspace at the start of an empty line is a no-op
    lr.step(&mut s, Some(127));
    lr.step(&mut s, Some(127));
    match lr.step(&mut s, Some(8)) {
        StepEffect::Pending { redraw } => assert!(!redraw),
        _ => panic!("expected a pending step"),
    }
    assert_eq!(s.current_line(), "");
}

#[test]
fn cursor_moves_and_inserts_in_the_middle() {
    let mut lr = LineReader::new();
    let mut s = EditSession::begin(0);
    type_bytes(&mut lr, &mut s, b"ac");
    // left arrow: ESC [ D, then insert 'b' before 'c'
    type_bytes(&mut lr, &mut s, &[27, b'[', b'D']);
    assert_eq!(s.cursor, 1);
    type_bytes(&mut lr, &mut s, b"b");
    assert_eq!(s.current_line(), "abc");
    // right arrow past the end is clamped
    type_bytes(&mut lr, &mut s, &[27, b'[', b'C']);
    assert_eq!(s.cursor, 3);
    type_bytes(&mut lr, &mut s, &[27, b'[', b'C']);
    assert_eq!(s.cursor, 3);
}

#[test]
fn unrecognized_escape_changes_nothing() {
    let mut lr = LineReader::new();
    let mut s = EditSession::begin(0);
    type_bytes(&mut lr, &mut s, b"xy");
    type_bytes(&mut lr, &mut s, &[27, b'[', b'Z']);
    assert_eq!(s.current_line(), "xy");
    assert_eq!(s.cursor, 2);
    // ESC followed by something other than '[' swallows that byte only
    type_bytes(&mut lr, &mut s, &[27, b'q']);
    assert_eq!(s.current_line(), "xy");
}

#[test]
fn history_recall_up_and_down() {
    let mut lr = LineReader::new();
    lr.remember("first");
    lr.remember("second");
    let mut s = EditSession::begin(lr.history.len());
    // up: recall the newest entry
    type_bytes(&mut lr, &mut s, &[27, b'[', b'A']);
    assert_eq!(s.current_line(), "second");
    // up again: the oldest; a third up is clamped there
    type_bytes(&mut lr, &mut s, &[27, b'[', b'A']);
    assert_eq!(s.current_line(), "first");
    type_bytes(&mut lr, &mut s, &[27, b'[', b'A']);
    assert_eq!(s.current_line(), "first");
    // down: back to the newest; another down clears the line
    type_bytes(&mut lr, &mut s, &[27, b'[', b'B']);
    assert_eq!(s.current_line(), "second");
    type_bytes(&mut lr, &mut s, &[27, b'[', b'B']);
    assert_eq!(s.current_line(), "");
    assert_eq!(s.hist_idx, lr.history.len());
}

#[test]
fn tab_reports_a_completion_request() {
    let mut lr = LineReader::new();
    lr.set_commands(vec!["open".to_string()]);
    let mut s = EditSession::begin(0);
    type_bytes(&mut lr, &mut s, b"op");
    match lr.step(&mut s, Some(b'\t')) {
        StepEffect::Tab => {}
        _ => panic!("expected a completion request"),
    }
    assert_eq!(s.current_line(), "op");
}

#[test]
fn single_candidate_replaces_the_token() {
    let mut s = EditSession::begin(0);
    let mut lr = LineReader::new();
    type_bytes(&mut lr, &mut s, b"op");
    match s.apply_completion(&vec!["open".to_string()]) {
        CompEffect::Replaced => {}
        _ => panic!("expected replacement"),
    }
    assert_eq!(s.current_line(), "open");
    assert_eq!(s.cursor, 4);
}

#[test]
fn single_candidate_replaces_only_the_last_token() {
    let mut s = EditSession::begin(0);
    let mut lr = LineReader::new();
    type_bytes(&mut lr, &mut s, b"open fo");
    match s.apply_completion(&vec!["foo.txt".to_string()]) {
        CompEffect::Replaced => {}
        _ => panic!("expected replacement"),
    }
    assert_eq!(s.current_line(), "open foo.txt");
}

#[test]
fn many_or_no_candidates_leave_the_line_alone() {
    let mut s = EditSession::begin(0);
    let mut lr = LineReader::new();
    type_bytes(&mut lr, &mut s, b"x");
    match s.apply_completion(&vec![]) {
        CompEffect::NoMatch => {}
        _ => panic!("expected no match"),
    }
    match s.apply_completion(&vec!["xa".to_string(), "xb".to_string()]) {
        CompEffect::ShowAll => {}
        _ => panic!("expected show-all"),
    }
    assert_eq!(s.current_line(), "x");
}

#[test]
fn submitted_empty_line_is_not_remembered() {
    let mut lr = LineReader::new();
    let mut s = EditSession::begin(lr.history.len());
    match lr.step(&mut s, Some(b'\n')) {
        StepEffect::Submitted(line) => assert_eq!(line, ""),
        _ => panic!("expected submission"),
    }
    assert!(lr.history.is_empty());
    assert!(!s.raw);
}

#[test]
fn redraw_repaints_and_repositions_the_cursor() {
    let mut lr = LineReader::new();
    let mut s = EditSession::begin(0);
    type_bytes(&mut lr, &mut s, b"abcd");
    // two left arrows: cursor sits before 'c', two columns from the end
    type_bytes(&mut lr, &mut s, &[27, b'[', b'D', 27, b'[', b'D']);
    let out = trust::session::render_redraw("> ", "", &s);
    assert_eq!(out, "\r\x1b[2K> abcd\x1b[0m\x1b[2D");
    // cursor at the end: no movement sequence
    type_bytes(&mut lr, &mut s, &[27, b'[', b'C', 27, b'[', b'C']);
    let out = trust::session::render_redraw("> ", "", &s);
    assert_eq!(out, "\r\x1b[2K> abcd\x1b[0m");
}
