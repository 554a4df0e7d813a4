use kernel_console::editor::LineEditor;

fn feed(ed: &mut LineEditor, input: &str) -> bool {
    let mut done = false;
    for c in input.chars() {
        let r = ed.handle_char(c);
        done = r.done;
    }
    done
}

#[test]
fn trivial_assertion() {
    assert_eq!(2 + 2, 4);
}

#[test]
fn typing_appends_and_echoes_directly() {
    let mut ed = LineEditor::new();
    let r = ed.handle_char('a');
    assert!(!r.done);
    assert_eq!(r.echo, vec!['a']);
    assert_eq!(ed.line_string(), "a");
    assert_eq!(ed.pos(), 0);
}

#[test]
fn two_left_moves_then_insert_lands_mid_line() {
    let mut ed = LineEditor::new();
    let done = feed(&mut ed, "hello\x1b<\x1b<X\n");
    assert!(done);
    assert_eq!(ed.line_string(), "helXlo");
}

#[test]
fn newline_completes_the_line() {
    let mut ed = LineEditor::new();
    let done = feed(&mut ed, "ok\n");
    assert!(done);
    assert_eq!(ed.line_string(), "ok");
}

#[test]
fn newline_echo_redraws_and_exits_insert_mode() {
    let mut ed = LineEditor::new();
    feed(&mut ed, "ab");
    let r = ed.handle_char('\n');
    assert!(r.done);
    // move left over both cells, redraw the line, newline, insert-mode toggle
    let expected = vec![
        '\x1b', '<', '\x1b', '<', 'a', 'b', '\n', '\x1b', 'i',
    ];
    assert_eq!(r.echo, expected);
}

#[test]
fn backspace_at_end_removes_last_char() {
    let mut ed = LineEditor::new();
    feed(&mut ed, "ab");
    let r = ed.handle_char('\u{8}');
    assert!(!r.done);
    assert_eq!(ed.line_string(), "a");
    assert_eq!(ed.pos(), 0);
    // the raw byte echoes first, then the clear-and-redraw of the line
    let expected = vec![
        '\u{8}', '\x1b', '<', '\x1b', '<', ' ', '\x1b', '<', '\x1b', '<', 'a',
    ];
    assert_eq!(r.echo, expected);
}

#[test]
fn backspace_before_first_char_is_refused() {
    let mut ed = LineEditor::new();
    feed(&mut ed, "a\x1b<");
    assert_eq!(ed.pos(), 1);
    ed.handle_char('\u{8}');
    assert_eq!(ed.line_string(), "a");
    assert_eq!(ed.pos(), 1);
}

#[test]
fn insert_then_backspace_restores_line() {
    let mut ed = LineEditor::new();
    feed(&mut ed, "world\x1b<\x1b<");
    assert_eq!(ed.pos(), 2);
    ed.handle_char('Q');
    assert_eq!(ed.line_string(), "worQld");
    ed.handle_char('\u{8}');
    assert_eq!(ed.line_string(), "world");
    assert_eq!(ed.pos(), 2);
}

#[test]
fn cursor_moves_stop_at_the_edges() {
    let mut ed = LineEditor::new();
    feed(&mut ed, "ab\x1b<\x1b<\x1b<\x1b<");
    assert_eq!(ed.pos(), 2);
    feed(&mut ed, "\x1b>\x1b>\x1b>");
    assert_eq!(ed.pos(), 0);
}

#[test]
fn escape_then_unknown_is_consumed_silently() {
    let mut ed = LineEditor::new();
    feed(&mut ed, "a");
    let r1 = ed.handle_char('\x1b');
    assert_eq!(r1.echo, Vec::<char>::new());
    let r2 = ed.handle_char('q');
    assert_eq!(r2.echo, Vec::<char>::new());
    assert_eq!(ed.line_string(), "a");
    assert_eq!(ed.pos(), 0);
}

#[test]
fn escape_mid_line_echoes_nothing() {
    let mut ed = LineEditor::new();
    feed(&mut ed, "ab\x1b<");
    assert_eq!(ed.pos(), 1);
    let r = ed.handle_char('\x1b');
    assert_eq!(r.echo, Vec::<char>::new());
    assert_eq!(ed.line_string(), "ab");
}

#[test]
fn lone_escape_then_newline_is_a_no_op() {
    let mut ed = LineEditor::new();
    feed(&mut ed, "a\x1b");
    let r = ed.handle_char('\n');
    // the newline is consumed by the pending escape; the line goes on
    assert!(!r.done);
    let done = feed(&mut ed, "b\n");
    assert!(done);
    assert_eq!(ed.line_string(), "ab");
}

#[test]
fn mid_line_insert_redraws_whole_line() {
    let mut ed = LineEditor::new();
    feed(&mut ed, "ab\x1b<");
    let r = ed.handle_char('X');
    assert_eq!(ed.line_string(), "aXb");
    // clear the line, redraw it with X inserted, move back to the edit point
    let expected = vec![
        '\x1b', '<', '\x1b', '<', // back over the two cells
        ' ', ' ', // blank them
        '\x1b', '<', '\x1b', '<', // back again
        'a', 'X', 'b', // the new line
        '\x1b', '<', // back to the edit point
    ];
    assert_eq!(r.echo, expected);
}

#[test]
fn invariant_pos_never_exceeds_length() {
    let mut ed = LineEditor::new();
    let script = "abc\x1b<\x1b<\x1b<\x1b<\u{8}\u{8}xy\x1b>z\u{8}";
    for c in script.chars() {
        ed.handle_char(c);
        assert!(ed.pos() <= ed.len());
    }
}

#[test]
fn start_echo_is_the_insert_toggle() {
    assert_eq!(LineEditor::start_echo(), vec!['\x1b', 'i']);
}
