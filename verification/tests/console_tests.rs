use kernel_console::console::{
    disable_cursor, enable_cursor, get_cursor_position, update_cursor, Color, CursorPorts, Pos,
    Writer, BUFFER_CELLS, BUFFER_WIDTH,
};

fn fresh() -> Writer {
    Writer::new(Color::Yellow, Color::Black)
}

#[test]
fn new_writer_is_blank_at_origin() {
    let w = fresh();
    assert_eq!(w.cursor_offset(), 0);
    assert!(!w.mutable_mode());
    assert_eq!(w.cell_at(0).ascii_character, b' ');
    assert_eq!(w.cell_at(BUFFER_CELLS - 1).ascii_character, b' ');
}

#[test]
fn printable_string_advances_cursor_by_length() {
    let mut w = fresh();
    w.write_string("hello");
    assert_eq!(w.cursor_offset(), 5);
    assert_eq!(w.cell_at(0).ascii_character, b'h');
    assert_eq!(w.cell_at(4).ascii_character, b'o');
}

#[test]
fn newline_moves_to_next_row_start() {
    let mut w = fresh();
    w.write_string("a\nb");
    assert_eq!(w.cursor_offset(), BUFFER_WIDTH + 1);
    assert_eq!(w.cell_at(0).ascii_character, b'a');
    assert_eq!(w.cell_at(BUFFER_WIDTH).ascii_character, b'b');
}

#[test]
fn escape_c_clears_screen_and_homes_cursor() {
    let mut w = fresh();
    w.write_string("some text");
    w.write_string("\x1bc");
    assert_eq!(w.cursor_offset(), 0);
    assert_eq!(w.cell_at(0).ascii_character, b' ');
    assert_eq!(w.cell_at(8).ascii_character, b' ');
}

#[test]
fn escape_i_records_protected_boundary() {
    let mut w = fresh();
    w.write_string("> ");
    w.write_string("\x1bi");
    assert!(w.mutable_mode());
    assert_eq!(w.mutable_start_offset(), 2);
}

#[test]
fn backspace_erases_inside_mutable_region() {
    let mut w = fresh();
    w.write_string("\x1bi");
    w.write_string("ab");
    w.write_string("\u{8}");
    assert_eq!(w.cursor_offset(), 1);
    assert_eq!(w.cell_at(1).ascii_character, b' ');
    assert_eq!(w.cell_at(0).ascii_character, b'a');
}

#[test]
fn backspace_refuses_outside_mutable_region() {
    let mut w = fresh();
    w.write_string("ab");
    w.write_string("\u{8}");
    assert_eq!(w.cursor_offset(), 2);
    assert_eq!(w.cell_at(1).ascii_character, b'b');
}

#[test]
fn backspace_refuses_to_cross_boundary() {
    let mut w = fresh();
    w.write_string("> ");
    w.write_string("\x1bi");
    w.write_string("a");
    w.write_string("\u{8}\u{8}\u{8}");
    assert_eq!(w.cursor_offset(), 2);
    assert_eq!(w.cell_at(0).ascii_character, b'>');
}

#[test]
fn escape_moves_cursor_without_writing() {
    let mut w = fresh();
    w.write_string("ab");
    w.write_string("\x1b<");
    assert_eq!(w.cursor_offset(), 1);
    w.write_string("\x1b>");
    assert_eq!(w.cursor_offset(), 2);
    assert_eq!(w.cell_at(0).ascii_character, b'a');
    assert_eq!(w.cell_at(1).ascii_character, b'b');
}

#[test]
fn cursor_left_stops_at_origin() {
    let mut w = fresh();
    w.write_string("\x1b<");
    assert_eq!(w.cursor_offset(), 0);
}

#[test]
fn escape_swallows_newline() {
    let mut w = fresh();
    w.write_string("a\x1b\nb");
    assert_eq!(w.cursor_offset(), 2);
    assert_eq!(w.cell_at(0).ascii_character, b'a');
    assert_eq!(w.cell_at(1).ascii_character, b'b');
}

#[test]
fn escape_swallows_backspace() {
    let mut w = fresh();
    w.write_string("\x1bi");
    w.write_string("ab");
    w.write_string("\x1b\u{8}");
    assert_eq!(w.cursor_offset(), 2);
    assert_eq!(w.cell_at(1).ascii_character, b'b');
}

#[test]
fn double_escape_is_consumed() {
    let mut w = fresh();
    w.write_string("xy");
    // the second escape is the control byte and is ignored; 'c' is plain text
    w.write_string("\x1b\x1bc");
    assert_eq!(w.cursor_offset(), 3);
    assert_eq!(w.cell_at(0).ascii_character, b'x');
    assert_eq!(w.cell_at(1).ascii_character, b'y');
    assert_eq!(w.cell_at(2).ascii_character, b'c');
}

#[test]
fn unknown_escape_byte_is_ignored() {
    let mut w = fresh();
    w.write_string("\x1bq");
    assert_eq!(w.cursor_offset(), 0);
    assert_eq!(w.cell_at(0).ascii_character, b' ');
}

#[test]
fn non_printable_byte_renders_placeholder() {
    let mut w = fresh();
    w.write_string("\u{1}");
    assert_eq!(w.cell_at(0).ascii_character, 0xfe);
    assert_eq!(w.cursor_offset(), 1);
}

#[test]
fn writing_past_last_cell_scrolls() {
    let mut w = fresh();
    let mut i = 0;
    while i < BUFFER_CELLS {
        w.write_byte(b'x', false);
        i += 1;
    }
    assert_eq!(w.cursor_offset(), BUFFER_CELLS);
    w.write_byte(b'y', false);
    assert_eq!(w.cursor_offset(), BUFFER_CELLS - BUFFER_WIDTH + 1);
    assert_eq!(w.cell_at(BUFFER_CELLS - BUFFER_WIDTH).ascii_character, b'y');
    assert_eq!(w.cell_at(0).ascii_character, b'x');
    assert_eq!(w.cell_at(BUFFER_CELLS - 1).ascii_character, b' ');
}

#[test]
fn newline_on_last_row_scrolls() {
    let mut w = fresh();
    let mut i = 0;
    while i < BUFFER_CELLS {
        w.write_byte(b'x', false);
        i += 1;
    }
    w.write_byte(b'\n', false);
    assert_eq!(w.cursor_offset(), BUFFER_CELLS - BUFFER_WIDTH);
    assert_eq!(w.cell_at(BUFFER_CELLS - 1).ascii_character, b' ');
}

#[test]
fn pos_splits_offset_into_row_and_column() {
    let p = Pos::new(5, 2);
    assert_eq!(p.col(), 5);
    assert_eq!(p.row(), 2);
}

#[test]
fn color_codes_are_the_vga_numbers() {
    assert_eq!(Color::Black.code(), 0);
    assert_eq!(Color::Yellow.code(), 14);
    assert_eq!(Color::White.code(), 15);
}

#[test]
fn hardware_cursor_round_trips_through_ports() {
    let mut ports = CursorPorts::new();
    update_cursor(&mut ports, 1234);
    assert_eq!(get_cursor_position(&mut ports), 1234);
    update_cursor(&mut ports, 0);
    assert_eq!(get_cursor_position(&mut ports), 0);
}

#[test]
fn cursor_enable_and_disable_set_registers() {
    let mut ports = CursorPorts::new();
    disable_cursor(&mut ports);
    assert_eq!(ports.cursor_start, 0x20);
    enable_cursor(&mut ports);
    assert_eq!(ports.cursor_start, 13);
    assert_eq!(ports.cursor_end, 15);
}
