//! The text-mode display driver: a fixed 25-by-80 character grid, a single
//! linear cursor offset, a protected-prefix boundary for the line editor's
//! backspace, and the in-band control protocol (escape then `c`, `i`, `<`
//! or `>`) embedded in the text it renders. The hardware cursor registers
//! behind the CRT controller's ports are modelled as plain register state
//! and kept in sync with the logical cursor on every write.

use vstd::prelude::*;

verus! {

/// Rows of the character grid.
pub const BUFFER_HEIGHT: usize = 25;

/// Columns of the character grid.
pub const BUFFER_WIDTH: usize = 80;

/// Cells of the whole grid.
pub const BUFFER_CELLS: usize = BUFFER_WIDTH * BUFFER_HEIGHT;

/// The sixteen VGA colors.
#[derive(Debug, Clone, Copy, PartialEq, Eq)]
pub enum Color {
    Black,
    Blue,
    Green,
    Cyan,
    Red,
    Magenta,
    Brown,
    LightGray,
    DarkGray,
    LightBlue,
    LightGreen,
    LightCyan,
    LightRed,
    Pink,
    Yellow,
    White,
}

impl Color {
    /// The 4-bit color number.
    pub open spec fn nibble(self) -> u8 {
        match self {
            Color::Black => 0,
            Color::Blue => 1,
            Color::Green => 2,
            Color::Cyan => 3,
            Color::Red => 4,
            Color::Magenta => 5,
            Color::Brown => 6,
            Color::LightGray => 7,
            Color::DarkGray => 8,
            Color::LightBlue => 9,
            Color::LightGreen => 10,
            Color::LightCyan => 11,
            Color::LightRed => 12,
            Color::Pink => 13,
            Color::Yellow => 14,
            Color::White => 15,
        }
    }

    /// The 4-bit color number, as a value.
    pub fn code(self) -> (r: u8)
        ensures
            r == self.nibble(),
            r <= 15,
    {
        match self {
            Color::Black => 0,
            Color::Blue => 1,
            Color::Green => 2,
            Color::Cyan => 3,
            Color::Red => 4,
            Color::Magenta => 5,
            Color::Brown => 6,
            Color::LightGray => 7,
            Color::DarkGray => 8,
            Color::LightBlue => 9,
            Color::LightGreen => 10,
            Color::LightCyan => 11,
            Color::LightRed => 12,
            Color::Pink => 13,
            Color::Yellow => 14,
            Color::White => 15,
        }
    }
}

/// A foreground/background color pair packed in one byte.
#[derive(Debug, Clone, Copy, PartialEq, Eq)]
pub struct ColorCode(u8);

impl ColorCode {
    /// The packed byte.
    pub closed spec fn value(&self) -> u8 {
        self.0
    }

    /// Packs a foreground and a background color: background in the high
    /// nibble, foreground in the low one.
    pub fn new(foreground: Color, background: Color) -> (r: ColorCode)
        ensures
            r.value() == (background.nibble() << 4) | foreground.nibble(),
    {
        ColorCode((background.code() << 4) | foreground.code())
    }
}

/// One cell of the grid: a character byte and its colors.
#[derive(Debug, Clone, Copy, PartialEq, Eq)]
pub struct ScreenChar {
    /// The character byte shown in the cell.
    pub ascii_character: u8,
    /// The cell's colors.
    pub color_code: ColorCode,
}

/// A position on the grid, held as a single linear offset.
pub struct Pos {
    pos: usize,
}

impl Pos {
    /// The linear offset.
    pub closed spec fn offset(&self) -> int {
        self.pos as int
    }

    /// A position from its column and row.
    pub fn new(col: usize, row: usize) -> (r: Self)
        requires
            col < BUFFER_WIDTH,
            row < BUFFER_HEIGHT,
        ensures
            r.offset() == row * BUFFER_WIDTH + col,
    {
        Pos { pos: row * BUFFER_WIDTH + col }
    }

    /// The column this offset falls in.
    pub fn col(&self) -> (r: usize)
        ensures
            r == self.offset() % (BUFFER_WIDTH as int),
    {
        self.pos % BUFFER_WIDTH
    }

    /// The row this offset falls in.
    pub fn row(&self) -> (r: usize)
        ensures
            r == self.offset() / (BUFFER_WIDTH as int),
    {
        self.pos / BUFFER_WIDTH
    }
}

/// The CRT controller's cursor registers, reached through an index port and
/// a data port: writing the index port selects a register, the data port
/// then reads or writes it.
pub struct CursorPorts {
    /// The register index last written to the address port.
    pub index: u8,
    /// The cursor start register (index `0x0A`).
    pub cursor_start: u8,
    /// The cursor end register (index `0x0B`).
    pub cursor_end: u8,
    /// The cursor location high byte (index `0x0E`).
    pub pos_high: u8,
    /// The cursor location low byte (index `0x0F`).
    pub pos_low: u8,
}

impl CursorPorts {
    /// Registers as they come up: all zero.
    pub fn new() -> (r: Self)
        ensures
            r.index == 0,
            r.cursor_start == 0,
            r.cursor_end == 0,
            r.pos_high == 0,
            r.pos_low == 0,
    {
        CursorPorts { index: 0, cursor_start: 0, cursor_end: 0, pos_high: 0, pos_low: 0 }
    }
}

/// The cursor offset the location registers currently hold.
pub open spec fn hw_cursor(p: CursorPorts) -> int {
    p.pos_low as int + 256 * (p.pos_high as int)
}

/// A byte written to a port: the address port selects a register, the data
/// port stores into the selected register; other ports are ignored.
pub open spec fn spec_outb(p: CursorPorts, port: u16, value: u8) -> CursorPorts {
    if port == 0x3D4 {
        CursorPorts { index: value, ..p }
    } else if port == 0x3D5 {
        if p.index == 0x0A {
            CursorPorts { cursor_start: value, ..p }
        } else if p.index == 0x0B {
            CursorPorts { cursor_end: value, ..p }
        } else if p.index == 0x0E {
            CursorPorts { pos_high: value, ..p }
        } else if p.index == 0x0F {
            CursorPorts { pos_low: value, ..p }
        } else {
            p
        }
    } else {
        p
    }
}

/// A byte read from a port: the data port yields the selected register;
/// other ports read as zero.
pub open spec fn spec_inb(p: CursorPorts, port: u16) -> u8 {
    if port == 0x3D5 {
        if p.index == 0x0A {
            p.cursor_start
        } else if p.index == 0x0B {
            p.cursor_end
        } else if p.index == 0x0E {
            p.pos_high
        } else if p.index == 0x0F {
            p.pos_low
        } else {
            0
        }
    } else {
        0
    }
}

/// Writes one byte to a cursor register port.
fn outb(ports: &mut CursorPorts, port: u16, value: u8)
    ensures
        *final(ports) == spec_outb(*old(ports), port, value),
{
    if port == 0x3D4 {
        ports.index = value;
    } else if port == 0x3D5 {
        if ports.index == 0x0A {
            ports.cursor_start = value;
        } else if ports.index == 0x0B {
            ports.cursor_end = value;
        } else if ports.index == 0x0E {
            ports.pos_high = value;
        } else if ports.index == 0x0F {
            ports.pos_low = value;
        }
    }
}

/// Reads one byte from a cursor register port.
fn inb(ports: &CursorPorts, port: u16) -> (r: u8)
    ensures
        r == spec_inb(*ports, port),
{
    if port == 0x3D5 {
        if ports.index == 0x0A {
            ports.cursor_start
        } else if ports.index == 0x0B {
            ports.cursor_end
        } else if ports.index == 0x0E {
            ports.pos_high
        } else if ports.index == 0x0F {
            ports.pos_low
        } else {
            0
        }
    } else {
        0
    }
}

/// Hides the hardware cursor by setting the disable bit in the cursor
/// start register.
pub fn disable_cursor(ports: &mut CursorPorts)
    ensures
        final(ports).cursor_start == 0x20,
        final(ports).cursor_end == old(ports).cursor_end,
        final(ports).pos_high == old(ports).pos_high,
        final(ports).pos_low == old(ports).pos_low,
{
    outb(ports, 0x3D4, 0x0A);
    outb(ports, 0x3D5, 0x20);
}

/// Shows the hardware cursor, keeping the reserved bits of the start and
/// end registers and setting the scan-line window to rows 13 through 15.
pub fn enable_cursor(ports: &mut CursorPorts)
    ensures
        final(ports).cursor_start == (old(ports).cursor_start & 0xC0) | 13,
        final(ports).cursor_end == (old(ports).cursor_end & 0xE0) | 15,
        final(ports).pos_high == old(ports).pos_high,
        final(ports).pos_low == old(ports).pos_low,
{
    outb(ports, 0x3D4, 0x0A);
    let start = inb(ports, 0x3D5);
    outb(ports, 0x3D5, (start & 0xC0) | 13);
    outb(ports, 0x3D4, 0x0B);
    let end = inb(ports, 0x3D5);
    outb(ports, 0x3D5, (end & 0xE0) | 15);
}

/// Moves the hardware cursor to the given linear offset, low byte then high
/// byte.
pub fn update_cursor(ports: &mut CursorPorts, pos: u16)
    ensures
        final(ports).pos_low == (pos & 0xFF) as u8,
        final(ports).pos_high == ((pos >> 8) & 0xFF) as u8,
        final(ports).cursor_start == old(ports).cursor_start,
        final(ports).cursor_end == old(ports).cursor_end,
        hw_cursor(*final(ports)) == pos as int,
{
    outb(ports, 0x3D4, 0x0F);
    outb(ports, 0x3D5, (pos & 0xFF) as u8);
    outb(ports, 0x3D4, 0x0E);
    outb(ports, 0x3D5, ((pos >> 8) & 0xFF) as u8);
    proof {
        lemma_cursor_bytes_reassemble(pos);
    }
}

/// Reads the hardware cursor's linear offset back from the two location
/// registers.
pub fn get_cursor_position(ports: &mut CursorPorts) -> (r: u16)
    ensures
        r as int == hw_cursor(*old(ports)),
        final(ports).cursor_start == old(ports).cursor_start,
        final(ports).cursor_end == old(ports).cursor_end,
        final(ports).pos_high == old(ports).pos_high,
        final(ports).pos_low == old(ports).pos_low,
{
    outb(ports, 0x3D4, 0x0F);
    let low = inb(ports, 0x3D5);
    outb(ports, 0x3D4, 0x0E);
    let high = inb(ports, 0x3D5);
    let pos: u16 = (low as u16) | ((high as u16) << 8);
    proof {
        lemma_cursor_bytes_assemble(old(ports).pos_low, old(ports).pos_high);
    }
    pos
}

/// Splitting a 16-bit offset into its two bytes and reassembling them gives
/// the offset back.
proof fn lemma_cursor_bytes_reassemble(pos: u16)
    ensures
        ((pos & 0xFF) as u8) as int + 256 * ((((pos >> 8) & 0xFF) as u8) as int) == pos as int,
{
    assert(((pos & 0xFF) as u8) as u16 + 256 * ((((pos >> 8) & 0xFF) as u8) as u16) == pos)
        by (bit_vector);
}

/// Assembling the two cursor location bytes with a shifted or equals their
/// weighted sum.
proof fn lemma_cursor_bytes_assemble(low: u8, high: u8)
    ensures
        ((low as u16) | ((high as u16) << 8)) as int == low as int + 256 * (high as int),
{
    assert((low as u16) | ((high as u16) << 8) == (low as u16) + 256 * (high as u16))
        by (bit_vector);
}

/// The display driver's observable state: the grid, the cursor offset, and
/// the protected-prefix mode and boundary.
pub struct ConsoleState {
    /// The grid, row by row.
    pub screen: Seq<ScreenChar>,
    /// The cursor's linear offset; the next printable byte lands here.
    pub cursor: int,
    /// Whether the mutable-region mode is on.
    pub mutable: bool,
    /// The protected-prefix boundary: backspace refuses to cross it.
    pub mutable_start: int,
}

/// Well-formedness of a console state.
pub open spec fn console_wf(s: ConsoleState) -> bool {
    &&& s.screen.len() == BUFFER_CELLS as int
    &&& 0 <= s.cursor <= BUFFER_CELLS as int
    &&& 0 <= s.mutable_start <= BUFFER_CELLS as int
}

/// A blank cell in the given colors.
pub open spec fn blank_cell(color: ColorCode) -> ScreenChar {
    ScreenChar { ascii_character: 32u8, color_code: color }
}

/// The grid after scrolling: every row moves up by one, the freed last row
/// is blank.
pub open spec fn scrolled(screen: Seq<ScreenChar>, color: ColorCode) -> Seq<ScreenChar> {
    screen.subrange(BUFFER_WIDTH as int, BUFFER_CELLS as int)
        + Seq::new(BUFFER_WIDTH as nat, |i: int| blank_cell(color))
}

/// An all-blank grid.
pub open spec fn blank_screen(color: ColorCode) -> Seq<ScreenChar> {
    Seq::new(BUFFER_CELLS as nat, |i: int| blank_cell(color))
}

/// One byte through the driver, with the escape flag telling whether the
/// byte came right after an escape byte.
///
/// An escape governs exactly the next byte, whatever it is: `i` toggles the
/// mutable region and records its start, `c` clears the screen and homes
/// the cursor, `<` and `>` move the logical cursor one cell (writing
/// nothing, stopping at the grid's edges), and any other byte is ignored.
/// In text mode, a newline moves to the next row's start, scrolling on the
/// last row; a backspace blanks the cell before the cursor, only inside the
/// mutable region; any other byte lands at the cursor, scrolling first when
/// the grid has been written full.
pub open spec fn write_byte_spec(s: ConsoleState, color: ColorCode, byte: u8, esc: bool) -> ConsoleState {
    if esc {
        if byte == 105u8 {
            ConsoleState { mutable: !s.mutable, mutable_start: s.cursor, ..s }
        } else if byte == 99u8 {
            ConsoleState { screen: blank_screen(color), cursor: 0, ..s }
        } else if byte == 60u8 {
            if s.cursor > 0 {
                ConsoleState { cursor: s.cursor - 1, ..s }
            } else {
                s
            }
        } else if byte == 62u8 {
            if s.cursor < BUFFER_CELLS {
                ConsoleState { cursor: s.cursor + 1, ..s }
            } else {
                s
            }
        } else {
            s
        }
    } else if byte == 10u8 {
        if s.cursor >= BUFFER_CELLS - BUFFER_WIDTH {
            ConsoleState {
                screen: scrolled(s.screen, color),
                cursor: BUFFER_CELLS - BUFFER_WIDTH,
                ..s
            }
        } else {
            ConsoleState { cursor: (s.cursor / (BUFFER_WIDTH as int)) * (BUFFER_WIDTH as int) + BUFFER_WIDTH, ..s }
        }
    } else if byte == 8u8 {
        if s.mutable && s.cursor > s.mutable_start {
            ConsoleState {
                screen: s.screen.update(s.cursor - 1, blank_cell(color)),
                cursor: s.cursor - 1,
                ..s
            }
        } else {
            s
        }
    } else {
        if s.cursor == BUFFER_CELLS {
            ConsoleState {
                screen: scrolled(s.screen, color).update(
                    BUFFER_CELLS - BUFFER_WIDTH,
                    ScreenChar { ascii_character: byte, color_code: color },
                ),
                cursor: BUFFER_CELLS - BUFFER_WIDTH + 1,
                ..s
            }
        } else {
            ConsoleState {
                screen: s.screen.update(
                    s.cursor,
                    ScreenChar { ascii_character: byte, color_code: color },
                ),
                cursor: s.cursor + 1,
                ..s
            }
        }
    }
}

/// A whole byte sequence through the driver. In text mode an escape byte
/// turns the escape flag on for exactly the next byte and writes nothing
/// itself; that next byte, whatever it is, goes through the control
/// interpretation (so a second escape is simply consumed). In text mode
/// printable bytes, newline and backspace pass through; anything else is
/// rendered as the placeholder glyph `0xFE`.
pub open spec fn write_bytes_spec(
    s: ConsoleState,
    color: ColorCode,
    bytes: Seq<u8>,
    esc: bool,
) -> ConsoleState
    decreases bytes.len(),
{
    if bytes.len() == 0 {
        s
    } else {
        let b = bytes[0];
        if !esc && b == 0x1bu8 {
            write_bytes_spec(s, color, bytes.drop_first(), true)
        } else if (0x20u8 <= b && b <= 0x7eu8) || b == 10u8 || b == 8u8 {
            write_bytes_spec(write_byte_spec(s, color, b, esc), color, bytes.drop_first(), false)
        } else {
            write_bytes_spec(
                write_byte_spec(s, color, 0xfeu8, esc),
                color,
                bytes.drop_first(),
                false,
            )
        }
    }
}

/// The display driver. It owns the grid model, the logical cursor, the
/// protected-prefix state and the cursor port registers; every mutating
/// write re-synchronizes the hardware cursor with the logical one.
pub struct Writer {
    position: Pos,
    mutable_start: Pos,
    mutable: bool,
    color_code: ColorCode,
    grid: Vec<ScreenChar>,
    ports: CursorPorts,
}

impl Writer {
    /// The observable state.
    pub closed spec fn state(&self) -> ConsoleState {
        ConsoleState {
            screen: self.grid@,
            cursor: self.position.offset(),
            mutable: self.mutable,
            mutable_start: self.mutable_start.offset(),
        }
    }

    /// The colors every written cell gets.
    pub closed spec fn color_spec(&self) -> ColorCode {
        self.color_code
    }

    /// The cursor port registers.
    pub closed spec fn ports_spec(&self) -> CursorPorts {
        self.ports
    }

    /// The driver's invariant: a well-formed state, and the hardware cursor
    /// in sync with the logical one.
    pub open spec fn wf(&self) -> bool {
        &&& console_wf(self.state())
        &&& hw_cursor(self.ports_spec()) == self.state().cursor
    }

    /// A fresh driver: blank grid, cursor at the origin, mutable region off,
    /// registers cleared.
    pub fn new(foreground: Color, background: Color) -> (r: Writer)
        ensures
            r.wf(),
            r.state().screen =~= blank_screen(r.color_spec()),
            r.state().cursor == 0,
            !r.state().mutable,
            r.state().mutable_start == 0,
            r.color_spec().value() == (background.nibble() << 4) | foreground.nibble(),
    {
        let color_code = ColorCode::new(foreground, background);
        let mut grid: Vec<ScreenChar> = Vec::new();
        let mut i: usize = 0;
        while i < BUFFER_CELLS
            invariant
                i <= BUFFER_CELLS,
                grid@.len() == i as int,
                forall|k: int| 0 <= k < i as int ==> grid@[k] == blank_cell(color_code),
            decreases BUFFER_CELLS - i,
        {
            grid.push(ScreenChar { ascii_character: 32u8, color_code });
            i += 1;
        }
        let w = Writer {
            position: Pos::new(0, 0),
            mutable_start: Pos::new(0, 0),
            mutable: false,
            color_code,
            grid,
            ports: CursorPorts::new(),
        };
        proof {
            assert(w.state().screen =~= blank_screen(color_code));
        }
        w
    }

    /// Blanks one row.
    fn clear_row(&mut self, row: usize)
        requires
            console_wf(old(self).state()),
            row < BUFFER_HEIGHT,
        ensures
            console_wf(final(self).state()),
            final(self).state().cursor == old(self).state().cursor,
            final(self).state().mutable == old(self).state().mutable,
            final(self).state().mutable_start == old(self).state().mutable_start,
            final(self).color_spec() == old(self).color_spec(),
            final(self).ports_spec() == old(self).ports_spec(),
            final(self).state().screen.len() == old(self).state().screen.len(),
            forall|k: int|
                0 <= k < BUFFER_CELLS as int ==> final(self).state().screen[k] == (if row
                    * BUFFER_WIDTH <= k < (row + 1) * BUFFER_WIDTH {
                    blank_cell(old(self).color_spec())
                } else {
                    old(self).state().screen[k]
                }),
    {
        let base = row * BUFFER_WIDTH;
        let mut col: usize = 0;
        let color_code = self.color_code;
        while col < BUFFER_WIDTH
            invariant
                col <= BUFFER_WIDTH,
                base == row * BUFFER_WIDTH,
                row < BUFFER_HEIGHT,
                color_code == old(self).color_code,
                old(self).grid@.len() == BUFFER_CELLS as int,
                self.grid@.len() == BUFFER_CELLS as int,
                self.position == old(self).position,
                self.mutable_start == old(self).mutable_start,
                self.mutable == old(self).mutable,
                self.color_code == old(self).color_code,
                self.ports == old(self).ports,
                forall|k: int|
                    0 <= k < BUFFER_CELLS as int ==> self.grid@[k] == (if base as int <= k
                        < base as int + col as int {
                        blank_cell(old(self).color_code)
                    } else {
                        old(self).grid@[k]
                    }),
            decreases BUFFER_WIDTH - col,
        {
            self.grid[base + col] = ScreenChar { ascii_character: 32u8, color_code };
            col += 1;
        }
    }

    /// Blanks the whole grid.
    fn clear_screen(&mut self)
        requires
            console_wf(old(self).state()),
        ensures
            console_wf(final(self).state()),
            final(self).state().cursor == old(self).state().cursor,
            final(self).state().mutable == old(self).state().mutable,
            final(self).state().mutable_start == old(self).state().mutable_start,
            final(self).color_spec() == old(self).color_spec(),
            final(self).ports_spec() == old(self).ports_spec(),
            final(self).state().screen =~= blank_screen(old(self).color_spec()),
    {
        let mut row: usize = 0;
        while row < BUFFER_HEIGHT
            invariant
                row <= BUFFER_HEIGHT,
                old(self).grid@.len() == BUFFER_CELLS as int,
                console_wf(self.state()),
                self.position == old(self).position,
                self.mutable_start == old(self).mutable_start,
                self.mutable == old(self).mutable,
                self.color_code == old(self).color_code,
                self.ports == old(self).ports,
                forall|k: int|
                    0 <= k < BUFFER_CELLS as int ==> self.grid@[k] == (if k < row as int
                        * BUFFER_WIDTH as int {
                        blank_cell(old(self).color_code)
                    } else {
                        old(self).grid@[k]
                    }),
            decreases BUFFER_HEIGHT - row,
        {
            self.clear_row(row);
            row += 1;
        }
        proof {
            assert(self.grid@ =~= blank_screen(old(self).color_code));
        }
    }

    /// Moves to the start of the next row, scrolling when the cursor is on
    /// (or past) the last row.
    fn new_line(&mut self)
        requires
            console_wf(old(self).state()),
        ensures
            console_wf(final(self).state()),
            final(self).state().mutable == old(self).state().mutable,
            final(self).state().mutable_start == old(self).state().mutable_start,
            final(self).color_spec() == old(self).color_spec(),
            final(self).ports_spec() == old(self).ports_spec(),
            old(self).state().cursor >= BUFFER_CELLS - BUFFER_WIDTH
                ==> final(self).state().screen
                    =~= scrolled(old(self).state().screen, old(self).color_spec())
                && final(self).state().cursor == BUFFER_CELLS - BUFFER_WIDTH,
            old(self).state().cursor < BUFFER_CELLS - BUFFER_WIDTH
                ==> final(self).state().screen == old(self).state().screen
                && final(self).state().cursor
                    == (old(self).state().cursor / (BUFFER_WIDTH as int)) * (BUFFER_WIDTH as int)
                        + BUFFER_WIDTH,
    {
        if self.position.pos >= BUFFER_CELLS - BUFFER_WIDTH {
            let mut i: usize = BUFFER_WIDTH;
            while i < BUFFER_CELLS
                invariant
                    BUFFER_WIDTH <= i <= BUFFER_CELLS,
                    old(self).grid@.len() == BUFFER_CELLS as int,
                    self.grid@.len() == BUFFER_CELLS as int,
                    self.position == old(self).position,
                    self.mutable_start == old(self).mutable_start,
                    self.mutable == old(self).mutable,
                    self.color_code == old(self).color_code,
                    self.ports == old(self).ports,
                    forall|k: int|
                        0 <= k < i as int - BUFFER_WIDTH as int ==> self.grid@[k] == old(
                            self,
                        ).grid@[k + BUFFER_WIDTH as int],
                    forall|k: int|
                        i as int - BUFFER_WIDTH as int <= k < BUFFER_CELLS as int
                            ==> self.grid@[k] == old(self).grid@[k],
                decreases BUFFER_CELLS - i,
            {
                let ch = self.grid[i];
                self.grid[i - BUFFER_WIDTH] = ch;
                i += 1;
            }
            self.clear_row(BUFFER_HEIGHT - 1);
            self.position.pos = BUFFER_CELLS - BUFFER_WIDTH;
            proof {
                assert(self.grid@ =~= scrolled(old(self).grid@, old(self).color_code));
            }
        } else {
            let row = self.position.row();
            self.position.pos = row * BUFFER_WIDTH + BUFFER_WIDTH;
            proof {
                vstd::arithmetic::div_mod::lemma_div_multiples_vanish_fancy(
                    old(self).position.offset(),
                    0,
                    BUFFER_WIDTH as int,
                );
            }
        }
    }

    /// The logical cursor's linear offset.
    pub fn cursor_offset(&self) -> (r: usize)
        ensures
            r == self.state().cursor,
    {
        self.position.pos
    }

    /// Whether the mutable-region mode is on.
    pub fn mutable_mode(&self) -> (r: bool)
        ensures
            r == self.state().mutable,
    {
        self.mutable
    }

    /// The protected-prefix boundary.
    pub fn mutable_start_offset(&self) -> (r: usize)
        ensures
            r == self.state().mutable_start,
    {
        self.mutable_start.pos
    }

    /// The cell at a linear offset.
    pub fn cell_at(&self, i: usize) -> (r: ScreenChar)
        requires
            self.wf(),
            i < BUFFER_CELLS,
        ensures
            r == self.state().screen[i as int],
    {
        self.grid[i]
    }

    /// One byte through the driver, exactly as `write_byte_spec` says, with
    /// the hardware cursor re-synchronized afterwards.
    pub fn write_byte(&mut self, byte: u8, esc: bool)
        requires
            old(self).wf(),
        ensures
            final(self).wf(),
            final(self).state() == write_byte_spec(
                old(self).state(),
                old(self).color_spec(),
                byte,
                esc,
            ),
            final(self).color_spec() == old(self).color_spec(),
    {
        if esc {
            if byte == 105u8 {
                self.mutable = !self.mutable;
                self.mutable_start.pos = self.position.pos;
            } else if byte == 99u8 {
                self.clear_screen();
                self.position.pos = 0;
            } else if byte == 60u8 {
                if self.position.pos > 0 {
                    self.position.pos = self.position.pos - 1;
                }
            } else if byte == 62u8 {
                if self.position.pos < BUFFER_CELLS {
                    self.position.pos = self.position.pos + 1;
                }
            }
        } else if byte == 10u8 {
            self.new_line();
        } else if byte == 8u8 {
            if self.mutable && self.position.pos > self.mutable_start.pos {
                self.position.pos = self.position.pos - 1;
                let color_code = self.color_code;
                self.grid[self.position.pos] = ScreenChar { ascii_character: 32u8, color_code };
            }
        } else {
            if self.position.pos >= BUFFER_CELLS {
                self.new_line();
            }
            let color_code = self.color_code;
            self.grid[self.position.pos] = ScreenChar { ascii_character: byte, color_code };
            self.position.pos = self.position.pos + 1;
        }
        let p = self.position.pos as u16;
        update_cursor(&mut self.ports, p);
    }

    /// A whole string through the driver: its UTF-8 bytes pass one by one
    /// through the control protocol, exactly as `write_bytes_spec` says.
    pub fn write_string(&mut self, s: &str)
        requires
            old(self).wf(),
        ensures
            final(self).wf(),
            final(self).state() == write_bytes_spec(
                old(self).state(),
                old(self).color_spec(),
                vstd::utf8::encode_utf8(s@),
                false,
            ),
            final(self).color_spec() == old(self).color_spec(),
    {
        let bytes: &[u8] = s.as_bytes();
        let ghost all = bytes@;
        let mut i: usize = 0;
        let mut esc = false;
        proof {
            assert(all.subrange(0, all.len() as int) =~= all);
        }
        while i < bytes.len()
            invariant
                i <= all.len(),
                bytes@ == all,
                self.wf(),
                self.color_spec() == old(self).color_spec(),
                write_bytes_spec(old(self).state(), old(self).color_spec(), all, false)
                    == write_bytes_spec(
                    self.state(),
                    old(self).color_spec(),
                    all.subrange(i as int, all.len() as int),
                    esc,
                ),
            decreases all.len() - i,
        {
            let ghost rest = all.subrange(i as int, all.len() as int);
            let b = bytes[i];
            proof {
                assert(rest[0] == b);
                assert(rest.drop_first() =~= all.subrange(i as int + 1, all.len() as int));
            }
            if !esc && b == 0x1bu8 {
                esc = true;
            } else if (0x20u8 <= b && b <= 0x7eu8) || b == 10u8 || b == 8u8 {
                self.write_byte(b, esc);
                esc = false;
            } else {
                self.write_byte(0xfeu8, esc);
                esc = false;
            }
            i += 1;
        }
        proof {
            assert(all.subrange(all.len() as int, all.len() as int).len() == 0);
        }
    }
}

/// Writing a printable, escape-free byte sequence advances the cursor by
/// exactly its length, as long as it fits before the end of the grid, and
/// leaves the mutable-region state alone.
pub proof fn lemma_printable_run_advances_cursor(
    s: ConsoleState,
    color: ColorCode,
    bytes: Seq<u8>,
)
    requires
        console_wf(s),
        forall|i: int| 0 <= i < bytes.len() ==> 0x20u8 <= #[trigger] bytes[i] <= 0x7eu8,
        s.cursor + bytes.len() <= BUFFER_CELLS as int,
    ensures
        ({
            let t = write_bytes_spec(s, color, bytes, false);
            t.cursor == s.cursor + bytes.len() && t.mutable == s.mutable && t.mutable_start
                == s.mutable_start && console_wf(t)
        }),
    decreases bytes.len(),
{
    if bytes.len() > 0 {
        let b = bytes[0];
        let s1 = write_byte_spec(s, color, b, false);
        assert(s1.cursor == s.cursor + 1);
        assert(s1.screen.len() == s.screen.len());
        lemma_printable_run_advances_cursor(s1, color, bytes.drop_first());
    }
}

/// The escape-then-`c` sequence always clears every cell and homes the
/// cursor to offset zero.
pub proof fn lemma_clear_sequence(s: ConsoleState, color: ColorCode)
    requires
        console_wf(s),
    ensures
        ({
            let t = write_bytes_spec(s, color, seq![0x1bu8, 99u8], false);
            t.cursor == 0 && t.screen =~= blank_screen(color) && console_wf(t)
        }),
{
    let bytes = seq![0x1bu8, 99u8];
    assert(bytes.len() == 2);
    assert(bytes[0] == 0x1bu8);
    assert(bytes.drop_first() =~= seq![99u8]);
    assert(write_bytes_spec(s, color, bytes, false) == write_bytes_spec(s, color, seq![99u8], true));
    let t1 = write_byte_spec(s, color, 99u8, true);
    assert(seq![99u8].drop_first() =~= Seq::<u8>::empty());
    assert(write_bytes_spec(s, color, seq![99u8], true) == write_bytes_spec(
        t1,
        color,
        Seq::<u8>::empty(),
        false,
    ));
    assert(write_bytes_spec(t1, color, Seq::<u8>::empty(), false) == t1);
    assert(t1.screen =~= blank_screen(color));
}

} // verus!
