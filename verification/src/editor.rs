//! The line editor: a state machine driven one character at a time from the
//! asynchronous character stream. It keeps a line buffer and an insertion
//! point measured from the *end* of the buffer, interprets a small in-band
//! control protocol (escape then `<` or `>`) for cursor motion, and emits
//! for every step the exact characters to echo to the console, including the
//! redraws that keep the screen in sync.

use vstd::prelude::*;
use crate::text::string_push_char;

verus! {

/// `s` repeated `n` times.
pub open spec fn repeat_seq(s: Seq<char>, n: int) -> Seq<char>
    decreases n,
{
    if n <= 0 {
        Seq::<char>::empty()
    } else {
        s + repeat_seq(s, n - 1)
    }
}

/// `n` terminal "move cursor left" control codes.
pub open spec fn move_left_codes(n: int) -> Seq<char> {
    repeat_seq(seq!['\x1b', '<'], n)
}

/// `n` blank characters.
pub open spec fn blank_chars(n: int) -> Seq<char> {
    repeat_seq(seq![' '], n)
}

proof fn lemma_repeat_seq_snoc(s: Seq<char>, n: int)
    requires
        n >= 0,
    ensures
        repeat_seq(s, n + 1) == repeat_seq(s, n) + s,
    decreases n,
{
    if n == 0 {
        assert(repeat_seq(s, 1) == s + repeat_seq(s, 0));
        assert(s + Seq::<char>::empty() =~= s);
        assert(Seq::<char>::empty() + s =~= s);
    } else {
        lemma_repeat_seq_snoc(s, n - 1);
        assert(repeat_seq(s, n + 1) == s + repeat_seq(s, n));
        assert(s + (repeat_seq(s, n - 1) + s) =~= (s + repeat_seq(s, n - 1)) + s);
    }
}

/// The state and output of one editor step.
pub struct EditorStep {
    /// The line buffer afterwards.
    pub line: Seq<char>,
    /// The insertion point afterwards, counted from the end of the buffer.
    pub pos: int,
    /// Whether an escape byte is pending afterwards.
    pub esc: bool,
    /// The characters echoed to the console for this step.
    pub echo: Seq<char>,
    /// Whether the line is complete.
    pub done: bool,
}

/// The echo emitted before the buffer is touched, for any input other than
/// newline or escape while no escape is pending: in the middle of the line
/// the whole line is cleared and redrawn with the input character inserted,
/// and the cursor is moved back; at either end the character is echoed
/// alone.
pub open spec fn pre_echo(line: Seq<char>, pos: int, c: char) -> Seq<char> {
    let len = line.len() as int;
    if 0 < pos < len {
        move_left_codes(len) + blank_chars(len) + move_left_codes(len)
            + line.insert(len - pos, c) + move_left_codes(pos)
    } else {
        seq![c]
    }
}

/// The transition table of the line editor, one input character at a time.
///
/// With an escape pending, `<` and `>` move the insertion point (when room
/// remains) and redraw; anything else is consumed silently. Otherwise a
/// newline completes the line; a backspace removes the character before the
/// insertion point (when one exists) and redraws; an escape byte sets the
/// pending flag and is consumed silently, echoing nothing; and any other
/// character is inserted at the insertion point.
pub open spec fn editor_step(line: Seq<char>, pos: int, esc: bool, c: char) -> EditorStep {
    let len = line.len() as int;
    if esc {
        if c == '<' && pos < len {
            EditorStep {
                line,
                pos: pos + 1,
                esc: false,
                echo: seq!['\x1b', '<'] + move_left_codes(len) + line + move_left_codes(pos + 1),
                done: false,
            }
        } else if c == '>' && pos > 0 {
            EditorStep {
                line,
                pos: pos - 1,
                esc: false,
                echo: seq!['\x1b', '>'] + move_left_codes(len) + line + move_left_codes(pos - 1),
                done: false,
            }
        } else {
            EditorStep { line, pos, esc: false, echo: Seq::<char>::empty(), done: false }
        }
    } else if c == '\n' {
        EditorStep {
            line,
            pos,
            esc: false,
            echo: move_left_codes(len) + line + seq!['\n', '\x1b', 'i'],
            done: true,
        }
    } else if c == '\u{8}' {
        if pos < len {
            let shorter = line.remove(len - pos - 1);
            EditorStep {
                line: shorter,
                pos,
                esc: false,
                echo: pre_echo(line, pos, c) + move_left_codes(len) + blank_chars(len - 1)
                    + move_left_codes(len) + shorter + move_left_codes(pos),
                done: false,
            }
        } else {
            EditorStep { line, pos, esc: false, echo: pre_echo(line, pos, c), done: false }
        }
    } else if c == '\x1b' {
        EditorStep { line, pos, esc: true, echo: Seq::<char>::empty(), done: false }
    } else {
        EditorStep {
            line: line.insert(len - pos, c),
            pos,
            esc: false,
            echo: pre_echo(line, pos, c),
            done: false,
        }
    }
}

/// What the editor hands back for one input character: the characters to
/// echo, and whether the line is complete.
pub struct EditorResponse {
    /// The characters to write to the console.
    pub echo: Vec<char>,
    /// True when a newline completed the line.
    pub done: bool,
}

/// The line editor's state: the line buffer, the insertion point counted
/// from the end of the buffer, and whether an escape byte is pending.
pub struct LineEditor {
    line: Vec<char>,
    pos: usize,
    esc: bool,
}

impl LineEditor {
    /// The line buffer.
    pub closed spec fn line_view(&self) -> Seq<char> {
        self.line@
    }

    /// The insertion point, as its distance from the end of the buffer.
    pub closed spec fn pos_spec(&self) -> int {
        self.pos as int
    }

    /// Whether an escape byte is pending.
    pub closed spec fn esc_spec(&self) -> bool {
        self.esc
    }

    /// The editor's invariant: the insertion point stays inside the buffer.
    pub open spec fn wf(&self) -> bool {
        0 <= self.pos_spec() <= self.line_view().len()
    }

    /// A fresh editor: empty buffer, insertion point at the end, no escape
    /// pending.
    pub fn new() -> (r: Self)
        ensures
            r.wf(),
            r.line_view() == Seq::<char>::empty(),
            r.pos_spec() == 0,
            !r.esc_spec(),
    {
        LineEditor { line: Vec::new(), pos: 0, esc: false }
    }

    /// The insert-mode toggle the editor writes to the console when a read
    /// begins, marking the protected prefix; the matching exit toggle is
    /// part of the newline echo.
    pub fn start_echo() -> (r: Vec<char>)
        ensures
            r@ == seq!['\x1b', 'i'],
    {
        let mut out: Vec<char> = Vec::new();
        out.push('\x1b');
        out.push('i');
        proof {
            assert(out@ =~= seq!['\x1b', 'i']);
        }
        out
    }

    /// The insertion point's distance from the end of the buffer.
    pub fn pos(&self) -> (r: usize)
        ensures
            r as int == self.pos_spec(),
    {
        self.pos
    }

    /// The number of characters in the buffer.
    pub fn len(&self) -> (r: usize)
        ensures
            r as int == self.line_view().len(),
    {
        self.line.len()
    }

    /// The completed line as a string.
    pub fn line_string(&self) -> (r: String)
        ensures
            r@ == self.line_view(),
    {
        let mut out = String::new();
        let mut i: usize = 0;
        while i < self.line.len()
            invariant
                i <= self.line@.len(),
                out@ == self.line@.subrange(0, i as int),
            decreases self.line@.len() - i,
        {
            string_push_char(&mut out, self.line[i]);
            proof {
                assert(self.line@.subrange(0, i as int + 1)
                    =~= self.line@.subrange(0, i as int).push(self.line@[i as int]));
            }
            i += 1;
        }
        proof {
            assert(self.line@.subrange(0, self.line@.len() as int) =~= self.line@);
        }
        out
    }

    /// Feeds one character through the transition table, returning the echo
    /// and whether the line is complete.
    pub fn handle_char(&mut self, c: char) -> (r: EditorResponse)
        requires
            old(self).wf(),
        ensures
            final(self).wf(),
            ({
                let st = editor_step(
                    old(self).line_view(),
                    old(self).pos_spec(),
                    old(self).esc_spec(),
                    c,
                );
                final(self).line_view() == st.line && final(self).pos_spec() == st.pos
                    && final(self).esc_spec() == st.esc && r.echo@ == st.echo && r.done == st.done
            }),
    {
        let mut echo: Vec<char> = Vec::new();
        let len = self.line.len();
        if self.esc {
            self.esc = false;
            if c == '<' && self.pos < len {
                self.pos += 1;
                echo.push('\x1b');
                echo.push('<');
                push_move_left(&mut echo, len);
                push_line(&mut echo, &self.line);
                push_move_left(&mut echo, self.pos);
            } else if c == '>' && self.pos > 0 {
                self.pos -= 1;
                echo.push('\x1b');
                echo.push('>');
                push_move_left(&mut echo, len);
                push_line(&mut echo, &self.line);
                push_move_left(&mut echo, self.pos);
            }
            proof {
                let st = editor_step(old(self).line_view(), old(self).pos_spec(), true, c);
                assert(echo@ =~= st.echo);
            }
            EditorResponse { echo, done: false }
        } else if c == '\n' {
            push_move_left(&mut echo, len);
            push_line(&mut echo, &self.line);
            echo.push('\n');
            echo.push('\x1b');
            echo.push('i');
            proof {
                let st = editor_step(old(self).line_view(), old(self).pos_spec(), false, c);
                assert(echo@ =~= st.echo);
            }
            EditorResponse { echo, done: true }
        } else if c == '\x1b' {
            self.esc = true;
            EditorResponse { echo, done: false }
        } else {
            if self.pos > 0 && self.pos < len {
                push_move_left(&mut echo, len);
                push_blanks(&mut echo, len);
                push_move_left(&mut echo, len);
                let mut temp = clone_chars(&self.line);
                temp.insert(len - self.pos, c);
                push_line(&mut echo, &temp);
                push_move_left(&mut echo, self.pos);
            } else {
                echo.push(c);
            }
            proof {
                assert(echo@ =~= pre_echo(old(self).line_view(), old(self).pos_spec(), c));
            }
            if c == '\u{8}' {
                if self.pos < len {
                    self.line.remove(len - self.pos - 1);
                    push_move_left(&mut echo, len);
                    push_blanks(&mut echo, len - 1);
                    push_move_left(&mut echo, len);
                    push_line(&mut echo, &self.line);
                    push_move_left(&mut echo, self.pos);
                }
                proof {
                    let st = editor_step(old(self).line_view(), old(self).pos_spec(), false, c);
                    assert(echo@ =~= st.echo);
                }
                EditorResponse { echo, done: false }
            } else {
                self.line.insert(len - self.pos, c);
                EditorResponse { echo, done: false }
            }
        }
    }
}

/// Appends `n` "move cursor left" control codes to the echo being built.
fn push_move_left(out: &mut Vec<char>, n: usize)
    ensures
        final(out)@ == old(out)@ + move_left_codes(n as int),
{
    let mut i: usize = 0;
    proof {
        assert(old(out)@ + move_left_codes(0) =~= old(out)@);
    }
    while i < n
        invariant
            i <= n,
            out@ == old(out)@ + move_left_codes(i as int),
        decreases n - i,
    {
        out.push('\x1b');
        out.push('<');
        proof {
            lemma_repeat_seq_snoc(seq!['\x1b', '<'], i as int);
            assert(out@ =~= old(out)@ + (move_left_codes(i as int) + seq!['\x1b', '<']));
        }
        i += 1;
    }
}

/// Appends `n` blanks to the echo being built.
fn push_blanks(out: &mut Vec<char>, n: usize)
    ensures
        final(out)@ == old(out)@ + blank_chars(n as int),
{
    let mut i: usize = 0;
    proof {
        assert(old(out)@ + blank_chars(0) =~= old(out)@);
    }
    while i < n
        invariant
            i <= n,
            out@ == old(out)@ + blank_chars(i as int),
        decreases n - i,
    {
        out.push(' ');
        proof {
            lemma_repeat_seq_snoc(seq![' '], i as int);
            assert(out@ =~= old(out)@ + (blank_chars(i as int) + seq![' ']));
        }
        i += 1;
    }
}

/// Appends the whole line buffer to the echo being built.
fn push_line(out: &mut Vec<char>, line: &Vec<char>)
    ensures
        final(out)@ == old(out)@ + line@,
{
    let mut i: usize = 0;
    proof {
        assert(old(out)@ + line@.subrange(0, 0) =~= old(out)@);
    }
    while i < line.len()
        invariant
            i <= line@.len(),
            out@ == old(out)@ + line@.subrange(0, i as int),
        decreases line@.len() - i,
    {
        out.push(line[i]);
        proof {
            assert(line@.subrange(0, i as int + 1)
                =~= line@.subrange(0, i as int).push(line@[i as int]));
            assert(out@ =~= old(out)@ + line@.subrange(0, i as int + 1));
        }
        i += 1;
    }
    proof {
        assert(line@.subrange(0, line@.len() as int) =~= line@);
    }
}

/// A copy of the line buffer, used to draw the line with a character
/// inserted before the buffer itself is changed.
fn clone_chars(line: &Vec<char>) -> (r: Vec<char>)
    ensures
        r@ == line@,
{
    let mut out: Vec<char> = Vec::new();
    let mut i: usize = 0;
    proof {
        assert(line@.subrange(0, 0) =~= out@);
    }
    while i < line.len()
        invariant
            i <= line@.len(),
            out@ == line@.subrange(0, i as int),
        decreases line@.len() - i,
    {
        out.push(line[i]);
        proof {
            assert(line@.subrange(0, i as int + 1)
                =~= line@.subrange(0, i as int).push(line@[i as int]));
        }
        i += 1;
    }
    proof {
        assert(line@.subrange(0, line@.len() as int) =~= line@);
    }
    out
}

/// Round trip: inserting a character and then pressing backspace restores
/// both the line and the insertion point, at every well-formed state and
/// for every insertable character (one that is not a newline, an escape, or
/// itself a backspace).
pub proof fn lemma_insert_then_delete(line: Seq<char>, pos: int, c: char)
    requires
        0 <= pos <= line.len(),
        c != '\n',
        c != '\x1b',
        c != '\u{8}',
    ensures
        ({
            let inserted = editor_step(line, pos, false, c);
            let deleted = editor_step(inserted.line, inserted.pos, inserted.esc, '\u{8}');
            deleted.line == line && deleted.pos == pos && !deleted.esc
        }),
{
    let inserted = editor_step(line, pos, false, c);
    let len = line.len() as int;
    assert(inserted.line == line.insert(len - pos, c));
    assert(inserted.line.len() == len + 1);
    let deleted = editor_step(inserted.line, pos, false, '\u{8}');
    assert(deleted.line == inserted.line.remove(len - pos));
    assert(line.insert(len - pos, c).remove(len - pos) =~= line);
}

} // verus!
