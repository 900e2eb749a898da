//! The line editor: a small state machine that folds a stream of keystrokes
//! into one finished command line. Printable keys are appended and echoed;
//! backspace removes the last character (a no-op on an empty buffer) and
//! echoes a three-character erase sequence; enter finishes the line and
//! echoes a line terminator; every other key is ignored.

use vstd::prelude::*;

verus! {

/// One discrete input event from the console: a printable character, a
/// control code, or an unclassified event.
#[derive(Clone, Copy, Debug, PartialEq, Eq, Structural)]
pub enum Keystroke {
    Printable(char),
    Control(u16),
    Other,
}

/// Control code for backspace.
pub const BACKSPACE: u16 = 8;

/// Control code for delete; treated as a second physical form of backspace.
pub const DELETE: u16 = 127;

/// Control code for enter (carriage return).
pub const ENTER: u16 = 13;

/// True of the two control codes that both mean "erase one character".
pub open spec fn is_backspace(k: Keystroke) -> bool {
    k == Keystroke::Control(BACKSPACE) || k == Keystroke::Control(DELETE)
}

/// True of the control code that finishes the line.
pub open spec fn is_enter(k: Keystroke) -> bool {
    k == Keystroke::Control(ENTER)
}

/// The buffer contents after one keystroke is applied to `buf`.
pub open spec fn edit_step(buf: Seq<char>, k: Keystroke) -> Seq<char> {
    match k {
        Keystroke::Printable(c) => buf.push(c),
        _ => if is_backspace(k) && buf.len() > 0 {
            buf.drop_last()
        } else {
            buf
        },
    }
}

/// What the editor echoes back to the console for one keystroke applied to
/// `buf`: the character itself, a move-left/blank/move-left erase sequence,
/// a line terminator, or nothing.
pub open spec fn echo_of(buf: Seq<char>, k: Keystroke) -> Seq<char> {
    match k {
        Keystroke::Printable(c) => seq![c],
        _ => if is_backspace(k) && buf.len() > 0 {
            seq!['\u{8}', ' ', '\u{8}']
        } else if is_enter(k) {
            seq!['\r', '\n']
        } else {
            Seq::empty()
        },
    }
}

/// Erasing on an empty buffer is a no-op, not an error: the buffer stays
/// empty and nothing is echoed.
pub proof fn lemma_backspace_on_empty_is_noop(k: Keystroke)
    requires
        is_backspace(k),
    ensures
        edit_step(Seq::<char>::empty(), k) == Seq::<char>::empty(),
        echo_of(Seq::<char>::empty(), k) == Seq::<char>::empty(),
{
}

/// What `handle_key` reports back to the driving loop: the text to echo and
/// whether the line is finished.
pub struct KeyOutcome {
    pub echo: Vec<char>,
    pub done: bool,
}

/// The line editor's whole state: the characters typed so far on the current
/// line, oldest first.
pub struct LineEditor {
    buf: Vec<char>,
}

impl View for LineEditor {
    type V = Seq<char>;

    closed spec fn view(&self) -> Seq<char> {
        self.buf@
    }
}

impl LineEditor {
    /// A fresh editor with an empty buffer.
    pub fn new() -> (ed: LineEditor)
        ensures
            ed@ == Seq::<char>::empty(),
    {
        LineEditor { buf: Vec::new() }
    }

    /// Apply one keystroke: update the buffer as `edit_step` says, report the
    /// echo text as `echo_of` says, and report whether enter finished the
    /// line.
    pub fn handle_key(&mut self, k: Keystroke) -> (out: KeyOutcome)
        ensures
            final(self)@ == edit_step(old(self)@, k),
            out.echo@ == echo_of(old(self)@, k),
            out.done == is_enter(k),
    {
        let mut echo: Vec<char> = Vec::new();
        let mut done = false;
        match k {
            Keystroke::Printable(c) => {
                self.buf.push(c);
                echo.push(c);
            },
            Keystroke::Control(code) => {
                if code == BACKSPACE || code == DELETE {
                    if self.buf.len() > 0 {
                        self.buf.pop();
                        echo.push('\u{8}');
                        echo.push(' ');
                        echo.push('\u{8}');
                    }
                } else if code == ENTER {
                    echo.push('\r');
                    echo.push('\n');
                    done = true;
                }
            },
            Keystroke::Other => {},
        }
        KeyOutcome { echo, done }
    }

    /// Yield the finished line and reset to an empty buffer, ready for the
    /// next input cycle.
    pub fn take_line(&mut self) -> (line: Vec<char>)
        ensures
            line@ == old(self)@,
            final(self)@ == Seq::<char>::empty(),
    {
        let mut line: Vec<char> = Vec::new();
        core::mem::swap(&mut line, &mut self.buf);
        line
    }
}

} // verus!
