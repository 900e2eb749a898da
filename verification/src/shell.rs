//! The shell's dispatch cycle: a finished line is routed to its handler,
//! and the handler's whole visible behaviour is a response — the text it
//! prints and what the outer loop does next. Three outcomes exist: keep
//! prompting, shut down gracefully after a farewell, or hand the machine to
//! the platform's reset service and never come back. The driving loop only
//! performs the effect; every decision is made, and specified, here.

use vstd::prelude::*;
use vstd::string::StrSliceExecFns;

use crate::dispatch::Command;
use crate::dispatch::dispatch;
use crate::dispatch::dispatch_spec;
use crate::dispatch::trim;
use crate::dispatch::trimmed;
use crate::render::render;
use crate::render::render_spec;

verus! {

/// Number of columns of the rendered fractal grid.
pub const GRID_WIDTH: usize = 60;

/// Number of rows of the rendered fractal grid.
pub const GRID_HEIGHT: usize = 20;

/// Iteration cap of the escape-time computation.
pub const MAX_ITER: u32 = 50;

/// How many blank lines the clear command emits.
pub const CLEAR_LINES: usize = 50;

/// What the outer loop does after a response is printed: prompt for the
/// next line, terminate gracefully, or request a platform reset that never
/// returns.
#[derive(Clone, Copy, Debug, PartialEq, Eq, Structural)]
pub enum Effect {
    Continue,
    Shutdown,
    Reboot,
}

/// The loop effect each handler ends with.
pub open spec fn effect_of(c: Command) -> Effect {
    match c {
        Command::Exit => Effect::Shutdown,
        Command::Restart => Effect::Reboot,
        _ => Effect::Continue,
    }
}

/// The help text, one line per command.
pub open spec fn help_text() -> Seq<char> {
    "Available commands:\r\n  help         - Show this help message\r\n  restart      - Restart the system\r\n  mandelbrot   - Draw Mandelbrot fractal\r\n  calculator   - Simple calculator\r\n  timedatectl  - Show system time and date\r\n  clear        - Clear the screen\r\n  exit/quit    - Exit the OS\r\n"@
}

/// The canned calculator demonstration.
pub open spec fn calculator_text() -> Seq<char> {
    "Simple Calculator (type 'exit' to quit)\r\nEnter expressions like: 5 + 3, 10 - 2, etc.\r\nExample calculations:\r\n2 + 2 = 4\r\n5 * 6 = 30\r\n10 - 3 = 7\r\nCalculator simulation complete.\r\n"@
}

/// The canned date-and-time report.
pub open spec fn time_date_text() -> Seq<char> {
    "Current date and time: [UEFI Runtime Services Needed]\r\nSystem uptime: [Not implemented]\r\nTime and date display simulated.\r\n"@
}

/// The farewell printed on graceful shutdown.
pub open spec fn farewell_text() -> Seq<char> {
    "Goodbye!\r\n"@
}

/// `n` empty lines, the approximation of a screen clear.
pub open spec fn blank_lines(n: int) -> Seq<char>
    decreases n,
{
    if n <= 0 {
        Seq::empty()
    } else {
        blank_lines(n - 1) + seq!['\r', '\n']
    }
}

/// The banner plus the rendered image the fractal handler prints.
pub open spec fn mandelbrot_text() -> Seq<char> {
    "Drawing Mandelbrot fractal...\r\n"@ + render_spec(
        GRID_WIDTH as int,
        GRID_HEIGHT as int,
        MAX_ITER as nat,
    )
}

/// The unknown-command report: the trimmed input quoted in its original
/// case, then the help hint.
pub open spec fn unknown_text(s: Seq<char>) -> Seq<char> {
    "Unknown command: "@ + trim(s) + "\r\n"@ + "Type 'help' for available commands\r\n"@
}

/// Everything the handler of line `s` prints.
pub open spec fn response_text(s: Seq<char>) -> Seq<char> {
    match dispatch_spec(s) {
        Command::Help => help_text(),
        Command::Restart => Seq::empty(),
        Command::Mandelbrot => mandelbrot_text(),
        Command::Calculator => calculator_text(),
        Command::TimeDate => time_date_text(),
        Command::Clear => blank_lines(CLEAR_LINES as int),
        Command::Exit => farewell_text(),
        Command::Empty => Seq::empty(),
        Command::Unknown => unknown_text(s),
    }
}

/// The whole visible outcome of one dispatched line.
pub struct Response {
    pub text: Vec<char>,
    pub effect: Effect,
}

/// Append the characters of `s` to `out`.
fn push_str_chars(out: &mut Vec<char>, s: &str)
    ensures
        final(out)@ == old(out)@ + s@,
{
    let n = s.unicode_len();
    let mut i: usize = 0;
    while i < n
        invariant
            0 <= i <= n,
            n == s@.len(),
            out@ == old(out)@ + s@.subrange(0, i as int),
        decreases n - i,
    {
        out.push(s.get_char(i));
        proof {
            assert(out@ =~= old(out)@ + s@.subrange(0, i + 1));
        }
        i += 1;
    }
    proof {
        assert(old(out)@ + s@.subrange(0, n as int) =~= old(out)@ + s@);
    }
}

/// Dispatch one raw line and produce its full response: the text the
/// handler prints and the effect the outer loop must perform.
pub fn respond(line: &str) -> (r: Response)
    ensures
        r.text@ == response_text(line@),
        r.effect == effect_of(dispatch_spec(line@)),
{
    let cmd = dispatch(line);
    let mut text: Vec<char> = Vec::new();
    let mut effect = Effect::Continue;
    match cmd {
        Command::Help => {
            push_str_chars(
                &mut text,
                "Available commands:\r\n  help         - Show this help message\r\n  restart      - Restart the system\r\n  mandelbrot   - Draw Mandelbrot fractal\r\n  calculator   - Simple calculator\r\n  timedatectl  - Show system time and date\r\n  clear        - Clear the screen\r\n  exit/quit    - Exit the OS\r\n",
            );
        },
        Command::Restart => {
            effect = Effect::Reboot;
        },
        Command::Mandelbrot => {
            push_str_chars(&mut text, "Drawing Mandelbrot fractal...\r\n");
            let mut img = render(GRID_WIDTH, GRID_HEIGHT, MAX_ITER);
            text.append(&mut img);
        },
        Command::Calculator => {
            push_str_chars(
                &mut text,
                "Simple Calculator (type 'exit' to quit)\r\nEnter expressions like: 5 + 3, 10 - 2, etc.\r\nExample calculations:\r\n2 + 2 = 4\r\n5 * 6 = 30\r\n10 - 3 = 7\r\nCalculator simulation complete.\r\n",
            );
        },
        Command::TimeDate => {
            push_str_chars(
                &mut text,
                "Current date and time: [UEFI Runtime Services Needed]\r\nSystem uptime: [Not implemented]\r\nTime and date display simulated.\r\n",
            );
        },
        Command::Clear => {
            let mut i: usize = 0;
            while i < CLEAR_LINES
                invariant
                    0 <= i <= CLEAR_LINES,
                    text@ == blank_lines(i as int),
                decreases CLEAR_LINES - i,
            {
                text.push('\r');
                text.push('\n');
                proof {
                    assert(text@ =~= blank_lines(i + 1));
                }
                i += 1;
            }
        },
        Command::Exit => {
            push_str_chars(&mut text, "Goodbye!\r\n");
            effect = Effect::Shutdown;
        },
        Command::Empty => {},
        Command::Unknown => {
            push_str_chars(&mut text, "Unknown command: ");
            push_str_chars(&mut text, trimmed(line));
            push_str_chars(&mut text, "\r\n");
            push_str_chars(&mut text, "Type 'help' for available commands\r\n");
        },
    }
    Response { text, effect }
}

/// An empty line is a pure no-op: it selects the empty handler, prints
/// nothing, and the loop goes straight back to the prompt.
pub proof fn lemma_empty_line_noop()
    ensures
        dispatch_spec(Seq::<char>::empty()) == Command::Empty,
        response_text(Seq::<char>::empty()) == Seq::<char>::empty(),
        effect_of(Command::Empty) == Effect::Continue,
{
    let e = Seq::<char>::empty();
    assert(crate::dispatch::trim_start(e) == e);
    assert(crate::dispatch::normalize(e).len() == 0);
}

/// The two shutdown spellings are behaviorally identical: both select the
/// same handler, print the same farewell, and terminate the outer loop.
pub proof fn lemma_exit_quit_alike()
    ensures
        dispatch_spec("exit"@) == Command::Exit,
        dispatch_spec("quit"@) == Command::Exit,
        response_text("exit"@) == response_text("quit"@),
        effect_of(dispatch_spec("exit"@)) == Effect::Shutdown,
        effect_of(dispatch_spec("quit"@)) == Effect::Shutdown,
{
    reveal_strlit("exit");
    reveal_strlit("quit");
    reveal_strlit("help");
    reveal_strlit("restart");
    reveal_strlit("mandelbrot");
    reveal_strlit("calculator");
    reveal_strlit("timedatectl");
    reveal_strlit("clear");
    crate::dispatch::lemma_normalize_plain("exit"@);
    crate::dispatch::lemma_normalize_plain("quit"@);
}

/// A reboot request never hands control back to the prompt: whenever a line
/// selects the restart handler, and only then, the effect is a reboot, and
/// a reboot is neither a continue nor a graceful shutdown.
pub proof fn lemma_restart_never_resumes()
    ensures
        dispatch_spec("restart"@) == Command::Restart,
        forall|s: Seq<char>|
            (effect_of(#[trigger] dispatch_spec(s)) == Effect::Reboot <==> dispatch_spec(s)
                == Command::Restart),
        effect_of(Command::Restart) != Effect::Continue,
        effect_of(Command::Restart) != Effect::Shutdown,
{
    reveal_strlit("exit");
    reveal_strlit("quit");
    reveal_strlit("help");
    reveal_strlit("restart");
    reveal_strlit("mandelbrot");
    reveal_strlit("calculator");
    reveal_strlit("timedatectl");
    reveal_strlit("clear");
    crate::dispatch::lemma_normalize_plain("restart"@);
}

/// The banner printed once at startup.
pub fn greeting() -> (s: &'static str)
    ensures
        s@ == "Welcome to our custom OS (Vibe Code Edition)!\r\nType 'help' for available commands\r\n"@,
{
    "Welcome to our custom OS (Vibe Code Edition)!\r\nType 'help' for available commands\r\n"
}

/// The prompt printed before each line is read.
pub fn prompt() -> (s: &'static str)
    ensures
        s@ == "> "@,
{
    "> "
}

} // verus!
