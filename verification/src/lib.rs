//! A verified core for an interactive firmware console shell: a line editor
//! that turns keystrokes into command lines, a dispatcher that normalizes a
//! line and routes it to a handler, an escape-time fractal renderer, and the
//! response texts the handlers emit. All I/O (key reads, text output, the
//! platform reset) lives outside this crate; the logic here is pure and fully
//! specified.

pub mod dispatch;
pub mod editor;
pub mod render;
pub mod shell;

pub use editor::Keystroke;
pub use editor::LineEditor;
