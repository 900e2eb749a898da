use os_kernel::editor::Keystroke;
use os_kernel::editor::LineEditor;

const BACKSPACE: u16 = 8;
const DELETE: u16 = 127;
const ENTER: u16 = 13;

fn text_of(chars: &[char]) -> String {
    chars.iter().collect()
}

#[test]
fn printable_appends_and_echoes() {
    let mut ed = LineEditor::new();
    let out = ed.handle_key(Keystroke::Printable('a'));
    assert_eq!(out.echo, vec!['a']);
    assert!(!out.done);
    let out = ed.handle_key(Keystroke::Printable('b'));
    assert_eq!(out.echo, vec!['b']);
    let line = ed.take_line();
    assert_eq!(text_of(&line), "ab");
}

#[test]
fn backspace_on_empty_is_noop() {
    let mut ed = LineEditor::new();
    let out = ed.handle_key(Keystroke::Control(BACKSPACE));
    assert!(out.echo.is_empty());
    assert!(!out.done);
    let out = ed.handle_key(Keystroke::Control(ENTER));
    assert!(out.done);
    assert_eq!(ed.take_line(), Vec::<char>::new());
}

#[test]
fn backspace_then_type_then_enter_yields_single_char() {
    let mut ed = LineEditor::new();
    ed.handle_key(Keystroke::Control(BACKSPACE));
    ed.handle_key(Keystroke::Printable('a'));
    let out = ed.handle_key(Keystroke::Control(ENTER));
    assert!(out.done);
    assert_eq!(text_of(&ed.take_line()), "a");
}

#[test]
fn backspace_erases_last_char_and_echoes_erase_sequence() {
    let mut ed = LineEditor::new();
    ed.handle_key(Keystroke::Printable('h'));
    ed.handle_key(Keystroke::Printable('i'));
    let out = ed.handle_key(Keystroke::Control(BACKSPACE));
    assert_eq!(out.echo, vec!['\u{8}', ' ', '\u{8}']);
    assert!(!out.done);
    assert_eq!(text_of(&ed.take_line()), "h");
}

#[test]
fn delete_code_also_erases() {
    let mut ed = LineEditor::new();
    ed.handle_key(Keystroke::Printable('x'));
    ed.handle_key(Keystroke::Printable('y'));
    let out = ed.handle_key(Keystroke::Control(DELETE));
    assert_eq!(out.echo, vec!['\u{8}', ' ', '\u{8}']);
    assert_eq!(text_of(&ed.take_line()), "x");
}

#[test]
fn enter_echoes_line_terminator_and_finishes() {
    let mut ed = LineEditor::new();
    ed.handle_key(Keystroke::Printable('q'));
    let out = ed.handle_key(Keystroke::Control(ENTER));
    assert_eq!(out.echo, vec!['\r', '\n']);
    assert!(out.done);
    assert_eq!(text_of(&ed.take_line()), "q");
}

#[test]
fn unrecognized_keys_are_ignored() {
    let mut ed = LineEditor::new();
    ed.handle_key(Keystroke::Printable('z'));
    let out = ed.handle_key(Keystroke::Other);
    assert!(out.echo.is_empty());
    assert!(!out.done);
    let out = ed.handle_key(Keystroke::Control(99));
    assert!(out.echo.is_empty());
    assert!(!out.done);
    assert_eq!(text_of(&ed.take_line()), "z");
}

#[test]
fn take_line_resets_the_buffer() {
    let mut ed = LineEditor::new();
    ed.handle_key(Keystroke::Printable('a'));
    assert_eq!(text_of(&ed.take_line()), "a");
    ed.handle_key(Keystroke::Printable('b'));
    assert_eq!(text_of(&ed.take_line()), "b");
}
