use os_kernel::dispatch::Command;
use os_kernel::dispatch::dispatch;
use os_kernel::dispatch::trimmed;
use os_kernel::shell::Effect;
use os_kernel::shell::greeting;
use os_kernel::shell::prompt;
use os_kernel::shell::respond;

fn text_of(chars: &[char]) -> String {
    chars.iter().collect()
}

#[test]
fn dispatch_is_case_and_whitespace_insensitive() {
    assert_eq!(dispatch(" HELP "), Command::Help);
    assert_eq!(dispatch("help"), Command::Help);
    assert_eq!(dispatch("HeLp"), Command::Help);
    assert_eq!(dispatch("\t restart \t"), Command::Restart);
    assert_eq!(dispatch("  MANDELBROT"), Command::Mandelbrot);
}

#[test]
fn every_command_routes_to_its_handler() {
    assert_eq!(dispatch("help"), Command::Help);
    assert_eq!(dispatch("restart"), Command::Restart);
    assert_eq!(dispatch("mandelbrot"), Command::Mandelbrot);
    assert_eq!(dispatch("calculator"), Command::Calculator);
    assert_eq!(dispatch("timedatectl"), Command::TimeDate);
    assert_eq!(dispatch("clear"), Command::Clear);
    assert_eq!(dispatch("exit"), Command::Exit);
    assert_eq!(dispatch("quit"), Command::Exit);
    assert_eq!(dispatch(""), Command::Empty);
    assert_eq!(dispatch("   "), Command::Empty);
    assert_eq!(dispatch("frobnicate"), Command::Unknown);
}

#[test]
fn trimmed_keeps_inner_text_and_case() {
    assert_eq!(trimmed("  FooBar  "), "FooBar");
    assert_eq!(trimmed("exit"), "exit");
    assert_eq!(trimmed("   "), "");
    assert_eq!(trimmed(""), "");
}

#[test]
fn empty_line_is_a_noop() {
    let r = respond("");
    assert!(r.text.is_empty());
    assert_eq!(r.effect, Effect::Continue);
    let r = respond("   ");
    assert!(r.text.is_empty());
    assert_eq!(r.effect, Effect::Continue);
}

#[test]
fn unknown_command_is_reported_with_original_spelling() {
    let r = respond("frobnicate");
    let text = text_of(&r.text);
    assert!(text.contains("Unknown command: frobnicate"));
    assert_eq!(
        text,
        "Unknown command: frobnicate\r\nType 'help' for available commands\r\n"
    );
    assert_eq!(r.effect, Effect::Continue);
}

#[test]
fn unknown_command_keeps_case_though_matching_ignores_it() {
    let r = respond("  FrobNicate  ");
    let text = text_of(&r.text);
    assert_eq!(
        text,
        "Unknown command: FrobNicate\r\nType 'help' for available commands\r\n"
    );
}

#[test]
fn exit_and_quit_behave_identically() {
    let e = respond("exit");
    let q = respond("quit");
    assert_eq!(text_of(&e.text), "Goodbye!\r\n");
    assert_eq!(e.text, q.text);
    assert_eq!(e.effect, Effect::Shutdown);
    assert_eq!(q.effect, Effect::Shutdown);
}

#[test]
fn restart_requests_a_reboot_and_prints_nothing() {
    let r = respond("restart");
    assert!(r.text.is_empty());
    assert_eq!(r.effect, Effect::Reboot);
    let r = respond("  RESTART  ");
    assert_eq!(r.effect, Effect::Reboot);
}

#[test]
fn clear_emits_fifty_blank_lines() {
    let r = respond("clear");
    assert_eq!(text_of(&r.text), "\r\n".repeat(50));
    assert_eq!(r.effect, Effect::Continue);
}

#[test]
fn help_prints_the_command_list() {
    let r = respond("help");
    let expected = "Available commands:\r\n  help         - Show this help message\r\n  restart      - Restart the system\r\n  mandelbrot   - Draw Mandelbrot fractal\r\n  calculator   - Simple calculator\r\n  timedatectl  - Show system time and date\r\n  clear        - Clear the screen\r\n  exit/quit    - Exit the OS\r\n";
    assert_eq!(text_of(&r.text), expected);
    assert_eq!(r.effect, Effect::Continue);
}

#[test]
fn calculator_prints_the_canned_examples() {
    let r = respond("calculator");
    let expected = "Simple Calculator (type 'exit' to quit)\r\nEnter expressions like: 5 + 3, 10 - 2, etc.\r\nExample calculations:\r\n2 + 2 = 4\r\n5 * 6 = 30\r\n10 - 3 = 7\r\nCalculator simulation complete.\r\n";
    assert_eq!(text_of(&r.text), expected);
    assert_eq!(r.effect, Effect::Continue);
}

#[test]
fn timedatectl_prints_the_canned_report() {
    let r = respond("timedatectl");
    let expected = "Current date and time: [UEFI Runtime Services Needed]\r\nSystem uptime: [Not implemented]\r\nTime and date display simulated.\r\n";
    assert_eq!(text_of(&r.text), expected);
    assert_eq!(r.effect, Effect::Continue);
}

#[test]
fn greeting_and_prompt_texts() {
    assert_eq!(
        greeting(),
        "Welcome to our custom OS (Vibe Code Edition)!\r\nType 'help' for available commands\r\n"
    );
    assert_eq!(prompt(), "> ");
}
