use rquickjs_utils::repl_input::{needs_more_input, InputBuffer, InputStep};

#[test]
fn open_brackets_need_more() {
    assert!(needs_more_input("function f() {"));
    assert!(needs_more_input("[1, 2,"));
    assert!(needs_more_input("f(a, (b"));
    assert!(!needs_more_input("f(a, b)"));
    assert!(!needs_more_input(""));
    assert!(!needs_more_input("x = 1"));
}

#[test]
fn stray_closer_is_complete() {
    assert!(!needs_more_input("} {"));
    assert!(!needs_more_input("a) (b"));
}

#[test]
fn brackets_in_strings_do_not_count() {
    assert!(!needs_more_input("let s = \"{\""));
    assert!(!needs_more_input("let s = '('"));
    assert!(needs_more_input("f(\"}\""));
    assert!(!needs_more_input("let s = \"a\\\"{\""));
    assert!(!needs_more_input("let s = \"unterminated {"));
}

fn complete(step: InputStep) -> (String, bool) {
    match step {
        InputStep::Complete { command, record_history } => (command, record_history),
        InputStep::Continue => panic!("expected a complete command"),
    }
}

#[test]
fn buffer_gathers_lines_until_balanced() {
    let mut b = InputBuffer::new();
    assert_eq!(b.prompt(), ">>> ");
    assert!(matches!(b.push_line("function f() {".to_string()), InputStep::Continue));
    assert_eq!(b.prompt(), "... ");
    assert!(matches!(b.push_line("  return 1;".to_string()), InputStep::Continue));
    let (cmd, record) = complete(b.push_line("}".to_string()));
    assert_eq!(cmd, "function f() {\n  return 1;\n}");
    assert!(record);
    assert_eq!(b.prompt(), ">>> ");
    let (cmd, record) = complete(b.push_line(String::new()));
    assert_eq!(cmd, "");
    assert!(!record);
}

#[test]
fn raw_lines_lose_trailing_whitespace() {
    let mut b = InputBuffer::new();
    let (cmd, _) = complete(b.push_raw_line("1 + 1  \r\n"));
    assert_eq!(cmd, "1 + 1");
}

#[test]
fn raw_lines_lose_unicode_trailing_whitespace() {
    let mut b = InputBuffer::new();
    let (cmd, _) = complete(b.push_raw_line("x\u{3000}\u{2003}\u{a0}\t"));
    assert_eq!(cmd, "x");
    let (cmd, rec) = complete(b.push_raw_line(" \u{85} "));
    assert_eq!(cmd, "");
    assert!(!rec);
    let (cmd, _) = complete(b.push_raw_line("  a b"));
    assert_eq!(cmd, "  a b");
}

#[test]
fn a_session_runs_each_completed_group_once() {
    let lines = ["f(", "1)", "x", "", "g(", "[2"];
    let mut b = InputBuffer::new();
    let mut run = Vec::new();
    for l in lines {
        if let InputStep::Complete { command, .. } = b.push_line(l.to_string()) {
            run.push(command);
        }
    }
    assert_eq!(run, vec!["f(\n1)".to_string(), "x".to_string(), String::new()]);
    assert_eq!(b.prompt(), "... ");
}
