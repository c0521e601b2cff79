use shell::editor::{auto_complete, starts_with, Action, Editor, Key};

fn type_text(e: &mut Editor, s: &str) {
    for c in s.chars() {
        e.handle_key(Key::Char(c));
    }
}

#[test]
fn completion_candidates() {
    assert_eq!(auto_complete("e"), vec!["echo ".to_string(), "exit ".to_string()]);
    assert_eq!(auto_complete("ty"), vec!["type ".to_string()]);
    assert_eq!(auto_complete(""), vec!["echo ", "type ", "exit ", "pwd ", "cd "]);
    assert!(auto_complete("zz").is_empty());
}

#[test]
fn prefix_test() {
    assert!(starts_with("echo ", "ec"));
    assert!(!starts_with("ec", "echo"));
    assert!(starts_with("x", ""));
}

#[test]
fn typing_and_submitting() {
    let mut e = Editor::new();
    assert!(matches!(e.handle_key(Key::Char('l')), Action::Show(t) if t == "l"));
    type_text(&mut e, "s -a");
    assert!(matches!(e.handle_key(Key::Char('\n')), Action::Submit(l) if l == "ls -a"));
    assert!(matches!(e.handle_key(Key::Char('\n')), Action::Submit(l) if l.is_empty()));
}

#[test]
fn backspace_redraws() {
    let mut e = Editor::new();
    assert!(matches!(e.handle_key(Key::Backspace), Action::Nothing));
    type_text(&mut e, "ab");
    assert!(matches!(e.handle_key(Key::Backspace), Action::Show(t) if t == "\r$ a \r$ a"));
    assert!(matches!(e.handle_key(Key::Char('\n')), Action::Submit(l) if l == "a"));
}

#[test]
fn tab_completes_single_match() {
    let mut e = Editor::new();
    type_text(&mut e, "ty");
    assert!(matches!(e.handle_key(Key::Tab), Action::Show(t) if t == "\r$ type  \r$ type "));
    assert!(matches!(e.handle_key(Key::Char('\n')), Action::Submit(l) if l == "type "));
}

#[test]
fn tab_rings_bell_without_match() {
    let mut e = Editor::new();
    assert!(matches!(e.handle_key(Key::Tab), Action::Nothing));
    type_text(&mut e, "zz");
    assert!(matches!(e.handle_key(Key::Tab), Action::Bell));
}

#[test]
fn second_tab_lists_matches() {
    let mut e = Editor::new();
    type_text(&mut e, "e");
    assert!(matches!(e.handle_key(Key::Tab), Action::Nothing));
    assert!(matches!(e.handle_key(Key::Tab), Action::Show(t) if t == "\n\recho \n\rexit \n\r$ e"));
    assert!(matches!(e.handle_key(Key::Char('\n')), Action::Submit(l) if l == "e"));
}
