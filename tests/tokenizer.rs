use shell::lexer::{chars_of, handle_input, is_space, longest_sequence};
use shell::quoting::{requote, QuoteStyle};

fn strings(ws: &[&str]) -> Vec<String> {
    ws.iter().map(|w| w.to_string()).collect()
}

#[test]
fn quoted_words_keep_their_spaces_and_escapes() {
    let ts = handle_input(r#"echo 'a b' "c\"d""#);
    assert_eq!(ts, strings(&["echo", "a b", "c\"d"]));
    assert_eq!(ts[1..].len(), 2);
}

#[test]
fn escaped_space_is_literal() {
    assert_eq!(handle_input(r"echo a\ b"), strings(&["echo", "a b"]));
}

#[test]
fn blank_line_has_no_words() {
    assert!(handle_input("").is_empty());
    assert!(handle_input("   \t  ").is_empty());
}

#[test]
fn whitespace_runs_collapse() {
    assert_eq!(handle_input("  echo   a\t\tb  "), strings(&["echo", "a", "b"]));
}

#[test]
fn single_quotes_keep_backslashes() {
    assert_eq!(handle_input(r"echo 'a\nb\'"), strings(&["echo", r"a\nb\"]));
}

#[test]
fn double_quotes_escape_only_four_characters() {
    assert_eq!(handle_input(r#""a\\b\$c\xd""#), strings(&[r"a\b$c\xd"]));
}

#[test]
fn adjacent_quoted_parts_join() {
    assert_eq!(handle_input(r#"ab'c d'"e f"g"#), strings(&["abc de fg"]));
}

#[test]
fn empty_quotes_make_an_empty_word() {
    assert_eq!(handle_input("echo '' x"), strings(&["echo", "", "x"]));
}

#[test]
fn unterminated_quote_closes_at_end() {
    assert_eq!(handle_input("echo 'a b"), strings(&["echo", "a b"]));
    assert_eq!(handle_input("echo \"a \\\" b"), strings(&["echo", "a \" b"]));
}

#[test]
fn trailing_backslash_stays() {
    assert_eq!(handle_input(r"a\"), strings(&[r"a\"]));
}

#[test]
fn unicode_whitespace_separates() {
    assert!(is_space('\u{3000}'));
    assert!(is_space('\u{a0}'));
    assert!(!is_space('x'));
    assert_eq!(handle_input("a\u{2003}b"), strings(&["a", "b"]));
}

#[test]
fn first_word_in_each_quote_state() {
    assert_eq!(longest_sequence("  ab cd", false, false), Some("ab".to_string()));
    assert_eq!(longest_sequence("a b' c", true, false), Some("a b".to_string()));
    assert_eq!(longest_sequence("a b'c d", true, false), Some("a bc".to_string()));
    assert_eq!(longest_sequence("x y\" z", false, true), Some("x y".to_string()));
    assert_eq!(longest_sequence("   ", false, false), None);
    assert_eq!(longest_sequence("", true, false), Some(String::new()));
}

#[test]
fn chars_in_order() {
    assert_eq!(chars_of("aé b"), vec!['a', 'é', ' ', 'b']);
}

#[test]
fn requote_single_round_trip() {
    let ws = strings(&["echo", "a b", "", "x\"y\\z"]);
    let line = requote(&ws, QuoteStyle::Single);
    assert_eq!(line, "'echo' 'a b' '' 'x\"y\\z'");
    assert_eq!(handle_input(&line), ws);
}

#[test]
fn requote_double_round_trip() {
    let ws = strings(&["it's", "a\"b", r"c\d", "$x"]);
    let line = requote(&ws, QuoteStyle::Double);
    assert_eq!(line, r#""it's" "a\"b" "c\\d" "$x""#);
    assert_eq!(handle_input(&line), ws);
}

#[test]
fn requote_nothing() {
    assert_eq!(requote(&Vec::new(), QuoteStyle::Double), "");
    assert!(handle_input("").is_empty());
}
