use shell::redirect::{expand_home, get_file_name, get_redirection, Mode, StdErr, StdOut, WriteOp};

fn targets(v: &[(&str, Mode)]) -> Vec<(String, Mode)> {
    v.iter().map(|(p, m)| (p.to_string(), *m)).collect()
}

#[test]
fn stdout_redirection_truncates() {
    let (out, err, text) = get_redirection("echo hello > /tmp/out.txt", "/home/u");
    assert_eq!(text, "echo hello ");
    assert_eq!(out.to, targets(&[("/tmp/out.txt", Mode::Overwrite)]));
    assert!(err.to.is_empty());
}

#[test]
fn all_six_operators() {
    let (out, err, text) = get_redirection("ls a>b 1>c 1>>d >>e 2>f 2>>g", "/h");
    assert_eq!(text, "ls a");
    assert_eq!(
        out.to,
        targets(&[
            ("b", Mode::Overwrite),
            ("c", Mode::Overwrite),
            ("d", Mode::Append),
            ("e", Mode::Append)
        ])
    );
    assert_eq!(err.to, targets(&[("f", Mode::Overwrite), ("g", Mode::Append)]));
}

#[test]
fn quoted_operator_is_text() {
    let (out, err, text) = get_redirection("echo 'a > b' \"c 2> d\"", "/h");
    assert_eq!(text, "echo 'a > b' \"c 2> d\"");
    assert!(out.to.is_empty());
    assert!(err.to.is_empty());
}

#[test]
fn apostrophe_inside_double_quotes_does_not_open_a_quote() {
    let (out, _, text) = get_redirection("echo \"it's\" > f", "/h");
    assert_eq!(text, "echo \"it's\" ");
    assert_eq!(out.to, targets(&[("f", Mode::Overwrite)]));
}

#[test]
fn escaped_operator_is_text() {
    let (out, _, text) = get_redirection(r"echo a\>b", "/h");
    assert_eq!(text, r"echo a\>b");
    assert!(out.to.is_empty());
}

#[test]
fn quoted_file_name_and_home() {
    let (out, err, _) = get_redirection("cat x > 'my file' 2>> ~/log.txt", "/home/u");
    assert_eq!(out.to, targets(&[("my file", Mode::Overwrite)]));
    assert_eq!(err.to, targets(&[("/home/u/log.txt", Mode::Append)]));
}

#[test]
fn missing_file_name_is_empty() {
    let (out, _, text) = get_redirection("echo hi >", "/h");
    assert_eq!(text, "echo hi ");
    assert_eq!(out.to, targets(&[("", Mode::Overwrite)]));
}

#[test]
fn home_expansion() {
    assert_eq!(expand_home("~", "/home/u"), "/home/u");
    assert_eq!(expand_home("~/", "/home/u"), "/home/u");
    assert_eq!(expand_home("~//a/b", "/home/u"), "/home/u/a/b");
    assert_eq!(expand_home("/tmp/~", "/home/u"), "/tmp/~");
    assert_eq!(expand_home("", "/home/u"), "");
}

#[test]
fn file_name_is_first_word() {
    assert_eq!(get_file_name("  \"a b\" c", "/h"), "a b");
    assert_eq!(get_file_name("~/x y", "/h"), "/h/x");
    assert_eq!(get_file_name("   ", "/h"), "");
}

#[test]
fn plan_to_terminal_without_targets() {
    let out = StdOut::default();
    let plan = out.write_plan("hello\n");
    assert_eq!(plan.len(), 1);
    assert!(matches!(&plan[0], WriteOp::Terminal(t) if t == "hello\n"));
}

#[test]
fn plan_last_target_gets_the_text() {
    let err = StdErr { to: targets(&[("a", Mode::Overwrite), ("b", Mode::Append)]) };
    let plan = err.write_plan("oops");
    assert_eq!(plan.len(), 2);
    assert!(matches!(&plan[0], WriteOp::File(p, Mode::Overwrite, t) if p == "a" && t.is_empty()));
    assert!(matches!(&plan[1], WriteOp::File(p, Mode::Append, t) if p == "b" && t == "oops"));
}
