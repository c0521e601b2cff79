use shell::command::{
    echo_text, exit_succeeds, lookup_name, Args, parse_line, type_report, Command, ShellError,
};
use shell::path::{candidates, first_existing};
use shell::redirect::{Mode, StdErr, StdOut, WriteOp};

fn strings(ws: &[&str]) -> Vec<String> {
    ws.iter().map(|w| w.to_string()).collect()
}

fn dispatch(ws: &[&str], resolved: Option<&str>) -> Result<Command, ShellError> {
    Command::from_tokens(
        strings(ws),
        StdOut::default(),
        StdErr::default(),
        resolved.map(|p| p.to_string()),
    )
}

#[test]
fn blank_line_dispatches_to_nothing() {
    let p = parse_line("   ", "/h");
    assert!(p.tokens.is_empty());
    assert_eq!(lookup_name(&p.tokens), None);
    let c = Command::from_tokens(p.tokens, p.out, p.err, None);
    assert!(matches!(c, Ok(Command::NoCommand)));
}

#[test]
fn type_of_builtin() {
    assert_eq!(lookup_name(&strings(&["type", "echo"])), None);
    let c = dispatch(&["type", "echo"], None);
    assert!(matches!(&c, Ok(Command::Type(n, None)) if n == "echo"));
    assert_eq!(type_report("echo", &None), "echo is a shell builtin");
}

#[test]
fn type_of_unknown_name() {
    assert_eq!(lookup_name(&strings(&["type", "nonexistent_xyz"])), Some("nonexistent_xyz".to_string()));
    let c = dispatch(&["type", "nonexistent_xyz"], None);
    assert!(matches!(&c, Err(ShellError::UnknownType(n)) if n == "nonexistent_xyz"));
    assert_eq!(c.unwrap_err().message(), "nonexistent_xyz: not found");
}

#[test]
fn type_of_program_on_path() {
    let c = dispatch(&["type", "ls"], Some("/bin/ls"));
    assert!(matches!(&c, Ok(Command::Type(n, Some(p))) if n == "ls" && p == "/bin/ls"));
    assert_eq!(type_report("ls", &Some("/bin/ls".to_string())), "ls is /bin/ls");
}

#[test]
fn type_without_name() {
    assert!(matches!(dispatch(&["type"], None), Err(ShellError::UnknownType(n)) if n.is_empty()));
}

#[test]
fn echo_to_file_writes_exactly_the_line() {
    let p = parse_line("echo hello > /tmp/out.txt", "/h");
    assert_eq!(p.tokens, strings(&["echo", "hello"]));
    let c = Command::from_tokens(p.tokens, p.out, p.err, None).unwrap();
    let Command::Echo(args) = c else { panic!("not echo") };
    let text = echo_text(&args.args);
    assert_eq!(text, "hello\n");
    let plan = args.out.write_plan(&text);
    assert_eq!(plan.len(), 1);
    assert!(matches!(&plan[0], WriteOp::File(f, Mode::Overwrite, t) if f == "/tmp/out.txt" && t == "hello\n"));
}

#[test]
fn echo_appending_to_file() {
    let p = parse_line("echo hello >> /tmp/out.txt", "/h");
    assert_eq!(p.out.to, vec![("/tmp/out.txt".to_string(), Mode::Append)]);
}

#[test]
fn echo_joins_with_single_spaces() {
    assert_eq!(echo_text(&strings(&["a b", "c"])), "a b c\n");
    assert_eq!(echo_text(&Vec::new()), "\n");
}

#[test]
fn cd_failure_and_home() {
    let c = dispatch(&["cd", "/no/such/dir"], None).unwrap();
    assert_eq!(c.failure_message(), "cd: /no/such/dir: No such file or directory");
    assert_eq!(c.display_text(), "cd: /no/such/dir");
    assert!(matches!(dispatch(&["cd"], None), Ok(Command::Cd(p)) if p == "~"));
    assert_eq!(Command::Pwd.failure_message(), ": No such file or directory");
}

#[test]
fn exit_codes() {
    assert!(matches!(dispatch(&["exit", "0"], None), Ok(Command::Exit(c)) if c == "0"));
    assert!(exit_succeeds("0"));
    assert!(matches!(dispatch(&["exit", "1"], None), Ok(Command::Exit(c)) if c == "1"));
    assert!(!exit_succeeds("1"));
    assert!(matches!(dispatch(&["exit"], None), Ok(Command::Exit(c)) if c.is_empty()));
    assert!(!exit_succeeds(""));
    assert!(!exit_succeeds("00"));
}

#[test]
fn unresolved_command_is_not_found() {
    assert_eq!(lookup_name(&strings(&["frobnicate", "x"])), Some("frobnicate".to_string()));
    let c = dispatch(&["frobnicate", "x"], None);
    assert!(matches!(&c, Err(ShellError::NotImplemented(n)) if n == "frobnicate"));
    assert_eq!(c.unwrap_err().message(), "frobnicate: command not found");
}

#[test]
fn resolved_command_is_external() {
    let p = parse_line("ls -l 'a b' 2> err.txt", "/h");
    let c = Command::from_tokens(p.tokens, p.out, p.err, Some("/bin/ls".to_string()));
    let Ok(Command::External(path, args)) = c else { panic!("not external") };
    assert_eq!(path, "/bin/ls");
    assert_eq!(args.args, strings(&["-l", "a b"]));
    assert_eq!(args.err.to, vec![("err.txt".to_string(), Mode::Overwrite)]);
}

#[test]
fn pwd_and_builtins_need_no_lookup() {
    for w in ["echo", "pwd", "cd", "exit", "type"] {
        assert_eq!(lookup_name(&strings(&[w])), None);
    }
    assert!(matches!(dispatch(&["pwd", "extra"], None), Ok(Command::Pwd)));
}

#[test]
fn search_path_candidates_in_order() {
    assert_eq!(
        candidates("/usr/bin:/bin::/x", "ls"),
        strings(&["/usr/bin/ls", "/bin/ls", "/ls", "/x/ls"])
    );
    assert_eq!(candidates("", "ls"), strings(&["/ls"]));
}

#[test]
fn earliest_existing_path_wins() {
    let ps = strings(&["/a/ls", "/b/ls", "/c/ls"]);
    assert_eq!(first_existing(&ps, &vec![false, true, true]), Some("/b/ls".to_string()));
    assert_eq!(first_existing(&ps, &vec![false, false, false]), None);
}

#[test]
fn args_builders() {
    let a = Args::default()
        .with_args(strings(&["x"]))
        .with_args(strings(&["y"]))
        .with_stdout(StdOut { to: vec![("o".to_string(), Mode::Append)] })
        .with_stderr(StdErr { to: vec![("e".to_string(), Mode::Overwrite)] });
    assert_eq!(a.args, strings(&["x", "y"]));
    assert_eq!(a.out.to.len(), 1);
    assert_eq!(a.err.to[0].0, "e");
}
