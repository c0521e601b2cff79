use vstd::prelude::*;

use crate::lexer::{
    chars_of, handle_input, is_space_spec, lex_init, lex_run, push_char, tokenize, words, QuoteState,
};
use crate::redirect::{
    command_text, get_redirection, operators, scan, targets_of, Mode, StdErr, StdOut, Stream,
};

verus! {

/// Whether `a` and `b` hold the same characters.
pub fn text_is(a: &str, b: &str) -> (r: bool)
    ensures
        r == (a@ == b@),
{
    let x = chars_of(a);
    let y = chars_of(b);
    if x.len() != y.len() {
        return false;
    }
    let mut i: usize = 0;
    while i < x.len()
        invariant
            x@ == a@,
            y@ == b@,
            x@.len() == y@.len(),
            i <= x@.len(),
            forall|j: int| 0 <= j < i ==> x@[j] == y@[j],
        decreases x@.len() - i,
    {
        if x[i] != y[i] {
            return false;
        }
        i = i + 1;
    }
    assert(x@ =~= y@);
    true
}

/// The names of the builtin commands.
pub open spec fn is_builtin_spec(w: Seq<char>) -> bool {
    w == "echo"@ || w == "type"@ || w == "exit"@ || w == "pwd"@ || w == "cd"@
}

/// Whether `w` names a builtin command.
pub fn is_builtin(w: &str) -> (r: bool)
    ensures
        r == is_builtin_spec(w@),
{
    text_is(w, "echo") || text_is(w, "type") || text_is(w, "exit") || text_is(w, "pwd")
        || text_is(w, "cd")
}

/// The arguments and output streams of a command.
#[derive(Debug)]
pub struct Args {
    pub args: Vec<String>,
    pub out: StdOut,
    pub err: StdErr,
}

impl Default for Args {
    fn default() -> (r: Args)
        ensures
            r.args@.len() == 0,
            r.out@.len() == 0,
            r.err@.len() == 0,
    {
        Args { args: Vec::new(), out: StdOut::default(), err: StdErr::default() }
    }
}

impl Args {
    /// Appends `args` to the arguments.
    pub fn with_args(self, args: Vec<String>) -> (r: Args)
        ensures
            r.args@ == self.args@ + args@,
            r.out == self.out,
            r.err == self.err,
    {
        let mut me = self;
        let mut more = args;
        me.args.append(&mut more);
        me
    }

    /// Replaces where standard output goes.
    pub fn with_stdout(self, out: StdOut) -> (r: Args)
        ensures
            r.args == self.args,
            r.out == out,
            r.err == self.err,
    {
        Args { args: self.args, out, err: self.err }
    }

    /// Replaces where standard error goes.
    pub fn with_stderr(self, err: StdErr) -> (r: Args)
        ensures
            r.args == self.args,
            r.out == self.out,
            r.err == err,
    {
        Args { args: self.args, out: self.out, err }
    }
}

/// One parsed command line.
#[derive(Debug)]
pub enum Command {
    Echo(Args),
    /// An empty line.
    NoCommand,
    /// A name, with its path on the search path or `None` for a builtin.
    Type(String, Option<String>),
    /// The resolved path of a program, and its arguments.
    External(String, Args),
    Pwd,
    Cd(String),
    /// A request to leave the shell, with its code text.
    Exit(String),
}

/// The dispatch errors, reported to the user; the shell goes on after them.
#[derive(Debug)]
pub enum ShellError {
    /// The first word is neither a builtin nor found on the search path.
    NotImplemented(String),
    /// `type` was asked about a name that is neither.
    UnknownType(String),
}

/// What dispatching a line yields, over plain values.
pub enum Outcome {
    Echo(Seq<Seq<char>>, Seq<(Seq<char>, Mode)>, Seq<(Seq<char>, Mode)>),
    NoCommand,
    Type(Seq<char>, Option<Seq<char>>),
    External(Seq<char>, Seq<Seq<char>>, Seq<(Seq<char>, Mode)>, Seq<(Seq<char>, Mode)>),
    Pwd,
    Cd(Seq<char>),
    Exit(Seq<char>),
    NotFound(Seq<char>),
    UnknownType(Seq<char>),
}

/// An optional string as an optional character sequence.
pub open spec fn opt_view(o: Option<String>) -> Option<Seq<char>> {
    match o {
        Some(s) => Some(s@),
        None => None,
    }
}

/// The outcome of dispatching, over plain values.
pub open spec fn outcome(r: Result<Command, ShellError>) -> Outcome {
    match r {
        Ok(Command::Echo(a)) => Outcome::Echo(words(a.args@), a.out@, a.err@),
        Ok(Command::NoCommand) => Outcome::NoCommand,
        Ok(Command::Type(n, p)) => Outcome::Type(n@, opt_view(p)),
        Ok(Command::External(p, a)) => Outcome::External(p@, words(a.args@), a.out@, a.err@),
        Ok(Command::Pwd) => Outcome::Pwd,
        Ok(Command::Cd(p)) => Outcome::Cd(p@),
        Ok(Command::Exit(c)) => Outcome::Exit(c@),
        Err(ShellError::NotImplemented(n)) => Outcome::NotFound(n@),
        Err(ShellError::UnknownType(n)) => Outcome::UnknownType(n@),
    }
}

/// The name that dispatching `tokens` looks up on the search path, if any.
pub open spec fn lookup_spec(tokens: Seq<Seq<char>>) -> Option<Seq<char>> {
    if tokens.len() == 0 {
        None
    } else if tokens[0] == "type"@ {
        if tokens.len() >= 2 && !is_builtin_spec(tokens[1]) {
            Some(tokens[1])
        } else {
            None
        }
    } else if is_builtin_spec(tokens[0]) {
        None
    } else {
        Some(tokens[0])
    }
}

/// What a line's words dispatch to, given its redirections and the result
/// `resolved` of looking up `lookup_spec(tokens)` on the search path.
pub open spec fn dispatch_spec(
    tokens: Seq<Seq<char>>,
    out: Seq<(Seq<char>, Mode)>,
    err: Seq<(Seq<char>, Mode)>,
    resolved: Option<Seq<char>>,
) -> Outcome {
    if tokens.len() == 0 {
        Outcome::NoCommand
    } else if tokens[0] == "exit"@ {
        Outcome::Exit(
            if tokens.len() >= 2 {
                tokens[1]
            } else {
                Seq::empty()
            },
        )
    } else if tokens[0] == "type"@ {
        if tokens.len() < 2 {
            Outcome::UnknownType(Seq::empty())
        } else if is_builtin_spec(tokens[1]) {
            Outcome::Type(tokens[1], None)
        } else {
            match resolved {
                Some(p) => Outcome::Type(tokens[1], Some(p)),
                None => Outcome::UnknownType(tokens[1]),
            }
        }
    } else if tokens[0] == "echo"@ {
        Outcome::Echo(tokens.skip(1), out, err)
    } else if tokens[0] == "pwd"@ {
        Outcome::Pwd
    } else if tokens[0] == "cd"@ {
        Outcome::Cd(
            if tokens.len() >= 2 {
                tokens[1]
            } else {
                "~"@
            },
        )
    } else {
        match resolved {
            Some(p) => Outcome::External(p, tokens.skip(1), out, err),
            None => Outcome::NotFound(tokens[0]),
        }
    }
}

/// The name that `from_tokens` needs looked up on the search path: the
/// argument of `type` when it is no builtin, or a first word that is none.
pub fn lookup_name(tokens: &Vec<String>) -> (r: Option<String>)
    ensures
        opt_view(r) == lookup_spec(words(tokens@)),
{
    if tokens.len() == 0 {
        None
    } else if text_is(tokens[0].as_str(), "type") {
        if tokens.len() >= 2 && !is_builtin(tokens[1].as_str()) {
            Some(tokens[1].clone())
        } else {
            None
        }
    } else if is_builtin(tokens[0].as_str()) {
        None
    } else {
        Some(tokens[0].clone())
    }
}

/// The words after the first.
fn tail_of(tokens: &Vec<String>) -> (r: Vec<String>)
    requires
        tokens@.len() >= 1,
    ensures
        words(r@) == words(tokens@).skip(1),
{
    let mut r: Vec<String> = Vec::new();
    let mut i: usize = 1;
    while i < tokens.len()
        invariant
            1 <= i <= tokens@.len(),
            words(r@) == words(tokens@).subrange(1, i as int),
        decreases tokens@.len() - i,
    {
        let t = tokens[i].clone();
        let ghost prev = r@;
        r.push(t);
        assert(r@ == prev.push(tokens@[i as int]));
        assert(words(r@) =~= words(prev).push(tokens@[i as int]@));
        assert(words(tokens@)[i as int] == tokens@[i as int]@);
        assert(words(r@) =~= words(tokens@).subrange(1, i + 1));
        i = i + 1;
    }
    assert(words(tokens@).subrange(1, i as int) =~= words(tokens@).skip(1));
    r
}

impl Command {
    /// Dispatches a line's words. `resolved` is where the name that
    /// `lookup_name` gives was found on the search path (`None` where it
    /// was not, or where there is no such name).
    pub fn from_tokens(
        tokens: Vec<String>,
        out: StdOut,
        err: StdErr,
        resolved: Option<String>,
    ) -> (r: Result<Command, ShellError>)
        ensures
            outcome(r) == dispatch_spec(words(tokens@), out@, err@, opt_view(resolved)),
    {
        let ghost ws = words(tokens@);
        if tokens.len() == 0 {
            return Ok(Command::NoCommand);
        }
        assert(ws[0] == tokens@[0]@);
        let first = tokens[0].as_str();
        if text_is(first, "exit") {
            if tokens.len() >= 2 {
                assert(ws[1] == tokens@[1]@);
                Ok(Command::Exit(tokens[1].clone()))
            } else {
                Ok(Command::Exit(String::new()))
            }
        } else if text_is(first, "type") {
            if tokens.len() < 2 {
                Err(ShellError::UnknownType(String::new()))
            } else {
                assert(ws[1] == tokens@[1]@);
                let name = tokens[1].clone();
                if is_builtin(name.as_str()) {
                    Ok(Command::Type(name, None))
                } else {
                    match resolved {
                        Some(p) => Ok(Command::Type(name, Some(p))),
                        None => Err(ShellError::UnknownType(name)),
                    }
                }
            }
        } else if text_is(first, "echo") {
            let args = Args::default().with_args(tail_of(&tokens)).with_stdout(out).with_stderr(
                err,
            );
            assert(words(args.args@) =~= ws.skip(1));
            Ok(Command::Echo(args))
        } else if text_is(first, "pwd") {
            Ok(Command::Pwd)
        } else if text_is(first, "cd") {
            if tokens.len() >= 2 {
                assert(ws[1] == tokens@[1]@);
                Ok(Command::Cd(tokens[1].clone()))
            } else {
                Ok(Command::Cd("~".to_owned()))
            }
        } else {
            match resolved {
                Some(p) => {
                    let args = Args::default().with_args(tail_of(&tokens)).with_stdout(
                        out,
                    ).with_stderr(err);
                    assert(words(args.args@) =~= ws.skip(1));
                    Ok(Command::External(p, args))
                },
                None => Err(ShellError::NotImplemented(tokens[0].clone())),
            }
        }
    }
}

/// Words joined by single spaces.
pub open spec fn joined(ws: Seq<Seq<char>>) -> Seq<char>
    decreases ws.len(),
{
    if ws.len() == 0 {
        Seq::empty()
    } else if ws.len() == 1 {
        ws[0]
    } else {
        joined(ws.drop_last()) + seq![' '] + ws.last()
    }
}

/// What `echo` prints: its arguments joined by single spaces, and a newline.
pub fn echo_text(args: &Vec<String>) -> (r: String)
    ensures
        r@ == joined(words(args@)).push('\n'),
{
    let mut r = String::new();
    let mut i: usize = 0;
    while i < args.len()
        invariant
            i <= args@.len(),
            r@ == joined(words(args@).take(i as int)),
        decreases args@.len() - i,
    {
        if i > 0 {
            push_char(&mut r, ' ');
        }
        r.append(args[i].as_str());
        proof {
            let ws = words(args@).take(i + 1);
            assert(ws.drop_last() =~= words(args@).take(i as int));
            assert(ws.last() == args@[i as int]@);
            if i == 0 {
                assert(r@ =~= ws[0]);
            } else {
                assert(r@ =~= joined(ws.drop_last()) + seq![' '] + ws.last());
            }
        }
        i = i + 1;
    }
    assert(words(args@).take(i as int) =~= words(args@));
    push_char(&mut r, '\n');
    r
}

/// Whether the code text of `exit` ends the shell successfully: only `0` does.
pub fn exit_succeeds(code: &str) -> (r: bool)
    ensures
        r == (code@ == "0"@),
{
    text_is(code, "0")
}

/// What `type` prints about `name`: that it is a builtin, where `path` is
/// `None`, or where it was found.
pub fn type_report(name: &str, path: &Option<String>) -> (r: String)
    ensures
        r@ == match path {
            None => name@ + " is a shell builtin"@,
            Some(p) => name@ + " is "@ + p@,
        },
{
    let mut r = name.to_owned();
    match path {
        None => {
            r.append(" is a shell builtin");
        },
        Some(p) => {
            r.append(" is ");
            r.append(p.as_str());
        },
    }
    r
}

impl ShellError {
    /// The line reported to the user.
    pub fn message(&self) -> (r: String)
        ensures
            r@ == match self {
                ShellError::NotImplemented(n) => n@ + ": command not found"@,
                ShellError::UnknownType(n) => n@ + ": not found"@,
            },
    {
        match self {
            ShellError::NotImplemented(n) => {
                let mut r = n.clone();
                r.append(": command not found");
                r
            },
            ShellError::UnknownType(n) => {
                let mut r = n.clone();
                r.append(": not found");
                r
            },
        }
    }
}

impl Command {
    /// How the command names itself in a failure report: `cd: <path>` for
    /// `cd`, empty for the others.
    pub fn display_text(&self) -> (r: String)
        ensures
            r@ == match self {
                Command::Cd(p) => "cd: "@ + p@,
                _ => Seq::empty(),
            },
    {
        match self {
            Command::Cd(p) => {
                let mut r = "cd: ".to_owned();
                r.append(p.as_str());
                r
            },
            _ => String::new(),
        }
    }

    /// The report of a failed file or directory operation.
    pub fn failure_message(&self) -> (r: String)
        ensures
            r@ == match self {
                Command::Cd(p) => "cd: "@ + p@,
                _ => Seq::empty(),
            } + ": No such file or directory"@,
    {
        let mut r = self.display_text();
        r.append(": No such file or directory");
        r
    }
}

/// A first word that is neither a builtin nor found on the search path is
/// looked up, reported as not found, and never becomes a program to run.
pub proof fn lemma_unresolved_not_found(
    tokens: Seq<Seq<char>>,
    out: Seq<(Seq<char>, Mode)>,
    err: Seq<(Seq<char>, Mode)>,
)
    requires
        tokens.len() > 0,
        !is_builtin_spec(tokens[0]),
    ensures
        lookup_spec(tokens) == Some(tokens[0]),
        dispatch_spec(tokens, out, err, None) == Outcome::NotFound(tokens[0]),
{
}

proof fn lemma_blank_scan(s: Seq<char>, i: int)
    requires
        0 <= i <= s.len(),
        forall|j: int| 0 <= j < s.len() ==> is_space_spec(s[j]),
    ensures
        scan(s, i, QuoteState::Unquoted).len() == 0,
    decreases s.len() - i,
{
    if i < s.len() {
        assert(is_space_spec(s[i]));
        lemma_blank_scan(s, i + 1);
    }
}

proof fn lemma_blank_run(s: Seq<char>)
    requires
        forall|j: int| 0 <= j < s.len() ==> is_space_spec(s[j]),
    ensures
        lex_run(lex_init(QuoteState::Unquoted), s) == lex_init(QuoteState::Unquoted),
    decreases s.len(),
{
    if s.len() > 0 {
        lemma_blank_run(s.drop_last());
    }
}

/// A line of whitespace alone holds no redirection and no word, and
/// dispatches to the empty command.
pub proof fn lemma_blank_line(
    s: Seq<char>,
    out: Seq<(Seq<char>, Mode)>,
    err: Seq<(Seq<char>, Mode)>,
    resolved: Option<Seq<char>>,
)
    requires
        forall|j: int| 0 <= j < s.len() ==> is_space_spec(s[j]),
    ensures
        operators(s).len() == 0,
        command_text(s) == s,
        tokenize(s).len() == 0,
        dispatch_spec(tokenize(s), out, err, resolved) == Outcome::NoCommand,
{
    lemma_blank_scan(s, 0);
    lemma_blank_run(s);
}

/// A line taken apart: its words and where its output goes.
pub struct ParsedLine {
    pub tokens: Vec<String>,
    pub out: StdOut,
    pub err: StdErr,
}

/// Takes a line apart: the redirections are scanned first, and the command
/// text before the first operator is split into words.
pub fn parse_line(line: &str, home: &str) -> (r: ParsedLine)
    ensures
        words(r.tokens@) == tokenize(command_text(line@)),
        r.out@ == targets_of(line@, operators(line@), Stream::Stdout, home@),
        r.err@ == targets_of(line@, operators(line@), Stream::Stderr, home@),
{
    let (out, err, text) = get_redirection(line, home);
    let tokens = handle_input(text.as_str());
    ParsedLine { tokens, out, err }
}

} // verus!
