use vstd::prelude::*;

use crate::lexer::{chars_of, first_word, longest_sequence, QuoteState};

verus! {

/// How a redirection target file is opened.
#[derive(Clone, Copy, Debug, PartialEq, Eq, Structural)]
pub enum Mode {
    /// `>>`: create if missing, write at the end.
    Append,
    /// `>`: create if missing, truncate.
    Overwrite,
}

/// Which output stream a redirection diverts.
#[derive(Clone, Copy, Debug, PartialEq, Eq, Structural)]
pub enum Stream {
    Stdout,
    Stderr,
}

/// A redirection operator: `>`, `>>`, `1>`, `1>>`, `2>` or `2>>`.
#[derive(Clone, Copy, Debug, PartialEq, Eq, Structural)]
pub struct Operator {
    pub stream: Stream,
    pub mode: Mode,
    /// Its length in characters.
    pub len: usize,
}

/// The operator that starts at position `i` of `s`, if any, longest first.
pub open spec fn op_at(s: Seq<char>, i: int) -> Option<Operator> {
    if s[i] == '>' {
        if i + 1 < s.len() && s[i + 1] == '>' {
            Some(Operator { stream: Stream::Stdout, mode: Mode::Append, len: 2 })
        } else {
            Some(Operator { stream: Stream::Stdout, mode: Mode::Overwrite, len: 1 })
        }
    } else if (s[i] == '1' || s[i] == '2') && i + 1 < s.len() && s[i + 1] == '>' {
        let stream = if s[i] == '1' {
            Stream::Stdout
        } else {
            Stream::Stderr
        };
        if i + 2 < s.len() && s[i + 2] == '>' {
            Some(Operator { stream, mode: Mode::Append, len: 3 })
        } else {
            Some(Operator { stream, mode: Mode::Overwrite, len: 2 })
        }
    } else {
        None
    }
}

/// The quote state after reading `c` in state `q`, as the tokenizer moves.
pub open spec fn next_mode(q: QuoteState, c: char) -> QuoteState {
    match q {
        QuoteState::Unquoted => {
            if c == '\\' {
                QuoteState::Escaped
            } else if c == '\'' {
                QuoteState::InSingleQuote
            } else if c == '"' {
                QuoteState::InDoubleQuote
            } else {
                QuoteState::Unquoted
            }
        },
        QuoteState::Escaped => QuoteState::Unquoted,
        QuoteState::InSingleQuote => {
            if c == '\'' {
                QuoteState::Unquoted
            } else {
                QuoteState::InSingleQuote
            }
        },
        QuoteState::InDoubleQuote => {
            if c == '"' {
                QuoteState::Unquoted
            } else if c == '\\' {
                QuoteState::EscapedInDoubleQuote
            } else {
                QuoteState::InDoubleQuote
            }
        },
        QuoteState::EscapedInDoubleQuote => QuoteState::InDoubleQuote,
    }
}

/// The operators of `s` from position `i` on, reading in state `q`, each
/// with its position. Operators count only outside quotes and escapes.
pub open spec fn scan(s: Seq<char>, i: int, q: QuoteState) -> Seq<(int, Operator)>
    decreases s.len() - i,
{
    if i < 0 || i >= s.len() {
        Seq::empty()
    } else if q == QuoteState::Unquoted && op_at(s, i) is Some {
        let op = op_at(s, i)->0;
        seq![(i, op)] + scan(s, i + op.len, QuoteState::Unquoted)
    } else {
        scan(s, i + 1, next_mode(q, s[i]))
    }
}

/// The operators of a whole line, left to right.
pub open spec fn operators(s: Seq<char>) -> Seq<(int, Operator)> {
    scan(s, 0, QuoteState::Unquoted)
}

/// The command text: the line up to its first operator.
pub open spec fn command_text(s: Seq<char>) -> Seq<char> {
    let ops = operators(s);
    if ops.len() > 0 {
        s.take(ops[0].0)
    } else {
        s
    }
}

/// `s` without its leading slashes.
pub open spec fn drop_slashes(s: Seq<char>) -> Seq<char>
    decreases s.len(),
{
    if s.len() > 0 && s[0] == '/' {
        drop_slashes(s.skip(1))
    } else {
        s
    }
}

/// A path with a leading `~` taken against the home directory `home`.
pub open spec fn expand_home_spec(p: Seq<char>, home: Seq<char>) -> Seq<char> {
    if p.len() > 0 && p[0] == '~' {
        let rest = drop_slashes(p.skip(1));
        if rest.len() == 0 {
            home
        } else {
            home + seq!['/'] + rest
        }
    } else {
        p
    }
}

/// The target named by the text that follows an operator: its first word,
/// empty where there is none, with `~` expanded.
pub open spec fn file_name(rest: Seq<char>, home: Seq<char>) -> Seq<char> {
    match first_word(QuoteState::Unquoted, rest) {
        Some(w) => expand_home_spec(w, home),
        None => Seq::empty(),
    }
}

/// The targets that the operators `ops` of line `s` give to `stream`, in order.
pub open spec fn targets_of(
    s: Seq<char>,
    ops: Seq<(int, Operator)>,
    stream: Stream,
    home: Seq<char>,
) -> Seq<(Seq<char>, Mode)>
    decreases ops.len(),
{
    if ops.len() == 0 {
        Seq::empty()
    } else {
        let before = targets_of(s, ops.drop_last(), stream, home);
        let (pos, op) = ops.last();
        if op.stream == stream {
            before.push((file_name(s.skip(pos + op.len), home), op.mode))
        } else {
            before
        }
    }
}

/// Targets over plain values.
pub open spec fn targets_view(v: Seq<(String, Mode)>) -> Seq<(Seq<char>, Mode)> {
    v.map_values(|t: (String, Mode)| (t.0@, t.1))
}

/// Where standard output goes: the terminal when `to` is empty.
#[derive(Debug)]
pub struct StdOut {
    pub to: Vec<(String, Mode)>,
}

/// Where standard error goes: the terminal when `to` is empty.
#[derive(Debug)]
pub struct StdErr {
    pub to: Vec<(String, Mode)>,
}

impl View for StdOut {
    type V = Seq<(Seq<char>, Mode)>;

    open spec fn view(&self) -> Seq<(Seq<char>, Mode)> {
        targets_view(self.to@)
    }
}

impl View for StdErr {
    type V = Seq<(Seq<char>, Mode)>;

    open spec fn view(&self) -> Seq<(Seq<char>, Mode)> {
        targets_view(self.to@)
    }
}

impl Default for StdOut {
    fn default() -> (r: StdOut)
        ensures
            r@.len() == 0,
    {
        StdOut { to: Vec::new() }
    }
}

impl Default for StdErr {
    fn default() -> (r: StdErr)
        ensures
            r@.len() == 0,
    {
        StdErr { to: Vec::new() }
    }
}

/// The characters `s[from..to]` as a string.
pub fn string_of(s: &Vec<char>, from: usize, to: usize) -> (r: String)
    requires
        from <= to <= s@.len(),
    ensures
        r@ == s@.subrange(from as int, to as int),
{
    let mut r = String::new();
    let mut i = from;
    while i < to
        invariant
            from <= i <= to <= s@.len(),
            r@ == s@.subrange(from as int, i as int),
        decreases to - i,
    {
        crate::lexer::push_char(&mut r, s[i]);
        i = i + 1;
        assert(r@ =~= s@.subrange(from as int, i as int));
    }
    r
}

/// Expands a leading `~` in `p` to the home directory `home`; any slashes
/// right after the `~` are absorbed into the single separator.
pub fn expand_home(p: &str, home: &str) -> (r: String)
    ensures
        r@ == expand_home_spec(p@, home@),
{
    let s = chars_of(p);
    let h = chars_of(home);
    if s.len() > 0 && s[0] == '~' {
        let mut j: usize = 1;
        while j < s.len() && s[j] == '/'
            invariant
                1 <= j <= s@.len(),
                drop_slashes(s@.skip(1)) == drop_slashes(s@.skip(j as int)),
            decreases s@.len() - j,
        {
            assert(s@.skip(j as int).skip(1) =~= s@.skip(j + 1));
            j = j + 1;
        }
        assert(drop_slashes(s@.skip(j as int)) == s@.skip(j as int));
        if j == s.len() {
            string_of(&h, 0, h.len())
        } else {
            let mut r = string_of(&h, 0, h.len());
            crate::lexer::push_char(&mut r, '/');
            let tail = string_of(&s, j, s.len());
            r.append(tail.as_str());
            assert(h@.subrange(0, h@.len() as int) =~= h@);
            assert(s@.subrange(j as int, s@.len() as int) =~= s@.skip(j as int));
            r
        }
    } else {
        let r = string_of(&s, 0, s.len());
        assert(s@.subrange(0, s@.len() as int) =~= s@);
        r
    }
}

/// The name of a redirection target: the first word of `rest`, with `~`
/// expanded; empty where `rest` holds no word.
pub fn get_file_name(rest: &str, home: &str) -> (r: String)
    ensures
        r@ == file_name(rest@, home@),
{
    match longest_sequence(rest, false, false) {
        Some(w) => expand_home(w.as_str(), home),
        None => String::new(),
    }
}

/// The operator at position `i` of `s`, if any.
fn op_here(s: &Vec<char>, i: usize) -> (r: Option<Operator>)
    requires
        i < s@.len(),
    ensures
        r == op_at(s@, i as int),
{
    let n = s.len();
    if s[i] == '>' {
        if i + 1 < n && s[i + 1] == '>' {
            Some(Operator { stream: Stream::Stdout, mode: Mode::Append, len: 2 })
        } else {
            Some(Operator { stream: Stream::Stdout, mode: Mode::Overwrite, len: 1 })
        }
    } else if (s[i] == '1' || s[i] == '2') && i + 1 < n && s[i + 1] == '>' {
        let stream = if s[i] == '1' {
            Stream::Stdout
        } else {
            Stream::Stderr
        };
        if i + 2 < n && s[i + 2] == '>' {
            Some(Operator { stream, mode: Mode::Append, len: 3 })
        } else {
            Some(Operator { stream, mode: Mode::Overwrite, len: 2 })
        }
    } else {
        None
    }
}

/// The quote state after reading `c` in state `q`.
pub fn next_quote_state(q: QuoteState, c: char) -> (r: QuoteState)
    ensures
        r == next_mode(q, c),
{
    match q {
        QuoteState::Unquoted => {
            if c == '\\' {
                QuoteState::Escaped
            } else if c == '\'' {
                QuoteState::InSingleQuote
            } else if c == '"' {
                QuoteState::InDoubleQuote
            } else {
                QuoteState::Unquoted
            }
        },
        QuoteState::Escaped => QuoteState::Unquoted,
        QuoteState::InSingleQuote => {
            if c == '\'' {
                QuoteState::Unquoted
            } else {
                QuoteState::InSingleQuote
            }
        },
        QuoteState::InDoubleQuote => {
            if c == '"' {
                QuoteState::Unquoted
            } else if c == '\\' {
                QuoteState::EscapedInDoubleQuote
            } else {
                QuoteState::InDoubleQuote
            }
        },
        QuoteState::EscapedInDoubleQuote => QuoteState::InDoubleQuote,
    }
}

proof fn lemma_targets_push(
    s: Seq<char>,
    ops: Seq<(int, Operator)>,
    o: (int, Operator),
    stream: Stream,
    home: Seq<char>,
)
    ensures
        targets_of(s, ops.push(o), stream, home) == if o.1.stream == stream {
            targets_of(s, ops, stream, home).push((file_name(s.skip(o.0 + o.1.len), home), o.1.mode))
        } else {
            targets_of(s, ops, stream, home)
        },
{
    assert(ops.push(o).drop_last() =~= ops);
}

/// Splits a line into its command text and its redirections. The command
/// text ends where the first operator outside quotes begins; each operator
/// adds the first word after it, `~` expanded, to the targets of its stream.
pub fn get_redirection(input: &str, home: &str) -> (r: (StdOut, StdErr, String))
    ensures
        r.0@ == targets_of(input@, operators(input@), Stream::Stdout, home@),
        r.1@ == targets_of(input@, operators(input@), Stream::Stderr, home@),
        r.2@ == command_text(input@),
{
    let s = chars_of(input);
    let n = s.len();
    let mut out = StdOut { to: Vec::new() };
    let mut err = StdErr { to: Vec::new() };
    let mut cut: Option<usize> = None;
    let mut q = QuoteState::Unquoted;
    let ghost mut found: Seq<(int, Operator)> = Seq::empty();
    let mut i: usize = 0;
    assert(targets_view(out.to@) =~= Seq::empty());
    assert(targets_view(err.to@) =~= Seq::empty());
    while i < n
        invariant
            n == s@.len(),
            s@ == input@,
            i <= n,
            found + scan(s@, i as int, q) == operators(s@),
            cut is None <==> found.len() == 0,
            cut matches Some(c) ==> found[0].0 == c && c <= n,
            out@ == targets_of(s@, found, Stream::Stdout, home@),
            err@ == targets_of(s@, found, Stream::Stderr, home@),
        decreases n - i,
    {
        let op = if q == QuoteState::Unquoted {
            op_here(&s, i)
        } else {
            None
        };
        match op {
            Some(o) => {
                if cut.is_none() {
                    cut = Some(i);
                }
                let start = i + o.len;
                let rest = input.substring_char(start, n);
                assert(rest@ =~= s@.skip(start as int));
                let name = get_file_name(rest, home);
                proof {
                    lemma_targets_push(s@, found, (i as int, o), Stream::Stdout, home@);
                    lemma_targets_push(s@, found, (i as int, o), Stream::Stderr, home@);
                    assert(found.push((i as int, o)) + scan(s@, start as int, QuoteState::Unquoted)
                        =~= found + scan(s@, i as int, q));
                    found = found.push((i as int, o));
                }
                match o.stream {
                    Stream::Stdout => {
                        out.to.push((name, o.mode));
                        assert(out@ =~= targets_of(s@, found, Stream::Stdout, home@));
                    },
                    Stream::Stderr => {
                        err.to.push((name, o.mode));
                        assert(err@ =~= targets_of(s@, found, Stream::Stderr, home@));
                    },
                }
                i = start;
            },
            None => {
                q = next_quote_state(q, s[i]);
                i = i + 1;
            },
        }
    }
    let text = match cut {
        Some(c) => string_of(&s, 0, c),
        None => string_of(&s, 0, n),
    };
    assert(found =~= operators(s@));
    assert(s@.subrange(0, n as int) =~= s@);
    (out, err, text)
}

/// One write that delivering a stream's text takes.
#[derive(Debug)]
pub enum WriteOp {
    /// Print the text on the terminal.
    Terminal(String),
    /// Open the file at the path in the mode and write the text to it.
    File(String, Mode, String),
}

/// A write over plain values: the target (`None` for the terminal) and the text.
pub open spec fn write_view(w: WriteOp) -> (Option<(Seq<char>, Mode)>, Seq<char>) {
    match w {
        WriteOp::Terminal(t) => (None, t@),
        WriteOp::File(p, m, t) => (Some((p@, m)), t@),
    }
}

/// The writes that deliver `text` to `targets`: the terminal where there is
/// no target; else every target is opened in its mode, and the last one
/// named receives the text.
pub open spec fn plan_spec(targets: Seq<(Seq<char>, Mode)>, text: Seq<char>) -> Seq<
    (Option<(Seq<char>, Mode)>, Seq<char>),
> {
    if targets.len() == 0 {
        seq![(None, text)]
    } else {
        Seq::new(
            targets.len(),
            |i: int|
                (Some(targets[i]), if i == targets.len() - 1 {
                    text
                } else {
                    Seq::empty()
                }),
        )
    }
}

fn plan_writes(to: &Vec<(String, Mode)>, text: &str) -> (r: Vec<WriteOp>)
    ensures
        r@.map_values(|w: WriteOp| write_view(w)) == plan_spec(targets_view(to@), text@),
{
    let mut r: Vec<WriteOp> = Vec::new();
    if to.len() == 0 {
        r.push(WriteOp::Terminal(text.to_owned()));
        assert(r@.map_values(|w: WriteOp| write_view(w)) =~= plan_spec(targets_view(to@), text@));
        return r;
    }
    let ghost goal = plan_spec(targets_view(to@), text@);
    let mut i: usize = 0;
    while i < to.len()
        invariant
            to@.len() > 0,
            i <= to@.len(),
            goal == plan_spec(targets_view(to@), text@),
            r@.map_values(|w: WriteOp| write_view(w)) == goal.take(i as int),
        decreases to@.len() - i,
    {
        let body = if i + 1 == to.len() {
            text.to_owned()
        } else {
            String::new()
        };
        let w = WriteOp::File(to[i].0.clone(), to[i].1, body);
        let ghost prev = r@;
        r.push(w);
        assert(r@.map_values(|w: WriteOp| write_view(w)) =~= prev.map_values(
            |w: WriteOp| write_view(w),
        ).push(write_view(w)));
        assert(targets_view(to@)[i as int] == (to@[i as int].0@, to@[i as int].1));
        assert(r@.map_values(|w: WriteOp| write_view(w)) =~= goal.take(i + 1));
        i = i + 1;
    }
    assert(goal.take(i as int) =~= goal);
    r
}

impl StdOut {
    /// The writes that deliver `text` to standard output.
    pub fn write_plan(&self, text: &str) -> (r: Vec<WriteOp>)
        ensures
            r@.map_values(|w: WriteOp| write_view(w)) == plan_spec(self@, text@),
    {
        plan_writes(&self.to, text)
    }
}

impl StdErr {
    /// The writes that deliver `text` to standard error.
    pub fn write_plan(&self, text: &str) -> (r: Vec<WriteOp>)
        ensures
            r@.map_values(|w: WriteOp| write_view(w)) == plan_spec(self@, text@),
    {
        plan_writes(&self.to, text)
    }
}

} // verus!
