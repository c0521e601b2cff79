use vstd::prelude::*;

verus! {

/// Where the scanner stands with respect to quoting and escaping.
#[derive(Clone, Copy, Debug, PartialEq, Eq, Structural)]
pub enum QuoteState {
    Unquoted,
    /// A backslash outside quotes was just read.
    Escaped,
    InSingleQuote,
    InDoubleQuote,
    /// A backslash inside double quotes was just read.
    EscapedInDoubleQuote,
}

/// The characters that `char::is_whitespace` accepts (Unicode `White_Space`).
pub open spec fn is_space_spec(c: char) -> bool {
    let u = c as u32;
    (0x9 <= u <= 0xd) || u == 0x20 || u == 0x85 || u == 0xa0 || u == 0x1680 || (0x2000 <= u
        <= 0x200a) || u == 0x2028 || u == 0x2029 || u == 0x202f || u == 0x205f || u == 0x3000
}

/// Whether `c` separates words when it stands outside quotes.
pub fn is_space(c: char) -> (r: bool)
    ensures
        r == is_space_spec(c),
{
    let u = c as u32;
    (0x9 <= u && u <= 0xd) || u == 0x20 || u == 0x85 || u == 0xa0 || u == 0x1680 || (0x2000 <= u
        && u <= 0x200a) || u == 0x2028 || u == 0x2029 || u == 0x202f || u == 0x205f || u == 0x3000
}

/// The characters that a backslash escapes inside double quotes.
pub open spec fn escapable_in_double(c: char) -> bool {
    c == '\\' || c == '"' || c == '$' || c == '\n'
}

/// The tokenizer's state after some prefix of a line.
pub struct Lex {
    pub mode: QuoteState,
    /// Whether a word has begun and not yet ended.
    pub started: bool,
    pub cur: Seq<char>,
    pub done: Seq<Seq<char>>,
}

/// The state before the first character, reading from quote state `mode`.
pub open spec fn lex_init(mode: QuoteState) -> Lex {
    Lex { mode, started: mode != QuoteState::Unquoted, cur: Seq::empty(), done: Seq::empty() }
}

/// The effect of reading one character.
pub open spec fn lex_step(st: Lex, c: char) -> Lex {
    match st.mode {
        QuoteState::Unquoted => {
            if is_space_spec(c) {
                if st.started {
                    Lex { started: false, cur: Seq::empty(), done: st.done.push(st.cur), ..st }
                } else {
                    st
                }
            } else if c == '\\' {
                Lex { mode: QuoteState::Escaped, started: true, ..st }
            } else if c == '\'' {
                Lex { mode: QuoteState::InSingleQuote, started: true, ..st }
            } else if c == '"' {
                Lex { mode: QuoteState::InDoubleQuote, started: true, ..st }
            } else {
                Lex { started: true, cur: st.cur.push(c), ..st }
            }
        },
        QuoteState::Escaped => Lex { mode: QuoteState::Unquoted, cur: st.cur.push(c), ..st },
        QuoteState::InSingleQuote => {
            if c == '\'' {
                Lex { mode: QuoteState::Unquoted, ..st }
            } else {
                Lex { cur: st.cur.push(c), ..st }
            }
        },
        QuoteState::InDoubleQuote => {
            if c == '"' {
                Lex { mode: QuoteState::Unquoted, ..st }
            } else if c == '\\' {
                Lex { mode: QuoteState::EscapedInDoubleQuote, ..st }
            } else {
                Lex { cur: st.cur.push(c), ..st }
            }
        },
        QuoteState::EscapedInDoubleQuote => {
            if escapable_in_double(c) {
                Lex { mode: QuoteState::InDoubleQuote, cur: st.cur.push(c), ..st }
            } else {
                Lex { mode: QuoteState::InDoubleQuote, cur: st.cur.push('\\').push(c), ..st }
            }
        },
    }
}

/// The state after reading all of `s` from `st`.
pub open spec fn lex_run(st: Lex, s: Seq<char>) -> Lex
    decreases s.len(),
{
    if s.len() == 0 {
        st
    } else {
        lex_step(lex_run(st, s.drop_last()), s.last())
    }
}

/// End of input: an open quote closes silently, a dangling backslash stays
/// literal, and an open word ends.
pub open spec fn lex_finish(st: Lex) -> Seq<Seq<char>> {
    let cur = if st.mode == QuoteState::Escaped || st.mode == QuoteState::EscapedInDoubleQuote {
        st.cur.push('\\')
    } else {
        st.cur
    };
    if st.started {
        st.done.push(cur)
    } else {
        st.done
    }
}

/// The words of `s` when reading starts in quote state `mode`.
pub open spec fn tokenize_from(mode: QuoteState, s: Seq<char>) -> Seq<Seq<char>> {
    lex_finish(lex_run(lex_init(mode), s))
}

/// The words of a line, after quote removal and escape resolution.
pub open spec fn tokenize(s: Seq<char>) -> Seq<Seq<char>> {
    tokenize_from(QuoteState::Unquoted, s)
}

/// A list of strings as a list of character sequences.
pub open spec fn words(v: Seq<String>) -> Seq<Seq<char>> {
    v.map_values(|t: String| t@)
}

/// Relies on String::push: appends one character.
#[verifier::external_body]
pub(crate) fn push_char(s: &mut String, c: char)
    ensures
        final(s)@ == old(s)@.push(c),
{
    s.push(c)
}

/// The characters of `s`, in order.
pub fn chars_of(s: &str) -> (r: Vec<char>)
    ensures
        r@ == s@,
{
    let n = s.unicode_len();
    let mut r: Vec<char> = Vec::new();
    let mut i: usize = 0;
    while i < n
        invariant
            n == s@.len(),
            i <= n,
            r@ == s@.take(i as int),
        decreases n - i,
    {
        r.push(s.get_char(i));
        i = i + 1;
        assert(r@ =~= s@.take(i as int));
    }
    assert(r@ =~= s@);
    r
}

/// The first word of `s` read from quote state `mode`, if any.
pub open spec fn first_word(mode: QuoteState, s: Seq<char>) -> Option<Seq<char>> {
    let ts = tokenize_from(mode, s);
    if ts.len() > 0 {
        Some(ts[0])
    } else {
        None
    }
}

/// Reading a concatenation reads its parts in turn.
pub proof fn lemma_lex_run_concat(st: Lex, a: Seq<char>, b: Seq<char>)
    ensures
        lex_run(st, a + b) == lex_run(lex_run(st, a), b),
    decreases b.len(),
{
    if b.len() == 0 {
        assert(a + b =~= a);
    } else {
        assert((a + b).drop_last() =~= a + b.drop_last());
        assert((a + b).last() == b.last());
        lemma_lex_run_concat(st, a, b.drop_last());
    }
}

/// Finished words are never taken back.
pub proof fn lemma_lex_run_keeps_done(st: Lex, s: Seq<char>)
    ensures
        lex_run(st, s).done.len() >= st.done.len(),
        forall|j: int| 0 <= j < st.done.len() ==> lex_run(st, s).done[j] == st.done[j],
    decreases s.len(),
{
    if s.len() > 0 {
        lemma_lex_run_keeps_done(st, s.drop_last());
    }
}

/// Running state of the tokenizer.
struct Lexer {
    mode: QuoteState,
    started: bool,
    cur: String,
    done: Vec<String>,
}

impl Lexer {
    spec fn model(&self) -> Lex {
        Lex { mode: self.mode, started: self.started, cur: self.cur@, done: words(self.done@) }
    }

    fn new(mode: QuoteState) -> (r: Lexer)
        ensures
            r.model() == lex_init(mode),
    {
        let r = Lexer {
            mode,
            started: mode != QuoteState::Unquoted,
            cur: String::new(),
            done: Vec::new(),
        };
        assert(words(r.done@) =~= Seq::empty());
        r
    }

    fn end_word(&mut self)
        ensures
            final(self).model() == (Lex {
                started: false,
                cur: Seq::empty(),
                done: old(self).model().done.push(old(self).cur@),
                ..old(self).model()
            }),
    {
        let w = self.cur.clone();
        self.done.push(w);
        self.cur = String::new();
        self.started = false;
        assert(words(self.done@) =~= words(old(self).done@).push(old(self).cur@));
    }

    fn step(&mut self, c: char)
        ensures
            final(self).model() == lex_step(old(self).model(), c),
    {
        match self.mode {
            QuoteState::Unquoted => {
                if is_space(c) {
                    if self.started {
                        self.end_word();
                    }
                } else if c == '\\' {
                    self.mode = QuoteState::Escaped;
                    self.started = true;
                } else if c == '\'' {
                    self.mode = QuoteState::InSingleQuote;
                    self.started = true;
                } else if c == '"' {
                    self.mode = QuoteState::InDoubleQuote;
                    self.started = true;
                } else {
                    push_char(&mut self.cur, c);
                    self.started = true;
                }
            },
            QuoteState::Escaped => {
                push_char(&mut self.cur, c);
                self.mode = QuoteState::Unquoted;
            },
            QuoteState::InSingleQuote => {
                if c == '\'' {
                    self.mode = QuoteState::Unquoted;
                } else {
                    push_char(&mut self.cur, c);
                }
            },
            QuoteState::InDoubleQuote => {
                if c == '"' {
                    self.mode = QuoteState::Unquoted;
                } else if c == '\\' {
                    self.mode = QuoteState::EscapedInDoubleQuote;
                } else {
                    push_char(&mut self.cur, c);
                }
            },
            QuoteState::EscapedInDoubleQuote => {
                if !(c == '\\' || c == '"' || c == '$' || c == '\n') {
                    push_char(&mut self.cur, '\\');
                }
                push_char(&mut self.cur, c);
                self.mode = QuoteState::InDoubleQuote;
            },
        }
    }

    fn finish(self) -> (r: Vec<String>)
        ensures
            words(r@) == lex_finish(self.model()),
    {
        let mut me = self;
        if me.mode == QuoteState::Escaped || me.mode == QuoteState::EscapedInDoubleQuote {
            push_char(&mut me.cur, '\\');
        }
        if me.started {
            me.end_word();
        }
        me.done
    }
}

/// The words of `s` read from quote state `mode`.
fn lex_all(s: &Vec<char>, mode: QuoteState) -> (r: Vec<String>)
    ensures
        words(r@) == tokenize_from(mode, s@),
{
    let mut lx = Lexer::new(mode);
    let mut i: usize = 0;
    while i < s.len()
        invariant
            i <= s@.len(),
            lx.model() == lex_run(lex_init(mode), s@.take(i as int)),
        decreases s@.len() - i,
    {
        proof {
            assert(s@.take(i + 1).drop_last() =~= s@.take(i as int));
        }
        lx.step(s[i]);
        i = i + 1;
    }
    assert(s@.take(i as int) =~= s@);
    lx.finish()
}

/// Splits a line into words: whitespace outside quotes separates words,
/// single quotes keep everything literal, double quotes let a backslash
/// escape `\`, `"`, `$` and newline only, and a backslash outside quotes
/// makes the next character literal. An unterminated quote closes at the end
/// of the line.
pub fn handle_input(input: &str) -> (r: Vec<String>)
    ensures
        words(r@) == tokenize(input@),
{
    let s = chars_of(input);
    lex_all(&s, QuoteState::Unquoted)
}

/// The first word of `input`, read as if it began inside a single quote
/// (`in_quote`), inside a double quote (`in_d_quote`) or outside quotes.
/// Reading stops as soon as that word has ended.
pub fn longest_sequence(input: &str, in_quote: bool, in_d_quote: bool) -> (r: Option<String>)
    requires
        !(in_quote && in_d_quote),
    ensures
        r matches Some(w) ==> first_word(start_state(in_quote, in_d_quote), input@) == Some(w@),
        r is None ==> first_word(start_state(in_quote, in_d_quote), input@) is None,
{
    let mode = if in_quote {
        QuoteState::InSingleQuote
    } else if in_d_quote {
        QuoteState::InDoubleQuote
    } else {
        QuoteState::Unquoted
    };
    let s = chars_of(input);
    let ghost init = lex_init(mode);
    let mut lx = Lexer::new(mode);
    let mut i: usize = 0;
    while i < s.len() && lx.done.len() == 0
        invariant
            i <= s@.len(),
            lx.model() == lex_run(init, s@.take(i as int)),
        decreases s@.len() - i,
    {
        proof {
            assert(s@.take(i + 1).drop_last() =~= s@.take(i as int));
        }
        lx.step(s[i]);
        i = i + 1;
    }
    proof {
        let pre = s@.take(i as int);
        let post = s@.skip(i as int);
        assert(pre + post =~= s@);
        lemma_lex_run_concat(init, pre, post);
        lemma_lex_run_keeps_done(lex_run(init, pre), post);
    }
    if lx.done.len() > 0 {
        proof {
            let full = lex_run(init, s@);
            assert(words(lx.done@)[0] == lx.done@[0]@);
            assert(full.done[0] == lx.done@[0]@);
            assert(lex_finish(full)[0] == full.done[0]);
        }
        Some(lx.done[0].clone())
    } else {
        assert(s@.take(i as int) =~= s@);
        let ws = lx.finish();
        if ws.len() > 0 {
            assert(words(ws@)[0] == ws@[0]@);
            Some(ws[0].clone())
        } else {
            None
        }
    }
}

/// The quote state that `longest_sequence` starts reading in.
pub open spec fn start_state(in_quote: bool, in_d_quote: bool) -> QuoteState {
    if in_quote {
        QuoteState::InSingleQuote
    } else if in_d_quote {
        QuoteState::InDoubleQuote
    } else {
        QuoteState::Unquoted
    }
}

} // verus!
