use vstd::prelude::*;

use crate::lexer::{
    is_space_spec, lemma_lex_run_concat, lex_init, lex_run, lex_step, push_char, tokenize, words,
    Lex, QuoteState,
};

verus! {

/// How `requote` quotes each word.
#[derive(Clone, Copy, Debug, PartialEq, Eq, Structural)]
pub enum QuoteStyle {
    /// `'word'`: the word is taken as it is.
    Single,
    /// `"word"`: backslashes and double quotes in the word are escaped.
    Double,
}

/// One character as it stands between double quotes.
pub open spec fn escape_char(c: char) -> Seq<char> {
    if c == '\\' || c == '"' {
        seq!['\\', c]
    } else {
        seq![c]
    }
}

/// A word as it stands between double quotes.
pub open spec fn escape_double(w: Seq<char>) -> Seq<char>
    decreases w.len(),
{
    if w.len() == 0 {
        Seq::empty()
    } else {
        escape_double(w.drop_last()) + escape_char(w.last())
    }
}

/// A word quoted in `style`.
pub open spec fn quote_word(w: Seq<char>, style: QuoteStyle) -> Seq<char> {
    match style {
        QuoteStyle::Single => seq!['\''] + w + seq!['\''],
        QuoteStyle::Double => seq!['"'] + escape_double(w) + seq!['"'],
    }
}

/// Words quoted in `style` and joined by single spaces.
pub open spec fn requoted(ws: Seq<Seq<char>>, style: QuoteStyle) -> Seq<char>
    decreases ws.len(),
{
    if ws.len() == 0 {
        Seq::empty()
    } else if ws.len() == 1 {
        quote_word(ws[0], style)
    } else {
        requoted(ws.drop_last(), style) + seq![' '] + quote_word(ws.last(), style)
    }
}

/// Whether `style` can quote every word of `ws`: single quotes cannot hold a
/// single quote.
pub open spec fn quotable(ws: Seq<Seq<char>>, style: QuoteStyle) -> bool {
    style == QuoteStyle::Single ==> forall|i: int, j: int|
        0 <= i < ws.len() && 0 <= j < ws[i].len() ==> ws[i][j] != '\''
}

/// Quotes each word in `style` and joins them by single spaces, so that the
/// tokenizer reads the words back.
pub fn requote(tokens: &Vec<String>, style: QuoteStyle) -> (r: String)
    ensures
        r@ == requoted(words(tokens@), style),
{
    let mut r = String::new();
    let mut i: usize = 0;
    while i < tokens.len()
        invariant
            i <= tokens@.len(),
            r@ == requoted(words(tokens@).take(i as int), style),
        decreases tokens@.len() - i,
    {
        if i > 0 {
            push_char(&mut r, ' ');
        }
        let ghost mid = r@;
        let w = tokens[i].as_str();
        let q = match style {
            QuoteStyle::Single => '\'',
            QuoteStyle::Double => '"',
        };
        push_char(&mut r, q);
        match style {
            QuoteStyle::Single => {
                r.append(w);
                assert(r@ =~= mid + seq!['\''] + w@);
            },
            QuoteStyle::Double => {
                let cs = crate::lexer::chars_of(w);
                let mut k: usize = 0;
                while k < cs.len()
                    invariant
                        k <= cs@.len(),
                        cs@ == w@,
                        r@ == mid + seq!['"'] + escape_double(cs@.take(k as int)),
                    decreases cs@.len() - k,
                {
                    let c = cs[k];
                    if c == '\\' || c == '"' {
                        push_char(&mut r, '\\');
                    }
                    push_char(&mut r, c);
                    assert(cs@.take(k + 1).drop_last() =~= cs@.take(k as int));
                    assert(r@ =~= mid + seq!['"'] + escape_double(cs@.take(k + 1)));
                    k = k + 1;
                }
                assert(cs@.take(k as int) =~= w@);
            },
        }
        push_char(&mut r, q);
        proof {
            let ws = words(tokens@).take(i + 1);
            assert(ws.drop_last() =~= words(tokens@).take(i as int));
            assert(ws.last() == tokens@[i as int]@);
            if i == 0 {
                assert(r@ =~= quote_word(ws[0], style));
            } else {
                assert(r@ =~= requoted(ws.drop_last(), style) + seq![' '] + quote_word(
                    ws.last(),
                    style,
                ));
            }
        }
        i = i + 1;
    }
    assert(words(tokens@).take(i as int) =~= words(tokens@));
    r
}

proof fn lemma_run_two(st: Lex, a: char, b: char)
    ensures
        lex_run(st, seq![a, b]) == lex_step(lex_step(st, a), b),
{
    assert(seq![a, b].drop_last() =~= seq![a]);
    assert(seq![a, b].last() == b);
    lemma_run_one(st, a);
}

proof fn lemma_run_one(st: Lex, a: char)
    ensures
        lex_run(st, seq![a]) == lex_step(st, a),
{
    assert(seq![a].drop_last() =~= Seq::<char>::empty());
    assert(seq![a].last() == a);
    assert(lex_run(st, Seq::<char>::empty()) == st);
}

proof fn lemma_single_body(st: Lex, w: Seq<char>)
    requires
        st.mode == QuoteState::InSingleQuote,
        forall|j: int| 0 <= j < w.len() ==> w[j] != '\'',
    ensures
        lex_run(st, w) == (Lex { cur: st.cur + w, ..st }),
    decreases w.len(),
{
    if w.len() == 0 {
        assert(st.cur + w =~= st.cur);
    } else {
        lemma_single_body(st, w.drop_last());
        assert(st.cur + w.drop_last() + seq![w.last()] =~= st.cur + w);
        assert((st.cur + w.drop_last()).push(w.last()) =~= st.cur + w);
    }
}

proof fn lemma_double_body(st: Lex, w: Seq<char>)
    requires
        st.mode == QuoteState::InDoubleQuote,
    ensures
        lex_run(st, escape_double(w)) == (Lex { cur: st.cur + w, ..st }),
    decreases w.len(),
{
    if w.len() == 0 {
        assert(st.cur + w =~= st.cur);
    } else {
        let c = w.last();
        lemma_double_body(st, w.drop_last());
        lemma_lex_run_concat(st, escape_double(w.drop_last()), escape_char(c));
        let mid = Lex { cur: st.cur + w.drop_last(), ..st };
        if c == '\\' || c == '"' {
            lemma_run_two(mid, '\\', c);
        } else {
            lemma_run_one(mid, c);
        }
        assert((st.cur + w.drop_last()).push(c) =~= st.cur + w);
    }
}

proof fn lemma_quote_word(st: Lex, w: Seq<char>, style: QuoteStyle)
    requires
        st.mode == QuoteState::Unquoted,
        !st.started,
        st.cur.len() == 0,
        style == QuoteStyle::Single ==> forall|j: int| 0 <= j < w.len() ==> w[j] != '\'',
    ensures
        lex_run(st, quote_word(w, style)) == (Lex {
            mode: QuoteState::Unquoted,
            started: true,
            cur: w,
            done: st.done,
        }),
{
    let q = if style == QuoteStyle::Single {
        '\''
    } else {
        '"'
    };
    let body = if style == QuoteStyle::Single {
        w
    } else {
        escape_double(w)
    };
    assert(quote_word(w, style) =~= seq![q] + body + seq![q]);
    lemma_lex_run_concat(st, seq![q] + body, seq![q]);
    lemma_lex_run_concat(st, seq![q], body);
    lemma_run_one(st, q);
    let opened = lex_step(st, q);
    if style == QuoteStyle::Single {
        lemma_single_body(opened, w);
    } else {
        lemma_double_body(opened, w);
    }
    assert(st.cur + w =~= w);
    lemma_run_one(lex_run(opened, body), q);
}

proof fn lemma_requoted_run(ws: Seq<Seq<char>>, style: QuoteStyle)
    requires
        ws.len() >= 1,
        quotable(ws, style),
    ensures
        lex_run(lex_init(QuoteState::Unquoted), requoted(ws, style)) == (Lex {
            mode: QuoteState::Unquoted,
            started: true,
            cur: ws.last(),
            done: ws.drop_last(),
        }),
    decreases ws.len(),
{
    let init = lex_init(QuoteState::Unquoted);
    if ws.len() == 1 {
        assert(init.done =~= ws.drop_last());
        lemma_quote_word(init, ws[0], style);
    } else {
        let prev = ws.drop_last();
        assert(quotable(prev, style)) by {
            if style == QuoteStyle::Single {
                assert forall|i: int, j: int|
                    0 <= i < prev.len() && 0 <= j < prev[i].len() implies prev[i][j] != '\'' by {
                    assert(prev[i] == ws[i]);
                }
            }
        }
        lemma_requoted_run(prev, style);
        let a = requoted(prev, style);
        lemma_lex_run_concat(init, a + seq![' '], quote_word(ws.last(), style));
        lemma_lex_run_concat(init, a, seq![' ']);
        let after = lex_run(init, a);
        lemma_run_one(after, ' ');
        assert(is_space_spec(' '));
        let spaced = lex_step(after, ' ');
        assert(prev.drop_last().push(prev.last()) =~= prev);
        assert(ws.len() >= 1 && style == QuoteStyle::Single ==> forall|j: int|
            0 <= j < ws.last().len() ==> ws.last()[j] != '\'');
        lemma_quote_word(spaced, ws.last(), style);
    }
}

/// Quoting words and reading the line back gives the same words, for every
/// list of words that the style can quote.
pub proof fn lemma_requote_round_trip(ws: Seq<Seq<char>>, style: QuoteStyle)
    requires
        quotable(ws, style),
    ensures
        tokenize(requoted(ws, style)) == ws,
{
    if ws.len() == 0 {
        assert(lex_init(QuoteState::Unquoted).done =~= ws);
    } else {
        lemma_requoted_run(ws, style);
        assert(ws.drop_last().push(ws.last()) =~= ws);
    }
}

} // verus!
