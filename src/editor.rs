use vstd::prelude::*;

use crate::lexer::{chars_of, push_char, words};

verus! {

/// What tab completion offers, in this order.
pub open spec fn completion_names() -> Seq<Seq<char>> {
    seq!["echo "@, "type "@, "exit "@, "pwd "@, "cd "@]
}

/// The entries of `names` that begin with `prefix`, in order.
pub open spec fn completions_of(prefix: Seq<char>, names: Seq<Seq<char>>) -> Seq<Seq<char>>
    decreases names.len(),
{
    if names.len() == 0 {
        Seq::empty()
    } else {
        let r = completions_of(prefix, names.drop_last());
        if prefix.is_prefix_of(names.last()) {
            r.push(names.last())
        } else {
            r
        }
    }
}

/// Whether `w` begins with `prefix`.
pub fn starts_with(w: &str, prefix: &str) -> (r: bool)
    ensures
        r == prefix@.is_prefix_of(w@),
{
    let a = chars_of(w);
    let p = chars_of(prefix);
    if p.len() > a.len() {
        return false;
    }
    let mut i: usize = 0;
    while i < p.len()
        invariant
            a@ == w@,
            p@ == prefix@,
            p@.len() <= a@.len(),
            i <= p@.len(),
            forall|j: int| 0 <= j < i ==> p@[j] == a@[j],
        decreases p@.len() - i,
    {
        if p[i] != a[i] {
            assert(p@[i as int] != a@.subrange(0, p@.len() as int)[i as int]);
            return false;
        }
        i = i + 1;
    }
    assert(p@ =~= a@.subrange(0, p@.len() as int));
    true
}

/// The builtin commands that begin with `input`, each with a space after it.
pub fn auto_complete(input: &str) -> (r: Vec<String>)
    ensures
        words(r@) == completions_of(input@, completion_names()),
{
    let names: Vec<&str> = vec!["echo ", "type ", "exit ", "pwd ", "cd "];
    let ghost all = names@.map_values(|s: &str| s@);
    assert(all =~= completion_names());
    let mut r: Vec<String> = Vec::new();
    let mut i: usize = 0;
    while i < names.len()
        invariant
            i <= names@.len(),
            all == names@.map_values(|s: &str| s@),
            words(r@) == completions_of(input@, all.take(i as int)),
        decreases names@.len() - i,
    {
        let name = names[i];
        assert(all.take(i + 1).drop_last() =~= all.take(i as int));
        assert(all.take(i + 1).last() == name@);
        if starts_with(name, input) {
            let ghost prev = r@;
            let t = name.to_owned();
            r.push(t);
            assert(words(r@) =~= words(prev).push(t@));
        }
        i = i + 1;
    }
    assert(all.take(i as int) =~= all);
    r
}

/// A key press as the line editor sees it.
#[derive(Clone, Copy, Debug, PartialEq, Eq, Structural)]
pub enum Key {
    Char(char),
    Backspace,
    Tab,
    Other,
}

/// What the terminal should do after a key press.
#[derive(Debug)]
pub enum Action {
    Nothing,
    /// Write this text to the terminal.
    Show(String),
    /// Ring the bell.
    Bell,
    /// The line is complete: run it.
    Submit(String),
}

/// An action over plain values.
pub enum ActionView {
    Nothing,
    Show(Seq<char>),
    Bell,
    Submit(Seq<char>),
}

/// An action over plain values.
pub open spec fn action_view(a: Action) -> ActionView {
    match a {
        Action::Nothing => ActionView::Nothing,
        Action::Show(t) => ActionView::Show(t@),
        Action::Bell => ActionView::Bell,
        Action::Submit(l) => ActionView::Submit(l@),
    }
}

/// The line editor's state over plain values.
pub struct EditorView {
    pub input: Seq<char>,
    pub completions: Seq<Seq<char>>,
    /// Whether the next tab lists `completions`.
    pub listing: bool,
}

/// The text that redraws the prompt line holding `input`, wiping one
/// character after it.
pub open spec fn redraw(input: Seq<char>) -> Seq<char> {
    "\r$ "@ + input + " \r$ "@ + input
}

/// One line per completion, each after a carriage return.
pub open spec fn listing_text(cs: Seq<Seq<char>>) -> Seq<char>
    decreases cs.len(),
{
    if cs.len() == 0 {
        Seq::empty()
    } else {
        listing_text(cs.drop_last()) + "\r"@ + cs.last() + "\n"@
    }
}

/// The effect of one key press on the line editor.
pub open spec fn editor_step(e: EditorView, key: Key) -> (EditorView, ActionView) {
    match key {
        Key::Char(c) => {
            if c == '\n' {
                (EditorView { input: Seq::empty(), ..e }, ActionView::Submit(e.input))
            } else {
                (EditorView { input: e.input.push(c), ..e }, ActionView::Show(seq![c]))
            }
        },
        Key::Backspace => {
            if e.input.len() > 0 {
                let input = e.input.drop_last();
                (EditorView { input, ..e }, ActionView::Show(redraw(input)))
            } else {
                (e, ActionView::Nothing)
            }
        },
        Key::Tab => {
            if e.listing {
                (
                    EditorView { completions: Seq::empty(), listing: false, ..e },
                    ActionView::Show("\n"@ + listing_text(e.completions) + "\r$ "@ + e.input),
                )
            } else if e.input.len() == 0 {
                (e, ActionView::Nothing)
            } else {
                let m = completions_of(e.input, completion_names());
                if m.len() == 1 {
                    (EditorView { input: m[0], ..e }, ActionView::Show(redraw(m[0])))
                } else if m.len() == 0 {
                    (e, ActionView::Bell)
                } else {
                    (EditorView { completions: m, listing: true, ..e }, ActionView::Nothing)
                }
            }
        },
        Key::Other => (e, ActionView::Nothing),
    }
}

/// The line editor: the line typed so far, and the completions that a
/// second tab lists.
pub struct Editor {
    input: String,
    completions: Vec<String>,
    listing: bool,
}

impl View for Editor {
    type V = EditorView;

    closed spec fn view(&self) -> EditorView {
        EditorView {
            input: self.input@,
            completions: words(self.completions@),
            listing: self.listing,
        }
    }
}

fn redraw_text(input: &String) -> (r: String)
    ensures
        r@ == redraw(input@),
{
    let mut r = "\r$ ".to_owned();
    r.append(input.as_str());
    r.append(" \r$ ");
    r.append(input.as_str());
    r
}

impl Editor {
    /// An editor holding an empty line.
    pub fn new() -> (r: Editor)
        ensures
            r@ == (EditorView { input: Seq::empty(), completions: Seq::empty(), listing: false }),
    {
        let r = Editor { input: String::new(), completions: Vec::new(), listing: false };
        assert(words(r.completions@) =~= Seq::empty());
        r
    }

    /// Takes one key press and says what the terminal should do.
    pub fn handle_key(&mut self, key: Key) -> (r: Action)
        ensures
            (final(self)@, action_view(r)) == editor_step(old(self)@, key),
    {
        match key {
            Key::Char(c) => {
                if c == '\n' {
                    let line = self.input.clone();
                    self.input = String::new();
                    Action::Submit(line)
                } else {
                    push_char(&mut self.input, c);
                    let mut t = String::new();
                    push_char(&mut t, c);
                    assert(t@ =~= seq![c]);
                    Action::Show(t)
                }
            },
            Key::Backspace => {
                let cs = chars_of(self.input.as_str());
                if cs.len() > 0 {
                    let shorter = crate::redirect::string_of(&cs, 0, cs.len() - 1);
                    assert(shorter@ =~= old(self)@.input.drop_last());
                    self.input = shorter;
                    Action::Show(redraw_text(&self.input))
                } else {
                    Action::Nothing
                }
            },
            Key::Tab => {
                if self.listing {
                    let mut t = "\n".to_owned();
                    let mut i: usize = 0;
                    while i < self.completions.len()
                        invariant
                            self@ == old(self)@,
                            i <= self.completions@.len(),
                            t@ == "\n"@ + listing_text(words(self.completions@).take(i as int)),
                        decreases self.completions@.len() - i,
                    {
                        t.append("\r");
                        t.append(self.completions[i].as_str());
                        t.append("\n");
                        proof {
                            let cs = words(self.completions@).take(i + 1);
                            assert(cs.drop_last() =~= words(self.completions@).take(i as int));
                            assert(cs.last() == self.completions@[i as int]@);
                            assert(t@ =~= "\n"@ + listing_text(cs));
                        }
                        i = i + 1;
                    }
                    assert(words(self.completions@).take(i as int) =~= words(self.completions@));
                    t.append("\r$ ");
                    t.append(self.input.as_str());
                    self.completions = Vec::new();
                    self.listing = false;
                    assert(words(self.completions@) =~= Seq::empty());
                    Action::Show(t)
                } else if self.input.as_str().is_empty() {
                    Action::Nothing
                } else {
                    let m = auto_complete(self.input.as_str());
                    if m.len() == 1 {
                        assert(words(m@)[0] == m@[0]@);
                        self.input = m[0].clone();
                        Action::Show(redraw_text(&self.input))
                    } else if m.len() == 0 {
                        Action::Bell
                    } else {
                        self.completions = m;
                        self.listing = true;
                        Action::Nothing
                    }
                }
            },
            Key::Other => Action::Nothing,
        }
    }
}

} // verus!
