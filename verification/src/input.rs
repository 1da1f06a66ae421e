//! A line of text under a cursor.

use crate::text::{chars_of, string_of};
use crate::ui::{no_spans, push_span, span, span_of, spans_view, Span, SpanModel, Style};
use vstd::prelude::*;

verus! {

/// A key that was pressed.
#[derive(Clone, Copy, Debug, PartialEq, Eq, Structural)]
pub enum Key {
    Char(char),
    Enter,
    Esc,
    Backspace,
    Delete,
    Left,
    Right,
    Up,
    Down,
    Home,
    End,
    Tab,
    BackTab,
    /// Any other.
    Other,
}

/// A field being typed into. The cursor counts characters.
pub struct Input {
    pub value: String,
    pub cursor: usize,
}

#[verifier::ext_equal]
pub struct InputModel {
    pub value: Seq<char>,
    pub cursor: int,
}

impl View for Input {
    type V = InputModel;

    open spec fn view(&self) -> InputModel {
        InputModel { value: self.value@, cursor: self.cursor as int }
    }
}

impl InputModel {
    /// The cursor stands on a character or just past the last.
    pub open spec fn wf(self) -> bool {
        0 <= self.cursor <= self.value.len()
    }
}

/// A field that holds this text, the cursor at its end.
pub open spec fn input_of(s: Seq<char>) -> InputModel {
    InputModel { value: s, cursor: s.len() as int }
}

/// ASCII that leaves ink.
pub open spec fn graphic(c: char) -> bool {
    0x21 <= c as u32 <= 0x7e
}

/// The field after a key. Only printable ASCII is taken in.
pub open spec fn typed(m: InputModel, k: Key) -> InputModel {
    match k {
        Key::Char(c) => if graphic(c) || c == ' ' {
            InputModel { value: m.value.insert(m.cursor, c), cursor: m.cursor + 1 }
        } else {
            m
        },
        Key::Backspace => if m.cursor > 0 {
            InputModel { value: m.value.remove(m.cursor - 1), cursor: m.cursor - 1 }
        } else {
            m
        },
        Key::Delete => if m.cursor < m.value.len() {
            InputModel { value: m.value.remove(m.cursor), ..m }
        } else {
            m
        },
        Key::Left => if m.cursor > 0 {
            InputModel { cursor: m.cursor - 1, ..m }
        } else {
            m
        },
        Key::Right => if m.cursor < m.value.len() {
            InputModel { cursor: m.cursor + 1, ..m }
        } else {
            m
        },
        Key::Home => InputModel { cursor: 0, ..m },
        Key::End => InputModel { cursor: m.value.len() as int, ..m },
        _ => m,
    }
}

/// The field with its cursor drawn in, so no terminal cursor is needed: what
/// comes before, the character under the cursor or a blank, and the rest.
pub open spec fn field_spans(m: InputModel, active: bool) -> Seq<SpanModel> {
    if !active {
        seq![span_of(m.value, Style::Plain)]
    } else {
        let under = if m.cursor < m.value.len() {
            m.value.subrange(m.cursor, m.cursor + 1)
        } else {
            " "@
        };
        let rest = if m.cursor < m.value.len() {
            m.value.skip(m.cursor + 1)
        } else {
            Seq::empty()
        };
        seq![span_of(m.value.take(m.cursor), Style::Plain), span_of(under, Style::Marked), span_of(rest, Style::Plain)]
    }
}

fn takes(c: char) -> (r: bool)
    ensures
        r == (graphic(c) || c == ' '),
{
    let n: u32 = c as u32;
    n >= 0x21 && n <= 0x7e || c == ' '
}

impl Input {
    /// A field that holds nothing.
    pub fn new() -> (r: Input)
        ensures
            r@ == input_of(Seq::empty()),
            r@.wf(),
    {
        let r = Input { value: String::new(), cursor: 0 };
        assert(r@.value =~= Seq::empty());
        r
    }

    /// Replace the text and put the cursor at its end.
    pub fn set(&mut self, s: &str)
        ensures
            final(self)@ == input_of(s@),
            final(self)@.wf(),
    {
        self.value = s.to_owned();
        self.cursor = s.unicode_len();
    }

    pub fn key(&mut self, k: Key)
        requires
            old(self)@.wf(),
        ensures
            final(self)@ == typed(old(self)@, k),
            final(self)@.wf(),
    {
        let len: usize = self.value.as_str().unicode_len();
        match k {
            Key::Char(c) => {
                if takes(c) {
                    let mut v = chars_of(self.value.as_str());
                    v.insert(self.cursor, c);
                    let n: usize = v.len();
                    self.value = string_of(&v, 0, n);
                    assert(self.value@ =~= old(self)@.value.insert(old(self)@.cursor, c));
                    assert(self.cursor < n);
                    self.cursor = self.cursor + 1;
                }
            },
            Key::Backspace => {
                if self.cursor > 0 {
                    self.cursor = self.cursor - 1;
                    self.drop_at_cursor();
                }
            },
            Key::Delete => {
                if self.cursor < len {
                    self.drop_at_cursor();
                }
            },
            Key::Left => {
                if self.cursor > 0 {
                    self.cursor = self.cursor - 1;
                }
            },
            Key::Right => {
                if self.cursor < len {
                    self.cursor = self.cursor + 1;
                }
            },
            Key::Home => {
                self.cursor = 0;
            },
            Key::End => {
                self.cursor = len;
            },
            _ => {},
        }
    }

    fn drop_at_cursor(&mut self)
        requires
            old(self)@.cursor < old(self)@.value.len(),
        ensures
            final(self)@ == (InputModel {
                value: old(self)@.value.remove(old(self)@.cursor),
                ..old(self)@
            }),
    {
        let mut v = chars_of(self.value.as_str());
        v.remove(self.cursor);
        let n: usize = v.len();
        self.value = string_of(&v, 0, n);
        assert(self.value@ =~= old(self)@.value.remove(old(self)@.cursor));
    }

    pub fn spans(&self, active: bool) -> (r: Vec<Span>)
        requires
            self@.wf(),
        ensures
            spans_view(r@) == field_spans(self@, active),
    {
        let mut v = no_spans();
        let all = chars_of(self.value.as_str());
        let n: usize = all.len();
        if !active {
            let s = string_of(&all, 0, n);
            assert(s@ =~= self@.value);
            push_span(&mut v, span(s, Style::Plain));
            return v;
        }
        let before = string_of(&all, 0, self.cursor);
        assert(before@ =~= self@.value.take(self@.cursor));
        let (under, rest) = if self.cursor < n {
            (string_of(&all, self.cursor, self.cursor + 1), string_of(&all, self.cursor + 1, n))
        } else {
            (" ".to_owned(), String::new())
        };
        assert(rest@ =~= if self@.cursor < self@.value.len() {
            self@.value.skip(self@.cursor + 1)
        } else {
            Seq::empty()
        });
        push_span(&mut v, span(before, Style::Plain));
        push_span(&mut v, span(under, Style::Marked));
        push_span(&mut v, span(rest, Style::Plain));
        v
    }
}

/// Typing a character and erasing it again leaves the field as it was.
pub proof fn backspace_undoes_a_character(m: InputModel, c: char)
    requires
        m.wf(),
        graphic(c) || c == ' ',
    ensures
        typed(typed(m, Key::Char(c)), Key::Backspace) == m,
{
    let t = typed(m, Key::Char(c));
    assert(t.value.remove(m.cursor) =~= m.value);
}

/// The cursor never leaves the text, whatever is typed.
pub proof fn the_cursor_stays_in_the_text(m: InputModel, k: Key)
    requires
        m.wf(),
    ensures
        typed(m, k).wf(),
{
}

/// Drawing a field shows its text and nothing else, but for the blank under a
/// cursor at the end.
pub proof fn a_field_shows_its_text(m: InputModel)
    requires
        m.wf(),
    ensures
        ({
            let s = field_spans(m, true);
            s[0].text + s[1].text + s[2].text == m.value + (if m.cursor == m.value.len() {
                " "@
            } else {
                Seq::empty()
            })
        }),
        field_spans(m, false)[0].text == m.value,
{
    reveal_strlit(" ");
    let s = field_spans(m, true);
    assert(s[0].text + s[1].text + s[2].text =~= m.value + (if m.cursor == m.value.len() {
        " "@
    } else {
        Seq::empty()
    }));
}

/// A character that is typed stands where the cursor was, the cursor moves past
/// it, and everything else keeps its order. What is not printable ASCII leaves
/// no trace.
pub proof fn a_character_goes_in_at_the_cursor(m: InputModel, c: char)
    requires
        m.wf(),
    ensures
        ' ' <= c <= '~' ==> typed(m, Key::Char(c)) == (InputModel {
            value: m.value.take(m.cursor) + seq![c] + m.value.skip(m.cursor),
            cursor: m.cursor + 1,
        }),
        c < ' ' || c > '~' ==> typed(m, Key::Char(c)) == m,
{
    if ' ' <= c <= '~' {
        assert(m.value.insert(m.cursor, c) =~= m.value.take(m.cursor) + seq![c] + m.value.skip(
            m.cursor,
        ));
    }
}

/// Backspace takes out the character before the cursor, Delete the one under
/// it; where there is none they do nothing.
pub proof fn characters_come_out_on_either_side(m: InputModel)
    requires
        m.wf(),
    ensures
        m.cursor > 0 ==> typed(m, Key::Backspace) == (InputModel {
            value: m.value.take(m.cursor - 1) + m.value.skip(m.cursor),
            cursor: m.cursor - 1,
        }),
        m.cursor == 0 ==> typed(m, Key::Backspace) == m,
        m.cursor < m.value.len() ==> typed(m, Key::Delete) == (InputModel {
            value: m.value.take(m.cursor) + m.value.skip(m.cursor + 1),
            cursor: m.cursor,
        }),
        m.cursor == m.value.len() ==> typed(m, Key::Delete) == m,
{
    if m.cursor > 0 {
        assert(m.value.remove(m.cursor - 1) =~= m.value.take(m.cursor - 1) + m.value.skip(
            m.cursor,
        ));
    }
    if m.cursor < m.value.len() {
        assert(m.value.remove(m.cursor) =~= m.value.take(m.cursor) + m.value.skip(m.cursor + 1));
    }
}

/// The other keys move the cursor, by one or to an end, and no further than the
/// text goes; they leave the text alone.
pub proof fn the_cursor_moves_by_one_or_to_an_end(m: InputModel, k: Key)
    requires
        m.wf(),
        !(k is Char) && !(k is Backspace) && !(k is Delete),
    ensures
        typed(m, k).value == m.value,
        k is Left ==> typed(m, k).cursor == if m.cursor > 0 {
            m.cursor - 1
        } else {
            0
        },
        k is Right ==> typed(m, k).cursor == if m.cursor < m.value.len() {
            m.cursor + 1
        } else {
            m.value.len() as int
        },
        k is Home ==> typed(m, k).cursor == 0,
        k is End ==> typed(m, k).cursor == m.value.len(),
        !(k is Left || k is Right || k is Home || k is End) ==> typed(m, k) == m,
        input_of(m.value).value == m.value && input_of(m.value).cursor == m.value.len(),
{
}

/// In a field being typed into, the character under the cursor is the one that
/// is marked.
pub proof fn the_cursor_is_marked(m: InputModel)
    requires
        m.wf(),
    ensures
        ({
            let s = field_spans(m, true);
            &&& s.len() == 3
            &&& s[0] == span_of(m.value.take(m.cursor), Style::Plain)
            &&& s[1].style is Marked && s[1].text.len() == 1
            &&& m.cursor < m.value.len() ==> s[1].text[0] == m.value[m.cursor]
            &&& s[2].style is Plain
        }),
        field_spans(m, false) == seq![span_of(m.value, Style::Plain)],
{
    reveal_strlit(" ");
}

} // verus!
