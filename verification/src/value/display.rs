//! How values are written out.
//!
//! A number is written by the float formatting of the standard library,
//! which is no part of this crate: a written value is therefore a row of
//! pieces, each a stretch of text or a number that is still to be
//! formatted. Joining the pieces, with each number formatted, gives the
//! text: `"a"` for a string, `'ns::name` for a symbol, `[1, 2]` for an
//! array and `{"a": 1}` for an object, whose entries come in the object's
//! own order.

use crate::value::array::Array;
use crate::value::number::Number;
use crate::value::object::Object;
use crate::value::owned::array::OwnedArray;
use crate::value::owned::object::OwnedObject;
use crate::value::owned::value::OwnedValue;
use crate::value::value::Value;
use crate::value::view::ValueView;
use std::sync::Arc;
use vstd::prelude::*;
use vstd::string::StringExecFns;

verus! {

/// One place of a written value: a character, or a number in full.
pub enum Glyph {
    Char(char),
    /// The number whose float has this bit pattern.
    Number(u64),
}

/// A stretch of a written value.
#[derive(Debug)]
pub enum Piece {
    /// Text, as it stands.
    Text(String),
    /// A number, to be written as floats are.
    Number(Number),
}

/// `text` as glyphs, one for each character.
pub open spec fn text_glyphs(text: Seq<char>) -> Seq<Glyph>
    decreases text.len(),
{
    if text.len() == 0 {
        Seq::empty()
    } else {
        text_glyphs(text.drop_last()).push(Glyph::Char(text.last()))
    }
}

/// What stands between two items of an array and between two entries of
/// an object.
pub open spec fn separator() -> Seq<Glyph> {
    seq![Glyph::Char(','), Glyph::Char(' ')]
}

/// What stands between the key and the value of an entry.
pub open spec fn colon() -> Seq<Glyph> {
    seq![Glyph::Char(':'), Glyph::Char(' ')]
}

impl ValueView {
    /// The value, written out.
    pub open spec fn glyphs(self) -> Seq<Glyph>
        decreases self, 0nat,
    {
        match self {
            ValueView::Number(bits) => seq![Glyph::Number(bits)],
            ValueView::String(text) => seq![Glyph::Char('"')] + text_glyphs(text) + seq![
                Glyph::Char('"'),
            ],
            ValueView::Symbol(symbol) => text_glyphs(symbol.text()),
            ValueView::Array(items) => seq![Glyph::Char('[')] + items_glyphs(items, items.len())
                + seq![Glyph::Char(']')],
            ValueView::Object(entries) => seq![Glyph::Char('{')] + entries_glyphs(
                entries,
                entries.len(),
            ) + seq![Glyph::Char('}')],
        }
    }
}

/// The first `n` of `items`, written out with a separator between each
/// two.
pub open spec fn items_glyphs(items: Seq<ValueView>, n: nat) -> Seq<Glyph>
    decreases items, n,
{
    if n == 0 || n > items.len() {
        Seq::empty()
    } else if n == 1 {
        items[0].glyphs()
    } else {
        items_glyphs(items, (n - 1) as nat) + separator() + items[n - 1].glyphs()
    }
}

/// The entry, written out: key, colon, value.
pub open spec fn entry_glyphs(entry: (ValueView, ValueView)) -> Seq<Glyph>
    decreases entry, 1nat,
{
    entry.0.glyphs() + colon() + entry.1.glyphs()
}

/// The first `n` of `entries`, written out with a separator between each
/// two.
pub open spec fn entries_glyphs(entries: Seq<(ValueView, ValueView)>, n: nat) -> Seq<Glyph>
    decreases entries, n,
{
    if n == 0 || n > entries.len() {
        Seq::empty()
    } else if n == 1 {
        entry_glyphs(entries[0])
    } else {
        entries_glyphs(entries, (n - 1) as nat) + separator() + entry_glyphs(entries[n - 1])
    }
}

impl Piece {
    /// The glyphs that the piece stands for.
    pub open spec fn glyphs(self) -> Seq<Glyph> {
        match self {
            Piece::Text(text) => text_glyphs(text@),
            Piece::Number(number) => seq![Glyph::Number(number@)],
        }
    }
}

/// The glyphs that a row of pieces stands for.
pub open spec fn pieces_glyphs(pieces: Seq<Piece>) -> Seq<Glyph>
    decreases pieces.len(),
{
    if pieces.len() == 0 {
        Seq::empty()
    } else {
        pieces_glyphs(pieces.drop_last()) + pieces.last().glyphs()
    }
}

/// Adds the text `text` to `out`.
fn put(out: &mut Vec<Piece>, text: &str)
    ensures
        pieces_glyphs(final(out)@) == pieces_glyphs(old(out)@) + text_glyphs(text@),
{
    let ghost before = out@;
    out.push(Piece::Text(String::from_str(text)));
    assert(out@.drop_last() =~= before);
}

/// The glyphs of a text of one character.
proof fn lemma_one_char(text: Seq<char>, c: char)
    requires
        text.len() == 1,
        text[0] == c,
    ensures
        text_glyphs(text) == seq![Glyph::Char(c)],
{
    assert(text.drop_last().len() == 0);
    assert(text_glyphs(text.drop_last()) =~= Seq::<Glyph>::empty());
    assert(text_glyphs(text) =~= seq![Glyph::Char(c)]);
}

/// The glyphs of a text of two characters.
proof fn lemma_two_chars(text: Seq<char>, a: char, b: char)
    requires
        text.len() == 2,
        text[0] == a,
        text[1] == b,
    ensures
        text_glyphs(text) == seq![Glyph::Char(a), Glyph::Char(b)],
{
    lemma_one_char(text.drop_last(), a);
    assert(text_glyphs(text) =~= seq![Glyph::Char(a), Glyph::Char(b)]);
}

/// Adds what stands between two members to `out`, unless the member to come
/// is the first.
fn put_separator(out: &mut Vec<Piece>, first: bool)
    ensures
        pieces_glyphs(final(out)@) == pieces_glyphs(old(out)@) + if first {
            Seq::<Glyph>::empty()
        } else {
            separator()
        },
{
    if !first {
        proof {
            reveal_strlit(", ");
            lemma_two_chars(", "@, ',', ' ');
        }
        put(out, ", ");
    } else {
        assert(pieces_glyphs(out@) + Seq::<Glyph>::empty() =~= pieces_glyphs(out@));
    }
}

/// Writing one more item after the first `i` gives the first `i + 1`.
proof fn lemma_items_step(items: Seq<ValueView>, i: nat)
    requires
        i < items.len(),
    ensures
        items_glyphs(items, i + 1) == items_glyphs(items, i) + if i == 0 {
            Seq::<Glyph>::empty()
        } else {
            separator()
        } + items[i as int].glyphs(),
{
    if i == 0 {
        assert(items_glyphs(items, 0) + Seq::<Glyph>::empty() + items[0].glyphs()
            =~= items[0].glyphs());
    }
}

/// Writing one more entry after the first `i` gives the first `i + 1`.
proof fn lemma_entries_step(entries: Seq<(ValueView, ValueView)>, i: nat)
    requires
        i < entries.len(),
    ensures
        entries_glyphs(entries, i + 1) == entries_glyphs(entries, i) + if i == 0 {
            Seq::<Glyph>::empty()
        } else {
            separator()
        } + entry_glyphs(entries[i as int]),
{
    if i == 0 {
        assert(entries_glyphs(entries, 0) + Seq::<Glyph>::empty() + entry_glyphs(entries[0])
            =~= entry_glyphs(entries[0]));
    }
}

impl Value {
    /// Adds the value, written out, to `out`.
    pub fn write_pieces(&self, out: &mut Vec<Piece>)
        ensures
            pieces_glyphs(final(out)@) == pieces_glyphs(old(out)@) + self@.glyphs(),
        decreases self@, 1nat,
    {
        let ghost start = pieces_glyphs(out@);
        match self {
            Value::Number(number) => {
                let ghost before = out@;
                out.push(Piece::Number(*number));
                assert(out@.drop_last() =~= before);
            },
            Value::String(text) => {
                proof {
                    reveal_strlit("\"");
                    lemma_one_char("\""@, '"');
                }
                put(out, "\"");
                put(out, text.as_str());
                put(out, "\"");
                assert(pieces_glyphs(out@) =~= start + self@.glyphs());
            },
            Value::Symbol(symbol) => {
                let text = symbol.to_text();
                put(out, text.as_str());
            },
            Value::Array(array) => {
                proof {
                    reveal_strlit("[");
                    reveal_strlit("]");
                    lemma_one_char("["@, '[');
                    lemma_one_char("]"@, ']');
                    assert(decreases_to!(self@ => self@->Array_0));
                }
                put(out, "[");
                array.write_items(out);
                put(out, "]");
                assert(pieces_glyphs(out@) =~= start + self@.glyphs());
            },
            Value::Object(object) => {
                proof {
                    reveal_strlit("{");
                    reveal_strlit("}");
                    lemma_one_char("{"@, '{');
                    lemma_one_char("}"@, '}');
                    assert(decreases_to!(self@ => self@->Object_0));
                }
                put(out, "{");
                object.write_entries(out);
                put(out, "}");
                assert(pieces_glyphs(out@) =~= start + self@.glyphs());
            },
        }
    }

    /// The value, written out.
    pub fn pieces(&self) -> (r: Vec<Piece>)
        ensures
            pieces_glyphs(r@) == self@.glyphs(),
    {
        let mut out: Vec<Piece> = Vec::new();
        self.write_pieces(&mut out);
        assert(pieces_glyphs(Seq::<Piece>::empty()) + self@.glyphs() =~= self@.glyphs());
        out
    }
}

impl Array {
    /// Adds the items, written out with a separator between each two, to
    /// `out`.
    pub fn write_items(&self, out: &mut Vec<Piece>)
        ensures
            pieces_glyphs(final(out)@) == pieces_glyphs(old(out)@) + items_glyphs(
                self@,
                self@.len(),
            ),
        decreases self@, 0nat,
    {
        let ghost start = pieces_glyphs(out@);
        let n = self.len();
        let mut i: usize = 0;
        assert(start + items_glyphs(self@, 0) =~= start);
        while i < n
            invariant
                n == self@.len(),
                i <= n,
                pieces_glyphs(out@) == start + items_glyphs(self@, i as nat),
            decreases n - i,
        {
            let item = self.get_unwrapped(i);
            let ghost before = pieces_glyphs(out@);
            proof {
                assert(decreases_to!(self@ => self@[i as int]));
                lemma_items_step(self@, i as nat);
            }
            put_separator(out, i == 0);
            item.write_pieces(out);
            assert(pieces_glyphs(out@) =~= start + items_glyphs(self@, (i + 1) as nat));
            i += 1;
        }
    }

    /// The array, written out: its items between square brackets.
    pub fn pieces(&self) -> (r: Vec<Piece>)
        ensures
            pieces_glyphs(r@) == ValueView::Array(self@).glyphs(),
    {
        Value::Array(self.clone()).pieces()
    }
}

impl Object {
    /// Adds the entries, written out with a separator between each two, to
    /// `out`, in the object's own order.
    pub fn write_entries(&self, out: &mut Vec<Piece>)
        ensures
            pieces_glyphs(final(out)@) == pieces_glyphs(old(out)@) + entries_glyphs(
                self@,
                self@.len(),
            ),
        decreases self@, 0nat,
    {
        let ghost start = pieces_glyphs(out@);
        let entries = self.entries();
        let n = entries.len();
        let mut i: usize = 0;
        assert(start + entries_glyphs(self@, 0) =~= start);
        while i < n
            invariant
                n == entries@.len(),
                n == self@.len(),
                i <= n,
                entries@.map_values(|e: (Arc<Value>, Arc<Value>)| (e.0@, e.1@)) == self@,
                pieces_glyphs(out@) == start + entries_glyphs(self@, i as nat),
            decreases n - i,
        {
            let ghost before = pieces_glyphs(out@);
            proof {
                reveal_strlit(": ");
                lemma_two_chars(": "@, ':', ' ');
                assert(entries@.map_values(|e: (Arc<Value>, Arc<Value>)| (e.0@, e.1@))[i as int]
                    == self@[i as int]);
                assert(decreases_to!(self@ => self@[i as int]));
                assert(decreases_to!(self@[i as int] => self@[i as int].0));
                assert(decreases_to!(self@[i as int] => self@[i as int].1));
                lemma_entries_step(self@, i as nat);
            }
            put_separator(out, i == 0);
            entries[i].0.write_pieces(out);
            put(out, ": ");
            entries[i].1.write_pieces(out);
            assert(pieces_glyphs(out@) =~= start + entries_glyphs(self@, (i + 1) as nat));
            i += 1;
        }
    }

    /// The object, written out: its entries between braces, in the
    /// object's own order. An object without entries is written `{}`.
    pub fn pieces(&self) -> (r: Vec<Piece>)
        ensures
            pieces_glyphs(r@) == ValueView::Object(self@).glyphs(),
            self@.len() == 0 ==> pieces_glyphs(r@) == seq![Glyph::Char('{'), Glyph::Char('}')],
    {
        let r = Value::Object(self.clone()).pieces();
        proof {
            if self@.len() == 0 {
                assert(ValueView::Object(self@).glyphs() =~= seq![
                    Glyph::Char('{'),
                    Glyph::Char('}'),
                ]);
            }
        }
        r
    }
}

impl OwnedValue {
    /// Adds the value, written out, to `out`.
    pub fn write_pieces(&self, out: &mut Vec<Piece>)
        ensures
            pieces_glyphs(final(out)@) == pieces_glyphs(old(out)@) + self@.glyphs(),
        decreases self@, 1nat,
    {
        let ghost start = pieces_glyphs(out@);
        match self {
            OwnedValue::Number(number) => {
                let ghost before = out@;
                out.push(Piece::Number(*number));
                assert(out@.drop_last() =~= before);
            },
            OwnedValue::String(text) => {
                proof {
                    reveal_strlit("\"");
                    lemma_one_char("\""@, '"');
                }
                put(out, "\"");
                put(out, text.as_str());
                put(out, "\"");
                assert(pieces_glyphs(out@) =~= start + self@.glyphs());
            },
            OwnedValue::Symbol(symbol) => {
                let text = symbol.to_text();
                put(out, text.as_str());
            },
            OwnedValue::Array(array) => {
                proof {
                    reveal_strlit("[");
                    reveal_strlit("]");
                    lemma_one_char("["@, '[');
                    lemma_one_char("]"@, ']');
                    assert(decreases_to!(self@ => self@->Array_0));
                }
                put(out, "[");
                array.write_items(out);
                put(out, "]");
                assert(pieces_glyphs(out@) =~= start + self@.glyphs());
            },
            OwnedValue::Object(object) => {
                proof {
                    reveal_strlit("{");
                    reveal_strlit("}");
                    lemma_one_char("{"@, '{');
                    lemma_one_char("}"@, '}');
                    assert(decreases_to!(self@ => self@->Object_0));
                }
                put(out, "{");
                object.write_entries(out);
                put(out, "}");
                assert(pieces_glyphs(out@) =~= start + self@.glyphs());
            },
        }
    }

    /// The value, written out.
    pub fn pieces(&self) -> (r: Vec<Piece>)
        ensures
            pieces_glyphs(r@) == self@.glyphs(),
    {
        let mut out: Vec<Piece> = Vec::new();
        self.write_pieces(&mut out);
        assert(pieces_glyphs(Seq::<Piece>::empty()) + self@.glyphs() =~= self@.glyphs());
        out
    }
}

impl OwnedArray {
    /// Adds the items, written out with a separator between each two, to
    /// `out`.
    pub fn write_items(&self, out: &mut Vec<Piece>)
        ensures
            pieces_glyphs(final(out)@) == pieces_glyphs(old(out)@) + items_glyphs(
                self@,
                self@.len(),
            ),
        decreases self@, 0nat,
    {
        let ghost start = pieces_glyphs(out@);
        let n = self.len();
        let mut i: usize = 0;
        assert(start + items_glyphs(self@, 0) =~= start);
        while i < n
            invariant
                n == self@.len(),
                i <= n,
                pieces_glyphs(out@) == start + items_glyphs(self@, i as nat),
            decreases n - i,
        {
            let item = self.get_unwrapped(i);
            let ghost before = pieces_glyphs(out@);
            proof {
                assert(decreases_to!(self@ => self@[i as int]));
                lemma_items_step(self@, i as nat);
            }
            put_separator(out, i == 0);
            item.write_pieces(out);
            assert(pieces_glyphs(out@) =~= start + items_glyphs(self@, (i + 1) as nat));
            i += 1;
        }
    }

    /// The array, written out: its items between square brackets.
    pub fn pieces(&self) -> (r: Vec<Piece>)
        ensures
            pieces_glyphs(r@) == ValueView::Array(self@).glyphs(),
    {
        OwnedValue::Array(self.clone()).pieces()
    }
}

impl OwnedObject {
    /// Adds the entries, written out with a separator between each two, to
    /// `out`, in the object's own order.
    pub fn write_entries(&self, out: &mut Vec<Piece>)
        ensures
            pieces_glyphs(final(out)@) == pieces_glyphs(old(out)@) + entries_glyphs(
                self@,
                self@.len(),
            ),
        decreases self@, 0nat,
    {
        let ghost start = pieces_glyphs(out@);
        let entries = self.entries();
        let n = entries.len();
        let mut i: usize = 0;
        assert(start + entries_glyphs(self@, 0) =~= start);
        while i < n
            invariant
                n == entries@.len(),
                n == self@.len(),
                i <= n,
                entries@.map_values(|e: (Arc<OwnedValue>, Arc<OwnedValue>)| (e.0@, e.1@)) == self@,
                pieces_glyphs(out@) == start + entries_glyphs(self@, i as nat),
            decreases n - i,
        {
            let ghost before = pieces_glyphs(out@);
            proof {
                reveal_strlit(": ");
                lemma_two_chars(": "@, ':', ' ');
                assert(entries@.map_values(|e: (Arc<OwnedValue>, Arc<OwnedValue>)| (e.0@, e.1@))[i as int]
                    == self@[i as int]);
                assert(decreases_to!(self@ => self@[i as int]));
                assert(decreases_to!(self@[i as int] => self@[i as int].0));
                assert(decreases_to!(self@[i as int] => self@[i as int].1));
                lemma_entries_step(self@, i as nat);
            }
            put_separator(out, i == 0);
            entries[i].0.write_pieces(out);
            put(out, ": ");
            entries[i].1.write_pieces(out);
            assert(pieces_glyphs(out@) =~= start + entries_glyphs(self@, (i + 1) as nat));
            i += 1;
        }
    }

    /// The object, written out: its entries between braces, in the
    /// object's own order. An object without entries is written `{}`.
    pub fn pieces(&self) -> (r: Vec<Piece>)
        ensures
            pieces_glyphs(r@) == ValueView::Object(self@).glyphs(),
            self@.len() == 0 ==> pieces_glyphs(r@) == seq![Glyph::Char('{'), Glyph::Char('}')],
    {
        let r = OwnedValue::Object(self.clone()).pieces();
        proof {
            if self@.len() == 0 {
                assert(ValueView::Object(self@).glyphs() =~= seq![
                    Glyph::Char('{'),
                    Glyph::Char('}'),
                ]);
            }
        }
        r
    }
}

} // verus!
