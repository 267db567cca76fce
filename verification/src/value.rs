//! Runtime values: the closed set of scalar and array data kinds, their
//! mathematical model, and their textual rendering.

use vstd::prelude::*;

use crate::number::number_text;
use crate::text::chars_vec;
use crate::text::i64_text;
use crate::text::push_i64_text;
use crate::text::str_debug;
use crate::text::str_debug_text;
use crate::text::string_from_chars;

verus! {

/// An IEEE binary64 number, held as its bit pattern (see the `number` module).
#[derive(Debug, Clone, Copy, PartialEq, Eq, Structural)]
pub struct NumberBits(pub u64);

impl View for NumberBits {
    type V = u64;

    open spec fn view(&self) -> u64 {
        self.0
    }
}

impl DeepView for NumberBits {
    type V = u64;

    open spec fn deep_view(&self) -> u64 {
        self.0
    }
}

/// A runtime value: one of the nine data kinds. Arrays are homogeneous and
/// never nested; there is no array of characters.
#[derive(Debug, PartialEq)]
pub enum Value {
    Integer(i64),
    Number(NumberBits),
    Char(char),
    String(String),
    Boolean(bool),
    ArrayOfInteger(Vec<i64>),
    ArrayOfNumber(Vec<NumberBits>),
    ArrayOfString(Vec<String>),
    ArrayOfBoolean(Vec<bool>),
}

/// The mathematical model of a runtime value.
pub enum ValueModel {
    Integer(i64),
    Number(u64),
    Char(char),
    Str(Seq<char>),
    Boolean(bool),
    ArrayOfInteger(Seq<i64>),
    ArrayOfNumber(Seq<u64>),
    ArrayOfString(Seq<Seq<char>>),
    ArrayOfBoolean(Seq<bool>),
}

impl View for Value {
    type V = ValueModel;

    open spec fn view(&self) -> ValueModel {
        match self {
            Value::Integer(i) => ValueModel::Integer(*i),
            Value::Number(b) => ValueModel::Number(b.0),
            Value::Char(c) => ValueModel::Char(*c),
            Value::String(s) => ValueModel::Str(s@),
            Value::Boolean(b) => ValueModel::Boolean(*b),
            Value::ArrayOfInteger(v) => ValueModel::ArrayOfInteger(v@),
            Value::ArrayOfNumber(v) => ValueModel::ArrayOfNumber(v.deep_view()),
            Value::ArrayOfString(v) => ValueModel::ArrayOfString(v.deep_view()),
            Value::ArrayOfBoolean(v) => ValueModel::ArrayOfBoolean(v@),
        }
    }
}

impl DeepView for Value {
    type V = ValueModel;

    open spec fn deep_view(&self) -> ValueModel {
        self.view()
    }
}

impl Clone for Value {
    /// Values have value semantics: a clone denotes the same model, and
    /// shares no mutable payload with the original.
    fn clone(&self) -> (r: Value)
        ensures
            r@ == self@,
    {
        match self {
            Value::Integer(i) => Value::Integer(*i),
            Value::Number(b) => Value::Number(*b),
            Value::Char(c) => Value::Char(*c),
            Value::String(s) => Value::String(s.clone()),
            Value::Boolean(b) => Value::Boolean(*b),
            Value::ArrayOfInteger(v) => {
                let c = v.clone();
                proof {
                    assert(c@ =~= v@);
                }
                Value::ArrayOfInteger(c)
            },
            Value::ArrayOfNumber(v) => {
                let c = v.clone();
                proof {
                    assert(c.deep_view() =~= v.deep_view());
                }
                Value::ArrayOfNumber(c)
            },
            Value::ArrayOfString(v) => {
                let c = v.clone();
                proof {
                    assert(c.deep_view() =~= v.deep_view());
                }
                Value::ArrayOfString(c)
            },
            Value::ArrayOfBoolean(v) => {
                let c = v.clone();
                proof {
                    assert(c@ =~= v@);
                }
                Value::ArrayOfBoolean(c)
            },
        }
    }
}

/// The textual form of a boolean.
pub open spec fn bool_text(b: bool) -> Seq<char> {
    if b {
        "true"@
    } else {
        "false"@
    }
}

/// The rendered items joined with `", "`, between square brackets: the
/// debug-style list form used for arrays. It is not meant to re-parse.
pub open spec fn joined_items(items: Seq<Seq<char>>) -> Seq<char>
    decreases items.len(),
{
    if items.len() == 0 {
        Seq::<char>::empty()
    } else if items.len() == 1 {
        items[0]
    } else {
        joined_items(items.drop_last()) + ", "@ + items.last()
    }
}

pub open spec fn array_text(items: Seq<Seq<char>>) -> Seq<char> {
    "["@ + joined_items(items) + "]"@
}

/// The rendering of a value, as `PRINT` emits it: scalars in their natural
/// textual form, arrays as a bracketed debug-style list.
pub open spec fn value_display(v: ValueModel) -> Seq<char> {
    match v {
        ValueModel::Integer(i) => i64_text(i as int),
        ValueModel::Number(b) => number_text(b),
        ValueModel::Char(c) => seq![c],
        ValueModel::Str(s) => s,
        ValueModel::Boolean(b) => bool_text(b),
        ValueModel::ArrayOfInteger(a) => array_text(a.map(|k: int, x: i64| i64_text(x as int))),
        ValueModel::ArrayOfNumber(a) => array_text(a.map(|k: int, x: u64| number_text(x))),
        ValueModel::ArrayOfString(a) => array_text(a.map(|k: int, x: Seq<char>| str_debug_text(x))),
        ValueModel::ArrayOfBoolean(a) => array_text(a.map(|k: int, x: bool| bool_text(x))),
    }
}

fn write_bool_text(b: bool, out: &mut String)
    ensures
        final(out)@ == old(out)@ + bool_text(b),
{
    if b {
        out.append("true");
    } else {
        out.append("false");
    }
}

fn write_i64_text(v: i64, out: &mut String)
    ensures
        final(out)@ == old(out)@ + i64_text(v as int),
{
    let mut buf: Vec<char> = Vec::new();
    push_i64_text(v, &mut buf);
    let s = string_from_chars(&buf);
    out.append(s.as_str());
}

/// Appends the rendering of `v` to `out`.
pub fn write_value_text(v: &Value, out: &mut String)
    ensures
        final(out)@ == old(out)@ + value_display(v@),
{
    match v {
        Value::Integer(i) => write_i64_text(*i, out),
        Value::Number(b) => {
            let s = crate::number::number_display(b.0);
            out.append(s.as_str());
        },
        Value::Char(c) => {
            let mut buf: Vec<char> = Vec::new();
            buf.push(*c);
            let s = string_from_chars(&buf);
            out.append(s.as_str());
            proof {
                assert(buf@ =~= seq![*c]);
            }
        },
        Value::String(s) => {
            out.append(s.as_str());
        },
        Value::Boolean(b) => write_bool_text(*b, out),
        Value::ArrayOfInteger(a) => {
            out.append("[");
            let ghost items = a@.map(|k: int, x: i64| i64_text(x as int));
            let mut i: usize = 0;
            while i < a.len()
                invariant
                    0 <= i <= a@.len(),
                    items == a@.map(|k: int, x: i64| i64_text(x as int)),
                    out@ == old(out)@ + "["@ + joined_items(items.take(i as int)),
                decreases a@.len() - i,
            {
                if i > 0 {
                    out.append(", ");
                }
                write_i64_text(a[i], out);
                proof {
                    lemma_joined_push(items, i as int);
                }
                i = i + 1;
            }
            out.append("]");
            proof {
                assert(items.take(a@.len() as int) =~= items);
            }
        },
        Value::ArrayOfNumber(a) => {
            out.append("[");
            let ghost items = a.deep_view().map(|k: int, x: u64| number_text(x));
            let mut i: usize = 0;
            while i < a.len()
                invariant
                    0 <= i <= a@.len(),
                    a.deep_view().len() == a@.len(),
                    items == a.deep_view().map(|k: int, x: u64| number_text(x)),
                    forall|k: int| 0 <= k < a@.len() ==> a.deep_view()[k] == a@[k]@,
                    out@ == old(out)@ + "["@ + joined_items(items.take(i as int)),
                decreases a@.len() - i,
            {
                if i > 0 {
                    out.append(", ");
                }
                let s = crate::number::number_display(a[i].0);
                out.append(s.as_str());
                proof {
                    lemma_joined_push(items, i as int);
                }
                i = i + 1;
            }
            out.append("]");
            proof {
                assert(items.take(a@.len() as int) =~= items);
            }
        },
        Value::ArrayOfString(a) => {
            out.append("[");
            let ghost items = a.deep_view().map(|k: int, x: Seq<char>| str_debug_text(x));
            let mut i: usize = 0;
            while i < a.len()
                invariant
                    0 <= i <= a@.len(),
                    a.deep_view().len() == a@.len(),
                    items == a.deep_view().map(|k: int, x: Seq<char>| str_debug_text(x)),
                    forall|k: int| 0 <= k < a@.len() ==> a.deep_view()[k] == a@[k]@,
                    out@ == old(out)@ + "["@ + joined_items(items.take(i as int)),
                decreases a@.len() - i,
            {
                if i > 0 {
                    out.append(", ");
                }
                let s = str_debug(a[i].as_str());
                out.append(s.as_str());
                proof {
                    lemma_joined_push(items, i as int);
                }
                i = i + 1;
            }
            out.append("]");
            proof {
                assert(items.take(a@.len() as int) =~= items);
            }
        },
        Value::ArrayOfBoolean(a) => {
            out.append("[");
            let ghost items = a@.map(|k: int, x: bool| bool_text(x));
            let mut i: usize = 0;
            while i < a.len()
                invariant
                    0 <= i <= a@.len(),
                    items == a@.map(|k: int, x: bool| bool_text(x)),
                    out@ == old(out)@ + "["@ + joined_items(items.take(i as int)),
                decreases a@.len() - i,
            {
                if i > 0 {
                    out.append(", ");
                }
                write_bool_text(a[i], out);
                proof {
                    lemma_joined_push(items, i as int);
                }
                i = i + 1;
            }
            out.append("]");
            proof {
                assert(items.take(a@.len() as int) =~= items);
            }
        },
    }
}

impl Value {
    /// The rendering of this value, as `PRINT` emits it.
    pub fn to_display_string(&self) -> (r: String)
        ensures
            r@ == value_display(self@),
    {
        let mut out = String::new();
        write_value_text(self, &mut out);
        out
    }
}

/// Extending the joined list by one item appends a separator (except for the
/// first item) and the item.
proof fn lemma_joined_push(items: Seq<Seq<char>>, i: int)
    requires
        0 <= i < items.len(),
    ensures
        joined_items(items.take(i + 1)) == if i == 0 {
            joined_items(items.take(i)) + items[i]
        } else {
            joined_items(items.take(i)) + ", "@ + items[i]
        },
{
    let u = items.take(i + 1);
    assert(u.drop_last() =~= items.take(i));
    assert(u.last() == items[i]);
    if i == 0 {
        assert(joined_items(u) == u[0]);
        assert(joined_items(items.take(0)) + items[0] =~= items[0]);
    }
}

} // verus!
