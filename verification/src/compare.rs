//! Structural equality and ordering of runtime values.
//!
//! Two values compare only when they hold the same kind. Scalars compare by
//! their payload — numbers with IEEE semantics, so zeros of both signs are
//! equal and a NaN compares with nothing. Arrays compare lexicographically,
//! element-wise, in their element's own order; strings by character.

use vstd::prelude::*;

use crate::number::number_eq;
use crate::number::number_equal;
use crate::number::number_less;
use crate::number::number_lt;
use crate::text::chars_vec;
use crate::value::NumberBits;
use crate::value::Value;
use crate::value::ValueModel;

verus! {

/// Whether two values hold the same data kind.
pub open spec fn same_kind(a: ValueModel, b: ValueModel) -> bool {
    match (a, b) {
        (ValueModel::Integer(_), ValueModel::Integer(_)) => true,
        (ValueModel::Number(_), ValueModel::Number(_)) => true,
        (ValueModel::Char(_), ValueModel::Char(_)) => true,
        (ValueModel::Str(_), ValueModel::Str(_)) => true,
        (ValueModel::Boolean(_), ValueModel::Boolean(_)) => true,
        (ValueModel::ArrayOfInteger(_), ValueModel::ArrayOfInteger(_)) => true,
        (ValueModel::ArrayOfNumber(_), ValueModel::ArrayOfNumber(_)) => true,
        (ValueModel::ArrayOfString(_), ValueModel::ArrayOfString(_)) => true,
        (ValueModel::ArrayOfBoolean(_), ValueModel::ArrayOfBoolean(_)) => true,
        _ => false,
    }
}

/// Element-wise IEEE equality of two number arrays.
pub open spec fn num_seq_eq(a: Seq<u64>, b: Seq<u64>) -> bool {
    a.len() == b.len() && forall|i: int| 0 <= i < a.len() ==> number_eq(#[trigger] a[i], b[i])
}

/// Lexicographic character order; in UTF-8 this agrees with byte order.
pub open spec fn seq_char_lt(a: Seq<char>, b: Seq<char>) -> bool
    decreases a.len(),
{
    if b.len() == 0 {
        false
    } else if a.len() == 0 {
        true
    } else if a[0] != b[0] {
        a[0] < b[0]
    } else {
        seq_char_lt(a.drop_first(), b.drop_first())
    }
}

pub open spec fn int_seq_lt(a: Seq<i64>, b: Seq<i64>) -> bool
    decreases a.len(),
{
    if b.len() == 0 {
        false
    } else if a.len() == 0 {
        true
    } else if a[0] != b[0] {
        a[0] < b[0]
    } else {
        int_seq_lt(a.drop_first(), b.drop_first())
    }
}

pub open spec fn bool_seq_lt(a: Seq<bool>, b: Seq<bool>) -> bool
    decreases a.len(),
{
    if b.len() == 0 {
        false
    } else if a.len() == 0 {
        true
    } else if a[0] != b[0] {
        !a[0]
    } else {
        bool_seq_lt(a.drop_first(), b.drop_first())
    }
}

/// Lexicographic order of number arrays: the first pair of elements that are
/// not IEEE-equal decides; a pair holding a NaN decides as not-less.
pub open spec fn num_seq_lt(a: Seq<u64>, b: Seq<u64>) -> bool
    decreases a.len(),
{
    if b.len() == 0 {
        false
    } else if a.len() == 0 {
        true
    } else if !number_eq(a[0], b[0]) {
        number_lt(a[0], b[0])
    } else {
        num_seq_lt(a.drop_first(), b.drop_first())
    }
}

pub open spec fn str_seq_lt(a: Seq<Seq<char>>, b: Seq<Seq<char>>) -> bool
    decreases a.len(),
{
    if b.len() == 0 {
        false
    } else if a.len() == 0 {
        true
    } else if a[0] != b[0] {
        seq_char_lt(a[0], b[0])
    } else {
        str_seq_lt(a.drop_first(), b.drop_first())
    }
}

/// Structural equality of two values; values of different kinds are unequal.
pub open spec fn model_eq(a: ValueModel, b: ValueModel) -> bool {
    match (a, b) {
        (ValueModel::Integer(x), ValueModel::Integer(y)) => x == y,
        (ValueModel::Number(x), ValueModel::Number(y)) => number_eq(x, y),
        (ValueModel::Char(x), ValueModel::Char(y)) => x == y,
        (ValueModel::Str(x), ValueModel::Str(y)) => x == y,
        (ValueModel::Boolean(x), ValueModel::Boolean(y)) => x == y,
        (ValueModel::ArrayOfInteger(x), ValueModel::ArrayOfInteger(y)) => x == y,
        (ValueModel::ArrayOfNumber(x), ValueModel::ArrayOfNumber(y)) => num_seq_eq(x, y),
        (ValueModel::ArrayOfString(x), ValueModel::ArrayOfString(y)) => x == y,
        (ValueModel::ArrayOfBoolean(x), ValueModel::ArrayOfBoolean(y)) => x == y,
        _ => false,
    }
}

/// Strict order of two values of the same kind; false across kinds.
pub open spec fn model_lt(a: ValueModel, b: ValueModel) -> bool {
    match (a, b) {
        (ValueModel::Integer(x), ValueModel::Integer(y)) => x < y,
        (ValueModel::Number(x), ValueModel::Number(y)) => number_lt(x, y),
        (ValueModel::Char(x), ValueModel::Char(y)) => x < y,
        (ValueModel::Str(x), ValueModel::Str(y)) => seq_char_lt(x, y),
        (ValueModel::Boolean(x), ValueModel::Boolean(y)) => !x && y,
        (ValueModel::ArrayOfInteger(x), ValueModel::ArrayOfInteger(y)) => int_seq_lt(x, y),
        (ValueModel::ArrayOfNumber(x), ValueModel::ArrayOfNumber(y)) => num_seq_lt(x, y),
        (ValueModel::ArrayOfString(x), ValueModel::ArrayOfString(y)) => str_seq_lt(x, y),
        (ValueModel::ArrayOfBoolean(x), ValueModel::ArrayOfBoolean(y)) => bool_seq_lt(x, y),
        _ => false,
    }
}

/// Non-strict order: strictly less, or equal. For IEEE numbers this is
/// exactly the `<=` comparison, and for arrays exactly the lexicographic
/// `<=`, including the treatment of NaN pairs as unordered.
pub open spec fn model_le(a: ValueModel, b: ValueModel) -> bool {
    model_lt(a, b) || model_eq(a, b)
}

/// Whether two values hold the same data kind.
pub fn value_same_kind(a: &Value, b: &Value) -> (r: bool)
    ensures
        r == same_kind(a@, b@),
{
    match (a, b) {
        (Value::Integer(_), Value::Integer(_)) => true,
        (Value::Number(_), Value::Number(_)) => true,
        (Value::Char(_), Value::Char(_)) => true,
        (Value::String(_), Value::String(_)) => true,
        (Value::Boolean(_), Value::Boolean(_)) => true,
        (Value::ArrayOfInteger(_), Value::ArrayOfInteger(_)) => true,
        (Value::ArrayOfNumber(_), Value::ArrayOfNumber(_)) => true,
        (Value::ArrayOfString(_), Value::ArrayOfString(_)) => true,
        (Value::ArrayOfBoolean(_), Value::ArrayOfBoolean(_)) => true,
        _ => false,
    }
}

#[verifier::loop_isolation(false)]
fn int_vec_eq(a: &Vec<i64>, b: &Vec<i64>) -> (r: bool)
    ensures
        r == (a@ == b@),
{
    if a.len() != b.len() {
        proof {
            assert(a@ != b@);
        }
        return false;
    }
    let mut i: usize = 0;
    while i < a.len()
        invariant
            0 <= i <= a@.len(),
            forall|k: int| 0 <= k < i ==> a@[k] == b@[k],
        decreases a@.len() - i,
    {
        if a[i] != b[i] {
            return false;
        }
        i = i + 1;
    }
    proof {
        assert(a@ =~= b@);
    }
    true
}

#[verifier::loop_isolation(false)]
fn bool_vec_eq(a: &Vec<bool>, b: &Vec<bool>) -> (r: bool)
    ensures
        r == (a@ == b@),
{
    if a.len() != b.len() {
        proof {
            assert(a@ != b@);
        }
        return false;
    }
    let mut i: usize = 0;
    while i < a.len()
        invariant
            0 <= i <= a@.len(),
            forall|k: int| 0 <= k < i ==> a@[k] == b@[k],
        decreases a@.len() - i,
    {
        if a[i] != b[i] {
            return false;
        }
        i = i + 1;
    }
    proof {
        assert(a@ =~= b@);
    }
    true
}

#[verifier::loop_isolation(false)]
fn num_vec_eq(a: &Vec<NumberBits>, b: &Vec<NumberBits>) -> (r: bool)
    ensures
        r == num_seq_eq(a.deep_view(), b.deep_view()),
{
    proof {
        assert(a.deep_view().len() == a@.len());
        assert(b.deep_view().len() == b@.len());
    }
    if a.len() != b.len() {
        return false;
    }
    let mut i: usize = 0;
    while i < a.len()
        invariant
            0 <= i <= a@.len(),
            forall|k: int| 0 <= k < i ==> number_eq(#[trigger] a.deep_view()[k], b.deep_view()[k]),
        decreases a@.len() - i,
    {
        if !number_equal(a[i].0, b[i].0) {
            proof {
                assert(a.deep_view()[i as int] == a@[i as int].0);
                assert(b.deep_view()[i as int] == b@[i as int].0);
            }
            return false;
        }
        i = i + 1;
    }
    true
}

#[verifier::loop_isolation(false)]
fn str_vec_eq(a: &Vec<String>, b: &Vec<String>) -> (r: bool)
    ensures
        r == (a.deep_view() == b.deep_view()),
{
    proof {
        assert(a.deep_view().len() == a@.len());
        assert(b.deep_view().len() == b@.len());
    }
    if a.len() != b.len() {
        proof {
            assert(a.deep_view() != b.deep_view());
        }
        return false;
    }
    let mut i: usize = 0;
    while i < a.len()
        invariant
            0 <= i <= a@.len(),
            forall|k: int| 0 <= k < i ==> #[trigger] a.deep_view()[k] == b.deep_view()[k],
        decreases a@.len() - i,
    {
        if !a[i].eq(&b[i]) {
            proof {
                assert(a.deep_view()[i as int] == a@[i as int]@);
                assert(b.deep_view()[i as int] == b@[i as int]@);
            }
            return false;
        }
        i = i + 1;
    }
    proof {
        assert(a.deep_view() =~~= b.deep_view());
    }
    true
}

/// Structural equality, as `model_eq` describes.
pub fn value_eq(a: &Value, b: &Value) -> (r: bool)
    ensures
        r == model_eq(a@, b@),
{
    match (a, b) {
        (Value::Integer(x), Value::Integer(y)) => *x == *y,
        (Value::Number(x), Value::Number(y)) => number_equal(x.0, y.0),
        (Value::Char(x), Value::Char(y)) => *x == *y,
        (Value::String(x), Value::String(y)) => x.eq(y),
        (Value::Boolean(x), Value::Boolean(y)) => *x == *y,
        (Value::ArrayOfInteger(x), Value::ArrayOfInteger(y)) => int_vec_eq(x, y),
        (Value::ArrayOfNumber(x), Value::ArrayOfNumber(y)) => num_vec_eq(x, y),
        (Value::ArrayOfString(x), Value::ArrayOfString(y)) => str_vec_eq(x, y),
        (Value::ArrayOfBoolean(x), Value::ArrayOfBoolean(y)) => bool_vec_eq(x, y),
        _ => false,
    }
}

fn char_vec_lt_from(a: &Vec<char>, b: &Vec<char>, i: usize) -> (r: bool)
    requires
        i <= a@.len(),
        i <= b@.len(),
    ensures
        r == seq_char_lt(a@.skip(i as int), b@.skip(i as int)),
    decreases a@.len() - i,
{
    proof {
        if i < a@.len() && i < b@.len() {
            assert(a@.skip(i as int).drop_first() =~= a@.skip(i + 1));
            assert(b@.skip(i as int).drop_first() =~= b@.skip(i + 1));
        }
    }
    if i >= b.len() {
        false
    } else if i >= a.len() {
        true
    } else if a[i] != b[i] {
        a[i] < b[i]
    } else {
        char_vec_lt_from(a, b, i + 1)
    }
}

/// Lexicographic character order of two strings.
fn str_lt(a: &str, b: &str) -> (r: bool)
    ensures
        r == seq_char_lt(a@, b@),
{
    let av = chars_vec(a);
    let bv = chars_vec(b);
    proof {
        assert(av@.skip(0) =~= a@);
        assert(bv@.skip(0) =~= b@);
    }
    char_vec_lt_from(&av, &bv, 0)
}

fn int_vec_lt_from(a: &Vec<i64>, b: &Vec<i64>, i: usize) -> (r: bool)
    requires
        i <= a@.len(),
        i <= b@.len(),
    ensures
        r == int_seq_lt(a@.skip(i as int), b@.skip(i as int)),
    decreases a@.len() - i,
{
    proof {
        if i < a@.len() && i < b@.len() {
            assert(a@.skip(i as int).drop_first() =~= a@.skip(i + 1));
            assert(b@.skip(i as int).drop_first() =~= b@.skip(i + 1));
        }
    }
    if i >= b.len() {
        false
    } else if i >= a.len() {
        true
    } else if a[i] != b[i] {
        a[i] < b[i]
    } else {
        int_vec_lt_from(a, b, i + 1)
    }
}

fn bool_vec_lt_from(a: &Vec<bool>, b: &Vec<bool>, i: usize) -> (r: bool)
    requires
        i <= a@.len(),
        i <= b@.len(),
    ensures
        r == bool_seq_lt(a@.skip(i as int), b@.skip(i as int)),
    decreases a@.len() - i,
{
    proof {
        if i < a@.len() && i < b@.len() {
            assert(a@.skip(i as int).drop_first() =~= a@.skip(i + 1));
            assert(b@.skip(i as int).drop_first() =~= b@.skip(i + 1));
        }
    }
    if i >= b.len() {
        false
    } else if i >= a.len() {
        true
    } else if a[i] != b[i] {
        !a[i]
    } else {
        bool_vec_lt_from(a, b, i + 1)
    }
}

fn num_vec_lt_from(a: &Vec<NumberBits>, b: &Vec<NumberBits>, i: usize) -> (r: bool)
    requires
        i <= a@.len(),
        i <= b@.len(),
    ensures
        r == num_seq_lt(a.deep_view().skip(i as int), b.deep_view().skip(i as int)),
    decreases a@.len() - i,
{
    proof {
        assert(a.deep_view().len() == a@.len());
        assert(b.deep_view().len() == b@.len());
        if i < a@.len() && i < b@.len() {
            assert(a.deep_view().skip(i as int).drop_first() =~= a.deep_view().skip(i + 1));
            assert(b.deep_view().skip(i as int).drop_first() =~= b.deep_view().skip(i + 1));
        }
    }
    if i >= b.len() {
        false
    } else if i >= a.len() {
        true
    } else if !number_equal(a[i].0, b[i].0) {
        number_less(a[i].0, b[i].0)
    } else {
        num_vec_lt_from(a, b, i + 1)
    }
}

fn str_vec_lt_from(a: &Vec<String>, b: &Vec<String>, i: usize) -> (r: bool)
    requires
        i <= a@.len(),
        i <= b@.len(),
    ensures
        r == str_seq_lt(a.deep_view().skip(i as int), b.deep_view().skip(i as int)),
    decreases a@.len() - i,
{
    proof {
        assert(a.deep_view().len() == a@.len());
        assert(b.deep_view().len() == b@.len());
        if i < a@.len() && i < b@.len() {
            assert(a.deep_view().skip(i as int).drop_first() =~= a.deep_view().skip(i + 1));
            assert(b.deep_view().skip(i as int).drop_first() =~= b.deep_view().skip(i + 1));
        }
    }
    if i >= b.len() {
        false
    } else if i >= a.len() {
        true
    } else if !a[i].eq(&b[i]) {
        str_lt(a[i].as_str(), b[i].as_str())
    } else {
        str_vec_lt_from(a, b, i + 1)
    }
}

/// Strict order, as `model_lt` describes.
pub fn value_lt(a: &Value, b: &Value) -> (r: bool)
    ensures
        r == model_lt(a@, b@),
{
    match (a, b) {
        (Value::Integer(x), Value::Integer(y)) => *x < *y,
        (Value::Number(x), Value::Number(y)) => number_less(x.0, y.0),
        (Value::Char(x), Value::Char(y)) => *x < *y,
        (Value::String(x), Value::String(y)) => str_lt(x.as_str(), y.as_str()),
        (Value::Boolean(x), Value::Boolean(y)) => !*x && *y,
        (Value::ArrayOfInteger(x), Value::ArrayOfInteger(y)) => {
            proof {
                assert(x@.skip(0) =~= x@);
                assert(y@.skip(0) =~= y@);
            }
            int_vec_lt_from(x, y, 0)
        },
        (Value::ArrayOfNumber(x), Value::ArrayOfNumber(y)) => {
            proof {
                assert(x.deep_view().skip(0) =~= x.deep_view());
                assert(y.deep_view().skip(0) =~= y.deep_view());
            }
            num_vec_lt_from(x, y, 0)
        },
        (Value::ArrayOfString(x), Value::ArrayOfString(y)) => {
            proof {
                assert(x.deep_view().skip(0) =~= x.deep_view());
                assert(y.deep_view().skip(0) =~= y.deep_view());
            }
            str_vec_lt_from(x, y, 0)
        },
        (Value::ArrayOfBoolean(x), Value::ArrayOfBoolean(y)) => {
            proof {
                assert(x@.skip(0) =~= x@);
                assert(y@.skip(0) =~= y@);
            }
            bool_vec_lt_from(x, y, 0)
        },
        _ => false,
    }
}

/// Non-strict order, as `model_le` describes.
pub fn value_le(a: &Value, b: &Value) -> (r: bool)
    ensures
        r == model_le(a@, b@),
{
    if value_lt(a, b) {
        true
    } else {
        value_eq(a, b)
    }
}

} // verus!
