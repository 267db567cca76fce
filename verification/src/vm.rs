//! The variable store, the routine table, and their error taxonomy.
//!
//! Both tables are association lists keyed by name, with distinct keys as a
//! type invariant; their mathematical model is a `Map` from the name's
//! characters to the entry's model.

use vstd::prelude::*;

use crate::instruction::Instruction;
use crate::instruction::InstrModel;
use crate::instruction::Routine;
use crate::instruction::RoutineModel;
use crate::value::NumberBits;
use crate::value::Value;
use crate::value::ValueModel;

verus! {

/// How executing an instruction can fail.
#[derive(Debug, PartialEq)]
pub enum VMError {
    VariableDoesNotExist(String),
    RoutineDoesNotExist(String),
    ExpectedBoolean(Value),
    MismatchingTypes(Value, Value),
    ExpectedArray(Value),
    ExpectedArithmeticTypes(Value, Value),
    IndexOutOfBound { array_size: usize, index: usize },
    NegativeIndex,
    NonIntegerIndex,
    /// An integer division or modulo had a zero divisor; reported rather
    /// than trapping.
    DivisionByZero,
    /// A chain of routine calls went deeper than the executor's fuel allows.
    RecursionLimitReached,
}

/// The model of an execution error.
pub enum VMErrorModel {
    VariableDoesNotExist(Seq<char>),
    RoutineDoesNotExist(Seq<char>),
    ExpectedBoolean(ValueModel),
    MismatchingTypes(ValueModel, ValueModel),
    ExpectedArray(ValueModel),
    ExpectedArithmeticTypes(ValueModel, ValueModel),
    IndexOutOfBound { array_size: int, index: int },
    NegativeIndex,
    NonIntegerIndex,
    DivisionByZero,
    RecursionLimitReached,
}

impl View for VMError {
    type V = VMErrorModel;

    open spec fn view(&self) -> VMErrorModel {
        match self {
            VMError::VariableDoesNotExist(n) => VMErrorModel::VariableDoesNotExist(n@),
            VMError::RoutineDoesNotExist(n) => VMErrorModel::RoutineDoesNotExist(n@),
            VMError::ExpectedBoolean(v) => VMErrorModel::ExpectedBoolean(v@),
            VMError::MismatchingTypes(a, b) => VMErrorModel::MismatchingTypes(a@, b@),
            VMError::ExpectedArray(v) => VMErrorModel::ExpectedArray(v@),
            VMError::ExpectedArithmeticTypes(a, b) => VMErrorModel::ExpectedArithmeticTypes(
                a@,
                b@,
            ),
            VMError::IndexOutOfBound { array_size, index } => VMErrorModel::IndexOutOfBound {
                array_size: *array_size as int,
                index: *index as int,
            },
            VMError::NegativeIndex => VMErrorModel::NegativeIndex,
            VMError::NonIntegerIndex => VMErrorModel::NonIntegerIndex,
            VMError::DivisionByZero => VMErrorModel::DivisionByZero,
            VMError::RecursionLimitReached => VMErrorModel::RecursionLimitReached,
        }
    }
}

/// No two entries share a key.
pub open spec fn distinct_keys<T>(s: Seq<(String, T)>) -> bool {
    forall|i: int, j: int| 0 <= i < j < s.len() ==> s[i].0@ != s[j].0@
}

/// The map denoted by an association list; a later entry would shadow an
/// earlier one of the same key.
pub open spec fn entries_model<T: DeepView>(s: Seq<(String, T)>) -> Map<
    Seq<char>,
    <T as DeepView>::V,
>
    decreases s.len(),
{
    if s.len() == 0 {
        Map::empty()
    } else {
        entries_model(s.drop_last()).insert(s.last().0@, s.last().1.deep_view())
    }
}

proof fn lemma_entries_lookup<T: DeepView>(s: Seq<(String, T)>, name: Seq<char>)
    requires
        distinct_keys(s),
    ensures
        entries_model(s).contains_key(name) <==> exists|i: int|
            0 <= i < s.len() && (#[trigger] s[i]).0@ == name,
        forall|i: int|
            0 <= i < s.len() && (#[trigger] s[i]).0@ == name ==> entries_model(s)[name]
                == s[i].1.deep_view(),
    decreases s.len(),
{
    if s.len() > 0 {
        assert(distinct_keys(s.drop_last())) by {
            assert(forall|i: int|
                0 <= i < s.len() - 1 ==> s.drop_last()[i] == #[trigger] s[i]);
        }
        lemma_entries_lookup(s.drop_last(), name);
        if s.last().0@ == name {
            assert((s[s.len() - 1]).0@ == name);
        } else {
            assert(forall|i: int|
                0 <= i < s.len() - 1 ==> s.drop_last()[i] == #[trigger] s[i]);
            if entries_model(s).contains_key(name) {
                let i = choose|i: int|
                    0 <= i < s.len() - 1 && (#[trigger] s.drop_last()[i]).0@ == name;
                assert((s[i]).0@ == name);
            }
            if exists|i: int| 0 <= i < s.len() && (#[trigger] s[i]).0@ == name {
                let i = choose|i: int| 0 <= i < s.len() && (#[trigger] s[i]).0@ == name;
                assert(i < s.len() - 1);
                assert(s.drop_last()[i] == s[i]);
            }
        }
    }
}

proof fn lemma_entries_update<T: DeepView>(s: Seq<(String, T)>, i: int, p: (String, T))
    requires
        distinct_keys(s),
        0 <= i < s.len(),
        p.0@ == s[i].0@,
    ensures
        entries_model(s.update(i, p)) =~= entries_model(s).insert(p.0@, p.1.deep_view()),
    decreases s.len(),
{
    let u = s.update(i, p);
    if i == s.len() - 1 {
        assert(u.drop_last() =~= s.drop_last());
        assert(u.last() == p);
    } else {
        assert(distinct_keys(s.drop_last())) by {
            assert(forall|k: int|
                0 <= k < s.len() - 1 ==> s.drop_last()[k] == #[trigger] s[k]);
        }
        assert(u.drop_last() =~= s.drop_last().update(i, p));
        assert(s.drop_last()[i] == s[i]);
        lemma_entries_update(s.drop_last(), i, p);
        assert(u.last() == s.last());
        assert(s.last().0@ != p.0@);
    }
}

proof fn lemma_entries_remove<T: DeepView>(s: Seq<(String, T)>, i: int)
    requires
        distinct_keys(s),
        0 <= i < s.len(),
    ensures
        entries_model(s.remove(i)) =~= entries_model(s).remove(s[i].0@),
    decreases s.len(),
{
    let u = s.remove(i);
    lemma_entries_lookup(s, s[i].0@);
    if i == s.len() - 1 {
        assert(u =~= s.drop_last());
        assert(distinct_keys(s.drop_last())) by {
            assert(forall|k: int|
                0 <= k < s.len() - 1 ==> s.drop_last()[k] == #[trigger] s[k]);
        }
        lemma_entries_lookup(s.drop_last(), s[i].0@);
        if entries_model(s.drop_last()).contains_key(s[i].0@) {
            let k = choose|k: int|
                0 <= k < s.len() - 1 && #[trigger] s.drop_last()[k].0@ == s[i].0@;
            assert(s[k].0@ == s[i].0@);
            assert(false);
        }
    } else {
        assert(distinct_keys(s.drop_last())) by {
            assert(forall|k: int|
                0 <= k < s.len() - 1 ==> s.drop_last()[k] == #[trigger] s[k]);
        }
        assert(u.drop_last() =~= s.drop_last().remove(i));
        assert(s.drop_last()[i] == s[i]);
        lemma_entries_remove(s.drop_last(), i);
        assert(u.last() == s.last());
        assert(s.last().0@ != s[i].0@);
    }
}

/// The variable store: a mapping from variable name to value. Created empty;
/// entries are written by `STORE`-like instructions and removed by `FREE`.
#[derive(Debug)]
pub struct Memory {
    entries: Vec<(String, Value)>,
}

impl View for Memory {
    type V = Map<Seq<char>, ValueModel>;

    closed spec fn view(&self) -> Map<Seq<char>, ValueModel> {
        entries_model(self.entries@)
    }
}

impl Default for Memory {
    /// An empty store.
    fn default() -> (r: Memory)
        ensures
            r@ == Map::<Seq<char>, ValueModel>::empty(),
    {
        let r = Memory { entries: Vec::new() };
        proof {
            assert(r@ =~= Map::<Seq<char>, ValueModel>::empty());
        }
        r
    }
}

impl Memory {
    #[verifier::type_invariant]
    spec fn wf(self) -> bool {
        distinct_keys(self.entries@)
    }

    /// Looks a name up; the index of its entry, if it has one.
    #[verifier::loop_isolation(false)]
    fn find(&self, name: &str) -> (r: Option<usize>)
        ensures
            match r {
                Some(i) => {
                    &&& i < self.entries@.len()
                    &&& self.entries@[i as int].0@ == name@
                    &&& self@.contains_key(name@)
                    &&& self@[name@] == self.entries@[i as int].1@
                },
                None => !self@.contains_key(name@),
            },
    {
        proof {
            use_type_invariant(&*self);
            lemma_entries_lookup(self.entries@, name@);
        }
        let key = name.to_owned();
        let mut i: usize = 0;
        while i < self.entries.len()
            invariant
                0 <= i <= self.entries@.len(),
                key@ == name@,
                forall|k: int| 0 <= k < i ==> self.entries@[k].0@ != name@,
            decreases self.entries@.len() - i,
        {
            if self.entries[i].0.eq(&key) {
                return Some(i);
            }
            i = i + 1;
        }
        None
    }

    /// Binds a value to a name, overwriting any previous binding.
    pub fn store(&mut self, name: &str, value: Value)
        ensures
            final(self)@ == old(self)@.insert(name@, value@),
    {
        proof {
            use_type_invariant(&*self);
            lemma_entries_lookup(self.entries@, name@);
        }
        let found = self.find(name);
        let key = name.to_owned();
        let ghost old_s = self.entries@;
        let mut entries: Vec<(String, Value)> = Vec::new();
        core::mem::swap(&mut entries, &mut self.entries);
        match found {
            Some(i) => {
                proof {
                    lemma_entries_update(entries@, i as int, (key, value));
                }
                entries.set(i, (key, value));
                proof {
                    assert(forall|a: int|
                        0 <= a < entries@.len() ==> (#[trigger] entries@[a]).0@ == old_s[a].0@);
                    assert(distinct_keys(entries@));
                }
            },
            None => {
                entries.push((key, value));
                proof {
                    assert(entries@.drop_last() =~= old_s);
                    assert(forall|k: int|
                        0 <= k < old_s.len() ==> (#[trigger] old_s[k]).0@ != name@);
                    assert(forall|a: int|
                        0 <= a < entries@.len() - 1 ==> (#[trigger] entries@[a]) == old_s[a]);
                    assert(distinct_keys(entries@));
                }
            },
        }
        self.entries = entries;
    }

    /// The value bound to a name; failing, the missing-variable error.
    pub fn load(&self, name: &str) -> (r: Result<&Value, VMError>)
        ensures
            match r {
                Ok(v) => self@.contains_key(name@) && v@ == self@[name@],
                Err(e) => !self@.contains_key(name@) && e@ == VMErrorModel::VariableDoesNotExist(
                    name@,
                ),
            },
    {
        match self.find(name) {
            Some(i) => Ok(&self.entries[i].1),
            None => Err(VMError::VariableDoesNotExist(name.to_owned())),
        }
    }

    /// Removes a name's binding; failing, the missing-variable error.
    pub fn free(&mut self, name: &str) -> (r: Result<(), VMError>)
        ensures
            match r {
                Ok(()) => {
                    &&& old(self)@.contains_key(name@)
                    &&& final(self)@ == old(self)@.remove(name@)
                },
                Err(e) => {
                    &&& !old(self)@.contains_key(name@)
                    &&& final(self)@ == old(self)@
                    &&& e@ == VMErrorModel::VariableDoesNotExist(name@)
                },
            },
    {
        proof {
            use_type_invariant(&*self);
        }
        let found = self.find(name);
        match found {
            Some(i) => {
                let mut entries: Vec<(String, Value)> = Vec::new();
                core::mem::swap(&mut entries, &mut self.entries);
                proof {
                    lemma_entries_remove(entries@, i as int);
                    assert(forall|a: int, b: int|
                        0 <= a < b < entries@.remove(i as int).len() ==> entries@.remove(
                            i as int,
                        )[a].0@ != entries@.remove(i as int)[b].0@) by {
                        assert(forall|k: int|
                            0 <= k < entries@.len() - 1 ==> entries@.remove(i as int)[k] == (
                            if k < i {
                                #[trigger] entries@[k]
                            } else {
                                entries@[k + 1]
                            }));
                    }
                }
                entries.remove(i);
                self.entries = entries;
                Ok(())
            },
            None => Err(VMError::VariableDoesNotExist(name.to_owned())),
        }
    }
}

/// Loading a name from the store: the value, or the missing-variable error.
pub open spec fn spec_load(m: Map<Seq<char>, ValueModel>, name: Seq<char>) -> Result<
    ValueModel,
    VMErrorModel,
> {
    if m.contains_key(name) {
        Ok(m[name])
    } else {
        Err(VMErrorModel::VariableDoesNotExist(name))
    }
}

/// Resolving an index operand: the named variable must hold an integer that
/// is strictly greater than zero (so index zero is rejected, like a negative
/// one), and is then cast to an unsigned machine index.
pub open spec fn spec_load_index(m: Map<Seq<char>, ValueModel>, name: Seq<char>) -> Result<
    int,
    VMErrorModel,
> {
    match spec_load(m, name) {
        Err(e) => Err(e),
        Ok(v) => match v {
            ValueModel::Integer(i) => if i > 0 {
                Ok((i as usize) as int)
            } else {
                Err(VMErrorModel::NegativeIndex)
            },
            _ => Err(VMErrorModel::NonIntegerIndex),
        },
    }
}

impl Memory {
    /// Resolves an index operand, as `spec_load_index` describes.
    pub fn load_index(&self, name: &str) -> (r: Result<usize, VMError>)
        ensures
            match r {
                Ok(i) => spec_load_index(self@, name@) == Ok::<int, VMErrorModel>(i as int),
                Err(e) => spec_load_index(self@, name@) == Err::<int, VMErrorModel>(e@),
            },
    {
        let v = match self.load(name) {
            Ok(v) => v,
            Err(e) => {
                return Err(e);
            },
        };
        match v {
            Value::Integer(i) => {
                if *i > 0 {
                    Ok(*i as usize)
                } else {
                    Err(VMError::NegativeIndex)
                }
            },
            _ => Err(VMError::NonIntegerIndex),
        }
    }
}

/// Copies the element at an index out of a vector; an index at or past the
/// end reports the out-of-bounds error with the vector's length.
pub fn vector_get_copy_at<T: Clone>(vec: &Vec<T>, index: usize) -> (r: Result<T, VMError>)
    ensures
        match r {
            Ok(v) => index < vec@.len() && vstd::pervasive::cloned::<T>(vec@[index as int], v),
            Err(e) => {
                &&& index >= vec@.len()
                &&& e@ == (VMErrorModel::IndexOutOfBound {
                    array_size: vec@.len() as int,
                    index: index as int,
                })
            },
        },
{
    if index < vec.len() {
        Ok(vec[index].clone())
    } else {
        Err(VMError::IndexOutOfBound { array_size: vec.len(), index })
    }
}

/// Overwrites the element at an index; an index at or past the end reports
/// the out-of-bounds error and leaves the vector unchanged.
pub fn vector_set_at<T>(vec: &mut Vec<T>, new_value: T, index: usize) -> (r: Result<(), VMError>)
    ensures
        match r {
            Ok(()) => {
                &&& index < old(vec)@.len()
                &&& final(vec)@ == old(vec)@.update(index as int, new_value)
            },
            Err(e) => {
                &&& index >= old(vec)@.len()
                &&& final(vec)@ == old(vec)@
                &&& e@ == (VMErrorModel::IndexOutOfBound {
                    array_size: old(vec)@.len() as int,
                    index: index as int,
                })
            },
        },
{
    if index < vec.len() {
        vec.set(index, new_value);
        Ok(())
    } else {
        Err(VMError::IndexOutOfBound { array_size: vec.len(), index })
    }
}

/// Inserts an element before an occupied position; inserting at or past the
/// current end reports the out-of-bounds error.
pub fn vector_insert<T>(vec: &mut Vec<T>, new_value: T, index: usize) -> (r: Result<(), VMError>)
    ensures
        match r {
            Ok(()) => {
                &&& index < old(vec)@.len()
                &&& final(vec)@ == old(vec)@.insert(index as int, new_value)
            },
            Err(e) => {
                &&& index >= old(vec)@.len()
                &&& final(vec)@ == old(vec)@
                &&& e@ == (VMErrorModel::IndexOutOfBound {
                    array_size: old(vec)@.len() as int,
                    index: index as int,
                })
            },
        },
{
    if vec.len() > index {
        vec.insert(index, new_value);
        Ok(())
    } else {
        Err(VMError::IndexOutOfBound { array_size: vec.len(), index })
    }
}

/// Removes the element at an index; an index at or past the end reports the
/// out-of-bounds error.
pub fn vector_remove<T>(vec: &mut Vec<T>, index: usize) -> (r: Result<(), VMError>)
    ensures
        match r {
            Ok(()) => {
                &&& index < old(vec)@.len()
                &&& final(vec)@ == old(vec)@.remove(index as int)
            },
            Err(e) => {
                &&& index >= old(vec)@.len()
                &&& final(vec)@ == old(vec)@
                &&& e@ == (VMErrorModel::IndexOutOfBound {
                    array_size: old(vec)@.len() as int,
                    index: index as int,
                })
            },
        },
{
    if vec.len() > index {
        vec.remove(index);
        Ok(())
    } else {
        Err(VMError::IndexOutOfBound { array_size: vec.len(), index })
    }
}

/// The routine table: a mapping from routine name to committed routine. A
/// later definition under the same name replaces the earlier one.
#[derive(Debug)]
pub struct Routines {
    entries: Vec<(String, Routine)>,
}

impl View for Routines {
    type V = Map<Seq<char>, RoutineModel>;

    closed spec fn view(&self) -> Map<Seq<char>, RoutineModel> {
        entries_model(self.entries@)
    }
}

impl Routines {
    #[verifier::type_invariant]
    spec fn wf(self) -> bool {
        distinct_keys(self.entries@)
    }

    /// An empty routine table.
    pub fn new() -> (r: Routines)
        ensures
            r@ == Map::<Seq<char>, RoutineModel>::empty(),
    {
        let r = Routines { entries: Vec::new() };
        proof {
            assert(r@ =~= Map::<Seq<char>, RoutineModel>::empty());
        }
        r
    }

    #[verifier::loop_isolation(false)]
    fn find(&self, name: &str) -> (r: Option<usize>)
        ensures
            match r {
                Some(i) => {
                    &&& i < self.entries@.len()
                    &&& self.entries@[i as int].0@ == name@
                    &&& self@.contains_key(name@)
                    &&& self@[name@] == self.entries@[i as int].1@
                },
                None => !self@.contains_key(name@),
            },
    {
        proof {
            use_type_invariant(&*self);
            lemma_entries_lookup(self.entries@, name@);
        }
        let key = name.to_owned();
        let mut i: usize = 0;
        while i < self.entries.len()
            invariant
                0 <= i <= self.entries@.len(),
                key@ == name@,
                forall|k: int| 0 <= k < i ==> self.entries@[k].0@ != name@,
            decreases self.entries@.len() - i,
        {
            if self.entries[i].0.eq(&key) {
                return Some(i);
            }
            i = i + 1;
        }
        None
    }

    /// Commits a routine under a name, replacing any earlier one.
    pub fn insert(&mut self, name: String, routine: Routine)
        ensures
            final(self)@ == old(self)@.insert(name@, routine@),
    {
        proof {
            use_type_invariant(&*self);
            lemma_entries_lookup(self.entries@, name@);
        }
        let found = self.find(name.as_str());
        let ghost old_s = self.entries@;
        let mut entries: Vec<(String, Routine)> = Vec::new();
        core::mem::swap(&mut entries, &mut self.entries);
        match found {
            Some(i) => {
                proof {
                    lemma_entries_update(entries@, i as int, (name, routine));
                }
                entries.set(i, (name, routine));
                proof {
                    assert(forall|a: int|
                        0 <= a < entries@.len() ==> (#[trigger] entries@[a]).0@ == old_s[a].0@);
                    assert(distinct_keys(entries@));
                }
            },
            None => {
                entries.push((name, routine));
                proof {
                    assert(entries@.drop_last() =~= old_s);
                    assert(forall|k: int|
                        0 <= k < old_s.len() ==> (#[trigger] old_s[k]).0@ != name@);
                    assert(forall|a: int|
                        0 <= a < entries@.len() - 1 ==> (#[trigger] entries@[a]) == old_s[a]);
                    assert(distinct_keys(entries@));
                }
            },
        }
        self.entries = entries;
    }

    /// The routine committed under a name, if any.
    pub fn get(&self, name: &str) -> (r: Option<&Routine>)
        ensures
            match r {
                Some(rt) => self@.contains_key(name@) && rt@ == self@[name@],
                None => !self@.contains_key(name@),
            },
    {
        match self.find(name) {
            Some(i) => Some(&self.entries[i].1),
            None => None,
        }
    }
}


/// An arithmetic operation kind.
#[derive(Debug, Clone, Copy, PartialEq, Eq, Structural)]
pub enum ArithOp {
    Addition,
    Subtraction,
    Multiplication,
    Division,
    Modulo,
}

/// A comparison operation kind.
#[derive(Debug, Clone, Copy, PartialEq, Eq, Structural)]
pub enum CompareOp {
    Equal,
    Different,
    Less,
    LessOrEqual,
    Greater,
    GreaterOrEqual,
}

/// The absolute value.
pub open spec fn int_abs(x: int) -> int {
    if x < 0 {
        -x
    } else {
        x
    }
}

/// Truncated (round-toward-zero) division, as machine division does it.
pub open spec fn trunc_div(x: int, y: int) -> int {
    let q = int_abs(x) / int_abs(y);
    if (x < 0) != (y < 0) {
        -q
    } else {
        q
    }
}

/// Truncated remainder: the magnitude is that of the absolute values, the
/// sign is the dividend's.
pub open spec fn trunc_rem(x: int, y: int) -> int {
    let m = int_abs(x) % int_abs(y);
    if x < 0 {
        -m
    } else {
        m
    }
}

/// The effect of one instruction: the store afterwards, the text appended to
/// the output, and the error if one was reported. On an error inside a called
/// routine, the store and output keep the effects of the instructions that
/// ran before the failing one.
pub struct StepOutcome {
    pub memory: Map<Seq<char>, ValueModel>,
    pub appended: Seq<char>,
    pub error: Option<VMErrorModel>,
}

pub open spec fn step_ok(m: Map<Seq<char>, ValueModel>) -> StepOutcome {
    StepOutcome { memory: m, appended: Seq::<char>::empty(), error: None }
}

pub open spec fn step_fail(m: Map<Seq<char>, ValueModel>, e: VMErrorModel) -> StepOutcome {
    StepOutcome { memory: m, appended: Seq::<char>::empty(), error: Some(e) }
}

/// Element-wise arithmetic on two values: both integers, or both numbers.
/// Integer addition, subtraction and multiplication wrap; integer division
/// and modulo report a zero divisor, and wrap on the one overflowing pair.
/// Number arithmetic follows IEEE, so a zero divisor gives an infinity or a
/// NaN. Modulo takes integers only.
pub open spec fn arith_value(op: ArithOp, a: ValueModel, b: ValueModel) -> Result<
    ValueModel,
    VMErrorModel,
> {
    match (a, b) {
        (ValueModel::Integer(x), ValueModel::Integer(y)) => match op {
            ArithOp::Addition => Ok(
                ValueModel::Integer(vstd::wrapping::i64_specs::wrapping_add(x, y)),
            ),
            ArithOp::Subtraction => Ok(
                ValueModel::Integer(vstd::wrapping::i64_specs::wrapping_sub(x, y)),
            ),
            ArithOp::Multiplication => Ok(
                ValueModel::Integer(vstd::wrapping::i64_specs::wrapping_mul(x, y)),
            ),
            ArithOp::Division => if y == 0 {
                Err(VMErrorModel::DivisionByZero)
            } else if x == i64::MIN && y == -1 {
                Ok(ValueModel::Integer(i64::MIN))
            } else {
                Ok(ValueModel::Integer(trunc_div(x as int, y as int) as i64))
            },
            ArithOp::Modulo => if y == 0 {
                Err(VMErrorModel::DivisionByZero)
            } else if x == i64::MIN && y == -1 {
                Ok(ValueModel::Integer(0))
            } else {
                Ok(ValueModel::Integer(trunc_rem(x as int, y as int) as i64))
            },
        },
        (ValueModel::Number(x), ValueModel::Number(y)) => match op {
            ArithOp::Addition => Ok(ValueModel::Number(crate::number::number_sum(x, y))),
            ArithOp::Subtraction => Ok(ValueModel::Number(crate::number::number_difference(x, y))),
            ArithOp::Multiplication => Ok(ValueModel::Number(crate::number::number_product(x, y))),
            ArithOp::Division => Ok(ValueModel::Number(crate::number::number_quotient(x, y))),
            ArithOp::Modulo => Err(VMErrorModel::ExpectedArithmeticTypes(a, b)),
        },
        _ => Err(VMErrorModel::ExpectedArithmeticTypes(a, b)),
    }
}

pub open spec fn spec_arith_step(
    m: Map<Seq<char>, ValueModel>,
    op: ArithOp,
    a_name: Seq<char>,
    b_name: Seq<char>,
    dest: Seq<char>,
) -> StepOutcome {
    match spec_load(m, a_name) {
        Err(e) => step_fail(m, e),
        Ok(av) => match spec_load(m, b_name) {
            Err(e) => step_fail(m, e),
            Ok(bv) => match arith_value(op, av, bv) {
                Err(e) => step_fail(m, e),
                Ok(res) => step_ok(m.insert(dest, res)),
            },
        },
    }
}

/// Comparing two values: they must hold the same kind; the result is the
/// boolean from the kind's own order.
pub open spec fn compare_value(op: CompareOp, a: ValueModel, b: ValueModel) -> Result<
    ValueModel,
    VMErrorModel,
> {
    if !crate::compare::same_kind(a, b) {
        Err(VMErrorModel::MismatchingTypes(a, b))
    } else {
        Ok(
            ValueModel::Boolean(
                match op {
                    CompareOp::Equal => crate::compare::model_eq(a, b),
                    CompareOp::Different => !crate::compare::model_eq(a, b),
                    CompareOp::Less => crate::compare::model_lt(a, b),
                    CompareOp::LessOrEqual => crate::compare::model_le(a, b),
                    CompareOp::Greater => crate::compare::model_lt(b, a),
                    CompareOp::GreaterOrEqual => crate::compare::model_le(b, a),
                },
            ),
        )
    }
}

pub open spec fn spec_compare_step(
    m: Map<Seq<char>, ValueModel>,
    op: CompareOp,
    a_name: Seq<char>,
    b_name: Seq<char>,
    dest: Seq<char>,
) -> StepOutcome {
    match spec_load(m, a_name) {
        Err(e) => step_fail(m, e),
        Ok(av) => match spec_load(m, b_name) {
            Err(e) => step_fail(m, e),
            Ok(bv) => match compare_value(op, av, bv) {
                Err(e) => step_fail(m, e),
                Ok(res) => step_ok(m.insert(dest, res)),
            },
        },
    }
}

/// A binary boolean connective over two boolean variables.
pub open spec fn spec_logical_step(
    m: Map<Seq<char>, ValueModel>,
    conj: bool,
    a_name: Seq<char>,
    b_name: Seq<char>,
    dest: Seq<char>,
) -> StepOutcome {
    match spec_load(m, a_name) {
        Err(e) => step_fail(m, e),
        Ok(av) => match spec_load(m, b_name) {
            Err(e) => step_fail(m, e),
            Ok(bv) => match (av, bv) {
                (ValueModel::Boolean(x), ValueModel::Boolean(y)) => step_ok(
                    m.insert(dest, ValueModel::Boolean(if conj {
                        x && y
                    } else {
                        x || y
                    })),
                ),
                _ => step_fail(m, VMErrorModel::MismatchingTypes(av, bv)),
            },
        },
    }
}

pub open spec fn spec_not_step(
    m: Map<Seq<char>, ValueModel>,
    input: Seq<char>,
    dest: Seq<char>,
) -> StepOutcome {
    match spec_load(m, input) {
        Err(e) => step_fail(m, e),
        Ok(av) => match av {
            ValueModel::Boolean(x) => step_ok(m.insert(dest, ValueModel::Boolean(!x))),
            _ => step_fail(m, VMErrorModel::ExpectedBoolean(av)),
        },
    }
}

/// The element of an array value at an index, bounds-checked.
pub open spec fn array_elem(v: ValueModel, idx: int) -> Result<ValueModel, VMErrorModel> {
    match v {
        ValueModel::ArrayOfInteger(a) => if idx < a.len() {
            Ok(ValueModel::Integer(a[idx]))
        } else {
            Err(VMErrorModel::IndexOutOfBound { array_size: a.len() as int, index: idx })
        },
        ValueModel::ArrayOfNumber(a) => if idx < a.len() {
            Ok(ValueModel::Number(a[idx]))
        } else {
            Err(VMErrorModel::IndexOutOfBound { array_size: a.len() as int, index: idx })
        },
        ValueModel::ArrayOfString(a) => if idx < a.len() {
            Ok(ValueModel::Str(a[idx]))
        } else {
            Err(VMErrorModel::IndexOutOfBound { array_size: a.len() as int, index: idx })
        },
        ValueModel::ArrayOfBoolean(a) => if idx < a.len() {
            Ok(ValueModel::Boolean(a[idx]))
        } else {
            Err(VMErrorModel::IndexOutOfBound { array_size: a.len() as int, index: idx })
        },
        _ => Err(VMErrorModel::ExpectedArray(v)),
    }
}

pub open spec fn spec_get_at_step(
    m: Map<Seq<char>, ValueModel>,
    array_name: Seq<char>,
    idx_name: Seq<char>,
    out_name: Seq<char>,
) -> StepOutcome {
    match spec_load(m, array_name) {
        Err(e) => step_fail(m, e),
        Ok(av) => match spec_load_index(m, idx_name) {
            Err(e) => step_fail(m, e),
            Ok(idx) => match array_elem(av, idx) {
                Err(e) => step_fail(m, e),
                Ok(elem) => step_ok(m.insert(out_name, elem)),
            },
        },
    }
}

/// The array value with the element at an index replaced; the element must
/// match the array's kind (the mismatch report carries placeholder booleans,
/// as the executor has always reported it), and the index must be in bounds.
pub open spec fn array_with(v: ValueModel, idx: int, elem: ValueModel) -> Result<
    ValueModel,
    VMErrorModel,
> {
    match (v, elem) {
        (ValueModel::ArrayOfInteger(a), ValueModel::Integer(x)) => if idx < a.len() {
            Ok(ValueModel::ArrayOfInteger(a.update(idx, x)))
        } else {
            Err(VMErrorModel::IndexOutOfBound { array_size: a.len() as int, index: idx })
        },
        (ValueModel::ArrayOfNumber(a), ValueModel::Number(x)) => if idx < a.len() {
            Ok(ValueModel::ArrayOfNumber(a.update(idx, x)))
        } else {
            Err(VMErrorModel::IndexOutOfBound { array_size: a.len() as int, index: idx })
        },
        (ValueModel::ArrayOfString(a), ValueModel::Str(x)) => if idx < a.len() {
            Ok(ValueModel::ArrayOfString(a.update(idx, x)))
        } else {
            Err(VMErrorModel::IndexOutOfBound { array_size: a.len() as int, index: idx })
        },
        (ValueModel::ArrayOfBoolean(a), ValueModel::Boolean(x)) => if idx < a.len() {
            Ok(ValueModel::ArrayOfBoolean(a.update(idx, x)))
        } else {
            Err(VMErrorModel::IndexOutOfBound { array_size: a.len() as int, index: idx })
        },
        _ => Err(
            VMErrorModel::MismatchingTypes(
                ValueModel::Boolean(true),
                ValueModel::Boolean(true),
            ),
        ),
    }
}

pub open spec fn spec_store_at_step(
    m: Map<Seq<char>, ValueModel>,
    array_name: Seq<char>,
    idx_name: Seq<char>,
    value: ValueModel,
) -> StepOutcome {
    match spec_load_index(m, idx_name) {
        Err(e) => step_fail(m, e),
        Ok(idx) => match spec_load(m, array_name) {
            Err(e) => step_fail(m, e),
            Ok(av) => match array_with(av, idx, value) {
                Err(e) => step_fail(m, e),
                Ok(nv) => step_ok(m.insert(array_name, nv)),
            },
        },
    }
}

/// An array's length as the engine reports it: an integer value.
pub open spec fn spec_size_step(
    m: Map<Seq<char>, ValueModel>,
    array_name: Seq<char>,
    out_name: Seq<char>,
) -> StepOutcome {
    match spec_load(m, array_name) {
        Err(e) => step_fail(m, e),
        Ok(av) => match av {
            ValueModel::ArrayOfInteger(a) => step_ok(
                m.insert(out_name, ValueModel::Integer(a.len() as i64)),
            ),
            ValueModel::ArrayOfNumber(a) => step_ok(
                m.insert(out_name, ValueModel::Integer(a.len() as i64)),
            ),
            ValueModel::ArrayOfString(a) => step_ok(
                m.insert(out_name, ValueModel::Integer(a.len() as i64)),
            ),
            ValueModel::ArrayOfBoolean(a) => step_ok(
                m.insert(out_name, ValueModel::Integer(a.len() as i64)),
            ),
            _ => step_fail(m, VMErrorModel::ExpectedArray(av)),
        },
    }
}

/// A sequence cut or grown to a length, new slots holding the fill value.
pub open spec fn resize_seq<A>(s: Seq<A>, n: int, fill: A) -> Seq<A> {
    if n <= s.len() {
        s.take(n)
    } else {
        s + Seq::new((n - s.len()) as nat, |i: int| fill)
    }
}

/// The array value resized; new slots hold the kind's zero value: `0`, the
/// zero number, the empty string, or `false`.
pub open spec fn array_resized(v: ValueModel, n: int) -> Result<ValueModel, VMErrorModel> {
    match v {
        ValueModel::ArrayOfInteger(a) => Ok(ValueModel::ArrayOfInteger(resize_seq(a, n, 0i64))),
        ValueModel::ArrayOfNumber(a) => Ok(ValueModel::ArrayOfNumber(resize_seq(a, n, 0u64))),
        ValueModel::ArrayOfString(a) => Ok(
            ValueModel::ArrayOfString(resize_seq(a, n, Seq::<char>::empty())),
        ),
        ValueModel::ArrayOfBoolean(a) => Ok(ValueModel::ArrayOfBoolean(resize_seq(a, n, false))),
        _ => Err(VMErrorModel::ExpectedArray(v)),
    }
}

pub open spec fn spec_resize_step(
    m: Map<Seq<char>, ValueModel>,
    array_name: Seq<char>,
    size_name: Seq<char>,
) -> StepOutcome {
    match spec_load_index(m, size_name) {
        Err(e) => step_fail(m, e),
        Ok(n) => match spec_load(m, array_name) {
            Err(e) => step_fail(m, e),
            Ok(av) => match array_resized(av, n) {
                Err(e) => step_fail(m, e),
                Ok(nv) => step_ok(m.insert(array_name, nv)),
            },
        },
    }
}

/// The array value with an element inserted before an occupied position;
/// inserting at the current end is rejected as out of bounds.
pub open spec fn array_inserted(v: ValueModel, idx: int, elem: ValueModel) -> Result<
    ValueModel,
    VMErrorModel,
> {
    match (v, elem) {
        (ValueModel::ArrayOfInteger(a), ValueModel::Integer(x)) => if idx < a.len() {
            Ok(ValueModel::ArrayOfInteger(a.insert(idx, x)))
        } else {
            Err(VMErrorModel::IndexOutOfBound { array_size: a.len() as int, index: idx })
        },
        (ValueModel::ArrayOfNumber(a), ValueModel::Number(x)) => if idx < a.len() {
            Ok(ValueModel::ArrayOfNumber(a.insert(idx, x)))
        } else {
            Err(VMErrorModel::IndexOutOfBound { array_size: a.len() as int, index: idx })
        },
        (ValueModel::ArrayOfString(a), ValueModel::Str(x)) => if idx < a.len() {
            Ok(ValueModel::ArrayOfString(a.insert(idx, x)))
        } else {
            Err(VMErrorModel::IndexOutOfBound { array_size: a.len() as int, index: idx })
        },
        (ValueModel::ArrayOfBoolean(a), ValueModel::Boolean(x)) => if idx < a.len() {
            Ok(ValueModel::ArrayOfBoolean(a.insert(idx, x)))
        } else {
            Err(VMErrorModel::IndexOutOfBound { array_size: a.len() as int, index: idx })
        },
        _ => Err(VMErrorModel::MismatchingTypes(v, elem)),
    }
}

pub open spec fn spec_insert_step(
    m: Map<Seq<char>, ValueModel>,
    array_name: Seq<char>,
    idx_name: Seq<char>,
    input_name: Seq<char>,
) -> StepOutcome {
    match spec_load(m, input_name) {
        Err(e) => step_fail(m, e),
        Ok(val) => match spec_load_index(m, idx_name) {
            Err(e) => step_fail(m, e),
            Ok(idx) => match spec_load(m, array_name) {
                Err(e) => step_fail(m, e),
                Ok(av) => match array_inserted(av, idx, val) {
                    Err(e) => step_fail(m, e),
                    Ok(nv) => step_ok(m.insert(array_name, nv)),
                },
            },
        },
    }
}

/// The array value with an element appended; the element must match the
/// array's kind.
pub open spec fn array_pushed(v: ValueModel, elem: ValueModel) -> Result<
    ValueModel,
    VMErrorModel,
> {
    match (v, elem) {
        (ValueModel::ArrayOfInteger(a), ValueModel::Integer(x)) => Ok(
            ValueModel::ArrayOfInteger(a.push(x)),
        ),
        (ValueModel::ArrayOfNumber(a), ValueModel::Number(x)) => Ok(
            ValueModel::ArrayOfNumber(a.push(x)),
        ),
        (ValueModel::ArrayOfString(a), ValueModel::Str(x)) => Ok(
            ValueModel::ArrayOfString(a.push(x)),
        ),
        (ValueModel::ArrayOfBoolean(a), ValueModel::Boolean(x)) => Ok(
            ValueModel::ArrayOfBoolean(a.push(x)),
        ),
        _ => Err(VMErrorModel::MismatchingTypes(v, elem)),
    }
}

pub open spec fn spec_push_back_step(
    m: Map<Seq<char>, ValueModel>,
    array_name: Seq<char>,
    input_name: Seq<char>,
) -> StepOutcome {
    match spec_load(m, input_name) {
        Err(e) => step_fail(m, e),
        Ok(val) => match spec_load(m, array_name) {
            Err(e) => step_fail(m, e),
            Ok(av) => match array_pushed(av, val) {
                Err(e) => step_fail(m, e),
                Ok(nv) => step_ok(m.insert(array_name, nv)),
            },
        },
    }
}

/// String concatenation; the one supported `CONCAT` combination.
pub open spec fn spec_concat_step(
    m: Map<Seq<char>, ValueModel>,
    a_name: Seq<char>,
    b_name: Seq<char>,
    dest: Seq<char>,
) -> StepOutcome {
    match spec_load(m, a_name) {
        Err(e) => step_fail(m, e),
        Ok(av) => match spec_load(m, b_name) {
            Err(e) => step_fail(m, e),
            Ok(bv) => match (av, bv) {
                (ValueModel::Str(x), ValueModel::Str(y)) => step_ok(
                    m.insert(dest, ValueModel::Str(x + y)),
                ),
                _ => step_fail(m, VMErrorModel::MismatchingTypes(av, bv)),
            },
        },
    }
}

/// The array value with the element at an index removed.
pub open spec fn array_erased(v: ValueModel, idx: int) -> Result<ValueModel, VMErrorModel> {
    match v {
        ValueModel::ArrayOfInteger(a) => if idx < a.len() {
            Ok(ValueModel::ArrayOfInteger(a.remove(idx)))
        } else {
            Err(VMErrorModel::IndexOutOfBound { array_size: a.len() as int, index: idx })
        },
        ValueModel::ArrayOfNumber(a) => if idx < a.len() {
            Ok(ValueModel::ArrayOfNumber(a.remove(idx)))
        } else {
            Err(VMErrorModel::IndexOutOfBound { array_size: a.len() as int, index: idx })
        },
        ValueModel::ArrayOfString(a) => if idx < a.len() {
            Ok(ValueModel::ArrayOfString(a.remove(idx)))
        } else {
            Err(VMErrorModel::IndexOutOfBound { array_size: a.len() as int, index: idx })
        },
        ValueModel::ArrayOfBoolean(a) => if idx < a.len() {
            Ok(ValueModel::ArrayOfBoolean(a.remove(idx)))
        } else {
            Err(VMErrorModel::IndexOutOfBound { array_size: a.len() as int, index: idx })
        },
        _ => Err(VMErrorModel::ExpectedArray(v)),
    }
}

pub open spec fn spec_erase_step(
    m: Map<Seq<char>, ValueModel>,
    array_name: Seq<char>,
    idx_name: Seq<char>,
) -> StepOutcome {
    match spec_load_index(m, idx_name) {
        Err(e) => step_fail(m, e),
        Ok(idx) => match spec_load(m, array_name) {
            Err(e) => step_fail(m, e),
            Ok(av) => match array_erased(av, idx) {
                Err(e) => step_fail(m, e),
                Ok(nv) => step_ok(m.insert(array_name, nv)),
            },
        },
    }
}

/// The effect of one instruction on the session, with enough fuel for the
/// routine calls it makes.
pub open spec fn spec_execute(
    m: Map<Seq<char>, ValueModel>,
    rt: Map<Seq<char>, RoutineModel>,
    ins: InstrModel,
    fuel: nat,
) -> StepOutcome
    decreases fuel, 1nat, 0nat,
{
    match ins {
        InstrModel::Store { dest, value } => step_ok(m.insert(dest, value)),
        InstrModel::Copy { input, dest } => match spec_load(m, input) {
            Err(e) => step_fail(m, e),
            Ok(v) => step_ok(m.insert(dest, v)),
        },
        InstrModel::Free { dest } => if m.contains_key(dest) {
            step_ok(m.remove(dest))
        } else {
            step_fail(m, VMErrorModel::VariableDoesNotExist(dest))
        },
        InstrModel::Print { input } => match spec_load(m, input) {
            Err(e) => step_fail(m, e),
            Ok(v) => StepOutcome {
                memory: m,
                appended: crate::value::value_display(v),
                error: None,
            },
        },
        InstrModel::Call { routine_name } => spec_call(m, rt, routine_name, fuel),
        InstrModel::CallIf { routine_name, boolean_input_name } => match spec_load(
            m,
            boolean_input_name,
        ) {
            Err(e) => step_fail(m, e),
            Ok(v) => match v {
                ValueModel::Boolean(true) => spec_call(m, rt, routine_name, fuel),
                ValueModel::Boolean(false) => step_ok(m),
                _ => step_fail(m, VMErrorModel::ExpectedBoolean(v)),
            },
        },
        InstrModel::Add { input_a, input_b, dest } => spec_arith_step(
            m,
            ArithOp::Addition,
            input_a,
            input_b,
            dest,
        ),
        InstrModel::Substract { input_a, input_b, dest } => spec_arith_step(
            m,
            ArithOp::Subtraction,
            input_a,
            input_b,
            dest,
        ),
        InstrModel::Multiply { input_a, input_b, dest } => spec_arith_step(
            m,
            ArithOp::Multiplication,
            input_a,
            input_b,
            dest,
        ),
        InstrModel::Divide { input_a, input_b, dest } => spec_arith_step(
            m,
            ArithOp::Division,
            input_a,
            input_b,
            dest,
        ),
        InstrModel::Modulo { input_a, input_b, dest } => spec_arith_step(
            m,
            ArithOp::Modulo,
            input_a,
            input_b,
            dest,
        ),
        InstrModel::LogicalAnd { input_a, input_b, dest } => spec_logical_step(
            m,
            true,
            input_a,
            input_b,
            dest,
        ),
        InstrModel::LogicalOr { input_a, input_b, dest } => spec_logical_step(
            m,
            false,
            input_a,
            input_b,
            dest,
        ),
        InstrModel::LogicalNot { input, dest } => spec_not_step(m, input, dest),
        InstrModel::CompareEqual { input_a, input_b, dest } => spec_compare_step(
            m,
            CompareOp::Equal,
            input_a,
            input_b,
            dest,
        ),
        InstrModel::CompareDifferent { input_a, input_b, dest } => spec_compare_step(
            m,
            CompareOp::Different,
            input_a,
            input_b,
            dest,
        ),
        InstrModel::CompareLess { input_a, input_b, dest } => spec_compare_step(
            m,
            CompareOp::Less,
            input_a,
            input_b,
            dest,
        ),
        InstrModel::CompareLessOrEqual { input_a, input_b, dest } => spec_compare_step(
            m,
            CompareOp::LessOrEqual,
            input_a,
            input_b,
            dest,
        ),
        InstrModel::CompareGreater { input_a, input_b, dest } => spec_compare_step(
            m,
            CompareOp::Greater,
            input_a,
            input_b,
            dest,
        ),
        InstrModel::CompareGreaterOrEqual { input_a, input_b, dest } => spec_compare_step(
            m,
            CompareOp::GreaterOrEqual,
            input_a,
            input_b,
            dest,
        ),
        InstrModel::GetAt { array_input, index, output } => spec_get_at_step(
            m,
            array_input,
            index,
            output,
        ),
        InstrModel::StoreAt { array_output, index, value } => spec_store_at_step(
            m,
            array_output,
            index,
            value,
        ),
        InstrModel::CopyAt { array_output, index, input } => match spec_load(m, input) {
            Err(e) => step_fail(m, e),
            Ok(v) => spec_store_at_step(m, array_output, index, v),
        },
        InstrModel::Size { array_input, output } => spec_size_step(m, array_input, output),
        InstrModel::Resize { array_input, new_size } => spec_resize_step(
            m,
            array_input,
            new_size,
        ),
        InstrModel::Insert { array_output, index, input } => spec_insert_step(
            m,
            array_output,
            index,
            input,
        ),
        InstrModel::PushBack { array_output, input } => spec_push_back_step(
            m,
            array_output,
            input,
        ),
        InstrModel::Concat { input_a, input_b, dest } => spec_concat_step(
            m,
            input_a,
            input_b,
            dest,
        ),
        InstrModel::Erase { array_input, index } => spec_erase_step(m, array_input, index),
    }
}

/// Calling a routine: an unknown name is an error; with no fuel left the
/// recursion limit is reported; otherwise the routine's instructions run in
/// order, in the same store.
pub open spec fn spec_call(
    m: Map<Seq<char>, ValueModel>,
    rt: Map<Seq<char>, RoutineModel>,
    name: Seq<char>,
    fuel: nat,
) -> StepOutcome
    decreases fuel, 0nat, 0nat,
{
    if !rt.contains_key(name) {
        step_fail(m, VMErrorModel::RoutineDoesNotExist(name))
    } else if fuel == 0 {
        step_fail(m, VMErrorModel::RecursionLimitReached)
    } else {
        spec_execute_list(m, rt, rt[name].instructions, (fuel - 1) as nat)
    }
}

/// Running a list of instructions in order: the first error stops the run,
/// keeping the effects of the instructions before it.
pub open spec fn spec_execute_list(
    m: Map<Seq<char>, ValueModel>,
    rt: Map<Seq<char>, RoutineModel>,
    list: Seq<InstrModel>,
    fuel: nat,
) -> StepOutcome
    decreases fuel, 2nat, list.len(),
{
    if list.len() == 0 {
        step_ok(m)
    } else {
        let first = spec_execute(m, rt, list[0], fuel);
        match first.error {
            Some(_) => first,
            None => {
                let rest = spec_execute_list(first.memory, rt, list.drop_first(), fuel);
                StepOutcome {
                    memory: rest.memory,
                    appended: first.appended + rest.appended,
                    error: rest.error,
                }
            },
        }
    }
}


fn i64_abs_u64(x: i64) -> (r: u64)
    ensures
        r == int_abs(x as int),
{
    if x >= 0 {
        x as u64
    } else if x == i64::MIN {
        0x8000_0000_0000_0000u64
    } else {
        (-x) as u64
    }
}

/// Truncated division of machine integers, with the two trapping operand
/// pairs excluded.
fn i64_div_trunc(x: i64, y: i64) -> (r: i64)
    requires
        y != 0,
        !(x == i64::MIN && y == -1),
    ensures
        r as int == trunc_div(x as int, y as int),
{
    let xm = i64_abs_u64(x);
    let ym = i64_abs_u64(y);
    let q: u64 = xm / ym;
    proof {
        assert(q <= xm) by (nonlinear_arith)
            requires
                ym >= 1,
                xm >= 0,
                q == xm as int / ym as int,
        ;
    }
    if (x < 0) != (y < 0) {
        if q == 0x8000_0000_0000_0000u64 {
            i64::MIN
        } else {
            -(q as i64)
        }
    } else {
        proof {
            if xm == 0x8000_0000_0000_0000u64 {
                // Then x is the minimum value, y is negative and not -1, so
                // the divisor's magnitude is at least two.
                assert(ym >= 2);
                vstd::arithmetic::div_mod::lemma_div_is_ordered_by_denominator(
                    xm as int,
                    2,
                    ym as int,
                );
                assert(q <= 0x4000_0000_0000_0000);
            }
        }
        q as i64
    }
}

/// Truncated remainder of machine integers, with the two trapping operand
/// pairs excluded.
fn i64_rem_trunc(x: i64, y: i64) -> (r: i64)
    requires
        y != 0,
        !(x == i64::MIN && y == -1),
    ensures
        r as int == trunc_rem(x as int, y as int),
{
    let xm = i64_abs_u64(x);
    let ym = i64_abs_u64(y);
    let md: u64 = xm % ym;
    proof {
        assert(md < ym) by (nonlinear_arith)
            requires
                ym >= 1,
                xm >= 0,
                md == xm as int % ym as int,
        ;
    }
    if x < 0 {
        -(md as i64)
    } else {
        md as i64
    }
}

fn run_arith(memory: &mut Memory, op: ArithOp, a: &str, b: &str, dest: &str) -> (r: Result<
    (),
    VMError,
>)
    ensures
        ({
            let o = spec_arith_step(old(memory)@, op, a@, b@, dest@);
            &&& final(memory)@ == o.memory
            &&& match r {
                Ok(()) => o.error is None,
                Err(e) => o.error == Some(e@),
            }
        }),
{
    let av = match memory.load(a) {
        Ok(v) => v,
        Err(e) => {
            return Err(e);
        },
    };
    let bv = match memory.load(b) {
        Ok(v) => v,
        Err(e) => {
            return Err(e);
        },
    };
    let computed: Result<Value, VMError> = match (av, bv) {
        (Value::Integer(x), Value::Integer(y)) => match op {
            ArithOp::Addition => Ok(Value::Integer(x.wrapping_add(*y))),
            ArithOp::Subtraction => Ok(Value::Integer(x.wrapping_sub(*y))),
            ArithOp::Multiplication => Ok(Value::Integer(x.wrapping_mul(*y))),
            ArithOp::Division => {
                if *y == 0 {
                    Err(VMError::DivisionByZero)
                } else if *x == i64::MIN && *y == -1 {
                    Ok(Value::Integer(i64::MIN))
                } else {
                    Ok(Value::Integer(i64_div_trunc(*x, *y)))
                }
            },
            ArithOp::Modulo => {
                if *y == 0 {
                    Err(VMError::DivisionByZero)
                } else if *x == i64::MIN && *y == -1 {
                    Ok(Value::Integer(0))
                } else {
                    Ok(Value::Integer(i64_rem_trunc(*x, *y)))
                }
            },
        },
        (Value::Number(x), Value::Number(y)) => match op {
            ArithOp::Addition => Ok(
                Value::Number(NumberBits(crate::number::number_add(x.0, y.0))),
            ),
            ArithOp::Subtraction => Ok(
                Value::Number(NumberBits(crate::number::number_subtract(x.0, y.0))),
            ),
            ArithOp::Multiplication => Ok(
                Value::Number(NumberBits(crate::number::number_multiply(x.0, y.0))),
            ),
            ArithOp::Division => Ok(
                Value::Number(NumberBits(crate::number::number_divide(x.0, y.0))),
            ),
            ArithOp::Modulo => Err(VMError::ExpectedArithmeticTypes(av.clone(), bv.clone())),
        },
        _ => Err(VMError::ExpectedArithmeticTypes(av.clone(), bv.clone())),
    };
    match computed {
        Ok(res) => {
            memory.store(dest, res);
            Ok(())
        },
        Err(e) => Err(e),
    }
}

fn run_logical(memory: &mut Memory, conj: bool, a: &str, b: &str, dest: &str) -> (r: Result<
    (),
    VMError,
>)
    ensures
        ({
            let o = spec_logical_step(old(memory)@, conj, a@, b@, dest@);
            &&& final(memory)@ == o.memory
            &&& match r {
                Ok(()) => o.error is None,
                Err(e) => o.error == Some(e@),
            }
        }),
{
    let av = match memory.load(a) {
        Ok(v) => v,
        Err(e) => {
            return Err(e);
        },
    };
    let bv = match memory.load(b) {
        Ok(v) => v,
        Err(e) => {
            return Err(e);
        },
    };
    let computed: Result<Value, VMError> = match (av, bv) {
        (Value::Boolean(x), Value::Boolean(y)) => Ok(Value::Boolean(if conj {
            *x && *y
        } else {
            *x || *y
        })),
        _ => Err(VMError::MismatchingTypes(av.clone(), bv.clone())),
    };
    match computed {
        Ok(res) => {
            memory.store(dest, res);
            Ok(())
        },
        Err(e) => Err(e),
    }
}

fn run_not(memory: &mut Memory, input: &str, dest: &str) -> (r: Result<(), VMError>)
    ensures
        ({
            let o = spec_not_step(old(memory)@, input@, dest@);
            &&& final(memory)@ == o.memory
            &&& match r {
                Ok(()) => o.error is None,
                Err(e) => o.error == Some(e@),
            }
        }),
{
    let av = match memory.load(input) {
        Ok(v) => v,
        Err(e) => {
            return Err(e);
        },
    };
    let computed: Result<Value, VMError> = match av {
        Value::Boolean(x) => Ok(Value::Boolean(!*x)),
        _ => Err(VMError::ExpectedBoolean(av.clone())),
    };
    match computed {
        Ok(res) => {
            memory.store(dest, res);
            Ok(())
        },
        Err(e) => Err(e),
    }
}

fn run_compare(memory: &mut Memory, op: CompareOp, a: &str, b: &str, dest: &str) -> (r: Result<
    (),
    VMError,
>)
    ensures
        ({
            let o = spec_compare_step(old(memory)@, op, a@, b@, dest@);
            &&& final(memory)@ == o.memory
            &&& match r {
                Ok(()) => o.error is None,
                Err(e) => o.error == Some(e@),
            }
        }),
{
    let av = match memory.load(a) {
        Ok(v) => v,
        Err(e) => {
            return Err(e);
        },
    };
    let bv = match memory.load(b) {
        Ok(v) => v,
        Err(e) => {
            return Err(e);
        },
    };
    if !crate::compare::value_same_kind(av, bv) {
        return Err(VMError::MismatchingTypes(av.clone(), bv.clone()));
    }
    let verdict: bool = match op {
        CompareOp::Equal => crate::compare::value_eq(av, bv),
        CompareOp::Different => !crate::compare::value_eq(av, bv),
        CompareOp::Less => crate::compare::value_lt(av, bv),
        CompareOp::LessOrEqual => crate::compare::value_le(av, bv),
        CompareOp::Greater => crate::compare::value_lt(bv, av),
        CompareOp::GreaterOrEqual => crate::compare::value_le(bv, av),
    };
    memory.store(dest, Value::Boolean(verdict));
    Ok(())
}

fn run_get_at(memory: &mut Memory, array_input: &str, index: &str, output_name: &str) -> (r:
    Result<(), VMError>)
    ensures
        ({
            let o = spec_get_at_step(old(memory)@, array_input@, index@, output_name@);
            &&& final(memory)@ == o.memory
            &&& match r {
                Ok(()) => o.error is None,
                Err(e) => o.error == Some(e@),
            }
        }),
{
    let av = match memory.load(array_input) {
        Ok(v) => v,
        Err(e) => {
            return Err(e);
        },
    };
    let idx = match memory.load_index(index) {
        Ok(i) => i,
        Err(e) => {
            return Err(e);
        },
    };
    let fetched: Result<Value, VMError> = match av {
        Value::ArrayOfInteger(arr) => match vector_get_copy_at(arr, idx) {
            Ok(x) => Ok(Value::Integer(x)),
            Err(e) => Err(e),
        },
        Value::ArrayOfNumber(arr) => match vector_get_copy_at(arr, idx) {
            Ok(x) => Ok(Value::Number(x)),
            Err(e) => Err(e),
        },
        Value::ArrayOfString(arr) => match vector_get_copy_at(arr, idx) {
            Ok(x) => Ok(Value::String(x)),
            Err(e) => Err(e),
        },
        Value::ArrayOfBoolean(arr) => match vector_get_copy_at(arr, idx) {
            Ok(x) => Ok(Value::Boolean(x)),
            Err(e) => Err(e),
        },
        _ => Err(VMError::ExpectedArray(av.clone())),
    };
    match fetched {
        Ok(res) => {
            memory.store(output_name, res);
            Ok(())
        },
        Err(e) => Err(e),
    }
}

/// Writes a value into an array cell: the shared path of `STORE_AT` and
/// `COPY_AT`.
fn store_at(memory: &mut Memory, array_output: &str, index: &str, value: Value) -> (r: Result<
    (),
    VMError,
>)
    ensures
        ({
            let o = spec_store_at_step(old(memory)@, array_output@, index@, value@);
            &&& final(memory)@ == o.memory
            &&& match r {
                Ok(()) => o.error is None,
                Err(e) => o.error == Some(e@),
            }
        }),
{
    let idx = match memory.load_index(index) {
        Ok(i) => i,
        Err(e) => {
            return Err(e);
        },
    };
    let av = match memory.load(array_output) {
        Ok(v) => v,
        Err(e) => {
            return Err(e);
        },
    };
    let updated: Result<Value, VMError> = match (av.clone(), value) {
        (Value::ArrayOfInteger(mut arr), Value::Integer(x)) => match vector_set_at(
            &mut arr,
            x,
            idx,
        ) {
            Ok(()) => Ok(Value::ArrayOfInteger(arr)),
            Err(e) => Err(e),
        },
        (Value::ArrayOfNumber(mut arr), Value::Number(x)) => {
            let ghost before = arr.deep_view();
            proof {
                assert(arr.deep_view().len() == arr@.len());
            }
            match vector_set_at(&mut arr, x, idx) {
                Ok(()) => {
                    proof {
                        assert(arr.deep_view() =~= before.update(idx as int, x@));
                    }
                    Ok(Value::ArrayOfNumber(arr))
                },
                Err(e) => Err(e),
            }
        },
        (Value::ArrayOfString(mut arr), Value::String(x)) => {
            let ghost before = arr.deep_view();
            let ghost xv = x@;
            proof {
                assert(arr.deep_view().len() == arr@.len());
            }
            match vector_set_at(&mut arr, x, idx) {
                Ok(()) => {
                    proof {
                        assert(arr.deep_view() =~= before.update(idx as int, xv));
                    }
                    Ok(Value::ArrayOfString(arr))
                },
                Err(e) => Err(e),
            }
        },
        (Value::ArrayOfBoolean(mut arr), Value::Boolean(x)) => match vector_set_at(
            &mut arr,
            x,
            idx,
        ) {
            Ok(()) => Ok(Value::ArrayOfBoolean(arr)),
            Err(e) => Err(e),
        },
        _ => Err(VMError::MismatchingTypes(Value::Boolean(true), Value::Boolean(true))),
    };
    match updated {
        Ok(res) => {
            memory.store(array_output, res);
            Ok(())
        },
        Err(e) => Err(e),
    }
}

fn run_size(memory: &mut Memory, array_input: &str, output_name: &str) -> (r: Result<(), VMError>)
    ensures
        ({
            let o = spec_size_step(old(memory)@, array_input@, output_name@);
            &&& final(memory)@ == o.memory
            &&& match r {
                Ok(()) => o.error is None,
                Err(e) => o.error == Some(e@),
            }
        }),
{
    let av = match memory.load(array_input) {
        Ok(v) => v,
        Err(e) => {
            return Err(e);
        },
    };
    let counted: Result<usize, VMError> = match av {
        Value::ArrayOfInteger(arr) => Ok(arr.len()),
        Value::ArrayOfNumber(arr) => Ok(arr.len()),
        Value::ArrayOfString(arr) => Ok(arr.len()),
        Value::ArrayOfBoolean(arr) => Ok(arr.len()),
        _ => Err(VMError::ExpectedArray(av.clone())),
    };
    match counted {
        Ok(size) => {
            memory.store(output_name, Value::Integer(#[verifier::truncate] (size as i64)));
            Ok(())
        },
        Err(e) => Err(e),
    }
}

fn run_resize(memory: &mut Memory, array_input: &str, new_size: &str) -> (r: Result<(), VMError>)
    ensures
        ({
            let o = spec_resize_step(old(memory)@, array_input@, new_size@);
            &&& final(memory)@ == o.memory
            &&& match r {
                Ok(()) => o.error is None,
                Err(e) => o.error == Some(e@),
            }
        }),
{
    let n = match memory.load_index(new_size) {
        Ok(i) => i,
        Err(e) => {
            return Err(e);
        },
    };
    let av = match memory.load(array_input) {
        Ok(v) => v,
        Err(e) => {
            return Err(e);
        },
    };
    let resized: Result<Value, VMError> = match av.clone() {
        Value::ArrayOfInteger(mut arr) => {
            let ghost before = arr@;
            arr.resize(n, 0);
            proof {
                assert(arr@ =~= resize_seq(before, n as int, 0i64));
            }
            Ok(Value::ArrayOfInteger(arr))
        },
        Value::ArrayOfNumber(mut arr) => {
            let ghost before = arr.deep_view();
            arr.resize(n, NumberBits(0));
            proof {
                assert(arr.deep_view() =~= resize_seq(before, n as int, 0u64));
            }
            Ok(Value::ArrayOfNumber(arr))
        },
        Value::ArrayOfString(mut arr) => {
            let ghost before = arr.deep_view();
            arr.resize(n, String::new());
            proof {
                assert(arr.deep_view() =~= resize_seq(before, n as int, Seq::<char>::empty()));
            }
            Ok(Value::ArrayOfString(arr))
        },
        Value::ArrayOfBoolean(mut arr) => {
            let ghost before = arr@;
            arr.resize(n, false);
            proof {
                assert(arr@ =~= resize_seq(before, n as int, false));
            }
            Ok(Value::ArrayOfBoolean(arr))
        },
        _ => Err(VMError::ExpectedArray(av.clone())),
    };
    match resized {
        Ok(res) => {
            memory.store(array_input, res);
            Ok(())
        },
        Err(e) => Err(e),
    }
}

/// Inserts a variable's value before an occupied array position: `INSERT`.
fn insert(memory: &mut Memory, array_output: &str, index: &str, value: &str) -> (r: Result<
    (),
    VMError,
>)
    ensures
        ({
            let o = spec_insert_step(old(memory)@, array_output@, index@, value@);
            &&& final(memory)@ == o.memory
            &&& match r {
                Ok(()) => o.error is None,
                Err(e) => o.error == Some(e@),
            }
        }),
{
    let val = match memory.load(value) {
        Ok(v) => v.clone(),
        Err(e) => {
            return Err(e);
        },
    };
    let idx = match memory.load_index(index) {
        Ok(i) => i,
        Err(e) => {
            return Err(e);
        },
    };
    let av = match memory.load(array_output) {
        Ok(v) => v,
        Err(e) => {
            return Err(e);
        },
    };
    let updated: Result<Value, VMError> = match (av.clone(), val) {
        (Value::ArrayOfInteger(mut arr), Value::Integer(x)) => match vector_insert(
            &mut arr,
            x,
            idx,
        ) {
            Ok(()) => Ok(Value::ArrayOfInteger(arr)),
            Err(e) => Err(e),
        },
        (Value::ArrayOfNumber(mut arr), Value::Number(x)) => {
            let ghost before = arr.deep_view();
            proof {
                assert(arr.deep_view().len() == arr@.len());
            }
            match vector_insert(&mut arr, x, idx) {
                Ok(()) => {
                    proof {
                        assert(arr.deep_view() =~= before.insert(idx as int, x@));
                    }
                    Ok(Value::ArrayOfNumber(arr))
                },
                Err(e) => Err(e),
            }
        },
        (Value::ArrayOfString(mut arr), Value::String(x)) => {
            let ghost before = arr.deep_view();
            let ghost xv = x@;
            proof {
                assert(arr.deep_view().len() == arr@.len());
            }
            match vector_insert(&mut arr, x, idx) {
                Ok(()) => {
                    proof {
                        assert(arr.deep_view() =~= before.insert(idx as int, xv));
                    }
                    Ok(Value::ArrayOfString(arr))
                },
                Err(e) => Err(e),
            }
        },
        (Value::ArrayOfBoolean(mut arr), Value::Boolean(x)) => match vector_insert(
            &mut arr,
            x,
            idx,
        ) {
            Ok(()) => Ok(Value::ArrayOfBoolean(arr)),
            Err(e) => Err(e),
        },
        (a, b) => Err(VMError::MismatchingTypes(a, b)),
    };
    match updated {
        Ok(res) => {
            memory.store(array_output, res);
            Ok(())
        },
        Err(e) => Err(e),
    }
}

fn run_push_back(memory: &mut Memory, array_output: &str, input: &str) -> (r: Result<(), VMError>)
    ensures
        ({
            let o = spec_push_back_step(old(memory)@, array_output@, input@);
            &&& final(memory)@ == o.memory
            &&& match r {
                Ok(()) => o.error is None,
                Err(e) => o.error == Some(e@),
            }
        }),
{
    let val = match memory.load(input) {
        Ok(v) => v.clone(),
        Err(e) => {
            return Err(e);
        },
    };
    let av = match memory.load(array_output) {
        Ok(v) => v,
        Err(e) => {
            return Err(e);
        },
    };
    let updated: Result<Value, VMError> = match (av.clone(), val) {
        (Value::ArrayOfInteger(mut arr), Value::Integer(x)) => {
            arr.push(x);
            Ok(Value::ArrayOfInteger(arr))
        },
        (Value::ArrayOfNumber(mut arr), Value::Number(x)) => {
            let ghost before = arr.deep_view();
            arr.push(x);
            proof {
                assert(arr.deep_view() =~= before.push(x@));
            }
            Ok(Value::ArrayOfNumber(arr))
        },
        (Value::ArrayOfString(mut arr), Value::String(x)) => {
            let ghost before = arr.deep_view();
            let ghost pushed = x@;
            arr.push(x);
            proof {
                assert(arr.deep_view() =~= before.push(pushed));
            }
            Ok(Value::ArrayOfString(arr))
        },
        (Value::ArrayOfBoolean(mut arr), Value::Boolean(x)) => {
            arr.push(x);
            Ok(Value::ArrayOfBoolean(arr))
        },
        (a, b) => Err(VMError::MismatchingTypes(a, b)),
    };
    match updated {
        Ok(res) => {
            memory.store(array_output, res);
            Ok(())
        },
        Err(e) => Err(e),
    }
}

fn run_concat(memory: &mut Memory, a: &str, b: &str, dest: &str) -> (r: Result<(), VMError>)
    ensures
        ({
            let o = spec_concat_step(old(memory)@, a@, b@, dest@);
            &&& final(memory)@ == o.memory
            &&& match r {
                Ok(()) => o.error is None,
                Err(e) => o.error == Some(e@),
            }
        }),
{
    let av = match memory.load(a) {
        Ok(v) => v,
        Err(e) => {
            return Err(e);
        },
    };
    let bv = match memory.load(b) {
        Ok(v) => v,
        Err(e) => {
            return Err(e);
        },
    };
    let computed: Result<Value, VMError> = match (av, bv) {
        (Value::String(x), Value::String(y)) => {
            let mut joined = x.clone();
            joined.append(y.as_str());
            Ok(Value::String(joined))
        },
        _ => Err(VMError::MismatchingTypes(av.clone(), bv.clone())),
    };
    match computed {
        Ok(res) => {
            memory.store(dest, res);
            Ok(())
        },
        Err(e) => Err(e),
    }
}

fn run_erase(memory: &mut Memory, array_input: &str, index: &str) -> (r: Result<(), VMError>)
    ensures
        ({
            let o = spec_erase_step(old(memory)@, array_input@, index@);
            &&& final(memory)@ == o.memory
            &&& match r {
                Ok(()) => o.error is None,
                Err(e) => o.error == Some(e@),
            }
        }),
{
    let idx = match memory.load_index(index) {
        Ok(i) => i,
        Err(e) => {
            return Err(e);
        },
    };
    let av = match memory.load(array_input) {
        Ok(v) => v,
        Err(e) => {
            return Err(e);
        },
    };
    let updated: Result<Value, VMError> = match av.clone() {
        Value::ArrayOfInteger(mut arr) => match vector_remove(&mut arr, idx) {
            Ok(()) => Ok(Value::ArrayOfInteger(arr)),
            Err(e) => Err(e),
        },
        Value::ArrayOfNumber(mut arr) => {
            let ghost before = arr.deep_view();
            proof {
                assert(arr.deep_view().len() == arr@.len());
            }
            match vector_remove(&mut arr, idx) {
                Ok(()) => {
                    proof {
                        assert(arr.deep_view() =~= before.remove(idx as int));
                    }
                    Ok(Value::ArrayOfNumber(arr))
                },
                Err(e) => Err(e),
            }
        },
        Value::ArrayOfString(mut arr) => {
            let ghost before = arr.deep_view();
            proof {
                assert(arr.deep_view().len() == arr@.len());
            }
            match vector_remove(&mut arr, idx) {
                Ok(()) => {
                    proof {
                        assert(arr.deep_view() =~= before.remove(idx as int));
                    }
                    Ok(Value::ArrayOfString(arr))
                },
                Err(e) => Err(e),
            }
        },
        Value::ArrayOfBoolean(mut arr) => match vector_remove(&mut arr, idx) {
            Ok(()) => Ok(Value::ArrayOfBoolean(arr)),
            Err(e) => Err(e),
        },
        _ => Err(VMError::ExpectedArray(av.clone())),
    };
    match updated {
        Ok(res) => {
            memory.store(array_input, res);
            Ok(())
        },
        Err(e) => Err(e),
    }
}

/// Evaluates one instruction against the store and the routine table,
/// appending any printed text to the output buffer. `fuel` bounds the depth
/// of nested routine calls.
pub fn execute(
    memory: &mut Memory,
    routines: &Routines,
    instruction: &Instruction,
    output: &mut String,
    fuel: u64,
) -> (r: Result<(), VMError>)
    ensures
        ({
            let o = spec_execute(old(memory)@, routines@, instruction@, fuel as nat);
            &&& final(memory)@ == o.memory
            &&& final(output)@ == old(output)@ + o.appended
            &&& match r {
                Ok(()) => o.error is None,
                Err(e) => o.error == Some(e@),
            }
        }),
    decreases fuel, 1nat,
{
    proof {
        assert(old(output)@ + Seq::<char>::empty() =~= old(output)@);
    }
    match instruction {
        Instruction::Store(x) => {
            memory.store(x.dest.as_str(), x.value.clone());
            Ok(())
        },
        Instruction::Copy(x) => {
            let copied = match memory.load(x.input.as_str()) {
                Ok(v) => v.clone(),
                Err(e) => {
                    return Err(e);
                },
            };
            memory.store(x.dest.as_str(), copied);
            Ok(())
        },
        Instruction::Free(x) => match memory.free(x.dest.as_str()) {
            Ok(()) => Ok(()),
            Err(e) => Err(e),
        },
        Instruction::Print(x) => {
            let v = match memory.load(x.input.as_str()) {
                Ok(v) => v,
                Err(e) => {
                    return Err(e);
                },
            };
            crate::value::write_value_text(v, output);
            Ok(())
        },
        Instruction::Call(x) => call_routine(memory, routines, x.routine_name.as_str(), output, fuel),
        Instruction::CallIf(x) => {
            let call = {
                let v = match memory.load(x.boolean_input_name.as_str()) {
                    Ok(v) => v,
                    Err(e) => {
                        return Err(e);
                    },
                };
                match v {
                    Value::Boolean(b) => *b,
                    _ => {
                        return Err(VMError::ExpectedBoolean(v.clone()));
                    },
                }
            };
            if call {
                call_routine(memory, routines, x.routine_name.as_str(), output, fuel)
            } else {
                Ok(())
            }
        },
        Instruction::Add(x) => run_arith(
            memory,
            ArithOp::Addition,
            x.input_a.as_str(),
            x.input_b.as_str(),
            x.dest.as_str(),
        ),
        Instruction::Substract(x) => run_arith(
            memory,
            ArithOp::Subtraction,
            x.input_a.as_str(),
            x.input_b.as_str(),
            x.dest.as_str(),
        ),
        Instruction::Multiply(x) => run_arith(
            memory,
            ArithOp::Multiplication,
            x.input_a.as_str(),
            x.input_b.as_str(),
            x.dest.as_str(),
        ),
        Instruction::Divide(x) => run_arith(
            memory,
            ArithOp::Division,
            x.input_a.as_str(),
            x.input_b.as_str(),
            x.dest.as_str(),
        ),
        Instruction::Modulo(x) => run_arith(
            memory,
            ArithOp::Modulo,
            x.input_a.as_str(),
            x.input_b.as_str(),
            x.dest.as_str(),
        ),
        Instruction::LogicalAnd(x) => run_logical(
            memory,
            true,
            x.input_a.as_str(),
            x.input_b.as_str(),
            x.dest.as_str(),
        ),
        Instruction::LogicalOr(x) => run_logical(
            memory,
            false,
            x.input_a.as_str(),
            x.input_b.as_str(),
            x.dest.as_str(),
        ),
        Instruction::LogicalNot(x) => run_not(memory, x.input.as_str(), x.dest.as_str()),
        Instruction::CompareEqual(x) => run_compare(
            memory,
            CompareOp::Equal,
            x.input_a.as_str(),
            x.input_b.as_str(),
            x.dest.as_str(),
        ),
        Instruction::CompareDifferent(x) => run_compare(
            memory,
            CompareOp::Different,
            x.input_a.as_str(),
            x.input_b.as_str(),
            x.dest.as_str(),
        ),
        Instruction::CompareLess(x) => run_compare(
            memory,
            CompareOp::Less,
            x.input_a.as_str(),
            x.input_b.as_str(),
            x.dest.as_str(),
        ),
        Instruction::CompareLessOrEqual(x) => run_compare(
            memory,
            CompareOp::LessOrEqual,
            x.input_a.as_str(),
            x.input_b.as_str(),
            x.dest.as_str(),
        ),
        Instruction::CompareGreater(x) => run_compare(
            memory,
            CompareOp::Greater,
            x.input_a.as_str(),
            x.input_b.as_str(),
            x.dest.as_str(),
        ),
        Instruction::CompareGreaterOrEqual(x) => run_compare(
            memory,
            CompareOp::GreaterOrEqual,
            x.input_a.as_str(),
            x.input_b.as_str(),
            x.dest.as_str(),
        ),
        Instruction::GetAt(x) => run_get_at(
            memory,
            x.array_input.as_str(),
            x.index.as_str(),
            x.output.as_str(),
        ),
        Instruction::StoreAt(x) => store_at(
            memory,
            x.array_output.as_str(),
            x.index.as_str(),
            x.value.clone(),
        ),
        Instruction::CopyAt(x) => {
            let copied = match memory.load(x.input.as_str()) {
                Ok(v) => v.clone(),
                Err(e) => {
                    return Err(e);
                },
            };
            store_at(memory, x.array_output.as_str(), x.index.as_str(), copied)
        },
        Instruction::Size(x) => run_size(memory, x.array_input.as_str(), x.output.as_str()),
        Instruction::Resize(x) => run_resize(memory, x.array_input.as_str(), x.new_size.as_str()),
        Instruction::Insert(x) => insert(
            memory,
            x.array_output.as_str(),
            x.index.as_str(),
            x.input.as_str(),
        ),
        Instruction::PushBack(x) => run_push_back(
            memory,
            x.array_output.as_str(),
            x.input.as_str(),
        ),
        Instruction::Concat(x) => run_concat(
            memory,
            x.input_a.as_str(),
            x.input_b.as_str(),
            x.dest.as_str(),
        ),
        Instruction::Erase(x) => run_erase(memory, x.array_input.as_str(), x.index.as_str()),
    }
}

/// Runs a routine's instructions in order, in the same store; an error in
/// one of them stops the run and keeps the effects made so far.
#[verifier::loop_isolation(false)]
fn call_routine(
    memory: &mut Memory,
    routines: &Routines,
    routine_name: &str,
    output: &mut String,
    fuel: u64,
) -> (r: Result<(), VMError>)
    ensures
        ({
            let o = spec_call(old(memory)@, routines@, routine_name@, fuel as nat);
            &&& final(memory)@ == o.memory
            &&& final(output)@ == old(output)@ + o.appended
            &&& match r {
                Ok(()) => o.error is None,
                Err(e) => o.error == Some(e@),
            }
        }),
    decreases fuel, 0nat,
{
    proof {
        assert(old(output)@ + Seq::<char>::empty() =~= old(output)@);
    }
    let routine = match routines.get(routine_name) {
        Some(rt) => rt,
        None => {
            return Err(VMError::RoutineDoesNotExist(routine_name.to_owned()));
        },
    };
    if fuel == 0 {
        return Err(VMError::RecursionLimitReached);
    }
    let ghost m0 = memory@;
    let ghost out0 = output@;
    let ghost body = routine@.instructions;
    let ghost f1 = (fuel - 1) as nat;
    proof {
        assert(body.skip(0) =~= body);
    }
    let mut i: usize = 0;
    while i < routine.instructions.len()
        invariant
            i <= routine.instructions@.len(),
            ({
                let full = spec_execute_list(m0, routines@, body, f1);
                let rem = spec_execute_list(memory@, routines@, body.skip(i as int), f1);
                &&& full.memory == rem.memory
                &&& full.error == rem.error
                &&& out0 + full.appended == output@ + rem.appended
            }),
        decreases routine.instructions@.len() - i,
    {
        let ghost mem_before = memory@;
        let ghost out_before = output@;
        proof {
            assert(body.skip(i as int)[0] == body[i as int]);
            assert(body.skip(i as int).drop_first() =~= body.skip(i + 1));
            assert(routine.instructions@[i as int]@ == body[i as int]);
        }
        let step = execute(memory, routines, &routine.instructions[i], output, fuel - 1);
        proof {
            let first = spec_execute(mem_before, routines@, body[i as int], f1);
            let rest = spec_execute_list(first.memory, routines@, body.skip(i + 1), f1);
            assert((out_before + first.appended) + rest.appended =~= out_before + (first.appended
                + rest.appended));
        }
        match step {
            Ok(()) => {
            },
            Err(e) => {
                return Err(e);
            },
        }
        i = i + 1;
    }
    proof {
        assert(body.skip(body.len() as int) =~= Seq::<InstrModel>::empty());
        let full = spec_execute_list(m0, routines@, body, f1);
        assert(out0 + full.appended == output@ + Seq::<char>::empty());
        assert(output@ + Seq::<char>::empty() =~= output@);
    }
    Ok(())
}

} // verus!
