//! General laws of the engine, proved once and for all over the spec-level
//! interpreter that `execute` and `handle_line` are verified against.

use vstd::prelude::*;

use crate::compare::same_kind;
use crate::engine::ErrorModel;
use crate::engine::LineModel;
use crate::engine::is_blank_or_comment;
use crate::engine::spec_handle_line;
use crate::engine::spec_parse_line;
use crate::instruction::InstrModel;
use crate::instruction::RoutineModel;
use crate::value::ValueModel;
use crate::value::value_display;
use crate::vm::CompareOp;
use crate::vm::VMErrorModel;
use crate::vm::spec_compare_step;
use crate::vm::spec_execute;
use crate::vm::spec_load;
use crate::vm::spec_load_index;

verus! {

/// The length of an array value, if it is one.
pub open spec fn model_array_len(v: ValueModel) -> Option<int> {
    match v {
        ValueModel::ArrayOfInteger(a) => Some(a.len() as int),
        ValueModel::ArrayOfNumber(a) => Some(a.len() as int),
        ValueModel::ArrayOfString(a) => Some(a.len() as int),
        ValueModel::ArrayOfBoolean(a) => Some(a.len() as int),
        _ => None,
    }
}

/// Whether an element value matches an array value's element kind.
pub open spec fn array_accepts(v: ValueModel, elem: ValueModel) -> bool {
    match (v, elem) {
        (ValueModel::ArrayOfInteger(_), ValueModel::Integer(_)) => true,
        (ValueModel::ArrayOfNumber(_), ValueModel::Number(_)) => true,
        (ValueModel::ArrayOfString(_), ValueModel::Str(_)) => true,
        (ValueModel::ArrayOfBoolean(_), ValueModel::Boolean(_)) => true,
        _ => false,
    }
}

/// Storing a value under a name and then printing that name emits exactly
/// the value's rendering; neither step fails, whatever the store held.
pub proof fn lemma_store_then_print(
    m: Map<Seq<char>, ValueModel>,
    rt: Map<Seq<char>, RoutineModel>,
    x: Seq<char>,
    v: ValueModel,
    fuel: nat,
)
    ensures
        ({
            let o1 = spec_execute(m, rt, (InstrModel::Store { dest: x, value: v }), fuel);
            let o2 = spec_execute(o1.memory, rt, (InstrModel::Print { input: x }), fuel);
            &&& o1.error is None
            &&& o1.appended == Seq::<char>::empty()
            &&& o2.error is None
            &&& o2.appended == value_display(v)
            &&& o2.memory == o1.memory
        }),
{
}

/// Copies are independent values: after `COPY a b`, appending to `b` with
/// `PUSH_BACK` leaves `a` bound to exactly what it held before.
pub proof fn lemma_copy_then_push_back_independent(
    m: Map<Seq<char>, ValueModel>,
    rt: Map<Seq<char>, RoutineModel>,
    a: Seq<char>,
    b: Seq<char>,
    x: Seq<char>,
    fuel: nat,
)
    requires
        a != b,
    ensures
        ({
            let o1 = spec_execute(m, rt, (InstrModel::Copy { input: a, dest: b }), fuel);
            let o2 = spec_execute(
                o1.memory,
                rt,
                (InstrModel::PushBack { array_output: b, input: x }),
                fuel,
            );
            o1.error is None ==> {
                &&& o2.memory.contains_key(a)
                &&& o2.memory[a] == m[a]
            }
        }),
{
}

/// After `FREE x` succeeds, any later load of `x` — every instruction reads
/// variables through this one lookup — reports the missing-variable error.
pub proof fn lemma_free_then_load_fails(
    m: Map<Seq<char>, ValueModel>,
    rt: Map<Seq<char>, RoutineModel>,
    x: Seq<char>,
    fuel: nat,
)
    ensures
        ({
            let o = spec_execute(m, rt, (InstrModel::Free { dest: x }), fuel);
            o.error is None ==> spec_load(o.memory, x) == Err::<ValueModel, VMErrorModel>(
                VMErrorModel::VariableDoesNotExist(x),
            )
        }),
{
}

/// The routine-construction discipline: a start while one is under
/// construction fails and leaves the original construction intact; an end
/// without a start fails; an end under the wrong name fails and leaves the
/// construction still open. In every case the store, the routine table and
/// the output are untouched.
pub proof fn lemma_construction_discipline(
    line: Seq<char>,
    m: Map<Seq<char>, ValueModel>,
    rt: Map<Seq<char>, RoutineModel>,
    cur: RoutineModel,
    name: Seq<char>,
)
    ensures
        spec_parse_line(line) == Ok::<LineModel, ErrorModel>(LineModel::RoutineStart(name))
            ==> ({
            let o = spec_handle_line(line, m, rt, Some(cur));
            &&& o.error == Some(ErrorModel::SubRoutineFound(cur.name, name))
            &&& o.construction == Some(cur)
            &&& o.memory == m
            &&& o.routines == rt
            &&& o.appended == Seq::<char>::empty()
        }),
        spec_parse_line(line) == Ok::<LineModel, ErrorModel>(LineModel::RoutineEnd(name)) ==> ({
            let o = spec_handle_line(line, m, rt, None);
            &&& o.error == Some(ErrorModel::UnexpectedEndSubroutine(name))
            &&& o.construction is None
            &&& o.memory == m
            &&& o.routines == rt
        }),
        spec_parse_line(line) == Ok::<LineModel, ErrorModel>(LineModel::RoutineEnd(name)) && name
            != cur.name ==> ({
            let o = spec_handle_line(line, m, rt, Some(cur));
            &&& o.error == Some(ErrorModel::MismatchingEndSubroutine(cur.name, name))
            &&& o.construction == Some(cur)
            &&& o.memory == m
            &&& o.routines == rt
        }),
{
    if spec_parse_line(line) == Ok::<LineModel, ErrorModel>(LineModel::RoutineStart(name)) {
        assert(line.len() >= 1 && line[0] == '<');
        assert(!is_blank_or_comment(line));
    }
    if spec_parse_line(line) == Ok::<LineModel, ErrorModel>(LineModel::RoutineEnd(name)) {
        assert(line.len() >= 2 && line[0] == '<');
        assert(!is_blank_or_comment(line));
    }
}

/// `CALL` of an undefined routine fails with the missing-routine error, and
/// `CALL_IF` with a non-boolean condition fails with the expected-boolean
/// error before the target routine runs: neither touches the store or the
/// output.
pub proof fn lemma_call_failures(
    m: Map<Seq<char>, ValueModel>,
    rt: Map<Seq<char>, RoutineModel>,
    name: Seq<char>,
    cond: Seq<char>,
    fuel: nat,
)
    ensures
        !rt.contains_key(name) ==> ({
            let o = spec_execute(m, rt, (InstrModel::Call { routine_name: name }), fuel);
            &&& o.error == Some(VMErrorModel::RoutineDoesNotExist(name))
            &&& o.memory == m
            &&& o.appended == Seq::<char>::empty()
        }),
        ({
            let o = spec_execute(
                m,
                rt,
                (InstrModel::CallIf { routine_name: name, boolean_input_name: cond }),
                fuel,
            );
            m.contains_key(cond) && !(m[cond] is Boolean) ==> {
                &&& o.error == Some(VMErrorModel::ExpectedBoolean(m[cond]))
                &&& o.memory == m
                &&& o.appended == Seq::<char>::empty()
            }
        }),
{
}

/// An index at or beyond the array's length makes `GET_AT`, `STORE_AT`,
/// `INSERT` and `ERASE` fail with the out-of-bounds error carrying the
/// array's current length and the requested index, leaving the store as it
/// was.
pub proof fn lemma_index_out_of_bounds(
    m: Map<Seq<char>, ValueModel>,
    rt: Map<Seq<char>, RoutineModel>,
    arr: Seq<char>,
    idx: Seq<char>,
    out: Seq<char>,
    input: Seq<char>,
    stored: ValueModel,
    len: int,
    i: int,
    fuel: nat,
)
    requires
        m.contains_key(arr),
        model_array_len(m[arr]) == Some(len),
        spec_load_index(m, idx) == Ok::<int, VMErrorModel>(i),
        i >= len,
    ensures
        ({
            let o = spec_execute(
                m,
                rt,
                (InstrModel::GetAt { array_input: arr, index: idx, output: out }),
                fuel,
            );
            &&& o.error == Some(
                (VMErrorModel::IndexOutOfBound { array_size: len, index: i }),
            )
            &&& o.memory == m
        }),
        array_accepts(m[arr], stored) ==> ({
            let o = spec_execute(
                m,
                rt,
                (InstrModel::StoreAt { array_output: arr, index: idx, value: stored }),
                fuel,
            );
            &&& o.error == Some(
                (VMErrorModel::IndexOutOfBound { array_size: len, index: i }),
            )
            &&& o.memory == m
        }),
        m.contains_key(input) && array_accepts(m[arr], m[input]) ==> ({
            let o = spec_execute(
                m,
                rt,
                (InstrModel::Insert { array_output: arr, index: idx, input }),
                fuel,
            );
            &&& o.error == Some(
                (VMErrorModel::IndexOutOfBound { array_size: len, index: i }),
            )
            &&& o.memory == m
        }),
        ({
            let o = spec_execute(
                m,
                rt,
                (InstrModel::Erase { array_input: arr, index: idx }),
                fuel,
            );
            &&& o.error == Some(
                (VMErrorModel::IndexOutOfBound { array_size: len, index: i }),
            )
            &&& o.memory == m
        }),
{
}

/// Comparing an integer to a number fails as a type mismatch, under every
/// comparison operation — each `COMPARE_*` instruction is defined as
/// `spec_compare_step` with its operation — and leaves the store unchanged.
pub proof fn lemma_compare_integer_number_mismatch(
    m: Map<Seq<char>, ValueModel>,
    op: CompareOp,
    a: Seq<char>,
    b: Seq<char>,
    dest: Seq<char>,
)
    requires
        m.contains_key(a),
        m.contains_key(b),
        m[a] is Integer,
        m[b] is Number,
    ensures
        ({
            let o = spec_compare_step(m, op, a, b, dest);
            &&& o.error == Some(VMErrorModel::MismatchingTypes(m[a], m[b]))
            &&& o.memory == m
        }),
{
    assert(!same_kind(m[a], m[b]));
}

} // verus!
