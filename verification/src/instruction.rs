//! The instruction set: a closed union of operation kinds, each a fixed
//! record of named operand slots, and the per-line textual parser that turns
//! `NAME operand operand ...` into one instruction.
//!
//! Operands are separated by single spaces. A non-final name operand is the
//! token up to the next space; the final name operand runs to the end of the
//! line; an inline value operand ends where its own grammar ends.

use vstd::prelude::*;

use crate::literal::spec_parse_value;
use crate::literal::SpecParse;
use crate::text::chars_vec;
use crate::text::string_from_chars;
use crate::value::Value;
use crate::value::ValueModel;

verus! {

/*
** Misc
*/

#[derive(Debug, Clone)]
pub struct Store {
    pub dest: String,
    pub value: Value,
}

#[derive(Debug, Clone)]
pub struct Copy {
    pub input: String,
    pub dest: String,
}

#[derive(Debug, Clone)]
pub struct Free {
    pub dest: String,
}

#[derive(Debug, Clone)]
pub struct Print {
    pub input: String,
}

#[derive(Debug, Clone)]
pub struct Call {
    pub routine_name: String,
}

#[derive(Debug, Clone)]
pub struct CallIf {
    pub routine_name: String,
    pub boolean_input_name: String,
}

/*
** Arithmetic
*/

#[derive(Debug, Clone)]
pub struct Add {
    pub input_a: String,
    pub input_b: String,
    pub dest: String,
}

#[derive(Debug, Clone)]
pub struct Substract {
    pub input_a: String,
    pub input_b: String,
    pub dest: String,
}

#[derive(Debug, Clone)]
pub struct Multiply {
    pub input_a: String,
    pub input_b: String,
    pub dest: String,
}

#[derive(Debug, Clone)]
pub struct Divide {
    pub input_a: String,
    pub input_b: String,
    pub dest: String,
}

#[derive(Debug, Clone)]
pub struct Modulo {
    pub input_a: String,
    pub input_b: String,
    pub dest: String,
}

/*
** Logical
*/

#[derive(Debug, Clone)]
pub struct LogicalAnd {
    pub input_a: String,
    pub input_b: String,
    pub dest: String,
}

#[derive(Debug, Clone)]
pub struct LogicalOr {
    pub input_a: String,
    pub input_b: String,
    pub dest: String,
}

#[derive(Debug, Clone)]
pub struct LogicalNot {
    pub input: String,
    pub dest: String,
}

/*
** Comparison
*/

#[derive(Debug, Clone)]
pub struct CompareEqual {
    pub input_a: String,
    pub input_b: String,
    pub dest: String,
}

#[derive(Debug, Clone)]
pub struct CompareDifferent {
    pub input_a: String,
    pub input_b: String,
    pub dest: String,
}

#[derive(Debug, Clone)]
pub struct CompareLess {
    pub input_a: String,
    pub input_b: String,
    pub dest: String,
}

#[derive(Debug, Clone)]
pub struct CompareLessOrEqual {
    pub input_a: String,
    pub input_b: String,
    pub dest: String,
}

#[derive(Debug, Clone)]
pub struct CompareGreater {
    pub input_a: String,
    pub input_b: String,
    pub dest: String,
}

#[derive(Debug, Clone)]
pub struct CompareGreaterOrEqual {
    pub input_a: String,
    pub input_b: String,
    pub dest: String,
}

/*
** Array operations
** An "index" operand names a variable whose value gives the index.
*/

#[derive(Debug, Clone)]
pub struct GetAt {
    pub array_input: String,
    pub index: String,
    pub output: String,
}

#[derive(Debug, Clone)]
pub struct StoreAt {
    pub array_output: String,
    pub index: String,
    pub value: Value,
}

#[derive(Debug, Clone)]
pub struct CopyAt {
    pub array_output: String,
    pub index: String,
    pub input: String,
}

#[derive(Debug, Clone)]
pub struct Size {
    pub array_input: String,
    pub output: String,
}

#[derive(Debug, Clone)]
pub struct Resize {
    pub array_input: String,
    pub new_size: String,
}

#[derive(Debug, Clone)]
pub struct Insert {
    pub array_output: String,
    pub index: String,
    pub input: String,
}

#[derive(Debug, Clone)]
pub struct PushBack {
    pub array_output: String,
    pub input: String,
}

#[derive(Debug, Clone)]
pub struct Concat {
    pub input_a: String,
    pub input_b: String,
    pub dest: String,
}

#[derive(Debug, Clone)]
pub struct Erase {
    pub array_input: String,
    pub index: String,
}

/// One operation of the closed instruction set.
#[derive(Debug, Clone)]
pub enum Instruction {
    Store(Store),
    Copy(Copy),
    Free(Free),
    Print(Print),
    Call(Call),
    CallIf(CallIf),
    Add(Add),
    Substract(Substract),
    Multiply(Multiply),
    Divide(Divide),
    Modulo(Modulo),
    LogicalAnd(LogicalAnd),
    LogicalOr(LogicalOr),
    LogicalNot(LogicalNot),
    CompareEqual(CompareEqual),
    CompareDifferent(CompareDifferent),
    CompareLess(CompareLess),
    CompareLessOrEqual(CompareLessOrEqual),
    CompareGreater(CompareGreater),
    CompareGreaterOrEqual(CompareGreaterOrEqual),
    GetAt(GetAt),
    StoreAt(StoreAt),
    CopyAt(CopyAt),
    Size(Size),
    Resize(Resize),
    Insert(Insert),
    PushBack(PushBack),
    Concat(Concat),
    Erase(Erase),
}

/// The mathematical model of an instruction: its kind and operand names.
pub enum InstrModel {
    Store { dest: Seq<char>, value: ValueModel },
    Copy { input: Seq<char>, dest: Seq<char> },
    Free { dest: Seq<char> },
    Print { input: Seq<char> },
    Call { routine_name: Seq<char> },
    CallIf { routine_name: Seq<char>, boolean_input_name: Seq<char> },
    Add { input_a: Seq<char>, input_b: Seq<char>, dest: Seq<char> },
    Substract { input_a: Seq<char>, input_b: Seq<char>, dest: Seq<char> },
    Multiply { input_a: Seq<char>, input_b: Seq<char>, dest: Seq<char> },
    Divide { input_a: Seq<char>, input_b: Seq<char>, dest: Seq<char> },
    Modulo { input_a: Seq<char>, input_b: Seq<char>, dest: Seq<char> },
    LogicalAnd { input_a: Seq<char>, input_b: Seq<char>, dest: Seq<char> },
    LogicalOr { input_a: Seq<char>, input_b: Seq<char>, dest: Seq<char> },
    LogicalNot { input: Seq<char>, dest: Seq<char> },
    CompareEqual { input_a: Seq<char>, input_b: Seq<char>, dest: Seq<char> },
    CompareDifferent { input_a: Seq<char>, input_b: Seq<char>, dest: Seq<char> },
    CompareLess { input_a: Seq<char>, input_b: Seq<char>, dest: Seq<char> },
    CompareLessOrEqual { input_a: Seq<char>, input_b: Seq<char>, dest: Seq<char> },
    CompareGreater { input_a: Seq<char>, input_b: Seq<char>, dest: Seq<char> },
    CompareGreaterOrEqual { input_a: Seq<char>, input_b: Seq<char>, dest: Seq<char> },
    GetAt { array_input: Seq<char>, index: Seq<char>, output: Seq<char> },
    StoreAt { array_output: Seq<char>, index: Seq<char>, value: ValueModel },
    CopyAt { array_output: Seq<char>, index: Seq<char>, input: Seq<char> },
    Size { array_input: Seq<char>, output: Seq<char> },
    Resize { array_input: Seq<char>, new_size: Seq<char> },
    Insert { array_output: Seq<char>, index: Seq<char>, input: Seq<char> },
    PushBack { array_output: Seq<char>, input: Seq<char> },
    Concat { input_a: Seq<char>, input_b: Seq<char>, dest: Seq<char> },
    Erase { array_input: Seq<char>, index: Seq<char> },
}

impl View for Instruction {
    type V = InstrModel;

    open spec fn view(&self) -> InstrModel {
        match self {
            Instruction::Store(x) => InstrModel::Store { dest: x.dest@, value: x.value@ },
            Instruction::Copy(x) => InstrModel::Copy { input: x.input@, dest: x.dest@ },
            Instruction::Free(x) => InstrModel::Free { dest: x.dest@ },
            Instruction::Print(x) => InstrModel::Print { input: x.input@ },
            Instruction::Call(x) => InstrModel::Call { routine_name: x.routine_name@ },
            Instruction::CallIf(x) => InstrModel::CallIf {
                routine_name: x.routine_name@,
                boolean_input_name: x.boolean_input_name@,
            },
            Instruction::Add(x) => InstrModel::Add {
                input_a: x.input_a@,
                input_b: x.input_b@,
                dest: x.dest@,
            },
            Instruction::Substract(x) => InstrModel::Substract {
                input_a: x.input_a@,
                input_b: x.input_b@,
                dest: x.dest@,
            },
            Instruction::Multiply(x) => InstrModel::Multiply {
                input_a: x.input_a@,
                input_b: x.input_b@,
                dest: x.dest@,
            },
            Instruction::Divide(x) => InstrModel::Divide {
                input_a: x.input_a@,
                input_b: x.input_b@,
                dest: x.dest@,
            },
            Instruction::Modulo(x) => InstrModel::Modulo {
                input_a: x.input_a@,
                input_b: x.input_b@,
                dest: x.dest@,
            },
            Instruction::LogicalAnd(x) => InstrModel::LogicalAnd {
                input_a: x.input_a@,
                input_b: x.input_b@,
                dest: x.dest@,
            },
            Instruction::LogicalOr(x) => InstrModel::LogicalOr {
                input_a: x.input_a@,
                input_b: x.input_b@,
                dest: x.dest@,
            },
            Instruction::LogicalNot(x) => InstrModel::LogicalNot {
                input: x.input@,
                dest: x.dest@,
            },
            Instruction::CompareEqual(x) => InstrModel::CompareEqual {
                input_a: x.input_a@,
                input_b: x.input_b@,
                dest: x.dest@,
            },
            Instruction::CompareDifferent(x) => InstrModel::CompareDifferent {
                input_a: x.input_a@,
                input_b: x.input_b@,
                dest: x.dest@,
            },
            Instruction::CompareLess(x) => InstrModel::CompareLess {
                input_a: x.input_a@,
                input_b: x.input_b@,
                dest: x.dest@,
            },
            Instruction::CompareLessOrEqual(x) => InstrModel::CompareLessOrEqual {
                input_a: x.input_a@,
                input_b: x.input_b@,
                dest: x.dest@,
            },
            Instruction::CompareGreater(x) => InstrModel::CompareGreater {
                input_a: x.input_a@,
                input_b: x.input_b@,
                dest: x.dest@,
            },
            Instruction::CompareGreaterOrEqual(x) => InstrModel::CompareGreaterOrEqual {
                input_a: x.input_a@,
                input_b: x.input_b@,
                dest: x.dest@,
            },
            Instruction::GetAt(x) => InstrModel::GetAt {
                array_input: x.array_input@,
                index: x.index@,
                output: x.output@,
            },
            Instruction::StoreAt(x) => InstrModel::StoreAt {
                array_output: x.array_output@,
                index: x.index@,
                value: x.value@,
            },
            Instruction::CopyAt(x) => InstrModel::CopyAt {
                array_output: x.array_output@,
                index: x.index@,
                input: x.input@,
            },
            Instruction::Size(x) => InstrModel::Size {
                array_input: x.array_input@,
                output: x.output@,
            },
            Instruction::Resize(x) => InstrModel::Resize {
                array_input: x.array_input@,
                new_size: x.new_size@,
            },
            Instruction::Insert(x) => InstrModel::Insert {
                array_output: x.array_output@,
                index: x.index@,
                input: x.input@,
            },
            Instruction::PushBack(x) => InstrModel::PushBack {
                array_output: x.array_output@,
                input: x.input@,
            },
            Instruction::Concat(x) => InstrModel::Concat {
                input_a: x.input_a@,
                input_b: x.input_b@,
                dest: x.dest@,
            },
            Instruction::Erase(x) => InstrModel::Erase {
                array_input: x.array_input@,
                index: x.index@,
            },
        }
    }
}

impl DeepView for Instruction {
    type V = InstrModel;

    open spec fn deep_view(&self) -> InstrModel {
        self.view()
    }
}

/// A named, ordered list of instructions. Immutable once committed to the
/// routine table.
#[derive(Debug)]
pub struct Routine {
    pub name: String,
    pub instructions: Vec<Instruction>,
}

/// The model of a routine: its name and the models of its instructions.
pub struct RoutineModel {
    pub name: Seq<char>,
    pub instructions: Seq<InstrModel>,
}

impl View for Routine {
    type V = RoutineModel;

    open spec fn view(&self) -> RoutineModel {
        RoutineModel { name: self.name@, instructions: self.instructions.deep_view() }
    }
}

impl DeepView for Routine {
    type V = RoutineModel;

    open spec fn deep_view(&self) -> RoutineModel {
        self.view()
    }
}

impl Routine {
    /// A new, empty routine with the given name.
    pub fn new(name: String) -> (r: Routine)
        ensures
            r@.name == name@,
            r@.instructions == Seq::<InstrModel>::empty(),
    {
        let r = Routine { name, instructions: Vec::new() };
        proof {
            assert(r.instructions.deep_view() =~= Seq::<InstrModel>::empty());
        }
        r
    }
}

/// How parsing an instruction line can fail.
#[derive(Debug)]
pub enum ParseError {
    /// The line's first token names no instruction.
    InstructionDoesNotExist(String),
    /// An inline value operand was malformed.
    ValueParsingError(crate::literal::ParseError),
}

/// The model of an instruction parse error.
pub enum ParseErrorModel {
    InstructionDoesNotExist(Seq<char>),
    ValueParsingError(crate::literal::ParseError),
}

impl View for ParseError {
    type V = ParseErrorModel;

    open spec fn view(&self) -> ParseErrorModel {
        match self {
            ParseError::InstructionDoesNotExist(n) => ParseErrorModel::InstructionDoesNotExist(n@),
            ParseError::ValueParsingError(e) => ParseErrorModel::ValueParsingError(*e),
        }
    }
}

/// The first space at or after `i`, or the end of the text.
pub open spec fn find_space(s: Seq<char>, i: int) -> int
    decreases s.len() - i,
{
    if i >= s.len() {
        s.len() as int
    } else if s[i] == ' ' {
        i
    } else {
        find_space(s, i + 1)
    }
}

/// The token up to the next space, and the position after the space.
pub open spec fn token_at(s: Seq<char>, i: int) -> (Seq<char>, int) {
    let p = find_space(s, i);
    (s.subrange(i, p), if p < s.len() {
        p + 1
    } else {
        p
    })
}

/// Everything from `i` to the end of the line.
pub open spec fn rest_at(s: Seq<char>, i: int) -> Seq<char> {
    s.subrange(i, s.len() as int)
}

/// Reads the token up to the next space, consuming the space.
fn scan_space_token(s: &Vec<char>, pos: &mut usize) -> (r: String)
    requires
        *old(pos) <= s@.len(),
    ensures
        r@ == token_at(s@, *old(pos) as int).0,
        *final(pos) == token_at(s@, *old(pos) as int).1,
        *old(pos) <= *final(pos) <= s@.len(),
{
    let tok = scan_name_chars(s, pos);
    string_from_chars(&tok)
}

/// Reads everything from the cursor to the end of the line.
#[verifier::loop_isolation(false)]
fn rest_of_line(s: &Vec<char>, pos: usize) -> (r: String)
    requires
        pos <= s@.len(),
    ensures
        r@ == rest_at(s@, pos as int),
{
    let mut tok: Vec<char> = Vec::new();
    let mut i: usize = pos;
    while i < s.len()
        invariant
            pos <= i <= s@.len(),
            tok@ == s@.subrange(pos as int, i as int),
        decreases s@.len() - i,
    {
        tok.push(s[i]);
        proof {
            assert(s@.subrange(pos as int, i as int) + seq![s@[i as int]] =~= s@.subrange(
                pos as int,
                i + 1,
            ));
        }
        i = i + 1;
    }
    string_from_chars(&tok)
}

/// One name operand followed by the final name operand.
pub open spec fn two_names(s: Seq<char>) -> (Seq<char>, Seq<char>) {
    let (a, j) = token_at(s, 0);
    (a, rest_at(s, j))
}

/// Two name operands followed by the final name operand.
pub open spec fn three_names(s: Seq<char>) -> (Seq<char>, Seq<char>, Seq<char>) {
    let (a, j) = token_at(s, 0);
    let (b, k) = token_at(s, j);
    (a, b, rest_at(s, k))
}

/// Parsing the operands of `STORE`: a destination name, then a value literal.
pub open spec fn spec_parse_store(s: Seq<char>) -> Result<InstrModel, ParseErrorModel> {
    let (dest, j) = token_at(s, 0);
    let vp = spec_parse_value(s, j);
    match vp.outcome {
        Ok((v, _)) => Ok(InstrModel::Store { dest, value: v }),
        Err(e) => Err(ParseErrorModel::ValueParsingError(e)),
    }
}

/// Parsing the operands of `STORE_AT`: an array name, an index name, then a
/// value literal.
pub open spec fn spec_parse_store_at(s: Seq<char>) -> Result<InstrModel, ParseErrorModel> {
    let (array_output, j) = token_at(s, 0);
    let (index, k) = token_at(s, j);
    let vp = spec_parse_value(s, k);
    match vp.outcome {
        Ok((v, _)) => Ok(InstrModel::StoreAt { array_output, index, value: v }),
        Err(e) => Err(ParseErrorModel::ValueParsingError(e)),
    }
}

/// Parsing one instruction line, the name token first.
pub open spec fn spec_parse_instruction(s: Seq<char>) -> Result<InstrModel, ParseErrorModel> {
    let (name, j) = token_at(s, 0);
    let rest = rest_at(s, j);
    if name == "STORE"@ {
        spec_parse_store(rest)
    } else if name == "COPY"@ {
        let (a, b) = two_names(rest);
        Ok(InstrModel::Copy { input: a, dest: b })
    } else if name == "FREE"@ {
        Ok(InstrModel::Free { dest: rest_at(rest, 0) })
    } else if name == "PRINT"@ {
        Ok(InstrModel::Print { input: rest_at(rest, 0) })
    } else if name == "CALL"@ {
        Ok(InstrModel::Call { routine_name: rest_at(rest, 0) })
    } else if name == "CALL_IF"@ {
        let (a, b) = two_names(rest);
        Ok(InstrModel::CallIf { routine_name: a, boolean_input_name: b })
    } else if name == "ADD"@ {
        let (a, b, c) = three_names(rest);
        Ok(InstrModel::Add { input_a: a, input_b: b, dest: c })
    } else if name == "SUBSTRACT"@ {
        let (a, b, c) = three_names(rest);
        Ok(InstrModel::Substract { input_a: a, input_b: b, dest: c })
    } else if name == "MULTIPLY"@ {
        let (a, b, c) = three_names(rest);
        Ok(InstrModel::Multiply { input_a: a, input_b: b, dest: c })
    } else if name == "DIVIDE"@ {
        let (a, b, c) = three_names(rest);
        Ok(InstrModel::Divide { input_a: a, input_b: b, dest: c })
    } else if name == "MODULO"@ {
        let (a, b, c) = three_names(rest);
        Ok(InstrModel::Modulo { input_a: a, input_b: b, dest: c })
    } else if name == "LOGICAL_AND"@ {
        let (a, b, c) = three_names(rest);
        Ok(InstrModel::LogicalAnd { input_a: a, input_b: b, dest: c })
    } else if name == "LOGICAL_OR"@ {
        let (a, b, c) = three_names(rest);
        Ok(InstrModel::LogicalOr { input_a: a, input_b: b, dest: c })
    } else if name == "LOGICAL_NOT"@ {
        let (a, b) = two_names(rest);
        Ok(InstrModel::LogicalNot { input: a, dest: b })
    } else if name == "COMPARE_EQUAL"@ {
        let (a, b, c) = three_names(rest);
        Ok(InstrModel::CompareEqual { input_a: a, input_b: b, dest: c })
    } else if name == "COMPARE_DIFFERENT"@ {
        let (a, b, c) = three_names(rest);
        Ok(InstrModel::CompareDifferent { input_a: a, input_b: b, dest: c })
    } else if name == "COMPARE_LESS"@ {
        let (a, b, c) = three_names(rest);
        Ok(InstrModel::CompareLess { input_a: a, input_b: b, dest: c })
    } else if name == "COMPARE_LESS_OR_EQUAL"@ {
        let (a, b, c) = three_names(rest);
        Ok(InstrModel::CompareLessOrEqual { input_a: a, input_b: b, dest: c })
    } else if name == "COMPARE_GREATER"@ {
        let (a, b, c) = three_names(rest);
        Ok(InstrModel::CompareGreater { input_a: a, input_b: b, dest: c })
    } else if name == "COMPARE_GREATER_OR_EQUAL"@ {
        let (a, b, c) = three_names(rest);
        Ok(InstrModel::CompareGreaterOrEqual { input_a: a, input_b: b, dest: c })
    } else if name == "GET_AT"@ {
        let (a, b, c) = three_names(rest);
        Ok(InstrModel::GetAt { array_input: a, index: b, output: c })
    } else if name == "STORE_AT"@ {
        spec_parse_store_at(rest)
    } else if name == "COPY_AT"@ {
        let (a, b, c) = three_names(rest);
        Ok(InstrModel::CopyAt { array_output: a, index: b, input: c })
    } else if name == "SIZE"@ {
        let (a, b) = two_names(rest);
        Ok(InstrModel::Size { array_input: a, output: b })
    } else if name == "RESIZE"@ {
        let (a, b) = two_names(rest);
        Ok(InstrModel::Resize { array_input: a, new_size: b })
    } else if name == "INSERT"@ {
        let (a, b, c) = three_names(rest);
        Ok(InstrModel::Insert { array_output: a, index: b, input: c })
    } else if name == "PUSH_BACK"@ {
        let (a, b) = two_names(rest);
        Ok(InstrModel::PushBack { array_output: a, input: b })
    } else if name == "CONCAT"@ {
        let (a, b, c) = three_names(rest);
        Ok(InstrModel::Concat { input_a: a, input_b: b, dest: c })
    } else if name == "ERASE"@ {
        let (a, b) = two_names(rest);
        Ok(InstrModel::Erase { array_input: a, index: b })
    } else {
        Err(ParseErrorModel::InstructionDoesNotExist(name))
    }
}

impl Store {
    pub const NAME: &'static str = "STORE";

    /// Parses this instruction's operands (the name token already stripped).
    pub fn parse(text: &str) -> (r: Result<Instruction, ParseError>)
        ensures
            match r {
                Ok(ins) => spec_parse_store(text@) == Ok::<InstrModel, ParseErrorModel>(ins@),
                Err(e) => spec_parse_store(text@) == Err::<InstrModel, ParseErrorModel>(e@),
            },
    {
        let chars = chars_vec(text);
        let mut pos: usize = 0;
        let dest = scan_space_token(&chars, &mut pos);
        match crate::literal::parse_value(&chars, &mut pos) {
            Ok(v) => Ok(Instruction::Store(Store { dest, value: v })),
            Err(e) => Err(ParseError::ValueParsingError(e)),
        }
    }
}

impl Copy {
    pub const NAME: &'static str = "COPY";

    /// Parses this instruction's operands (the name token already stripped).
    pub fn parse(text: &str) -> (r: Result<Instruction, ParseError>)
        ensures
            r matches Ok(ins) && ins@ == (InstrModel::Copy {
                input: two_names(text@).0,
                dest: two_names(text@).1,
            }),
    {
        let chars = chars_vec(text);
        let mut pos: usize = 0;
        let input = scan_space_token(&chars, &mut pos);
        let dest = rest_of_line(&chars, pos);
        Ok(Instruction::Copy(Copy { input, dest }))
    }
}

impl Free {
    pub const NAME: &'static str = "FREE";

    /// Parses this instruction's operands (the name token already stripped).
    pub fn parse(text: &str) -> (r: Result<Instruction, ParseError>)
        ensures
            r matches Ok(ins) && ins@ == (InstrModel::Free { dest: rest_at(text@, 0) }),
    {
        let chars = chars_vec(text);
        let dest = rest_of_line(&chars, 0);
        Ok(Instruction::Free(Free { dest }))
    }
}

impl Print {
    pub const NAME: &'static str = "PRINT";

    /// Parses this instruction's operands (the name token already stripped).
    pub fn parse(text: &str) -> (r: Result<Instruction, ParseError>)
        ensures
            r matches Ok(ins) && ins@ == (InstrModel::Print { input: rest_at(text@, 0) }),
    {
        let chars = chars_vec(text);
        let input = rest_of_line(&chars, 0);
        Ok(Instruction::Print(Print { input }))
    }
}

impl Call {
    pub const NAME: &'static str = "CALL";

    /// Parses this instruction's operands (the name token already stripped).
    pub fn parse(text: &str) -> (r: Result<Instruction, ParseError>)
        ensures
            r matches Ok(ins) && ins@ == (InstrModel::Call { routine_name: rest_at(text@, 0) }),
    {
        let chars = chars_vec(text);
        let routine_name = rest_of_line(&chars, 0);
        Ok(Instruction::Call(Call { routine_name }))
    }
}

impl CallIf {
    pub const NAME: &'static str = "CALL_IF";

    /// Parses this instruction's operands (the name token already stripped).
    pub fn parse(text: &str) -> (r: Result<Instruction, ParseError>)
        ensures
            r matches Ok(ins) && ins@ == (InstrModel::CallIf {
                routine_name: two_names(text@).0,
                boolean_input_name: two_names(text@).1,
            }),
    {
        let chars = chars_vec(text);
        let mut pos: usize = 0;
        let routine_name = scan_space_token(&chars, &mut pos);
        let boolean_input_name = rest_of_line(&chars, pos);
        Ok(Instruction::CallIf(CallIf { routine_name, boolean_input_name }))
    }
}

impl Add {
    pub const NAME: &'static str = "ADD";

    /// Parses this instruction's operands (the name token already stripped).
    pub fn parse(text: &str) -> (r: Result<Instruction, ParseError>)
        ensures
            r matches Ok(ins) && ins@ == (InstrModel::Add {
                input_a: three_names(text@).0,
                input_b: three_names(text@).1,
                dest: three_names(text@).2,
            }),
    {
        let chars = chars_vec(text);
        let mut pos: usize = 0;
        let input_a = scan_space_token(&chars, &mut pos);
        let input_b = scan_space_token(&chars, &mut pos);
        let dest = rest_of_line(&chars, pos);
        Ok(Instruction::Add(Add { input_a, input_b, dest }))
    }
}

impl Substract {
    pub const NAME: &'static str = "SUBSTRACT";

    /// Parses this instruction's operands (the name token already stripped).
    pub fn parse(text: &str) -> (r: Result<Instruction, ParseError>)
        ensures
            r matches Ok(ins) && ins@ == (InstrModel::Substract {
                input_a: three_names(text@).0,
                input_b: three_names(text@).1,
                dest: three_names(text@).2,
            }),
    {
        let chars = chars_vec(text);
        let mut pos: usize = 0;
        let input_a = scan_space_token(&chars, &mut pos);
        let input_b = scan_space_token(&chars, &mut pos);
        let dest = rest_of_line(&chars, pos);
        Ok(Instruction::Substract(Substract { input_a, input_b, dest }))
    }
}

impl Multiply {
    pub const NAME: &'static str = "MULTIPLY";

    /// Parses this instruction's operands (the name token already stripped).
    pub fn parse(text: &str) -> (r: Result<Instruction, ParseError>)
        ensures
            r matches Ok(ins) && ins@ == (InstrModel::Multiply {
                input_a: three_names(text@).0,
                input_b: three_names(text@).1,
                dest: three_names(text@).2,
            }),
    {
        let chars = chars_vec(text);
        let mut pos: usize = 0;
        let input_a = scan_space_token(&chars, &mut pos);
        let input_b = scan_space_token(&chars, &mut pos);
        let dest = rest_of_line(&chars, pos);
        Ok(Instruction::Multiply(Multiply { input_a, input_b, dest }))
    }
}

impl Divide {
    pub const NAME: &'static str = "DIVIDE";

    /// Parses this instruction's operands (the name token already stripped).
    pub fn parse(text: &str) -> (r: Result<Instruction, ParseError>)
        ensures
            r matches Ok(ins) && ins@ == (InstrModel::Divide {
                input_a: three_names(text@).0,
                input_b: three_names(text@).1,
                dest: three_names(text@).2,
            }),
    {
        let chars = chars_vec(text);
        let mut pos: usize = 0;
        let input_a = scan_space_token(&chars, &mut pos);
        let input_b = scan_space_token(&chars, &mut pos);
        let dest = rest_of_line(&chars, pos);
        Ok(Instruction::Divide(Divide { input_a, input_b, dest }))
    }
}

impl Modulo {
    pub const NAME: &'static str = "MODULO";

    /// Parses this instruction's operands (the name token already stripped).
    pub fn parse(text: &str) -> (r: Result<Instruction, ParseError>)
        ensures
            r matches Ok(ins) && ins@ == (InstrModel::Modulo {
                input_a: three_names(text@).0,
                input_b: three_names(text@).1,
                dest: three_names(text@).2,
            }),
    {
        let chars = chars_vec(text);
        let mut pos: usize = 0;
        let input_a = scan_space_token(&chars, &mut pos);
        let input_b = scan_space_token(&chars, &mut pos);
        let dest = rest_of_line(&chars, pos);
        Ok(Instruction::Modulo(Modulo { input_a, input_b, dest }))
    }
}

impl LogicalAnd {
    pub const NAME: &'static str = "LOGICAL_AND";

    /// Parses this instruction's operands (the name token already stripped).
    pub fn parse(text: &str) -> (r: Result<Instruction, ParseError>)
        ensures
            r matches Ok(ins) && ins@ == (InstrModel::LogicalAnd {
                input_a: three_names(text@).0,
                input_b: three_names(text@).1,
                dest: three_names(text@).2,
            }),
    {
        let chars = chars_vec(text);
        let mut pos: usize = 0;
        let input_a = scan_space_token(&chars, &mut pos);
        let input_b = scan_space_token(&chars, &mut pos);
        let dest = rest_of_line(&chars, pos);
        Ok(Instruction::LogicalAnd(LogicalAnd { input_a, input_b, dest }))
    }
}

impl LogicalOr {
    pub const NAME: &'static str = "LOGICAL_OR";

    /// Parses this instruction's operands (the name token already stripped).
    pub fn parse(text: &str) -> (r: Result<Instruction, ParseError>)
        ensures
            r matches Ok(ins) && ins@ == (InstrModel::LogicalOr {
                input_a: three_names(text@).0,
                input_b: three_names(text@).1,
                dest: three_names(text@).2,
            }),
    {
        let chars = chars_vec(text);
        let mut pos: usize = 0;
        let input_a = scan_space_token(&chars, &mut pos);
        let input_b = scan_space_token(&chars, &mut pos);
        let dest = rest_of_line(&chars, pos);
        Ok(Instruction::LogicalOr(LogicalOr { input_a, input_b, dest }))
    }
}

impl LogicalNot {
    pub const NAME: &'static str = "LOGICAL_NOT";

    /// Parses this instruction's operands (the name token already stripped).
    pub fn parse(text: &str) -> (r: Result<Instruction, ParseError>)
        ensures
            r matches Ok(ins) && ins@ == (InstrModel::LogicalNot {
                input: two_names(text@).0,
                dest: two_names(text@).1,
            }),
    {
        let chars = chars_vec(text);
        let mut pos: usize = 0;
        let input = scan_space_token(&chars, &mut pos);
        let dest = rest_of_line(&chars, pos);
        Ok(Instruction::LogicalNot(LogicalNot { input, dest }))
    }
}

impl CompareEqual {
    pub const NAME: &'static str = "COMPARE_EQUAL";

    /// Parses this instruction's operands (the name token already stripped).
    pub fn parse(text: &str) -> (r: Result<Instruction, ParseError>)
        ensures
            r matches Ok(ins) && ins@ == (InstrModel::CompareEqual {
                input_a: three_names(text@).0,
                input_b: three_names(text@).1,
                dest: three_names(text@).2,
            }),
    {
        let chars = chars_vec(text);
        let mut pos: usize = 0;
        let input_a = scan_space_token(&chars, &mut pos);
        let input_b = scan_space_token(&chars, &mut pos);
        let dest = rest_of_line(&chars, pos);
        Ok(Instruction::CompareEqual(CompareEqual { input_a, input_b, dest }))
    }
}

impl CompareDifferent {
    pub const NAME: &'static str = "COMPARE_DIFFERENT";

    /// Parses this instruction's operands (the name token already stripped).
    pub fn parse(text: &str) -> (r: Result<Instruction, ParseError>)
        ensures
            r matches Ok(ins) && ins@ == (InstrModel::CompareDifferent {
                input_a: three_names(text@).0,
                input_b: three_names(text@).1,
                dest: three_names(text@).2,
            }),
    {
        let chars = chars_vec(text);
        let mut pos: usize = 0;
        let input_a = scan_space_token(&chars, &mut pos);
        let input_b = scan_space_token(&chars, &mut pos);
        let dest = rest_of_line(&chars, pos);
        Ok(Instruction::CompareDifferent(CompareDifferent { input_a, input_b, dest }))
    }
}

impl CompareLess {
    pub const NAME: &'static str = "COMPARE_LESS";

    /// Parses this instruction's operands (the name token already stripped).
    pub fn parse(text: &str) -> (r: Result<Instruction, ParseError>)
        ensures
            r matches Ok(ins) && ins@ == (InstrModel::CompareLess {
                input_a: three_names(text@).0,
                input_b: three_names(text@).1,
                dest: three_names(text@).2,
            }),
    {
        let chars = chars_vec(text);
        let mut pos: usize = 0;
        let input_a = scan_space_token(&chars, &mut pos);
        let input_b = scan_space_token(&chars, &mut pos);
        let dest = rest_of_line(&chars, pos);
        Ok(Instruction::CompareLess(CompareLess { input_a, input_b, dest }))
    }
}

impl CompareLessOrEqual {
    pub const NAME: &'static str = "COMPARE_LESS_OR_EQUAL";

    /// Parses this instruction's operands (the name token already stripped).
    pub fn parse(text: &str) -> (r: Result<Instruction, ParseError>)
        ensures
            r matches Ok(ins) && ins@ == (InstrModel::CompareLessOrEqual {
                input_a: three_names(text@).0,
                input_b: three_names(text@).1,
                dest: three_names(text@).2,
            }),
    {
        let chars = chars_vec(text);
        let mut pos: usize = 0;
        let input_a = scan_space_token(&chars, &mut pos);
        let input_b = scan_space_token(&chars, &mut pos);
        let dest = rest_of_line(&chars, pos);
        Ok(Instruction::CompareLessOrEqual(CompareLessOrEqual { input_a, input_b, dest }))
    }
}

impl CompareGreater {
    pub const NAME: &'static str = "COMPARE_GREATER";

    /// Parses this instruction's operands (the name token already stripped).
    pub fn parse(text: &str) -> (r: Result<Instruction, ParseError>)
        ensures
            r matches Ok(ins) && ins@ == (InstrModel::CompareGreater {
                input_a: three_names(text@).0,
                input_b: three_names(text@).1,
                dest: three_names(text@).2,
            }),
    {
        let chars = chars_vec(text);
        let mut pos: usize = 0;
        let input_a = scan_space_token(&chars, &mut pos);
        let input_b = scan_space_token(&chars, &mut pos);
        let dest = rest_of_line(&chars, pos);
        Ok(Instruction::CompareGreater(CompareGreater { input_a, input_b, dest }))
    }
}

impl CompareGreaterOrEqual {
    pub const NAME: &'static str = "COMPARE_GREATER_OR_EQUAL";

    /// Parses this instruction's operands (the name token already stripped).
    pub fn parse(text: &str) -> (r: Result<Instruction, ParseError>)
        ensures
            r matches Ok(ins) && ins@ == (InstrModel::CompareGreaterOrEqual {
                input_a: three_names(text@).0,
                input_b: three_names(text@).1,
                dest: three_names(text@).2,
            }),
    {
        let chars = chars_vec(text);
        let mut pos: usize = 0;
        let input_a = scan_space_token(&chars, &mut pos);
        let input_b = scan_space_token(&chars, &mut pos);
        let dest = rest_of_line(&chars, pos);
        Ok(Instruction::CompareGreaterOrEqual(CompareGreaterOrEqual { input_a, input_b, dest }))
    }
}

impl GetAt {
    pub const NAME: &'static str = "GET_AT";

    /// Parses this instruction's operands (the name token already stripped).
    pub fn parse(text: &str) -> (r: Result<Instruction, ParseError>)
        ensures
            r matches Ok(ins) && ins@ == (InstrModel::GetAt {
                array_input: three_names(text@).0,
                index: three_names(text@).1,
                output: three_names(text@).2,
            }),
    {
        let chars = chars_vec(text);
        let mut pos: usize = 0;
        let array_input = scan_space_token(&chars, &mut pos);
        let index = scan_space_token(&chars, &mut pos);
        let output = rest_of_line(&chars, pos);
        Ok(Instruction::GetAt(GetAt { array_input, index, output }))
    }
}

impl CopyAt {
    pub const NAME: &'static str = "COPY_AT";

    /// Parses this instruction's operands (the name token already stripped).
    pub fn parse(text: &str) -> (r: Result<Instruction, ParseError>)
        ensures
            r matches Ok(ins) && ins@ == (InstrModel::CopyAt {
                array_output: three_names(text@).0,
                index: three_names(text@).1,
                input: three_names(text@).2,
            }),
    {
        let chars = chars_vec(text);
        let mut pos: usize = 0;
        let array_output = scan_space_token(&chars, &mut pos);
        let index = scan_space_token(&chars, &mut pos);
        let input = rest_of_line(&chars, pos);
        Ok(Instruction::CopyAt(CopyAt { array_output, index, input }))
    }
}

impl Size {
    pub const NAME: &'static str = "SIZE";

    /// Parses this instruction's operands (the name token already stripped).
    pub fn parse(text: &str) -> (r: Result<Instruction, ParseError>)
        ensures
            r matches Ok(ins) && ins@ == (InstrModel::Size {
                array_input: two_names(text@).0,
                output: two_names(text@).1,
            }),
    {
        let chars = chars_vec(text);
        let mut pos: usize = 0;
        let array_input = scan_space_token(&chars, &mut pos);
        let output = rest_of_line(&chars, pos);
        Ok(Instruction::Size(Size { array_input, output }))
    }
}

impl Resize {
    pub const NAME: &'static str = "RESIZE";

    /// Parses this instruction's operands (the name token already stripped).
    pub fn parse(text: &str) -> (r: Result<Instruction, ParseError>)
        ensures
            r matches Ok(ins) && ins@ == (InstrModel::Resize {
                array_input: two_names(text@).0,
                new_size: two_names(text@).1,
            }),
    {
        let chars = chars_vec(text);
        let mut pos: usize = 0;
        let array_input = scan_space_token(&chars, &mut pos);
        let new_size = rest_of_line(&chars, pos);
        Ok(Instruction::Resize(Resize { array_input, new_size }))
    }
}

impl Insert {
    pub const NAME: &'static str = "INSERT";

    /// Parses this instruction's operands (the name token already stripped).
    pub fn parse(text: &str) -> (r: Result<Instruction, ParseError>)
        ensures
            r matches Ok(ins) && ins@ == (InstrModel::Insert {
                array_output: three_names(text@).0,
                index: three_names(text@).1,
                input: three_names(text@).2,
            }),
    {
        let chars = chars_vec(text);
        let mut pos: usize = 0;
        let array_output = scan_space_token(&chars, &mut pos);
        let index = scan_space_token(&chars, &mut pos);
        let input = rest_of_line(&chars, pos);
        Ok(Instruction::Insert(Insert { array_output, index, input }))
    }
}

impl PushBack {
    pub const NAME: &'static str = "PUSH_BACK";

    /// Parses this instruction's operands (the name token already stripped).
    pub fn parse(text: &str) -> (r: Result<Instruction, ParseError>)
        ensures
            r matches Ok(ins) && ins@ == (InstrModel::PushBack {
                array_output: two_names(text@).0,
                input: two_names(text@).1,
            }),
    {
        let chars = chars_vec(text);
        let mut pos: usize = 0;
        let array_output = scan_space_token(&chars, &mut pos);
        let input = rest_of_line(&chars, pos);
        Ok(Instruction::PushBack(PushBack { array_output, input }))
    }
}

impl Concat {
    pub const NAME: &'static str = "CONCAT";

    /// Parses this instruction's operands (the name token already stripped).
    pub fn parse(text: &str) -> (r: Result<Instruction, ParseError>)
        ensures
            r matches Ok(ins) && ins@ == (InstrModel::Concat {
                input_a: three_names(text@).0,
                input_b: three_names(text@).1,
                dest: three_names(text@).2,
            }),
    {
        let chars = chars_vec(text);
        let mut pos: usize = 0;
        let input_a = scan_space_token(&chars, &mut pos);
        let input_b = scan_space_token(&chars, &mut pos);
        let dest = rest_of_line(&chars, pos);
        Ok(Instruction::Concat(Concat { input_a, input_b, dest }))
    }
}

impl Erase {
    pub const NAME: &'static str = "ERASE";

    /// Parses this instruction's operands (the name token already stripped).
    pub fn parse(text: &str) -> (r: Result<Instruction, ParseError>)
        ensures
            r matches Ok(ins) && ins@ == (InstrModel::Erase {
                array_input: two_names(text@).0,
                index: two_names(text@).1,
            }),
    {
        let chars = chars_vec(text);
        let mut pos: usize = 0;
        let array_input = scan_space_token(&chars, &mut pos);
        let index = rest_of_line(&chars, pos);
        Ok(Instruction::Erase(Erase { array_input, index }))
    }
}

impl Instruction {
    /// Parses one instruction line: the instruction name, then its operands.
    pub fn parse(text: &str) -> (r: Result<Instruction, ParseError>)
        ensures
            match r {
                Ok(ins) => spec_parse_instruction(text@) == Ok::<InstrModel, ParseErrorModel>(
                    ins@,
                ),
                Err(e) => spec_parse_instruction(text@) == Err::<InstrModel, ParseErrorModel>(e@),
            },
    {
        let chars = chars_vec(text);
        let mut pos: usize = 0;
        let name = scan_name_chars(&chars, &mut pos);
        let rest = rest_of_line(&chars, pos);
        if crate::literal::token_is(&name, "STORE") {
            Store::parse(rest.as_str())
        } else if crate::literal::token_is(&name, "COPY") {
            Copy::parse(rest.as_str())
        } else if crate::literal::token_is(&name, "FREE") {
            Free::parse(rest.as_str())
        } else if crate::literal::token_is(&name, "PRINT") {
            Print::parse(rest.as_str())
        } else if crate::literal::token_is(&name, "CALL") {
            Call::parse(rest.as_str())
        } else if crate::literal::token_is(&name, "CALL_IF") {
            CallIf::parse(rest.as_str())
        } else if crate::literal::token_is(&name, "ADD") {
            Add::parse(rest.as_str())
        } else if crate::literal::token_is(&name, "SUBSTRACT") {
            Substract::parse(rest.as_str())
        } else if crate::literal::token_is(&name, "MULTIPLY") {
            Multiply::parse(rest.as_str())
        } else if crate::literal::token_is(&name, "DIVIDE") {
            Divide::parse(rest.as_str())
        } else if crate::literal::token_is(&name, "MODULO") {
            Modulo::parse(rest.as_str())
        } else if crate::literal::token_is(&name, "LOGICAL_AND") {
            LogicalAnd::parse(rest.as_str())
        } else if crate::literal::token_is(&name, "LOGICAL_OR") {
            LogicalOr::parse(rest.as_str())
        } else if crate::literal::token_is(&name, "LOGICAL_NOT") {
            LogicalNot::parse(rest.as_str())
        } else if crate::literal::token_is(&name, "COMPARE_EQUAL") {
            CompareEqual::parse(rest.as_str())
        } else if crate::literal::token_is(&name, "COMPARE_DIFFERENT") {
            CompareDifferent::parse(rest.as_str())
        } else if crate::literal::token_is(&name, "COMPARE_LESS") {
            CompareLess::parse(rest.as_str())
        } else if crate::literal::token_is(&name, "COMPARE_LESS_OR_EQUAL") {
            CompareLessOrEqual::parse(rest.as_str())
        } else if crate::literal::token_is(&name, "COMPARE_GREATER") {
            CompareGreater::parse(rest.as_str())
        } else if crate::literal::token_is(&name, "COMPARE_GREATER_OR_EQUAL") {
            CompareGreaterOrEqual::parse(rest.as_str())
        } else if crate::literal::token_is(&name, "GET_AT") {
            GetAt::parse(rest.as_str())
        } else if crate::literal::token_is(&name, "STORE_AT") {
            StoreAt::parse(rest.as_str())
        } else if crate::literal::token_is(&name, "COPY_AT") {
            CopyAt::parse(rest.as_str())
        } else if crate::literal::token_is(&name, "SIZE") {
            Size::parse(rest.as_str())
        } else if crate::literal::token_is(&name, "RESIZE") {
            Resize::parse(rest.as_str())
        } else if crate::literal::token_is(&name, "INSERT") {
            Insert::parse(rest.as_str())
        } else if crate::literal::token_is(&name, "PUSH_BACK") {
            PushBack::parse(rest.as_str())
        } else if crate::literal::token_is(&name, "CONCAT") {
            Concat::parse(rest.as_str())
        } else if crate::literal::token_is(&name, "ERASE") {
            Erase::parse(rest.as_str())
        } else {
            Err(ParseError::InstructionDoesNotExist(string_from_chars(&name)))
        }
    }
}

/// Reads the instruction-name token up to the next space, consuming the
/// space, keeping the characters.
#[verifier::loop_isolation(false)]
fn scan_name_chars(s: &Vec<char>, pos: &mut usize) -> (r: Vec<char>)
    requires
        *old(pos) <= s@.len(),
    ensures
        r@ == token_at(s@, *old(pos) as int).0,
        *final(pos) == token_at(s@, *old(pos) as int).1,
        *old(pos) <= *final(pos) <= s@.len(),
{
    let ghost start = *pos as int;
    let mut tok: Vec<char> = Vec::new();
    let mut i: usize = *pos;
    while i < s.len() && s[i] != ' '
        invariant
            start <= i <= s@.len(),
            tok@ == s@.subrange(start, i as int),
            find_space(s@, start) == find_space(s@, i as int),
        decreases s@.len() - i,
    {
        tok.push(s[i]);
        proof {
            assert(s@.subrange(start, i as int) + seq![s@[i as int]] =~= s@.subrange(
                start,
                i + 1,
            ));
        }
        i = i + 1;
    }
    if i < s.len() {
        *pos = i + 1;
    } else {
        *pos = i;
    }
    tok
}

impl StoreAt {
    pub const NAME: &'static str = "STORE_AT";

    /// Parses this instruction's operands (the name token already stripped).
    pub fn parse(text: &str) -> (r: Result<Instruction, ParseError>)
        ensures
            match r {
                Ok(ins) => spec_parse_store_at(text@) == Ok::<InstrModel, ParseErrorModel>(ins@),
                Err(e) => spec_parse_store_at(text@) == Err::<InstrModel, ParseErrorModel>(e@),
            },
    {
        let chars = chars_vec(text);
        let mut pos: usize = 0;
        let array_output = scan_space_token(&chars, &mut pos);
        let index = scan_space_token(&chars, &mut pos);
        match crate::literal::parse_value(&chars, &mut pos) {
            Ok(v) => Ok(Instruction::StoreAt(StoreAt { array_output, index, value: v })),
            Err(e) => Err(ParseError::ValueParsingError(e)),
        }
    }
}

} // verus!
