//! The line interpreter: classifies each input line as a comment, a routine
//! delimiter, or an instruction, and routes it to routine construction or to
//! immediate execution.
//!
//! A session is a variable store, a routine table, the optional routine
//! under construction, and an output buffer, all owned by the caller and
//! handed to `handle_line` once per line. An error aborts the current line
//! only; the state accumulated by earlier lines is kept.

use vstd::prelude::*;

use crate::instruction::InstrModel;
use crate::instruction::Instruction;
use crate::instruction::ParseError;
use crate::instruction::ParseErrorModel;
use crate::instruction::Routine;
use crate::instruction::RoutineModel;
use crate::instruction::spec_parse_instruction;
use crate::text::chars_vec;
use crate::text::string_from_chars;
use crate::value::ValueModel;
use crate::vm::Memory;
use crate::vm::Routines;
use crate::vm::VMError;
use crate::vm::VMErrorModel;
use crate::vm::execute;
use crate::vm::spec_execute;

verus! {

/// The deepest chain of nested routine calls one line may make before the
/// executor reports `RecursionLimitReached` instead of overrunning the stack.
pub const MAX_CALL_DEPTH: u64 = 1024;

/// How handling a line can fail.
#[derive(Debug)]
pub enum Error {
    /// The line's instruction text was malformed.
    ParsingError(ParseError),
    /// Executing the line's instruction failed.
    VMError(VMError),
    /// A routine delimiter line does not end with `>`.
    InvalidRoutineFormat,
    /// A routine start was found while the named routine was already under
    /// construction.
    SubRoutineFound(String, String),
    /// A routine delimiter with an empty name.
    EmptyRoutineName,
    /// A routine end with no routine under construction.
    UnexpectedEndSubroutine(String),
    /// A routine end whose name is not the one under construction.
    MismatchingEndSubroutine(String, String),
}

/// The model of a line-handling error.
pub enum ErrorModel {
    ParsingError(ParseErrorModel),
    VMError(VMErrorModel),
    InvalidRoutineFormat,
    SubRoutineFound(Seq<char>, Seq<char>),
    EmptyRoutineName,
    UnexpectedEndSubroutine(Seq<char>),
    MismatchingEndSubroutine(Seq<char>, Seq<char>),
}

impl View for Error {
    type V = ErrorModel;

    open spec fn view(&self) -> ErrorModel {
        match self {
            Error::ParsingError(e) => ErrorModel::ParsingError(e@),
            Error::VMError(e) => ErrorModel::VMError(e@),
            Error::InvalidRoutineFormat => ErrorModel::InvalidRoutineFormat,
            Error::SubRoutineFound(a, b) => ErrorModel::SubRoutineFound(a@, b@),
            Error::EmptyRoutineName => ErrorModel::EmptyRoutineName,
            Error::UnexpectedEndSubroutine(n) => ErrorModel::UnexpectedEndSubroutine(n@),
            Error::MismatchingEndSubroutine(a, b) => ErrorModel::MismatchingEndSubroutine(a@, b@),
        }
    }
}

/// A classified line.
enum Line {
    RoutineStart(String),
    RoutineEnd(String),
    Instruction(Instruction),
}

/// The model of a classified line.
pub enum LineModel {
    RoutineStart(Seq<char>),
    RoutineEnd(Seq<char>),
    Instruction(InstrModel),
}

/// A blank line, or one starting with `#`: ignored.
pub open spec fn is_blank_or_comment(line: Seq<char>) -> bool {
    line.len() == 0 || line[0] == '#'
}

/// Classifying one non-comment line: `<name>` starts a routine, `</name>`
/// ends one — both must end with `>` and carry a non-empty name — and
/// anything else is an instruction.
pub open spec fn spec_parse_line(s: Seq<char>) -> Result<LineModel, ErrorModel> {
    if s.len() >= 2 && s[0] == '<' && s[1] == '/' {
        if s[s.len() - 1] != '>' {
            Err(ErrorModel::InvalidRoutineFormat)
        } else if s.len() <= 3 {
            Err(ErrorModel::EmptyRoutineName)
        } else {
            Ok(LineModel::RoutineEnd(s.subrange(2, s.len() - 1)))
        }
    } else if s.len() >= 1 && s[0] == '<' {
        if s[s.len() - 1] != '>' {
            Err(ErrorModel::InvalidRoutineFormat)
        } else if s.len() <= 2 {
            Err(ErrorModel::EmptyRoutineName)
        } else {
            Ok(LineModel::RoutineStart(s.subrange(1, s.len() - 1)))
        }
    } else {
        match spec_parse_instruction(s) {
            Ok(i) => Ok(LineModel::Instruction(i)),
            Err(e) => Err(ErrorModel::ParsingError(e)),
        }
    }
}

/// The name between the delimiters of a routine-start line, `<name>`.
#[verifier::loop_isolation(false)]
pub fn get_routine_name_at_start(s: &str) -> (r: String)
    ensures
        r@ == if s@.len() >= 2 {
            s@.subrange(1, s@.len() - 1)
        } else {
            Seq::<char>::empty()
        },
{
    let chars = chars_vec(s);
    if chars.len() < 2 {
        return String::new();
    }
    let mut out: Vec<char> = Vec::new();
    let mut i: usize = 1;
    while i < chars.len() - 1
        invariant
            1 <= i <= chars@.len() - 1,
            out@ == chars@.subrange(1, i as int),
        decreases chars@.len() - i,
    {
        out.push(chars[i]);
        proof {
            assert(chars@.subrange(1, i as int) + seq![chars@[i as int]] =~= chars@.subrange(
                1,
                i + 1,
            ));
        }
        i = i + 1;
    }
    string_from_chars(&out)
}

/// The name between the delimiters of a routine-end line, `</name>`.
#[verifier::loop_isolation(false)]
pub fn get_routine_name_at_end(s: &str) -> (r: String)
    ensures
        r@ == if s@.len() >= 3 {
            s@.subrange(2, s@.len() - 1)
        } else {
            Seq::<char>::empty()
        },
{
    let chars = chars_vec(s);
    if chars.len() < 3 {
        return String::new();
    }
    let mut out: Vec<char> = Vec::new();
    let mut i: usize = 2;
    while i < chars.len() - 1
        invariant
            2 <= i <= chars@.len() - 1,
            out@ == chars@.subrange(2, i as int),
        decreases chars@.len() - i,
    {
        out.push(chars[i]);
        proof {
            assert(chars@.subrange(2, i as int) + seq![chars@[i as int]] =~= chars@.subrange(
                2,
                i + 1,
            ));
        }
        i = i + 1;
    }
    string_from_chars(&out)
}

/// Classifies one line, as `spec_parse_line` describes.
fn parse_line(s: &str) -> (r: Result<Line, Error>)
    ensures
        ({
            let sp = spec_parse_line(s@);
            match r {
                Ok(l) => match l {
                    Line::RoutineStart(n) => sp == Ok::<LineModel, ErrorModel>(
                        LineModel::RoutineStart(n@),
                    ),
                    Line::RoutineEnd(n) => sp == Ok::<LineModel, ErrorModel>(
                        LineModel::RoutineEnd(n@),
                    ),
                    Line::Instruction(i) => sp == Ok::<LineModel, ErrorModel>(
                        LineModel::Instruction(i@),
                    ),
                },
                Err(e) => sp == Err::<LineModel, ErrorModel>(e@),
            }
        }),
{
    let chars = chars_vec(s);
    if chars.len() >= 2 && chars[0] == '<' && chars[1] == '/' {
        if chars[chars.len() - 1] != '>' {
            Err(Error::InvalidRoutineFormat)
        } else if chars.len() <= 3 {
            Err(Error::EmptyRoutineName)
        } else {
            Ok(Line::RoutineEnd(get_routine_name_at_end(s)))
        }
    } else if chars.len() >= 1 && chars[0] == '<' {
        if chars[chars.len() - 1] != '>' {
            Err(Error::InvalidRoutineFormat)
        } else if chars.len() <= 2 {
            Err(Error::EmptyRoutineName)
        } else {
            Ok(Line::RoutineStart(get_routine_name_at_start(s)))
        }
    } else {
        match Instruction::parse(s) {
            Ok(i) => Ok(Line::Instruction(i)),
            Err(e) => Err(Error::ParsingError(e)),
        }
    }
}

/// Opens a routine under construction; a second start before the first end
/// is an error that leaves the original construction intact.
fn start_routine(routine_name: String, routine_in_construction: &mut Option<Routine>) -> (r:
    Result<(), Error>)
    ensures
        match *old(routine_in_construction) {
            None => {
                &&& r is Ok
                &&& (*final(routine_in_construction)).deep_view() == Some(
                    RoutineModel {
                        name: routine_name@,
                        instructions: Seq::<InstrModel>::empty(),
                    },
                )
            },
            Some(cur) => {
                &&& r matches Err(e) && e@ == ErrorModel::SubRoutineFound(
                    cur@.name,
                    routine_name@,
                )
                &&& *final(routine_in_construction) == *old(routine_in_construction)
            },
        },
{
    match routine_in_construction.as_ref() {
        Some(cur) => Err(Error::SubRoutineFound(cur.name.clone(), routine_name)),
        None => {
            *routine_in_construction = Some(Routine::new(routine_name));
            Ok(())
        },
    }
}

/// Closes the routine under construction and commits it; ending without a
/// start, or with a name that does not match, is an error that leaves the
/// construction as it was.
fn end_routine(
    routine_name: String,
    routine_in_construction: &mut Option<Routine>,
    routines: &mut Routines,
) -> (r: Result<(), Error>)
    ensures
        match (*old(routine_in_construction)).deep_view() {
            None => {
                &&& r matches Err(e) && e@ == ErrorModel::UnexpectedEndSubroutine(routine_name@)
                &&& *final(routine_in_construction) == *old(routine_in_construction)
                &&& final(routines)@ == old(routines)@
            },
            Some(cur) => if routine_name@ != cur.name {
                &&& r matches Err(e) && e@ == ErrorModel::MismatchingEndSubroutine(
                    cur.name,
                    routine_name@,
                )
                &&& *final(routine_in_construction) == *old(routine_in_construction)
                &&& final(routines)@ == old(routines)@
            } else {
                &&& r is Ok
                &&& (*final(routine_in_construction)).deep_view() == None::<RoutineModel>
                &&& final(routines)@ == old(routines)@.insert(routine_name@, cur)
            },
        },
{
    let name_matches: bool = match routine_in_construction.as_ref() {
        None => {
            return Err(Error::UnexpectedEndSubroutine(routine_name));
        },
        Some(cur) => cur.name.eq(&routine_name),
    };
    if !name_matches {
        let cur_name = match routine_in_construction.as_ref() {
            Some(cur) => cur.name.clone(),
            None => {
                proof {
                    assert(false);
                }
                String::new()
            },
        };
        return Err(Error::MismatchingEndSubroutine(cur_name, routine_name));
    }
    let mut taken: Option<Routine> = None;
    core::mem::swap(routine_in_construction, &mut taken);
    match taken {
        Some(r) => {
            routines.insert(routine_name, r);
            Ok(())
        },
        None => {
            // Unreachable: the construction slot was checked to be occupied.
            proof {
                assert(false);
            }
            Err(Error::EmptyRoutineName)
        },
    }
}

/// The effect of one line on the session: the store, routine table,
/// construction slot and output afterwards, and the error if the line
/// failed. State accumulated by earlier lines is always kept.
pub struct LineOutcome {
    pub memory: Map<Seq<char>, ValueModel>,
    pub routines: Map<Seq<char>, RoutineModel>,
    pub construction: Option<RoutineModel>,
    pub appended: Seq<char>,
    pub error: Option<ErrorModel>,
}

pub open spec fn line_ok(
    m: Map<Seq<char>, ValueModel>,
    rt: Map<Seq<char>, RoutineModel>,
    cons: Option<RoutineModel>,
) -> LineOutcome {
    LineOutcome {
        memory: m,
        routines: rt,
        construction: cons,
        appended: Seq::<char>::empty(),
        error: None,
    }
}

pub open spec fn line_fail(
    m: Map<Seq<char>, ValueModel>,
    rt: Map<Seq<char>, RoutineModel>,
    cons: Option<RoutineModel>,
    e: ErrorModel,
) -> LineOutcome {
    LineOutcome {
        memory: m,
        routines: rt,
        construction: cons,
        appended: Seq::<char>::empty(),
        error: Some(e),
    }
}

/// The effect of one input line: comments are ignored; delimiters drive the
/// construction slot; an instruction line is executed immediately when no
/// routine is under construction, and appended to it otherwise.
pub open spec fn spec_handle_line(
    line: Seq<char>,
    m: Map<Seq<char>, ValueModel>,
    rt: Map<Seq<char>, RoutineModel>,
    cons: Option<RoutineModel>,
) -> LineOutcome {
    if is_blank_or_comment(line) {
        line_ok(m, rt, cons)
    } else {
        match spec_parse_line(line) {
            Err(e) => line_fail(m, rt, cons, e),
            Ok(LineModel::RoutineStart(name)) => match cons {
                None => line_ok(
                    m,
                    rt,
                    Some(RoutineModel { name, instructions: Seq::<InstrModel>::empty() }),
                ),
                Some(cur) => line_fail(
                    m,
                    rt,
                    cons,
                    ErrorModel::SubRoutineFound(cur.name, name),
                ),
            },
            Ok(LineModel::RoutineEnd(name)) => match cons {
                None => line_fail(m, rt, cons, ErrorModel::UnexpectedEndSubroutine(name)),
                Some(cur) => if name != cur.name {
                    line_fail(m, rt, cons, ErrorModel::MismatchingEndSubroutine(cur.name, name))
                } else {
                    line_ok(m, rt.insert(name, cur), None)
                },
            },
            Ok(LineModel::Instruction(ins)) => match cons {
                Some(cur) => line_ok(
                    m,
                    rt,
                    Some(
                        RoutineModel {
                            name: cur.name,
                            instructions: cur.instructions.push(ins),
                        },
                    ),
                ),
                None => {
                    let o = spec_execute(m, rt, ins, MAX_CALL_DEPTH as nat);
                    LineOutcome {
                        memory: o.memory,
                        routines: rt,
                        construction: None,
                        appended: o.appended,
                        error: match o.error {
                            None => None,
                            Some(e) => Some(ErrorModel::VMError(e)),
                        },
                    }
                },
            },
        }
    }
}

/// Handles one line of script text against the session, as
/// `spec_handle_line` describes.
pub fn handle_line(
    line: &str,
    memory: &mut Memory,
    routines: &mut Routines,
    routine_in_construction: &mut Option<Routine>,
    output: &mut String,
) -> (r: Result<(), Error>)
    ensures
        ({
            let o = spec_handle_line(
                line@,
                old(memory)@,
                old(routines)@,
                (*old(routine_in_construction)).deep_view(),
            );
            &&& final(memory)@ == o.memory
            &&& final(routines)@ == o.routines
            &&& (*final(routine_in_construction)).deep_view() == o.construction
            &&& final(output)@ == old(output)@ + o.appended
            &&& match r {
                Ok(()) => o.error is None,
                Err(e) => o.error == Some(e@),
            }
        }),
{
    proof {
        assert(old(output)@ + Seq::<char>::empty() =~= old(output)@);
    }
    let first = chars_vec(line);
    if first.len() == 0 || first[0] == '#' {
        return Ok(());
    }
    match parse_line(line) {
        Err(e) => Err(e),
        Ok(Line::RoutineStart(name)) => start_routine(name, routine_in_construction),
        Ok(Line::RoutineEnd(name)) => end_routine(name, routine_in_construction, routines),
        Ok(Line::Instruction(instruction)) => {
            let mut taken: Option<Routine> = None;
            core::mem::swap(routine_in_construction, &mut taken);
            match taken {
                Some(mut cur) => {
                    let ghost before = cur.instructions.deep_view();
                    let ghost pushed = instruction@;
                    cur.instructions.push(instruction);
                    proof {
                        assert(cur.instructions.deep_view() =~= before.push(pushed));
                    }
                    *routine_in_construction = Some(cur);
                    Ok(())
                },
                None => {
                    match execute(memory, routines, &instruction, output, MAX_CALL_DEPTH) {
                        Ok(()) => Ok(()),
                        Err(e) => Err(Error::VMError(e)),
                    }
                },
            }
        },
    }
}

/// A line-handling error together with the 1-based number and the text of
/// the offending line.
#[derive(Debug)]
pub struct LineError {
    pub line_number: usize,
    pub line: String,
    pub error: Error,
}

/// The model of a located line error.
pub struct LineErrorModel {
    pub line_number: int,
    pub line: Seq<char>,
    pub error: ErrorModel,
}

impl View for LineError {
    type V = LineErrorModel;

    open spec fn view(&self) -> LineErrorModel {
        LineErrorModel {
            line_number: self.line_number as int,
            line: self.line@,
            error: self.error@,
        }
    }
}

/// The first newline at or after `i`, or the end of the text.
pub open spec fn find_newline(s: Seq<char>, i: int) -> int
    decreases s.len() - i,
{
    if i >= s.len() {
        s.len() as int
    } else if s[i] == '\n' {
        i
    } else {
        find_newline(s, i + 1)
    }
}

proof fn lemma_find_newline_ge(s: Seq<char>, i: int)
    ensures
        find_newline(s, i) < s.len() ==> find_newline(s, i) >= i,
        i <= s.len() ==> i <= find_newline(s, i) <= s.len(),
    decreases s.len() - i,
{
    if i < s.len() && s[i] != '\n' {
        lemma_find_newline_ge(s, i + 1);
    }
}

/// The lines of a text, split at each newline; a text without one is a
/// single line, and a trailing newline yields a final empty line.
pub open spec fn split_lines(s: Seq<char>) -> Seq<Seq<char>>
    decreases s.len(),
    via split_lines_decreases
{
    let p = find_newline(s, 0);
    if p == s.len() {
        seq![s]
    } else {
        seq![s.take(p)] + split_lines(s.skip(p + 1))
    }
}

#[via_fn]
proof fn split_lines_decreases(s: Seq<char>) {
    lemma_find_newline_ge(s, 0);
}

/// Splits a text into its lines.
#[verifier::loop_isolation(false)]
fn lines_vec(code: &str) -> (r: Vec<String>)
    ensures
        r.deep_view() == split_lines(code@),
{
    let chars = chars_vec(code);
    let mut out: Vec<String> = Vec::new();
    let mut start: usize = 0;
    let mut cur: Vec<char> = Vec::new();
    proof {
        assert(out.deep_view() =~= Seq::<Seq<char>>::empty());
        assert(chars@.skip(0) =~= chars@);
        assert(cur@ =~= chars@.subrange(0, 0));
        assert(Seq::<Seq<char>>::empty() + split_lines(chars@) =~= split_lines(chars@));
    }
    let mut i: usize = 0;
    while i < chars.len()
        invariant
            0 <= start <= i <= chars@.len(),
            cur@ == chars@.subrange(start as int, i as int),
            find_newline(chars@, start as int) == find_newline(chars@, i as int),
            split_lines(code@) == out.deep_view() + split_lines(chars@.skip(start as int)),
        decreases chars@.len() - i,
    {
        let c = chars[i];
        if c == '\n' {
            proof {
                assert(find_newline(chars@, i as int) == i);
                let tail = chars@.skip(start as int);
                assert(tail.take(i - start) =~= chars@.subrange(start as int, i as int));
                assert(tail.skip(i - start + 1) =~= chars@.skip(i + 1));
                assert(find_newline(tail, 0) == i - start) by {
                    lemma_find_newline_shift(chars@, start as int, i as int);
                }
                assert((out.deep_view() + seq![cur@]) + split_lines(chars@.skip(i + 1))
                    =~= out.deep_view() + (seq![cur@] + split_lines(chars@.skip(i + 1))));
            }
            let ghost prev = out.deep_view();
            let finished = string_from_chars(&cur);
            let ghost fin = finished@;
            out.push(finished);
            proof {
                assert(out.deep_view() =~= prev.push(fin));
                assert(prev.push(fin) =~= prev + seq![fin]);
            }
            cur = Vec::new();
            start = i + 1;
        } else {
            cur.push(c);
            proof {
                assert(chars@.subrange(start as int, i as int) + seq![chars@[i as int]]
                    =~= chars@.subrange(start as int, i + 1));
            }
        }
        i = i + 1;
    }
    proof {
        let tail = chars@.skip(start as int);
        assert(find_newline(chars@, i as int) == chars@.len());
        assert(find_newline(tail, 0) == tail.len()) by {
            lemma_find_newline_shift(chars@, start as int, chars@.len() as int);
        }
        assert(tail =~= chars@.subrange(start as int, chars@.len() as int));
        assert(split_lines(tail) == seq![tail]);
    }
    let ghost prev = out.deep_view();
    let finished = string_from_chars(&cur);
    let ghost fin = finished@;
    out.push(finished);
    proof {
        assert(out.deep_view() =~= prev.push(fin));
        assert(prev.push(fin) =~= prev + seq![fin]);
        assert(out.deep_view() =~= split_lines(code@));
    }
    out
}

/// Splitting at a newline found from a later start: the search result
/// shifts with the cut.
proof fn lemma_find_newline_shift(s: Seq<char>, start: int, p: int)
    requires
        0 <= start <= p <= s.len(),
        find_newline(s, start) == p,
    ensures
        find_newline(s.skip(start), 0) == p - start,
    decreases s.len() - start,
{
    let tail = s.skip(start);
    lemma_find_newline_ge(s, start);
    lemma_find_newline_shift_from(s, start, start, p);
}

proof fn lemma_find_newline_shift_from(s: Seq<char>, start: int, i: int, p: int)
    requires
        0 <= start <= i <= p <= s.len(),
        find_newline(s, i) == p,
    ensures
        find_newline(s.skip(start), i - start) == p - start,
    decreases s.len() - i,
{
    let tail = s.skip(start);
    if i == s.len() {
    } else if s[i] == '\n' {
        assert(tail[i - start] == s[i]);
    } else {
        assert(tail[i - start] == s[i]);
        assert(find_newline(s, i) == find_newline(s, i + 1));
        lemma_find_newline_ge(s, i + 1);
        assert(i + 1 <= p);
        lemma_find_newline_shift_from(s, start, i + 1, p);
    }
}

/// The outcome of running a list of lines from a starting state: the final
/// session state, the output of all the lines that ran, and — if one line
/// failed — its number, text and error. The first failing line stops the
/// run.
pub struct RunOutcome {
    pub memory: Map<Seq<char>, ValueModel>,
    pub routines: Map<Seq<char>, RoutineModel>,
    pub construction: Option<RoutineModel>,
    pub output: Seq<char>,
    pub failure: Option<LineErrorModel>,
}

pub open spec fn spec_run_lines(
    lines: Seq<Seq<char>>,
    m: Map<Seq<char>, ValueModel>,
    rt: Map<Seq<char>, RoutineModel>,
    cons: Option<RoutineModel>,
    number: int,
) -> RunOutcome
    decreases lines.len(),
{
    if lines.len() == 0 {
        RunOutcome {
            memory: m,
            routines: rt,
            construction: cons,
            output: Seq::<char>::empty(),
            failure: None,
        }
    } else {
        let o = spec_handle_line(lines[0], m, rt, cons);
        match o.error {
            Some(e) => RunOutcome {
                memory: o.memory,
                routines: o.routines,
                construction: o.construction,
                output: o.appended,
                failure: Some(
                    LineErrorModel { line_number: number, line: lines[0], error: e },
                ),
            },
            None => {
                let rest = spec_run_lines(
                    lines.drop_first(),
                    o.memory,
                    o.routines,
                    o.construction,
                    number + 1,
                );
                RunOutcome {
                    memory: rest.memory,
                    routines: rest.routines,
                    construction: rest.construction,
                    output: o.appended + rest.output,
                    failure: rest.failure,
                }
            },
        }
    }
}

/// Runs a whole script from an empty session, one line at a time, and
/// returns everything the script printed; the first failing line stops the
/// run and is reported with its number and text.
#[verifier::loop_isolation(false)]
#[verifier::rlimit(80)]
pub fn execute_code_impl(code: &str) -> (r: Result<String, LineError>)
    ensures
        ({
            let o = spec_run_lines(
                split_lines(code@),
                Map::<Seq<char>, ValueModel>::empty(),
                Map::<Seq<char>, RoutineModel>::empty(),
                None::<RoutineModel>,
                1,
            );
            match r {
                Ok(out) => o.failure is None && out@ == o.output,
                Err(le) => o.failure == Some(le@),
            }
        }),
{
    let lines = lines_vec(code);
    let mut output = String::new();
    let mut memory = Memory::default();
    let mut routines = Routines::new();
    let mut routine_in_construction: Option<Routine> = None;
    let ghost all = lines.deep_view();
    proof {
        assert(all.skip(0) =~= all);
        let full = spec_run_lines(
            all,
            Map::<Seq<char>, ValueModel>::empty(),
            Map::<Seq<char>, RoutineModel>::empty(),
            None::<RoutineModel>,
            1,
        );
        assert(Seq::<char>::empty() + full.output =~= full.output);
        assert(routine_in_construction.deep_view() == None::<RoutineModel>);
    }
    let mut i: usize = 0;
    while i < lines.len()
        invariant
            0 <= i <= lines@.len(),
            all.len() == lines@.len(),
            forall|k: int| 0 <= k < lines@.len() ==> all[k] == lines@[k]@,
            ({
                let full = spec_run_lines(
                    all,
                    Map::<Seq<char>, ValueModel>::empty(),
                    Map::<Seq<char>, RoutineModel>::empty(),
                    None::<RoutineModel>,
                    1,
                );
                let rem = spec_run_lines(
                    all.skip(i as int),
                    memory@,
                    routines@,
                    routine_in_construction.deep_view(),
                    i + 1,
                );
                &&& full.failure == rem.failure
                &&& full.output == output@ + rem.output
            }),
        decreases lines@.len() - i,
    {
        let ghost out_before = output@;
        proof {
            assert(all.skip(i as int)[0] == all[i as int]);
            assert(all.skip(i as int).drop_first() =~= all.skip(i + 1));
        }
        let ghost mem_before = memory@;
        let ghost rt_before = routines@;
        let ghost cons_before = routine_in_construction.deep_view();
        let step = handle_line(
            lines[i].as_str(),
            &mut memory,
            &mut routines,
            &mut routine_in_construction,
            &mut output,
        );
        proof {
            let o = spec_handle_line(all[i as int], mem_before, rt_before, cons_before);
            let rest = spec_run_lines(
                all.skip(i + 1),
                o.memory,
                o.routines,
                o.construction,
                i + 2,
            );
            assert(out_before + (o.appended + rest.output) =~= (out_before + o.appended)
                + rest.output);
        }
        match step {
            Ok(()) => {
                i = i + 1;
            },
            Err(e) => {
                return Err(
                    LineError { line_number: i + 1, line: lines[i].clone(), error: e },
                );
            },
        }
    }
    proof {
        assert(all.skip(all.len() as int) =~= Seq::<Seq<char>>::empty());
        let full = spec_run_lines(
            all,
            Map::<Seq<char>, ValueModel>::empty(),
            Map::<Seq<char>, RoutineModel>::empty(),
            None::<RoutineModel>,
            1,
        );
        assert(full.output == output@ + Seq::<char>::empty());
        assert(output@ + Seq::<char>::empty() =~= output@);
    }
    Ok(output)
}

} // verus!
