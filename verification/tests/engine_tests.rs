use topflight::engine::Error;
use topflight::engine::MAX_CALL_DEPTH;
use topflight::engine::execute_code_impl;
use topflight::engine::handle_line;
use topflight::instruction::Add;
use topflight::instruction::Call;
use topflight::instruction::CallIf;
use topflight::instruction::CompareDifferent;
use topflight::instruction::CompareEqual;
use topflight::instruction::CompareGreater;
use topflight::instruction::CompareGreaterOrEqual;
use topflight::instruction::CompareLess;
use topflight::instruction::CompareLessOrEqual;
use topflight::instruction::Concat;
use topflight::instruction::CopyAt;
use topflight::instruction::Divide;
use topflight::instruction::Erase;
use topflight::instruction::Free;
use topflight::instruction::GetAt;
use topflight::instruction::Insert;
use topflight::instruction::Instruction;
use topflight::instruction::LogicalAnd;
use topflight::instruction::LogicalNot;
use topflight::instruction::LogicalOr;
use topflight::instruction::Modulo;
use topflight::instruction::Multiply;
use topflight::instruction::Print;
use topflight::instruction::PushBack;
use topflight::instruction::Resize;
use topflight::instruction::Size;
use topflight::instruction::Store;
use topflight::instruction::StoreAt;
use topflight::instruction::Substract;
use topflight::value::Value;
use topflight::vm::VMError;

/// Runs a whole script and returns its output, panicking on any error.
fn run(script: &str) -> String {
    execute_code_impl(script).expect("script failed")
}

/// Runs a whole script and returns the failing line's number and error.
fn run_err(script: &str) -> (usize, Error) {
    let failure = execute_code_impl(script).expect_err("script unexpectedly succeeded");
    (failure.line_number, failure.error)
}

#[test]
fn test_todo() {
    assert_eq!(true, true);
}

#[test]
fn test_get_name() {
    assert_eq!("STORE", Store::NAME);
    assert_eq!("COPY", topflight::instruction::Copy::NAME);
    assert_eq!("FREE", Free::NAME);
    assert_eq!("PRINT", Print::NAME);
    assert_eq!("CALL", Call::NAME);
    assert_eq!("CALL_IF", CallIf::NAME);
    assert_eq!("ADD", Add::NAME);
    assert_eq!("SUBSTRACT", Substract::NAME);
    assert_eq!("MULTIPLY", Multiply::NAME);
    assert_eq!("DIVIDE", Divide::NAME);
    assert_eq!("MODULO", Modulo::NAME);
    assert_eq!("LOGICAL_AND", LogicalAnd::NAME);
    assert_eq!("LOGICAL_OR", LogicalOr::NAME);
    assert_eq!("LOGICAL_NOT", LogicalNot::NAME);
    assert_eq!("COMPARE_EQUAL", CompareEqual::NAME);
    assert_eq!("COMPARE_DIFFERENT", CompareDifferent::NAME);
    assert_eq!("COMPARE_LESS", CompareLess::NAME);
    assert_eq!("COMPARE_LESS_OR_EQUAL", CompareLessOrEqual::NAME);
    assert_eq!("COMPARE_GREATER", CompareGreater::NAME);
    assert_eq!("COMPARE_GREATER_OR_EQUAL", CompareGreaterOrEqual::NAME);
    assert_eq!("GET_AT", GetAt::NAME);
    assert_eq!("STORE_AT", StoreAt::NAME);
    assert_eq!("COPY_AT", CopyAt::NAME);
    assert_eq!("SIZE", Size::NAME);
    assert_eq!("RESIZE", Resize::NAME);
    assert_eq!("INSERT", Insert::NAME);
    assert_eq!("PUSH_BACK", PushBack::NAME);
    assert_eq!("CONCAT", Concat::NAME);
}

#[test]
fn test_store_parse() {
    let expected = Store {
        dest: String::from("lol"),
        value: Value::Integer(1),
    };
    let input = "lol INTEGER(1)";
    let received = Store::parse(input).expect("Well, parsing failed :'(");
    if let Instruction::Store(store) = received {
        assert_eq!(expected.dest, store.dest);
    } else {
        panic!("Store::parse built something that is not a store");
    }
}

#[test]
fn test_instruction_store_parse() {
    let expected = Store {
        dest: String::from("lol"),
        value: Value::Integer(1),
    };
    let input = "STORE lol INTEGER(1)";
    let received = Instruction::parse(input).expect("Well, parsing failed :'(");
    if let Instruction::Store(store) = received {
        assert_eq!(expected.dest, store.dest);
    } else {
        panic!("Instruction::parse built something that is not a store");
    }
}

#[test]
fn test_unknown_instruction() {
    match Instruction::parse("NOPE x y") {
        Err(topflight::instruction::ParseError::InstructionDoesNotExist(name)) => {
            assert_eq!(name, "NOPE");
        }
        other => panic!("expected an unknown-instruction error, got {:?}", other),
    }
}

#[test]
fn test_scenario_add_and_print() {
    let out = run("STORE x INTEGER(5)\nSTORE y INTEGER(3)\nADD x y z\nPRINT z");
    assert_eq!(out, "8");
}

#[test]
fn test_scenario_routine_call() {
    let out = run("<greet>\nSTORE msg STRING(\"hi\")\nPRINT msg\n</greet>\nCALL greet");
    assert_eq!(out, "hi");
}

#[test]
fn test_scenario_array_size() {
    let out = run("STORE a ARRAY_OF_INTEGER(1,2,3)\nSIZE a n\nPRINT n");
    assert_eq!(out, "3");
}

#[test]
fn test_scenario_index_zero_rejected() {
    let (line, error) = run_err("STORE a ARRAY_OF_INTEGER(1,2,3)\nSTORE z INTEGER(0)\nGET_AT a z out");
    assert_eq!(line, 3);
    assert!(matches!(error, Error::VMError(VMError::NegativeIndex)));
}

#[test]
fn test_copy_is_value_independent() {
    let out = run(
        "STORE a ARRAY_OF_INTEGER(1,2)\nCOPY a b\nSTORE x INTEGER(9)\nPUSH_BACK b x\nSIZE a n\nPRINT n\nSIZE b m\nPRINT m",
    );
    assert_eq!(out, "23");
}

#[test]
fn test_free_then_load_fails() {
    let (line, error) = run_err("STORE x INTEGER(1)\nFREE x\nPRINT x");
    assert_eq!(line, 3);
    match error {
        Error::VMError(VMError::VariableDoesNotExist(name)) => assert_eq!(name, "x"),
        other => panic!("expected a missing-variable error, got {:?}", other),
    }
}

#[test]
fn test_free_missing_variable() {
    let (line, error) = run_err("FREE nope");
    assert_eq!(line, 1);
    assert!(matches!(
        error,
        Error::VMError(VMError::VariableDoesNotExist(_))
    ));
}

#[test]
fn test_nested_routine_start_rejected() {
    let (line, error) = run_err("<a>\n<b>\n</a>");
    assert_eq!(line, 2);
    match error {
        Error::SubRoutineFound(current, attempted) => {
            assert_eq!(current, "a");
            assert_eq!(attempted, "b");
        }
        other => panic!("expected a nested-start error, got {:?}", other),
    }
}

#[test]
fn test_unexpected_routine_end() {
    let (line, error) = run_err("</a>");
    assert_eq!(line, 1);
    assert!(matches!(error, Error::UnexpectedEndSubroutine(_)));
}

#[test]
fn test_mismatching_routine_end_keeps_construction() {
    // The wrong end name fails, but the construction stays open, so the
    // right end still commits the routine.
    let out = run("<a>\nSTORE x INTEGER(7)\nPRINT x\n</a>\nCALL a");
    assert_eq!(out, "7");
    let (line, error) = run_err("<a>\n</b>");
    assert_eq!(line, 2);
    match error {
        Error::MismatchingEndSubroutine(current, attempted) => {
            assert_eq!(current, "a");
            assert_eq!(attempted, "b");
        }
        other => panic!("expected a mismatched-end error, got {:?}", other),
    }
}

#[test]
fn test_empty_routine_name() {
    let (line, error) = run_err("<>");
    assert_eq!(line, 1);
    assert!(matches!(error, Error::EmptyRoutineName));
}

#[test]
fn test_invalid_routine_format() {
    let (line, error) = run_err("<abc");
    assert_eq!(line, 1);
    assert!(matches!(error, Error::InvalidRoutineFormat));
}

#[test]
fn test_call_missing_routine() {
    let (line, error) = run_err("CALL ghost_routine");
    assert_eq!(line, 1);
    match error {
        Error::VMError(VMError::RoutineDoesNotExist(name)) => {
            assert_eq!(name, "ghost_routine");
        }
        other => panic!("expected a missing-routine error, got {:?}", other),
    }
}

#[test]
fn test_call_if_non_boolean_condition() {
    let (line, error) = run_err(
        "<noisy>\nSTORE x INTEGER(1)\nPRINT x\n</noisy>\nSTORE c INTEGER(1)\nCALL_IF noisy c",
    );
    assert_eq!(line, 6);
    assert!(matches!(
        error,
        Error::VMError(VMError::ExpectedBoolean(Value::Integer(1)))
    ));
}

#[test]
fn test_call_if_false_is_a_no_op() {
    let out = run(
        "<noisy>\nSTORE x INTEGER(1)\nPRINT x\n</noisy>\nSTORE c BOOLEAN(false)\nCALL_IF noisy c\nSTORE d BOOLEAN(true)\nCALL_IF noisy d",
    );
    assert_eq!(out, "1");
}

#[test]
fn test_out_of_bounds_reports_size_and_index() {
    let (line, error) = run_err("STORE a ARRAY_OF_INTEGER(1,2,3)\nSTORE i INTEGER(4)\nGET_AT a i out");
    assert_eq!(line, 3);
    assert!(matches!(
        error,
        Error::VMError(VMError::IndexOutOfBound {
            array_size: 3,
            index: 4
        })
    ));
}

#[test]
fn test_insert_at_end_rejected() {
    // Inserting exactly at the current end is out of bounds; PUSH_BACK is
    // the way to append.
    let (line, error) = run_err(
        "STORE a ARRAY_OF_INTEGER(1,2,3)\nSTORE i INTEGER(3)\nSTORE x INTEGER(9)\nINSERT a i x",
    );
    assert_eq!(line, 4);
    assert!(matches!(
        error,
        Error::VMError(VMError::IndexOutOfBound {
            array_size: 3,
            index: 3
        })
    ));
}

#[test]
fn test_non_integer_index() {
    let (line, error) = run_err(
        "STORE a ARRAY_OF_INTEGER(1,2,3)\nSTORE i STRING(\"one\")\nGET_AT a i out",
    );
    assert_eq!(line, 3);
    assert!(matches!(error, Error::VMError(VMError::NonIntegerIndex)));
}

#[test]
fn test_size_of_non_array() {
    let (line, error) = run_err("STORE a INTEGER(3)\nSIZE a n");
    assert_eq!(line, 2);
    assert!(matches!(
        error,
        Error::VMError(VMError::ExpectedArray(Value::Integer(3)))
    ));
}

#[test]
fn test_arithmetic_type_mismatch() {
    let (line, error) = run_err("STORE a BOOLEAN(true)\nSTORE b BOOLEAN(false)\nADD a b c");
    assert_eq!(line, 3);
    assert!(matches!(
        error,
        Error::VMError(VMError::ExpectedArithmeticTypes(_, _))
    ));
}

#[test]
fn test_integer_number_arithmetic_mismatch() {
    let (line, error) = run_err("STORE a INTEGER(1)\nSTORE b NUMBER(1.0)\nADD a b c");
    assert_eq!(line, 3);
    assert!(matches!(
        error,
        Error::VMError(VMError::ExpectedArithmeticTypes(_, _))
    ));
}

#[test]
fn test_compare_integer_to_number_mismatch() {
    for op in [
        "COMPARE_EQUAL",
        "COMPARE_DIFFERENT",
        "COMPARE_LESS",
        "COMPARE_LESS_OR_EQUAL",
        "COMPARE_GREATER",
        "COMPARE_GREATER_OR_EQUAL",
    ] {
        let script = format!("STORE a INTEGER(1)\nSTORE b NUMBER(1.0)\n{} a b c", op);
        let (line, error) = run_err(&script);
        assert_eq!(line, 3);
        assert!(matches!(
            error,
            Error::VMError(VMError::MismatchingTypes(Value::Integer(1), Value::Number(_)))
        ));
    }
}

#[test]
fn test_logical_mismatch() {
    let (line, error) = run_err("STORE a INTEGER(1)\nSTORE b BOOLEAN(true)\nLOGICAL_AND a b c");
    assert_eq!(line, 3);
    assert!(matches!(
        error,
        Error::VMError(VMError::MismatchingTypes(_, _))
    ));
}

#[test]
fn test_division_by_zero_reported() {
    let (line, error) = run_err("STORE a INTEGER(1)\nSTORE b INTEGER(0)\nDIVIDE a b c");
    assert_eq!(line, 3);
    assert!(matches!(error, Error::VMError(VMError::DivisionByZero)));
    let (line, error) = run_err("STORE a INTEGER(1)\nSTORE b INTEGER(0)\nMODULO a b c");
    assert_eq!(line, 3);
    assert!(matches!(error, Error::VMError(VMError::DivisionByZero)));
}

#[test]
fn test_recursion_limit_reported() {
    let (line, error) = run_err("<again>\nCALL again\n</again>\nCALL again");
    assert_eq!(line, 4);
    assert!(matches!(
        error,
        Error::VMError(VMError::RecursionLimitReached)
    ));
    assert!(MAX_CALL_DEPTH >= 64);
}

#[test]
fn test_integer_arithmetic_results() {
    assert_eq!(run("STORE a INTEGER(7)\nSTORE b INTEGER(3)\nSUBSTRACT a b c\nPRINT c"), "4");
    assert_eq!(run("STORE a INTEGER(7)\nSTORE b INTEGER(3)\nMULTIPLY a b c\nPRINT c"), "21");
    assert_eq!(run("STORE a INTEGER(7)\nSTORE b INTEGER(3)\nDIVIDE a b c\nPRINT c"), "2");
    assert_eq!(run("STORE a INTEGER(7)\nSTORE b INTEGER(3)\nMODULO a b c\nPRINT c"), "1");
    assert_eq!(run("STORE a INTEGER(-7)\nSTORE b INTEGER(3)\nDIVIDE a b c\nPRINT c"), "-2");
    assert_eq!(run("STORE a INTEGER(-7)\nSTORE b INTEGER(3)\nMODULO a b c\nPRINT c"), "-1");
}

#[test]
fn test_integer_arithmetic_wraps() {
    // Integer arithmetic is total: it wraps around rather than trapping.
    assert_eq!(
        run("STORE a INTEGER(9223372036854775807)\nSTORE b INTEGER(1)\nADD a b c\nPRINT c"),
        "-9223372036854775808"
    );
}

#[test]
fn test_logical_results() {
    assert_eq!(
        run("STORE a BOOLEAN(true)\nSTORE b BOOLEAN(false)\nLOGICAL_AND a b c\nPRINT c"),
        "false"
    );
    assert_eq!(
        run("STORE a BOOLEAN(true)\nSTORE b BOOLEAN(false)\nLOGICAL_OR a b c\nPRINT c"),
        "true"
    );
    assert_eq!(run("STORE a BOOLEAN(true)\nLOGICAL_NOT a c\nPRINT c"), "false");
}

#[test]
fn test_compare_results() {
    assert_eq!(
        run("STORE a INTEGER(2)\nSTORE b INTEGER(3)\nCOMPARE_LESS a b c\nPRINT c"),
        "true"
    );
    assert_eq!(
        run("STORE a STRING(\"abc\")\nSTORE b STRING(\"abd\")\nCOMPARE_LESS a b c\nPRINT c"),
        "true"
    );
    assert_eq!(
        run("STORE a ARRAY_OF_INTEGER(1,2)\nSTORE b ARRAY_OF_INTEGER(1,3)\nCOMPARE_GREATER a b c\nPRINT c"),
        "false"
    );
    assert_eq!(
        run("STORE a INTEGER(2)\nSTORE b INTEGER(2)\nCOMPARE_GREATER_OR_EQUAL a b c\nPRINT c"),
        "true"
    );
    assert_eq!(
        run("STORE a CHAR('a')\nSTORE b CHAR('b')\nCOMPARE_DIFFERENT a b c\nPRINT c"),
        "true"
    );
}

#[test]
fn test_array_mutation_flow() {
    // An index resolves to the position of that value: zero is rejected, so
    // the first element can be read but never written through an index.
    let out = run(
        "STORE a ARRAY_OF_INTEGER(1,2,3)\nSTORE i INTEGER(2)\nSTORE_AT a i INTEGER(9)\nPRINT a",
    );
    assert_eq!(out, "[1, 2, 9]");
    let out = run(
        "STORE a ARRAY_OF_INTEGER(1,2,3)\nSTORE i INTEGER(1)\nSTORE x INTEGER(8)\nCOPY_AT a i x\nPRINT a",
    );
    assert_eq!(out, "[1, 8, 3]");
    let out = run(
        "STORE a ARRAY_OF_INTEGER(1,2,3)\nSTORE i INTEGER(1)\nSTORE x INTEGER(7)\nINSERT a i x\nPRINT a",
    );
    assert_eq!(out, "[1, 7, 2, 3]");
    let out = run("STORE a ARRAY_OF_INTEGER(1,2,3)\nSTORE i INTEGER(2)\nERASE a i\nPRINT a");
    assert_eq!(out, "[1, 2]");
    let out = run("STORE a ARRAY_OF_INTEGER(1,2,3)\nSTORE n INTEGER(5)\nRESIZE a n\nPRINT a");
    assert_eq!(out, "[1, 2, 3, 0, 0]");
    let out = run("STORE a ARRAY_OF_INTEGER(1,2,3)\nSTORE n INTEGER(2)\nRESIZE a n\nPRINT a");
    assert_eq!(out, "[1, 2]");
}

#[test]
fn test_concat_strings() {
    let out = run("STORE a STRING(\"foo\")\nSTORE b STRING(\"bar\")\nCONCAT a b c\nPRINT c");
    assert_eq!(out, "foobar");
}

#[test]
fn test_concat_arrays_unsupported() {
    let (line, error) = run_err(
        "STORE a ARRAY_OF_INTEGER(1)\nSTORE b ARRAY_OF_INTEGER(2)\nCONCAT a b c",
    );
    assert_eq!(line, 3);
    assert!(matches!(
        error,
        Error::VMError(VMError::MismatchingTypes(_, _))
    ));
}

#[test]
fn test_store_at_type_mismatch_quirk() {
    // The element-type mismatch of STORE_AT reports placeholder booleans.
    let (line, error) = run_err(
        "STORE a ARRAY_OF_INTEGER(1,2)\nSTORE i INTEGER(1)\nSTORE_AT a i BOOLEAN(true)",
    );
    assert_eq!(line, 3);
    assert!(matches!(
        error,
        Error::VMError(VMError::MismatchingTypes(
            Value::Boolean(true),
            Value::Boolean(true)
        ))
    ));
}

#[test]
fn test_display_forms() {
    assert_eq!(run("STORE x BOOLEAN(true)\nPRINT x"), "true");
    assert_eq!(run("STORE x CHAR('q')\nPRINT x"), "q");
    assert_eq!(run("STORE x STRING(\"hi there\")\nPRINT x"), "hi there");
    assert_eq!(run("STORE x INTEGER(-42)\nPRINT x"), "-42");
    assert_eq!(
        run("STORE x ARRAY_OF_BOOLEAN(true,false)\nPRINT x"),
        "[true, false]"
    );
    assert_eq!(
        run("STORE x ARRAY_OF_STRING(\"a\",\"b\")\nPRINT x"),
        "[\"a\", \"b\"]"
    );
}

#[test]
fn test_comments_and_blank_lines_ignored() {
    let out = run("# a comment\n\nSTORE x INTEGER(1)\n# another\nPRINT x");
    assert_eq!(out, "1");
}

#[test]
fn test_redefining_a_routine_replaces_it() {
    let out = run(
        "<r>\nSTORE x INTEGER(1)\nPRINT x\n</r>\n<r>\nSTORE x INTEGER(2)\nPRINT x\n</r>\nCALL r",
    );
    assert_eq!(out, "2");
}

#[test]
fn test_handle_line_session() {
    let mut memory = topflight::Memory::default();
    let mut routines = topflight::Routines::new();
    let mut construction: Option<topflight::Routine> = None;
    let mut output = String::new();
    // A host may pre-seed the store before the first line.
    memory.store(
        "args",
        Value::ArrayOfString(vec![String::from("one"), String::from("two")]),
    );
    handle_line("SIZE args n", &mut memory, &mut routines, &mut construction, &mut output)
        .expect("size failed");
    handle_line("PRINT n", &mut memory, &mut routines, &mut construction, &mut output)
        .expect("print failed");
    assert_eq!(output, "2");
}

#[test]
fn test_camel_to_screaming_snake_case() {
    assert_eq!(topflight::camel_to_screaming_snake_case(""), "");
    assert_eq!(topflight::camel_to_screaming_snake_case("Store"), "STORE");
    assert_eq!(topflight::camel_to_screaming_snake_case("CallIf"), "CALL_IF");
    assert_eq!(
        topflight::camel_to_screaming_snake_case("CompareGreaterOrEqual"),
        "COMPARE_GREATER_OR_EQUAL"
    );
}

#[test]
fn test_number_arithmetic_and_display() {
    assert_eq!(
        run("STORE a NUMBER(1.5)\nSTORE b NUMBER(2.25)\nADD a b c\nPRINT c"),
        "3.75"
    );
    assert_eq!(
        run("STORE a NUMBER(1.5)\nSTORE b NUMBER(2.5)\nCOMPARE_LESS a b c\nPRINT c"),
        "true"
    );
    assert_eq!(
        run("STORE a NUMBER(3.5)\nSTORE b NUMBER(0.5)\nMULTIPLY a b c\nPRINT c"),
        "1.75"
    );
}
