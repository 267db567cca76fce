use topflight::engine::execute_code_impl;
use topflight::value::NumberBits;
use topflight::value::Value;

fn run(script: &str) -> String {
    execute_code_impl(script).expect("script failed")
}

#[test]
fn test_number_display_forms() {
    assert_eq!(run("STORE x NUMBER(4)\nPRINT x"), "4");
    assert_eq!(run("STORE x NUMBER(-2.5)\nPRINT x"), "-2.5");
    assert_eq!(run("STORE x ARRAY_OF_NUMBER(1.5,2.5)\nPRINT x"), "[1.5, 2.5]");
}

#[test]
fn test_number_division_by_zero_is_not_a_trap() {
    // IEEE semantics: dividing a number by zero yields an infinity or a NaN
    // value, not an error and not a trap.
    assert_eq!(run("STORE a NUMBER(1)\nSTORE b NUMBER(0)\nDIVIDE a b c\nPRINT c"), "+Inf");
    assert_eq!(run("STORE a NUMBER(0)\nSTORE b NUMBER(0)\nDIVIDE a b c\nPRINT c"), "NaN");
}

#[test]
fn test_number_subtract_and_divide() {
    assert_eq!(run("STORE a NUMBER(5.5)\nSTORE b NUMBER(2.25)\nSUBSTRACT a b c\nPRINT c"), "3.25");
    assert_eq!(run("STORE a NUMBER(7)\nSTORE b NUMBER(2)\nDIVIDE a b c\nPRINT c"), "3.5");
}

#[test]
fn test_number_nan_comparisons() {
    // A NaN is not equal to itself, and orders with nothing.
    let script = "STORE z NUMBER(0)\nDIVIDE z z n\nCOMPARE_EQUAL n n c\nPRINT c";
    assert_eq!(run(script), "false");
    let script = "STORE z NUMBER(0)\nDIVIDE z z n\nCOMPARE_DIFFERENT n n c\nPRINT c";
    assert_eq!(run(script), "true");
    let script = "STORE z NUMBER(0)\nDIVIDE z z n\nCOMPARE_LESS n n c\nPRINT c";
    assert_eq!(run(script), "false");
    let script = "STORE z NUMBER(0)\nDIVIDE z z n\nCOMPARE_LESS_OR_EQUAL n n c\nPRINT c";
    assert_eq!(run(script), "false");
}

#[test]
fn test_number_zero_signs_are_equal() {
    let script = "STORE a NUMBER(0)\nSTORE b NUMBER(-0.0)\nCOMPARE_EQUAL a b c\nPRINT c";
    assert_eq!(run(script), "true");
}

#[test]
fn test_number_parse_is_exact() {
    // The literal reader rounds to the nearest representable number: the
    // bits must agree exactly with the host's own conversion.
    let input: Vec<char> = "NUMBER(1.1)".chars().collect();
    let mut pos: usize = 0;
    assert_eq!(
        topflight::parse_value(&input, &mut pos),
        Ok(Value::Number(NumberBits(1.1f64.to_bits())))
    );
    let input: Vec<char> = "NUMBER(1e308)".chars().collect();
    let mut pos: usize = 0;
    assert_eq!(
        topflight::parse_value(&input, &mut pos),
        Ok(Value::Number(NumberBits(1e308f64.to_bits())))
    );
}

#[test]
fn test_number_array_resize_fills_zero() {
    assert_eq!(
        run("STORE a ARRAY_OF_NUMBER(1.5)\nSTORE n INTEGER(3)\nRESIZE a n\nPRINT a"),
        "[1.5, 0, 0]"
    );
}
