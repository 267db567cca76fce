//! The textual literal grammar for values: `TYPE(payload)`.
//!
//! Parsing works over a vector of characters and a cursor. Each parser
//! consumes exactly the characters belonging to one value, reports whether
//! that value was the last of a comma-separated list (terminated by `)`
//! rather than `,`), and leaves the cursor after the consumed characters.
//! Every parser is specified against a spec-level parser over `Seq<char>`.

use vstd::prelude::*;

use crate::number::number_from_text;
use crate::text::i64_text_value;
use crate::text::parse_i64_chars;
use crate::text::string_from_chars;
use crate::value::NumberBits;
use crate::value::Value;
use crate::value::ValueModel;

verus! {

/// How parsing a literal can fail.
#[derive(Debug, Clone, Copy, PartialEq, Eq, Structural)]
pub enum ParseError {
    /// A numeric token did not denote a number.
    NativeParseError,
    /// The text did not follow the literal grammar.
    InvalidFormat,
}

/// A parsed value, together with whether it was the last of its list.
#[derive(Debug, PartialEq)]
pub struct ParseSuccess<T> {
    pub value: T,
    pub is_last_value: bool,
}

pub type ParseResult<T> = Result<ParseSuccess<T>, ParseError>;

/// The outcome of a spec-level parser: the value and last-of-list flag on
/// success, the error kind otherwise, and the cursor after the consumed
/// characters (meaningful on success only).
pub struct SpecParse<T> {
    pub outcome: Result<(T, bool), ParseError>,
    pub next: int,
}

/// The first `)` or `,` at or after `i`, or the end of the text.
pub open spec fn find_term(s: Seq<char>, i: int) -> int
    decreases s.len() - i,
{
    if i >= s.len() {
        s.len() as int
    } else if s[i] == ')' || s[i] == ',' {
        i
    } else {
        find_term(s, i + 1)
    }
}

pub proof fn lemma_find_term_ge(s: Seq<char>, i: int)
    ensures
        find_term(s, i) < s.len() ==> find_term(s, i) >= i,
        i <= s.len() ==> i <= find_term(s, i) <= s.len(),
    decreases s.len() - i,
{
    if i < s.len() && !(s[i] == ')' || s[i] == ',') {
        lemma_find_term_ge(s, i + 1);
    }
}

/// A scalar kind whose tokens stand between list separators: how a token
/// denotes a value of this kind.
pub trait ScalarToken: Sized {
    spec fn token_value(t: Seq<char>) -> Option<Self>;

    fn from_token(t: &Vec<char>) -> (r: Option<Self>)
        ensures
            r == Self::token_value(t@),
    ;
}

impl ScalarToken for i64 {
    open spec fn token_value(t: Seq<char>) -> Option<i64> {
        i64_text_value(t)
    }

    fn from_token(t: &Vec<char>) -> (r: Option<i64>) {
        parse_i64_chars(t)
    }
}

impl ScalarToken for NumberBits {
    open spec fn token_value(t: Seq<char>) -> Option<NumberBits> {
        match number_from_text(t) {
            Some(b) => Some(NumberBits(b)),
            None => None,
        }
    }

    fn from_token(t: &Vec<char>) -> (r: Option<NumberBits>) {
        let s = string_from_chars(t);
        match crate::number::parse_number_bits(s.as_str()) {
            Some(b) => Some(NumberBits(b)),
            None => None,
        }
    }
}

/// Parsing one numeric token: everything up to the first `)` or `,` is the
/// token; the terminator is consumed.
pub open spec fn spec_parse_number<T: ScalarToken>(s: Seq<char>, i: int) -> SpecParse<T> {
    let term = find_term(s, i);
    let tok = s.subrange(i, term);
    let last = !(term < s.len() && s[term] == ',');
    let next = if term < s.len() {
        term + 1
    } else {
        term
    };
    match T::token_value(tok) {
        Some(v) => SpecParse { outcome: Ok((v, last)), next },
        None => SpecParse { outcome: Err(ParseError::NativeParseError), next },
    }
}

/// Parsing one boolean token: `true` or `false`, up to the first `)` or `,`.
pub open spec fn spec_parse_boolean(s: Seq<char>, i: int) -> SpecParse<bool> {
    let term = find_term(s, i);
    let tok = s.subrange(i, term);
    let last = !(term < s.len() && s[term] == ',');
    let next = if term < s.len() {
        term + 1
    } else {
        term
    };
    if tok == "true"@ {
        SpecParse { outcome: Ok((true, last)), next }
    } else if tok == "false"@ {
        SpecParse { outcome: Ok((false, last)), next }
    } else {
        SpecParse { outcome: Err(ParseError::InvalidFormat), next }
    }
}

/// Reads the token up to the first `)` or `,`, consuming the terminator, and
/// reports whether the token was the last of its list.
#[verifier::loop_isolation(false)]
fn scan_token(s: &Vec<char>, pos: &mut usize) -> (r: (Vec<char>, bool))
    requires
        *old(pos) <= s@.len(),
    ensures
        ({
            let term = find_term(s@, *old(pos) as int);
            &&& r.0@ == s@.subrange(*old(pos) as int, term)
            &&& r.1 == !(term < s@.len() && s@[term] == ',')
            &&& *final(pos) == if term < s@.len() { term + 1 } else { term }
            &&& *old(pos) <= *final(pos) <= s@.len()
            &&& !r.1 ==> *final(pos) > *old(pos)
        }),
{
    let ghost start = *pos as int;
    let mut tok: Vec<char> = Vec::new();
    let mut i: usize = *pos;
    while i < s.len() && s[i] != ')' && s[i] != ','
        invariant
            start <= i <= s@.len(),
            tok@ == s@.subrange(start, i as int),
            find_term(s@, start) == find_term(s@, i as int),
        decreases s@.len() - i,
    {
        tok.push(s[i]);
        proof {
            assert(s@.subrange(start, i as int) + seq![s@[i as int]] =~= s@.subrange(
                start,
                i + 1,
            ));
        }
        i = i + 1;
    }
    proof {
        assert(find_term(s@, i as int) == i);
    }
    if i < s.len() {
        let is_last = s[i] != ',';
        *pos = i + 1;
        (tok, is_last)
    } else {
        *pos = i;
        (tok, true)
    }
}

/// Parses one numeric token of the given scalar kind.
pub fn parse_number<T: ScalarToken>(input: &Vec<char>, pos: &mut usize) -> (r: ParseResult<T>)
    requires
        *old(pos) <= input@.len(),
    ensures
        ({
            let sp = spec_parse_number::<T>(input@, *old(pos) as int);
            match r {
                Ok(ps) => {
                    &&& sp.outcome == Ok::<(T, bool), ParseError>((ps.value, ps.is_last_value))
                    &&& *final(pos) == sp.next
                    &&& *old(pos) <= sp.next <= input@.len()
                    &&& !ps.is_last_value ==> sp.next > *old(pos)
                },
                Err(e) => sp.outcome == Err::<(T, bool), ParseError>(e),
            }
        }),
{
    let (tok, is_last) = scan_token(input, pos);
    match T::from_token(&tok) {
        Some(v) => Ok(ParseSuccess { value: v, is_last_value: is_last }),
        None => Err(ParseError::NativeParseError),
    }
}

/// Compares a token against a literal, character by character.
#[verifier::loop_isolation(false)]
pub(crate) fn token_is(tok: &Vec<char>, lit: &str) -> (r: bool)
    ensures
        r == (tok@ == lit@),
{
    let l = crate::text::chars_vec(lit);
    if tok.len() != l.len() {
        return false;
    }
    let mut i: usize = 0;
    while i < tok.len()
        invariant
            0 <= i <= tok@.len(),
            tok@.len() == l@.len(),
            l@ == lit@,
            forall|k: int| 0 <= k < i ==> tok@[k] == l@[k],
        decreases tok@.len() - i,
    {
        if tok[i] != l[i] {
            return false;
        }
        i = i + 1;
    }
    proof {
        assert(tok@ =~= lit@);
    }
    true
}

/// Parses one boolean token.
pub fn parse_boolean(input: &Vec<char>, pos: &mut usize) -> (r: ParseResult<bool>)
    requires
        *old(pos) <= input@.len(),
    ensures
        ({
            let sp = spec_parse_boolean(input@, *old(pos) as int);
            match r {
                Ok(ps) => {
                    &&& sp.outcome == Ok::<(bool, bool), ParseError>((ps.value, ps.is_last_value))
                    &&& *final(pos) == sp.next
                    &&& *old(pos) <= sp.next <= input@.len()
                    &&& !ps.is_last_value ==> sp.next > *old(pos)
                },
                Err(e) => sp.outcome == Err::<(bool, bool), ParseError>(e),
            }
        }),
{
    let (tok, is_last) = scan_token(input, pos);
    if token_is(&tok, "true") {
        Ok(ParseSuccess { value: true, is_last_value: is_last })
    } else if token_is(&tok, "false") {
        Ok(ParseSuccess { value: false, is_last_value: is_last })
    } else {
        Err(ParseError::InvalidFormat)
    }
}

/// What a backslash escape denotes, inside quotes of the given kind.
pub open spec fn spec_escape(c: char, quote: char) -> Option<char> {
    if c == '\\' {
        Some('\\')
    } else if c == '0' {
        Some('\0')
    } else if c == 'n' {
        Some('\n')
    } else if c == 'r' {
        Some('\r')
    } else if c == 't' {
        Some('\t')
    } else if c == quote {
        Some(quote)
    } else {
        None
    }
}

/// Resolves the character after a backslash: the fixed escape set, plus the
/// enclosing quote character.
pub fn parse_backslash_char(c: Option<char>, quote: char) -> (r: Result<char, ParseError>)
    ensures
        match c {
            None => r == Err::<char, ParseError>(ParseError::InvalidFormat),
            Some(cc) => r == match spec_escape(cc, quote) {
                Some(e) => Ok::<char, ParseError>(e),
                None => Err::<char, ParseError>(ParseError::InvalidFormat),
            },
        },
{
    match c {
        None => Err(ParseError::InvalidFormat),
        Some(cc) => {
            if cc == '\\' {
                Ok('\\')
            } else if cc == '0' {
                Ok('\0')
            } else if cc == 'n' {
                Ok('\n')
            } else if cc == 'r' {
                Ok('\r')
            } else if cc == 't' {
                Ok('\t')
            } else if cc == quote {
                Ok(quote)
            } else {
                Err(ParseError::InvalidFormat)
            }
        },
    }
}

/// The tail of a character literal: the closing quote, or — failing that —
/// a closing parenthesis one position later.
pub open spec fn spec_char_close(s: Seq<char>, k: int, pc: char) -> SpecParse<char> {
    if k < s.len() && s[k] == '\'' {
        SpecParse { outcome: Ok((pc, true)), next: k + 1 }
    } else {
        let k2 = if k < s.len() {
            k + 1
        } else {
            k
        };
        if k2 < s.len() && s[k2] == ')' {
            SpecParse { outcome: Ok((pc, true)), next: k2 + 1 }
        } else {
            SpecParse { outcome: Err(ParseError::InvalidFormat), next: k2 }
        }
    }
}

/// Parsing a character literal: `'c'` where `c` is one character or a
/// backslash escape.
pub open spec fn spec_parse_char(s: Seq<char>, i: int) -> SpecParse<char> {
    if !(i < s.len() && s[i] == '\'') {
        SpecParse { outcome: Err(ParseError::InvalidFormat), next: i }
    } else {
        let j = i + 1;
        if j >= s.len() {
            SpecParse { outcome: Err(ParseError::InvalidFormat), next: j }
        } else if s[j] == '\\' {
            if j + 1 >= s.len() {
                SpecParse { outcome: Err(ParseError::InvalidFormat), next: j + 1 }
            } else {
                match spec_escape(s[j + 1], '\'') {
                    None => SpecParse { outcome: Err(ParseError::InvalidFormat), next: j + 2 },
                    Some(pc) => spec_char_close(s, j + 2, pc),
                }
            }
        } else {
            spec_char_close(s, j + 1, s[j])
        }
    }
}

/// Parses a character literal.
pub fn parse_char(input: &Vec<char>, pos: &mut usize) -> (r: ParseResult<char>)
    requires
        *old(pos) <= input@.len(),
    ensures
        ({
            let sp = spec_parse_char(input@, *old(pos) as int);
            match r {
                Ok(ps) => {
                    &&& sp.outcome == Ok::<(char, bool), ParseError>((ps.value, ps.is_last_value))
                    &&& *final(pos) == sp.next
                    &&& *old(pos) < sp.next <= input@.len()
                },
                Err(e) => sp.outcome == Err::<(char, bool), ParseError>(e),
            }
        }),
{
    let i = *pos;
    if !(i < input.len()) || input[i] != '\'' {
        return Err(ParseError::InvalidFormat);
    }
    let j = i + 1;
    if j >= input.len() {
        return Err(ParseError::InvalidFormat);
    }
    let parsed: char;
    let k: usize;
    if input[j] == '\\' {
        if j + 1 >= input.len() {
            return Err(ParseError::InvalidFormat);
        }
        match parse_backslash_char(Some(input[j + 1]), '\'') {
            Err(e) => {
                return Err(e);
            },
            Ok(pc) => {
                parsed = pc;
                k = j + 2;
            },
        }
    } else {
        parsed = input[j];
        k = j + 1;
    }
    if k < input.len() && input[k] == '\'' {
        *pos = k + 1;
        Ok(ParseSuccess { value: parsed, is_last_value: true })
    } else {
        let k2 = if k < input.len() {
            k + 1
        } else {
            k
        };
        if k2 < input.len() && input[k2] == ')' {
            *pos = k2 + 1;
            Ok(ParseSuccess { value: parsed, is_last_value: true })
        } else {
            Err(ParseError::InvalidFormat)
        }
    }
}

/// The body of a string literal from position `j` to its closing quote:
/// the denoted characters and the position after the quote.
pub open spec fn spec_string_body(s: Seq<char>, j: int) -> Result<(Seq<char>, int), ParseError>
    decreases s.len() - j,
{
    if j >= s.len() {
        Err(ParseError::InvalidFormat)
    } else if s[j] == '"' {
        Ok((Seq::<char>::empty(), j + 1))
    } else if s[j] == '\\' {
        if j + 1 >= s.len() {
            Err(ParseError::InvalidFormat)
        } else {
            match spec_escape(s[j + 1], '"') {
                None => Err(ParseError::InvalidFormat),
                Some(c) => match spec_string_body(s, j + 2) {
                    Err(e) => Err(e),
                    Ok((rest, k)) => Ok((seq![c] + rest, k)),
                },
            }
        }
    } else {
        match spec_string_body(s, j + 1) {
            Err(e) => Err(e),
            Ok((rest, k)) => Ok((seq![s[j]] + rest, k)),
        }
    }
}

pub proof fn lemma_string_body_bounds(s: Seq<char>, j: int)
    ensures
        spec_string_body(s, j) matches Ok(p) ==> j + 1 <= p.1 <= s.len(),
    decreases s.len() - j,
{
    if j < s.len() && s[j] != '"' {
        if s[j] == '\\' {
            if j + 1 < s.len() {
                lemma_string_body_bounds(s, j + 2);
            }
        } else {
            lemma_string_body_bounds(s, j + 1);
        }
    }
}

/// Parsing a string literal: `"..."`, followed by its list terminator.
pub open spec fn spec_parse_string(s: Seq<char>, i: int) -> SpecParse<Seq<char>> {
    if !(i < s.len() && s[i] == '"') {
        SpecParse { outcome: Err(ParseError::InvalidFormat), next: i }
    } else {
        match spec_string_body(s, i + 1) {
            Err(e) => SpecParse { outcome: Err(e), next: i },
            Ok((content, k)) => {
                if k < s.len() && s[k] == ')' {
                    SpecParse { outcome: Ok((content, true)), next: k + 1 }
                } else if k < s.len() && s[k] == ',' {
                    SpecParse { outcome: Ok((content, false)), next: k + 1 }
                } else {
                    SpecParse { outcome: Err(ParseError::InvalidFormat), next: k }
                }
            },
        }
    }
}

/// The string body read so far, continued from position `j`.
spec fn spec_string_body_cont(s: Seq<char>, j: int, acc: Seq<char>) -> Result<
    (Seq<char>, int),
    ParseError,
> {
    match spec_string_body(s, j) {
        Err(e) => Err(e),
        Ok((rest, k)) => Ok((acc + rest, k)),
    }
}

/// Parses a string literal.
pub fn parse_string(input: &Vec<char>, pos: &mut usize) -> (r: ParseResult<String>)
    requires
        *old(pos) <= input@.len(),
    ensures
        ({
            let sp = spec_parse_string(input@, *old(pos) as int);
            match r {
                Ok(ps) => {
                    &&& sp.outcome == Ok::<(Seq<char>, bool), ParseError>(
                        (ps.value@, ps.is_last_value),
                    )
                    &&& *final(pos) == sp.next
                    &&& *old(pos) < sp.next <= input@.len()
                },
                Err(e) => sp.outcome == Err::<(Seq<char>, bool), ParseError>(e),
            }
        }),
{
    let i = *pos;
    let ghost start = i as int;
    if !(i < input.len()) || input[i] != '"' {
        return Err(ParseError::InvalidFormat);
    }
    let mut content: Vec<char> = Vec::new();
    let mut j: usize = i + 1;
    loop
        invariant_except_break
            start + 1 <= j <= input@.len(),
            start == *old(pos) as int,
            *old(pos) < input@.len(),
            input@[start] == '"',
            spec_string_body_cont(input@, start + 1, Seq::<char>::empty()) == spec_string_body_cont(
                input@,
                j as int,
                content@,
            ),
        ensures
            start == *old(pos) as int,
            *old(pos) < input@.len(),
            input@[start] == '"',
            j <= input@.len(),
            spec_string_body(input@, start + 1) == Ok::<(Seq<char>, int), ParseError>(
                (content@, j as int),
            ),
        decreases input@.len() - j,
    {
        if j >= input.len() {
            return Err(ParseError::InvalidFormat);
        }
        let c = input[j];
        if c == '"' {
            proof {
                assert(content@ + Seq::<char>::empty() =~= content@);
                let b = spec_string_body(input@, start + 1);
                if b is Ok {
                    assert(Seq::<char>::empty() + b->Ok_0.0 =~= b->Ok_0.0);
                }
            }
            j = j + 1;
            break ;
        }
        if c == '\\' {
            if j + 1 >= input.len() {
                return Err(ParseError::InvalidFormat);
            }
            match parse_backslash_char(Some(input[j + 1]), '"') {
                Err(e) => {
                    return Err(e);
                },
                Ok(e) => {
                    proof {
                        let b = spec_string_body(input@, j + 2);
                        if b is Ok {
                            assert(content@ + (seq![e] + b->Ok_0.0) =~= (content@ + seq![e])
                                + b->Ok_0.0);
                        }
                    }
                    let ghost before = content@;
                    content.push(e);
                    proof {
                        assert(content@ =~= before + seq![e]);
                    }
                    j = j + 2;
                },
            }
        } else {
            proof {
                let b = spec_string_body(input@, j + 1);
                if b is Ok {
                    assert(content@ + (seq![c] + b->Ok_0.0) =~= (content@ + seq![c]) + b->Ok_0.0);
                }
            }
            let ghost before = content@;
            content.push(c);
            proof {
                assert(content@ =~= before + seq![c]);
            }
            j = j + 1;
        }
    }
    proof {
        lemma_string_body_bounds(input@, start + 1);
    }
    if j < input.len() && input[j] == ')' {
        *pos = j + 1;
        Ok(ParseSuccess { value: string_from_chars(&content), is_last_value: true })
    } else if j < input.len() && input[j] == ',' {
        *pos = j + 1;
        Ok(ParseSuccess { value: string_from_chars(&content), is_last_value: false })
    } else {
        Err(ParseError::InvalidFormat)
    }
}

/// Parsing a comma-separated list of numeric tokens, ended by `)`.
pub open spec fn spec_parse_number_array<T: ScalarToken>(s: Seq<char>, i: int) -> SpecParse<
    Seq<T>,
>
    decreases s.len() - i,
    via spec_parse_number_array_decreases::<T>
{
    let e = spec_parse_number::<T>(s, i);
    match e.outcome {
        Err(er) => SpecParse { outcome: Err(er), next: e.next },
        Ok((v, last)) => {
            if last {
                SpecParse { outcome: Ok((seq![v], true)), next: e.next }
            } else {
                let rest = spec_parse_number_array::<T>(s, e.next);
                match rest.outcome {
                    Err(er) => SpecParse { outcome: Err(er), next: rest.next },
                    Ok((vs, _)) => SpecParse { outcome: Ok((seq![v] + vs, true)), next: rest.next },
                }
            }
        },
    }
}

#[via_fn]
proof fn spec_parse_number_array_decreases<T: ScalarToken>(s: Seq<char>, i: int) {
    lemma_find_term_ge(s, i);
}

/// Parsing a comma-separated list of boolean tokens, ended by `)`.
pub open spec fn spec_parse_boolean_array(s: Seq<char>, i: int) -> SpecParse<Seq<bool>>
    decreases s.len() - i,
    via spec_parse_boolean_array_decreases
{
    let e = spec_parse_boolean(s, i);
    match e.outcome {
        Err(er) => SpecParse { outcome: Err(er), next: e.next },
        Ok((v, last)) => {
            if last {
                SpecParse { outcome: Ok((seq![v], true)), next: e.next }
            } else {
                let rest = spec_parse_boolean_array(s, e.next);
                match rest.outcome {
                    Err(er) => SpecParse { outcome: Err(er), next: rest.next },
                    Ok((vs, _)) => SpecParse { outcome: Ok((seq![v] + vs, true)), next: rest.next },
                }
            }
        },
    }
}

#[via_fn]
proof fn spec_parse_boolean_array_decreases(s: Seq<char>, i: int) {
    lemma_find_term_ge(s, i);
}

/// Parsing a comma-separated list of string literals, ended by `)`.
pub open spec fn spec_parse_string_array(s: Seq<char>, i: int) -> SpecParse<Seq<Seq<char>>>
    decreases s.len() - i,
    via spec_parse_string_array_decreases
{
    let e = spec_parse_string(s, i);
    match e.outcome {
        Err(er) => SpecParse { outcome: Err(er), next: e.next },
        Ok((v, last)) => {
            if last {
                SpecParse { outcome: Ok((seq![v], true)), next: e.next }
            } else {
                let rest = spec_parse_string_array(s, e.next);
                match rest.outcome {
                    Err(er) => SpecParse { outcome: Err(er), next: rest.next },
                    Ok((vs, _)) => SpecParse { outcome: Ok((seq![v] + vs, true)), next: rest.next },
                }
            }
        },
    }
}

#[via_fn]
proof fn spec_parse_string_array_decreases(s: Seq<char>, i: int) {
    if i < s.len() && s[i] == '"' {
        lemma_string_body_bounds(s, i + 1);
    }
}

/// The list parsed so far, continued from position `i`.
spec fn spec_number_array_cont<T: ScalarToken>(s: Seq<char>, i: int, acc: Seq<T>) -> SpecParse<
    Seq<T>,
> {
    let rest = spec_parse_number_array::<T>(s, i);
    match rest.outcome {
        Err(er) => SpecParse { outcome: Err(er), next: rest.next },
        Ok((vs, _)) => SpecParse { outcome: Ok((acc + vs, true)), next: rest.next },
    }
}

spec fn spec_boolean_array_cont(s: Seq<char>, i: int, acc: Seq<bool>) -> SpecParse<Seq<bool>> {
    let rest = spec_parse_boolean_array(s, i);
    match rest.outcome {
        Err(er) => SpecParse { outcome: Err(er), next: rest.next },
        Ok((vs, _)) => SpecParse { outcome: Ok((acc + vs, true)), next: rest.next },
    }
}

spec fn spec_string_array_cont(s: Seq<char>, i: int, acc: Seq<Seq<char>>) -> SpecParse<
    Seq<Seq<char>>,
> {
    let rest = spec_parse_string_array(s, i);
    match rest.outcome {
        Err(er) => SpecParse { outcome: Err(er), next: rest.next },
        Ok((vs, _)) => SpecParse { outcome: Ok((acc + vs, true)), next: rest.next },
    }
}

/// Parses the elements of a numeric array, one token at a time, until a
/// token reports that it was the last.
pub fn parse_array_of_numbers<T: ScalarToken>(input: &Vec<char>, pos: &mut usize) -> (r:
    ParseResult<Vec<T>>)
    requires
        *old(pos) <= input@.len(),
    ensures
        ({
            let sp = spec_parse_number_array::<T>(input@, *old(pos) as int);
            match r {
                Ok(ps) => {
                    &&& sp.outcome == Ok::<(Seq<T>, bool), ParseError>((ps.value@, true))
                    &&& ps.is_last_value
                    &&& *final(pos) == sp.next
                    &&& sp.next <= input@.len()
                },
                Err(e) => sp.outcome == Err::<(Seq<T>, bool), ParseError>(e),
            }
        }),
{
    let ghost start = *pos as int;
    let mut result: Vec<T> = Vec::new();
    loop
        invariant_except_break
            *pos <= input@.len(),
            start == *old(pos) as int,
            spec_parse_number_array::<T>(input@, start) == spec_number_array_cont::<T>(
                input@,
                *pos as int,
                result@,
            ),
        ensures
            ({
                let sp = spec_parse_number_array::<T>(input@, start);
                &&& sp.outcome == Ok::<(Seq<T>, bool), ParseError>((result@, true))
                &&& sp.next == *pos as int
                &&& *pos <= input@.len()
            }),
        decreases input@.len() - *pos,
    {
        let ghost cur = *pos as int;
        let ghost acc0 = result@;
        let pr = parse_number::<T>(input, pos);
        match pr {
            Err(e) => {
                return Err(e);
            },
            Ok(ps) => {
                proof {
                    let rest = spec_parse_number_array::<T>(input@, spec_parse_number::<T>(
                        input@,
                        cur,
                    ).next);
                    if rest.outcome is Ok {
                        assert(acc0 + (seq![ps.value] + rest.outcome->Ok_0.0) =~= (acc0
                            + seq![ps.value]) + rest.outcome->Ok_0.0);
                    }
                }
                result.push(ps.value);
                proof {
                    assert(result@ =~= acc0 + seq![ps.value]);
                    assert(acc0 + seq![ps.value] =~= acc0.push(ps.value));
                }
                if ps.is_last_value {
                    break ;
                }
            },
        }
    }
    Ok(ParseSuccess { value: result, is_last_value: true })
}

/// Parses the elements of a boolean array.
pub fn parse_array_of_booleans(input: &Vec<char>, pos: &mut usize) -> (r: ParseResult<Vec<bool>>)
    requires
        *old(pos) <= input@.len(),
    ensures
        ({
            let sp = spec_parse_boolean_array(input@, *old(pos) as int);
            match r {
                Ok(ps) => {
                    &&& sp.outcome == Ok::<(Seq<bool>, bool), ParseError>((ps.value@, true))
                    &&& ps.is_last_value
                    &&& *final(pos) == sp.next
                    &&& sp.next <= input@.len()
                },
                Err(e) => sp.outcome == Err::<(Seq<bool>, bool), ParseError>(e),
            }
        }),
{
    let ghost start = *pos as int;
    let mut result: Vec<bool> = Vec::new();
    loop
        invariant_except_break
            *pos <= input@.len(),
            start == *old(pos) as int,
            spec_parse_boolean_array(input@, start) == spec_boolean_array_cont(
                input@,
                *pos as int,
                result@,
            ),
        ensures
            ({
                let sp = spec_parse_boolean_array(input@, start);
                &&& sp.outcome == Ok::<(Seq<bool>, bool), ParseError>((result@, true))
                &&& sp.next == *pos as int
                &&& *pos <= input@.len()
            }),
        decreases input@.len() - *pos,
    {
        let ghost cur = *pos as int;
        let ghost acc0 = result@;
        let pr = parse_boolean(input, pos);
        match pr {
            Err(e) => {
                return Err(e);
            },
            Ok(ps) => {
                proof {
                    let rest = spec_parse_boolean_array(input@, spec_parse_boolean(
                        input@,
                        cur,
                    ).next);
                    if rest.outcome is Ok {
                        assert(acc0 + (seq![ps.value] + rest.outcome->Ok_0.0) =~= (acc0
                            + seq![ps.value]) + rest.outcome->Ok_0.0);
                    }
                }
                result.push(ps.value);
                proof {
                    assert(result@ =~= acc0 + seq![ps.value]);
                }
                if ps.is_last_value {
                    break ;
                }
            },
        }
    }
    Ok(ParseSuccess { value: result, is_last_value: true })
}

/// Parses the elements of a string array.
pub fn parse_array_of_strings(input: &Vec<char>, pos: &mut usize) -> (r: ParseResult<Vec<String>>)
    requires
        *old(pos) <= input@.len(),
    ensures
        ({
            let sp = spec_parse_string_array(input@, *old(pos) as int);
            match r {
                Ok(ps) => {
                    &&& sp.outcome == Ok::<(Seq<Seq<char>>, bool), ParseError>(
                        (ps.value.deep_view(), true),
                    )
                    &&& ps.is_last_value
                    &&& *final(pos) == sp.next
                    &&& sp.next <= input@.len()
                },
                Err(e) => sp.outcome == Err::<(Seq<Seq<char>>, bool), ParseError>(e),
            }
        }),
{
    let ghost start = *pos as int;
    let mut result: Vec<String> = Vec::new();
    loop
        invariant_except_break
            *pos <= input@.len(),
            start == *old(pos) as int,
            spec_parse_string_array(input@, start) == spec_string_array_cont(
                input@,
                *pos as int,
                result.deep_view(),
            ),
        ensures
            ({
                let sp = spec_parse_string_array(input@, start);
                &&& sp.outcome == Ok::<(Seq<Seq<char>>, bool), ParseError>(
                    (result.deep_view(), true),
                )
                &&& sp.next == *pos as int
                &&& *pos <= input@.len()
            }),
        decreases input@.len() - *pos,
    {
        let ghost cur = *pos as int;
        let ghost acc0 = result.deep_view();
        let pr = parse_string(input, pos);
        match pr {
            Err(e) => {
                return Err(e);
            },
            Ok(ps) => {
                proof {
                    let rest = spec_parse_string_array(input@, spec_parse_string(input@, cur).next);
                    if rest.outcome is Ok {
                        assert(acc0 + (seq![ps.value@] + rest.outcome->Ok_0.0) =~= (acc0
                            + seq![ps.value@]) + rest.outcome->Ok_0.0);
                    }
                }
                let ghost pushed = ps.value@;
                result.push(ps.value);
                proof {
                    assert(result.deep_view() =~= acc0 + seq![pushed]);
                }
                if ps.is_last_value {
                    break ;
                }
            },
        }
    }
    Ok(ParseSuccess { value: result, is_last_value: true })
}

/// The first `(` at or after `i`, or the end of the text.
pub open spec fn find_paren(s: Seq<char>, i: int) -> int
    decreases s.len() - i,
{
    if i >= s.len() {
        s.len() as int
    } else if s[i] == '(' {
        i
    } else {
        find_paren(s, i + 1)
    }
}

/// Reads the characters up to the first `(`, consuming it.
#[verifier::loop_isolation(false)]
fn scan_type_name(s: &Vec<char>, pos: &mut usize) -> (r: Vec<char>)
    requires
        *old(pos) <= s@.len(),
    ensures
        ({
            let p = find_paren(s@, *old(pos) as int);
            &&& r@ == s@.subrange(*old(pos) as int, p)
            &&& *final(pos) == if p < s@.len() { p + 1 } else { p }
            &&& *old(pos) <= *final(pos) <= s@.len()
        }),
{
    let ghost start = *pos as int;
    let mut tok: Vec<char> = Vec::new();
    let mut i: usize = *pos;
    while i < s.len() && s[i] != '('
        invariant
            start <= i <= s@.len(),
            tok@ == s@.subrange(start, i as int),
            find_paren(s@, start) == find_paren(s@, i as int),
        decreases s@.len() - i,
    {
        tok.push(s[i]);
        proof {
            assert(s@.subrange(start, i as int) + seq![s@[i as int]] =~= s@.subrange(
                start,
                i + 1,
            ));
        }
        i = i + 1;
    }
    if i < s.len() {
        *pos = i + 1;
    } else {
        *pos = i;
    }
    tok
}

/// Parsing a value literal: a type tag, an opening parenthesis, and the
/// payload in that type's grammar. An unknown tag is a format error.
pub open spec fn spec_parse_value(s: Seq<char>, i: int) -> SpecParse<ValueModel> {
    let p = find_paren(s, i);
    let name = s.subrange(i, p);
    let j = if p < s.len() {
        p + 1
    } else {
        p
    };
    if name == "INTEGER"@ {
        let e = spec_parse_number::<i64>(s, j);
        match e.outcome {
            Err(er) => SpecParse { outcome: Err(er), next: e.next },
            Ok((v, last)) => SpecParse {
                outcome: Ok((ValueModel::Integer(v), last)),
                next: e.next,
            },
        }
    } else if name == "NUMBER"@ {
        let e = spec_parse_number::<NumberBits>(s, j);
        match e.outcome {
            Err(er) => SpecParse { outcome: Err(er), next: e.next },
            Ok((v, last)) => SpecParse {
                outcome: Ok((ValueModel::Number(v.0), last)),
                next: e.next,
            },
        }
    } else if name == "BOOLEAN"@ {
        let e = spec_parse_boolean(s, j);
        match e.outcome {
            Err(er) => SpecParse { outcome: Err(er), next: e.next },
            Ok((v, last)) => SpecParse {
                outcome: Ok((ValueModel::Boolean(v), last)),
                next: e.next,
            },
        }
    } else if name == "STRING"@ {
        let e = spec_parse_string(s, j);
        match e.outcome {
            Err(er) => SpecParse { outcome: Err(er), next: e.next },
            Ok((v, last)) => SpecParse { outcome: Ok((ValueModel::Str(v), last)), next: e.next },
        }
    } else if name == "CHAR"@ {
        let e = spec_parse_char(s, j);
        match e.outcome {
            Err(er) => SpecParse { outcome: Err(er), next: e.next },
            Ok((v, last)) => SpecParse { outcome: Ok((ValueModel::Char(v), last)), next: e.next },
        }
    } else if name == "ARRAY_OF_INTEGER"@ {
        let e = spec_parse_number_array::<i64>(s, j);
        match e.outcome {
            Err(er) => SpecParse { outcome: Err(er), next: e.next },
            Ok((v, last)) => SpecParse {
                outcome: Ok((ValueModel::ArrayOfInteger(v), last)),
                next: e.next,
            },
        }
    } else if name == "ARRAY_OF_NUMBER"@ {
        let e = spec_parse_number_array::<NumberBits>(s, j);
        match e.outcome {
            Err(er) => SpecParse { outcome: Err(er), next: e.next },
            Ok((v, last)) => SpecParse {
                outcome: Ok((ValueModel::ArrayOfNumber(v.map(|k: int, x: NumberBits| x.0)), last)),
                next: e.next,
            },
        }
    } else if name == "ARRAY_OF_BOOLEAN"@ {
        let e = spec_parse_boolean_array(s, j);
        match e.outcome {
            Err(er) => SpecParse { outcome: Err(er), next: e.next },
            Ok((v, last)) => SpecParse {
                outcome: Ok((ValueModel::ArrayOfBoolean(v), last)),
                next: e.next,
            },
        }
    } else if name == "ARRAY_OF_STRING"@ {
        let e = spec_parse_string_array(s, j);
        match e.outcome {
            Err(er) => SpecParse { outcome: Err(er), next: e.next },
            Ok((v, last)) => SpecParse {
                outcome: Ok((ValueModel::ArrayOfString(v), last)),
                next: e.next,
            },
        }
    } else {
        SpecParse { outcome: Err(ParseError::InvalidFormat), next: j }
    }
}

/// Parses one value literal, leaving the cursor after its payload.
#[verifier::rlimit(80)]
pub fn parse_value(input: &Vec<char>, pos: &mut usize) -> (r: Result<Value, ParseError>)
    requires
        *old(pos) <= input@.len(),
    ensures
        ({
            let sp = spec_parse_value(input@, *old(pos) as int);
            match r {
                Ok(v) => {
                    &&& sp.outcome matches Ok(p) && p.0 == v@
                    &&& *final(pos) == sp.next
                    &&& sp.next <= input@.len()
                },
                Err(e) => sp.outcome == Err::<(ValueModel, bool), ParseError>(e),
            }
        }),
{
    let name = scan_type_name(input, pos);
    if token_is(&name, "INTEGER") {
        match parse_number::<i64>(input, pos) {
            Ok(ps) => Ok(Value::Integer(ps.value)),
            Err(e) => Err(e),
        }
    } else if token_is(&name, "NUMBER") {
        match parse_number::<NumberBits>(input, pos) {
            Ok(ps) => Ok(Value::Number(ps.value)),
            Err(e) => Err(e),
        }
    } else if token_is(&name, "BOOLEAN") {
        match parse_boolean(input, pos) {
            Ok(ps) => Ok(Value::Boolean(ps.value)),
            Err(e) => Err(e),
        }
    } else if token_is(&name, "STRING") {
        match parse_string(input, pos) {
            Ok(ps) => Ok(Value::String(ps.value)),
            Err(e) => Err(e),
        }
    } else if token_is(&name, "CHAR") {
        match parse_char(input, pos) {
            Ok(ps) => Ok(Value::Char(ps.value)),
            Err(e) => Err(e),
        }
    } else if token_is(&name, "ARRAY_OF_INTEGER") {
        match parse_array_of_numbers::<i64>(input, pos) {
            Ok(ps) => Ok(Value::ArrayOfInteger(ps.value)),
            Err(e) => Err(e),
        }
    } else if token_is(&name, "ARRAY_OF_NUMBER") {
        match parse_array_of_numbers::<NumberBits>(input, pos) {
            Ok(ps) => {
                proof {
                    assert(ps.value.deep_view() =~= ps.value@.map(|k: int, x: NumberBits| x.0));
                }
                Ok(Value::ArrayOfNumber(ps.value))
            },
            Err(e) => Err(e),
        }
    } else if token_is(&name, "ARRAY_OF_BOOLEAN") {
        match parse_array_of_booleans(input, pos) {
            Ok(ps) => Ok(Value::ArrayOfBoolean(ps.value)),
            Err(e) => Err(e),
        }
    } else if token_is(&name, "ARRAY_OF_STRING") {
        match parse_array_of_strings(input, pos) {
            Ok(ps) => Ok(Value::ArrayOfString(ps.value)),
            Err(e) => Err(e),
        }
    } else {
        Err(ParseError::InvalidFormat)
    }
}

} // verus!
