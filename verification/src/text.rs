//! Character-level text utilities: conversions between `&str` and `Vec<char>`,
//! decimal rendering and parsing of 64-bit signed integers, and the
//! camel-case to screaming-snake-case conversion used for instruction names.

use vstd::prelude::*;

verus! {

/// Collects the characters of a string slice into a vector.
pub fn chars_vec(s: &str) -> (r: Vec<char>)
    ensures
        r@ == s@,
{
    let mut r: Vec<char> = Vec::new();
    for c in it: s.chars()
        invariant
            it.seq() == s@,
            r@ == it.seq().subrange(0, it.index()),
    {
        r.push(c);
    }
    proof {
        assert(r@ =~= s@);
    }
    r
}

/// Relies on `core::iter::Iterator::collect` for `String`: the collected
/// string holds exactly the characters of the vector, in order.
#[verifier::external_body]
pub fn string_from_chars(v: &Vec<char>) -> (s: String)
    ensures
        s@ == v@,
{
    v.iter().collect()
}

/// A decimal digit.
pub open spec fn is_digit(c: char) -> bool {
    '0' <= c && c <= '9'
}

pub open spec fn digit_val(c: char) -> int {
    c as int - 48
}

pub open spec fn digit_char(d: int) -> char {
    ((d + 48) as u8) as char
}

pub open spec fn all_digits(t: Seq<char>) -> bool {
    forall|i: int| 0 <= i < t.len() ==> is_digit(#[trigger] t[i])
}

/// The number denoted by a sequence of decimal digits, most significant first.
pub open spec fn digits_value(t: Seq<char>) -> int
    decreases t.len(),
{
    if t.len() == 0 {
        0
    } else {
        digits_value(t.drop_last()) * 10 + digit_val(t.last())
    }
}

/// The decimal digits of a natural number, without leading zeros.
pub open spec fn nat_digits(n: nat) -> Seq<char>
    decreases n,
{
    if n < 10 {
        seq![digit_char(n as int)]
    } else {
        nat_digits(n / 10) + seq![digit_char(n as int % 10)]
    }
}

/// The decimal rendering of a 64-bit signed integer, as `Display` prints it:
/// an optional minus sign followed by the digits of the magnitude.
pub open spec fn i64_text(v: int) -> Seq<char> {
    if v < 0 {
        seq!['-'] + nat_digits((-v) as nat)
    } else {
        nat_digits(v as nat)
    }
}

/// The value denoted by an integer literal token: an optional single `+` or
/// `-` sign followed by at least one decimal digit, with the magnitude
/// required to fit in an `i64`. Any other token denotes nothing.
pub open spec fn i64_text_value(t: Seq<char>) -> Option<i64> {
    let neg = t.len() > 0 && t[0] == '-';
    let digits = if t.len() > 0 && (t[0] == '-' || t[0] == '+') {
        t.drop_first()
    } else {
        t
    };
    if digits.len() == 0 || !all_digits(digits) {
        None
    } else {
        let m = digits_value(digits);
        if neg {
            if m <= 0x8000_0000_0000_0000 {
                Some((-m) as i64)
            } else {
                None
            }
        } else {
            if m <= 0x7fff_ffff_ffff_ffff {
                Some(m as i64)
            } else {
                None
            }
        }
    }
}

proof fn lemma_digits_value_nonneg(t: Seq<char>)
    requires
        all_digits(t),
    ensures
        digits_value(t) >= 0,
    decreases t.len(),
{
    if t.len() > 0 {
        assert(all_digits(t.drop_last())) by {
            assert(forall|i: int|
                0 <= i < t.len() - 1 ==> is_digit(#[trigger] t.drop_last()[i]) == is_digit(t[i]));
        }
        lemma_digits_value_nonneg(t.drop_last());
    }
}

/// A digit prefix never denotes more than the whole digit string.
proof fn lemma_digits_value_prefix(t: Seq<char>, k: int)
    requires
        all_digits(t),
        0 <= k <= t.len(),
    ensures
        digits_value(t.take(k)) <= digits_value(t),
    decreases t.len() - k,
{
    if k < t.len() {
        let u = t.take(k + 1);
        assert(u.drop_last() =~= t.take(k));
        assert(all_digits(u)) by {
            assert(forall|i: int| 0 <= i < k + 1 ==> is_digit(#[trigger] u[i]) == is_digit(t[i]));
        }
        lemma_digits_value_nonneg(u.drop_last());
        assert(digits_value(u) == digits_value(t.take(k)) * 10 + digit_val(u.last()));
        assert(digits_value(t.take(k)) * 10 >= digits_value(t.take(k))) by (nonlinear_arith)
            requires digits_value(t.take(k)) >= 0;
        assert(digit_val(u.last()) >= 0);
        lemma_digits_value_prefix(t, k + 1);
    } else {
        assert(t.take(k) =~= t);
    }
}

/// Parses a decimal integer token, exactly as `i64_text_value` describes.
pub fn parse_i64_chars(t: &Vec<char>) -> (r: Option<i64>)
    ensures
        r == i64_text_value(t@),
{
    let ghost whole: Seq<char> = t@;
    let mut i: usize = 0;
    let mut neg: bool = false;
    if t.len() > 0 && (t[0] == '-' || t[0] == '+') {
        neg = t[0] == '-';
        i = 1;
    }
    let ghost digits: Seq<char> = if whole.len() > 0 && (whole[0] == '-' || whole[0] == '+') {
        whole.drop_first()
    } else {
        whole
    };
    let start = i;
    if i == t.len() {
        return None;
    }
    let limit: u64 = if neg {
        0x8000_0000_0000_0000
    } else {
        0x7fff_ffff_ffff_ffff
    };
    let mut acc: u64 = 0;
    while i < t.len()
        invariant
            start <= i <= t.len(),
            start == if whole.len() > 0 && (whole[0] == '-' || whole[0] == '+') { 1int } else { 0int },
            digits == whole.skip(start as int),
            whole == t@,
            all_digits(digits.take(i - start)),
            acc == digits_value(digits.take(i - start)),
        decreases t.len() - i,
    {
        let c = t[i];
        if !('0' <= c && c <= '9') {
            proof {
                assert(!is_digit(digits[i - start]));
            }
            return None;
        }
        let d: u64 = (c as u8 - 48) as u64;
        proof {
            assert(48 <= c as int <= 57);
            assert(d == digit_val(c));
            assert(digits.take(i + 1 - start).drop_last() =~= digits.take(i - start));
            assert(digits.take(i + 1 - start).last() == c);
        }
        let next = match acc.checked_mul(10) {
            Some(m) => m.checked_add(d),
            None => None,
        };
        match next {
            Some(n) => {
                acc = n;
            },
            None => {
                // The prefix already exceeds any 64-bit magnitude, so the
                // whole token does too.
                proof {
                    assert(digits_value(digits.take(i + 1 - start)) == acc * 10 + digit_val(c));
                    assert(acc * 10 + d > 0xffff_ffff_ffff_ffff);
                    let sd = if t@.len() > 0 && (t@[0] == '-' || t@[0] == '+') {
                        t@.drop_first()
                    } else {
                        t@
                    };
                    assert(sd == digits);
                    if all_digits(digits) {
                        lemma_digits_value_prefix(digits, i + 1 - start);
                        assert(digits_value(digits) > 0xffff_ffff_ffff_ffff);
                    }
                }
                return None;
            },
        }
        i = i + 1;
    }
    proof {
        assert(digits.take(i - start) =~= digits);
    }
    if acc > limit {
        return None;
    }
    if neg {
        proof {
            lemma_digits_value_nonneg(digits);
        }
        if acc == 0x8000_0000_0000_0000 {
            Some(i64::MIN)
        } else {
            Some(-(acc as i64))
        }
    } else {
        Some(acc as i64)
    }
}

/// Appends the decimal digits of `n` to `out`.
fn push_nat_digits(n: u64, out: &mut Vec<char>)
    ensures
        final(out)@ == old(out)@ + nat_digits(n as nat),
    decreases n,
{
    if n >= 10 {
        push_nat_digits(n / 10, out);
    }
    let d = (n % 10) as u8;
    out.push((d + 48) as char);
}

/// Appends the decimal rendering of `v` to `out`.
pub fn push_i64_text(v: i64, out: &mut Vec<char>)
    ensures
        final(out)@ == old(out)@ + i64_text(v as int),
{
    if v < 0 {
        out.push('-');
        let m: u64 = if v == i64::MIN {
            0x8000_0000_0000_0000
        } else {
            (-v) as u64
        };
        push_nat_digits(m, out);
    } else {
        push_nat_digits(v as u64, out);
    }
}

/// The debug-style rendering of a string: quoted, with escapes.
pub uninterp spec fn str_debug_text(s: Seq<char>) -> Seq<char>;

/// Relies on `str`'s `Debug` formatting: the rendering depends on the
/// characters alone.
#[verifier::external_body]
pub fn str_debug(s: &str) -> (r: String)
    ensures
        r@ == str_debug_text(s@),
{
    format!("{:?}", s)
}

pub uninterp spec fn char_is_upper(c: char) -> bool;

/// Relies on `char::is_uppercase`: a property of the character alone.
#[verifier::external_body]
fn char_uppercase(c: char) -> (r: bool)
    ensures
        r == char_is_upper(c),
{
    c.is_uppercase()
}

/// ASCII upper-casing of a single character, as `to_ascii_uppercase` does it:
/// the letters `a` to `z` are shifted, everything else is untouched.
pub open spec fn ascii_upper(c: char) -> char {
    if 'a' <= c && c <= 'z' {
        ((c as u32 - 32) as u8) as char
    } else {
        c
    }
}

fn ascii_upper_char(c: char) -> (r: char)
    ensures
        r == ascii_upper(c),
{
    if 'a' <= c && c <= 'z' {
        (c as u8 - 32) as char
    } else {
        c
    }
}

/// Every character after the first, with an underscore inserted before each
/// uppercase one.
pub open spec fn snake_expand(t: Seq<char>) -> Seq<char>
    decreases t.len(),
{
    if t.len() == 0 {
        Seq::<char>::empty()
    } else {
        let head = if char_is_upper(t[0]) {
            seq!['_', t[0]]
        } else {
            seq![t[0]]
        };
        head + snake_expand(t.drop_first())
    }
}

/// The screaming-snake-case form of a camel-case name: an underscore before
/// each uppercase letter after the first, then everything ASCII upper-cased.
pub open spec fn screaming_snake_case(t: Seq<char>) -> Seq<char> {
    if t.len() == 0 {
        Seq::<char>::empty()
    } else {
        (seq![t[0]] + snake_expand(t.drop_first())).map(|i: int, c: char| ascii_upper(c))
    }
}

/// Converts a camel-case name such as an instruction type's to its
/// screaming-snake-case form (`CallIf` becomes `CALL_IF`).
pub fn camel_to_screaming_snake_case(s: &str) -> (r: String)
    ensures
        r@ == screaming_snake_case(s@),
{
    let chars = chars_vec(s);
    if chars.len() == 0 {
        return String::new();
    }
    let mut expanded: Vec<char> = Vec::new();
    expanded.push(chars[0]);
    let mut i: usize = 1;
    while i < chars.len()
        invariant
            1 <= i <= chars@.len(),
            chars@ == s@,
            expanded@ == seq![chars@[0]] + snake_expand(chars@.subrange(1, i as int)),
        decreases chars.len() - i,
    {
        let c = chars[i];
        proof {
            let pre = chars@.subrange(1, i as int);
            let post = chars@.subrange(1, i + 1);
            lemma_snake_expand_push(pre, c);
            assert(post =~= pre + seq![c]);
        }
        if char_uppercase(c) {
            expanded.push('_');
        }
        expanded.push(c);
        i = i + 1;
    }
    proof {
        assert(chars@.subrange(1, chars@.len() as int) =~= chars@.drop_first());
    }
    let mut upper: Vec<char> = Vec::new();
    let mut j: usize = 0;
    while j < expanded.len()
        invariant
            0 <= j <= expanded@.len(),
            upper@ == expanded@.subrange(0, j as int).map(|i: int, c: char| ascii_upper(c)),
        decreases expanded.len() - j,
    {
        upper.push(ascii_upper_char(expanded[j]));
        proof {
            assert(upper@ =~= expanded@.subrange(0, j + 1).map(|i: int, c: char| ascii_upper(c)));
        }
        j = j + 1;
    }
    proof {
        assert(expanded@.subrange(0, expanded@.len() as int) =~= expanded@);
    }
    string_from_chars(&upper)
}

/// Appending one character extends the expansion by that character's piece.
proof fn lemma_snake_expand_push(t: Seq<char>, c: char)
    ensures
        snake_expand(t + seq![c]) == snake_expand(t) + (if char_is_upper(c) {
            seq!['_', c]
        } else {
            seq![c]
        }),
    decreases t.len(),
{
    let u = t + seq![c];
    if t.len() == 0 {
        assert(u.drop_first() =~= Seq::<char>::empty());
        assert(snake_expand(u.drop_first()) == Seq::<char>::empty());
        if char_is_upper(c) {
            assert(snake_expand(u) =~= seq!['_', c]);
            assert(snake_expand(t) + seq!['_', c] =~= seq!['_', c]);
        } else {
            assert(snake_expand(u) =~= seq![c]);
            assert(snake_expand(t) + seq![c] =~= seq![c]);
        }
    } else {
        assert(u.drop_first() =~= t.drop_first() + seq![c]);
        lemma_snake_expand_push(t.drop_first(), c);
        let tail = if char_is_upper(c) {
            seq!['_', c]
        } else {
            seq![c]
        };
        assert(snake_expand(u) == (if char_is_upper(u[0]) {
            seq!['_', u[0]]
        } else {
            seq![u[0]]
        }) + (snake_expand(t.drop_first()) + tail));
        assert(u[0] == t[0]);
        assert((if char_is_upper(t[0]) {
            seq!['_', t[0]]
        } else {
            seq![t[0]]
        }) + (snake_expand(t.drop_first()) + tail) =~= snake_expand(t) + tail);
    }
}

} // verus!
