//! Arithmetic expressions as counts and prices: text in, a non-negative
//! integer out.
use vstd::prelude::*;
use vstd::utf8::encode_utf8;

verus! {

/// The longest expression text, in bytes, that is handed to the evaluator;
/// longer text is refused, which keeps evaluation bounded.
pub const MAX_EXPRESSION_BYTES: usize = 256;

/// Why a text is not a usable count or price.
#[derive(PartialEq, Eq, Structural, Debug, Clone, Copy)]
pub enum ExprError {
    /// The text is not an expression, or fails to evaluate to an integer.
    InvalidExpression,
    /// The expression evaluates to a negative integer.
    NegativeValue,
    /// The expression evaluates to more than a count or price can hold.
    TooLarge,
}

/// What evalexpr's integer evaluation gives for a text: its value, or nothing
/// where the text does not evaluate to an integer.
pub uninterp spec fn eval_int_result(s: Seq<char>) -> Option<int>;

/// The bytes an expression may hold: ASCII digits, ASCII whitespace, and
/// `+ - * / % ( )`.
pub open spec fn expression_byte(b: u8) -> bool {
    (0x30 <= b && b <= 0x39) || b == 0x20 || b == 0x09 || b == 0x0a || b == 0x0d || b == 0x2b
        || b == 0x2d || b == 0x2a || b == 0x2f || b == 0x25 || b == 0x28 || b == 0x29
}

/// Every byte of the text's UTF-8 encoding is an expression byte; a character
/// outside ASCII never is.
pub open spec fn in_expression_alphabet(s: Seq<char>) -> bool {
    forall|i: int| 0 <= i < encode_utf8(s).len() ==> expression_byte(#[trigger] encode_utf8(s)[i])
}

/// Relies on evalexpr::eval_int: evaluates the text with an empty context and
/// returns the integer it denotes, or an error, which is dropped here. On
/// digits, whitespace and `+ - * / % ( )` it only parses and uses checked
/// integer arithmetic; it parses and evaluates recursively without a depth
/// guard, so the text is also held to `MAX_EXPRESSION_BYTES`, which bounds
/// the depth of that recursion.
#[verifier::external_body]
fn eval_int(s: &str) -> (r: Option<i64>)
    requires
        in_expression_alphabet(s@),
        byte_len(s@) <= MAX_EXPRESSION_BYTES,
    ensures
        match r {
            Some(v) => eval_int_result(s@) == Some(v as int),
            None => eval_int_result(s@) is None,
        },
{
    evalexpr::eval_int(s).ok()
}

/// A count or price from an evaluated integer.
pub open spec fn count_of(v: Option<int>) -> Result<u32, ExprError> {
    match v {
        None => Err(ExprError::InvalidExpression),
        Some(n) => if n < 0 {
            Err(ExprError::NegativeValue)
        } else if n > u32::MAX {
            Err(ExprError::TooLarge)
        } else {
            Ok(n as u32)
        },
    }
}

/// The length in bytes of a text's UTF-8 encoding, as `str::len` reports it.
pub open spec fn byte_len(s: Seq<char>) -> usize {
    encode_utf8(s).len() as usize
}

/// The count or price that an expression text stands for.
pub open spec fn expression_value(s: Seq<char>) -> Result<u32, ExprError> {
    if byte_len(s) > MAX_EXPRESSION_BYTES || !in_expression_alphabet(s) {
        Err(ExprError::InvalidExpression)
    } else {
        count_of(eval_int_result(s))
    }
}

fn is_expression_byte(b: u8) -> (r: bool)
    ensures
        r == expression_byte(b),
{
    (0x30 <= b && b <= 0x39) || b == 0x20 || b == 0x09 || b == 0x0a || b == 0x0d || b == 0x2b
        || b == 0x2d || b == 0x2a || b == 0x2f || b == 0x25 || b == 0x28 || b == 0x29
}

/// Whether a text keeps to the expression alphabet.
pub fn has_expression_alphabet(s: &str) -> (r: bool)
    ensures
        r == in_expression_alphabet(s@),
{
    let b = s.as_bytes();
    assert(b@ == encode_utf8(s@));
    let mut i: usize = 0;
    while i < b.len()
        invariant
            b@ == encode_utf8(s@),
            i <= b@.len(),
            forall|j: int| 0 <= j < i ==> expression_byte(#[trigger] b@[j]),
        decreases b@.len() - i,
    {
        if !is_expression_byte(b[i]) {
            return false;
        }
        i += 1;
    }
    true
}

/// Turns the evaluator's result into a count or price: no value is an invalid
/// expression, a negative one or one above `u32::MAX` is refused.
pub fn coerce_count(v: Option<i64>) -> (r: Result<u32, ExprError>)
    ensures
        r == count_of(
            match v {
                Some(n) => Some(n as int),
                None => None,
            },
        ),
{
    match v {
        None => Err(ExprError::InvalidExpression),
        Some(n) => {
            if n < 0 {
                Err(ExprError::NegativeValue)
            } else if n > u32::MAX as i64 {
                Err(ExprError::TooLarge)
            } else {
                Ok(n as u32)
            }
        },
    }
}

/// Evaluates an arithmetic expression (integer literals, `+ - * / %`,
/// parentheses, whitespace) into a non-negative count or price. Any other
/// character, and text longer than the bound, is an invalid expression.
pub fn parse_expression(s: &str) -> (r: Result<u32, ExprError>)
    ensures
        r == expression_value(s@),
{
    if s.len() > MAX_EXPRESSION_BYTES {
        return Err(ExprError::InvalidExpression);
    }
    if !has_expression_alphabet(s) {
        return Err(ExprError::InvalidExpression);
    }
    coerce_count(eval_int(s))
}

} // verus!
