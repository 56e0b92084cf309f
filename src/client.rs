//! The client's input: one integer per line, a blank line ends the input.

use vstd::prelude::*;

verus! {

/// What `str::trim` returns for a line.
pub uninterp spec fn trimmed(s: Seq<char>) -> Seq<char>;

/// Whether `c` is an ASCII decimal digit.
pub open spec fn is_digit(c: char) -> bool {
    '0' <= c <= '9'
}

/// The number that a string of decimal digits spells.
pub open spec fn digits_value(s: Seq<char>) -> int
    decreases s.len(),
{
    if s.len() == 0 {
        0
    } else {
        digits_value(s.drop_last()) * 10 + (s.last() as int - '0' as int)
    }
}

/// A 32-bit integer in decimal: an optional `+` or `-`, then one or more
/// ASCII digits, with the value in range; anything else is no number.
pub open spec fn decimal_i32(s: Seq<char>) -> Option<i32> {
    let signed = s.len() > 0 && (s[0] == '+' || s[0] == '-');
    let body = if signed { s.drop_first() } else { s };
    let v = if signed && s[0] == '-' { -digits_value(body) } else { digits_value(body) };
    if body.len() > 0 && (forall|i: int| 0 <= i < body.len() ==> is_digit(#[trigger] body[i])) && i32::MIN <= v
        <= i32::MAX {
        Some(v as i32)
    } else {
        None
    }
}

/// Relies on `str::trim`: the line without leading and trailing white space;
/// the result depends on the characters alone.
#[verifier::external_body]
fn trim_line(s: &str) -> (r: &str)
    ensures
        r@ == trimmed(s@),
        s@.len() == 0 ==> r@.len() == 0,
{
    s.trim()
}

/// Relies on `str::parse::<i32>` (`i32::from_str`): the decimal number the
/// string spells, with an optional sign, if it fits in 32 bits.
#[verifier::external_body]
fn parse_i32(s: &str) -> (r: Option<i32>)
    ensures
        r == decimal_i32(s@),
{
    s.parse::<i32>().ok()
}

/// What a line of input asks the client to do.
#[derive(Debug, Clone, Copy, PartialEq, Eq)]
pub enum ClientInput {
    /// A blank line: no more values.
    End,
    /// Submit this value.
    Submit(i32),
}

/// A line that is neither blank nor an integer.
#[derive(Debug, Clone, Copy, PartialEq, Eq)]
pub enum InputError {
    NotAnInteger,
}

/// What a trimmed line asks for, given what it parses to: a blank line
/// ends the input, a number is submitted, anything else is an error.
pub fn client_input(line: &str, parsed: Option<i32>) -> (r: Result<ClientInput, InputError>)
    ensures
        line@.len() == 0 ==> r == Ok::<ClientInput, InputError>(ClientInput::End),
        line@.len() > 0 ==> r == match parsed {
            Some(v) => Ok::<ClientInput, InputError>(ClientInput::Submit(v)),
            None => Err(InputError::NotAnInteger),
        },
{
    if line.is_empty() {
        return Ok(ClientInput::End);
    }
    match parsed {
        Some(v) => Ok(ClientInput::Submit(v)),
        None => Err(InputError::NotAnInteger),
    }
}

/// What a line asks for, once trimmed: a blank line ends the input, a
/// 32-bit integer is submitted, anything else is an error.
pub fn read_client_line(line: &str) -> (r: Result<ClientInput, InputError>)
    ensures
        trimmed(line@).len() == 0 ==> r == Ok::<ClientInput, InputError>(ClientInput::End),
        trimmed(line@).len() > 0 ==> r == match decimal_i32(trimmed(line@)) {
            Some(v) => Ok::<ClientInput, InputError>(ClientInput::Submit(v)),
            None => Err(InputError::NotAnInteger),
        },
{
    let t = trim_line(line);
    let parsed = parse_i32(t);
    client_input(t, parsed)
}

} // verus!
