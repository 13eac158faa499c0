use vstd::prelude::*;

verus! {

/// Relies on `String::push`: the character is appended at the end.
#[verifier::external_body]
pub(crate) fn push_char(s: &mut String, c: char)
    ensures
        final(s)@ == old(s)@.push(c),
{
    s.push(c);
}

/// The decimal digit character for `d` (below ten).
pub open spec fn digit_char(d: nat) -> char {
    if d == 0 {
        '0'
    } else if d == 1 {
        '1'
    } else if d == 2 {
        '2'
    } else if d == 3 {
        '3'
    } else if d == 4 {
        '4'
    } else if d == 5 {
        '5'
    } else if d == 6 {
        '6'
    } else if d == 7 {
        '7'
    } else if d == 8 {
        '8'
    } else {
        '9'
    }
}

/// The decimal text of a natural number, most significant digit first.
pub open spec fn decimal(n: nat) -> Seq<char>
    decreases n,
{
    if n < 10 {
        seq![digit_char(n)]
    } else {
        decimal(n / 10).push(digit_char(n % 10))
    }
}

pub fn digit_to_char(d: u64) -> (c: char)
    requires
        d < 10,
    ensures
        c == digit_char(d as nat),
{
    if d == 0 {
        '0'
    } else if d == 1 {
        '1'
    } else if d == 2 {
        '2'
    } else if d == 3 {
        '3'
    } else if d == 4 {
        '4'
    } else if d == 5 {
        '5'
    } else if d == 6 {
        '6'
    } else if d == 7 {
        '7'
    } else if d == 8 {
        '8'
    } else {
        '9'
    }
}

/// Appends the decimal text of `n`.
pub fn push_decimal(s: &mut String, n: u64)
    ensures
        final(s)@ == old(s)@ + decimal(n as nat),
    decreases n,
{
    if n >= 10 {
        push_decimal(s, n / 10);
    }
    push_char(s, digit_to_char(n % 10));
    assert(final(s)@ =~= old(s)@ + decimal(n as nat));
}

/// Appends every character of `t`.
pub fn push_str(s: &mut String, t: &str)
    ensures
        final(s)@ == old(s)@ + t@,
{
    s.append(t);
}

} // verus!

verus! {

/// `[line N] Error<at>: <message>`, the form of every diagnostic.
pub open spec fn diagnostic(line: nat, at: Seq<char>, message: Seq<char>) -> Seq<char> {
    "[line "@ + decimal(line) + "] Error"@ + at + ": "@ + message
}

/// ` at 'lexeme'`, or ` at end` for the end of input.
pub open spec fn location(at_end: bool, lexeme: Seq<char>) -> Seq<char> {
    if at_end {
        " at end"@
    } else {
        " at '"@ + lexeme + "'"@
    }
}

pub fn location_text(at_end: bool, lexeme: &str) -> (r: String)
    ensures
        r@ == location(at_end, lexeme@),
{
    let mut s = String::new();
    if at_end {
        push_str(&mut s, " at end");
    } else {
        push_str(&mut s, " at '");
        push_str(&mut s, lexeme);
        push_str(&mut s, "'");
    }
    assert(s@ =~= location(at_end, lexeme@));
    s
}

pub fn diagnostic_text(line: usize, at: &str, message: &str) -> (r: String)
    ensures
        r@ == diagnostic(line as nat, at@, message@),
{
    let mut s = String::new();
    push_str(&mut s, "[line ");
    push_decimal(&mut s, line as u64);
    push_str(&mut s, "] Error");
    push_str(&mut s, at);
    push_str(&mut s, ": ");
    push_str(&mut s, message);
    assert(s@ =~= diagnostic(line as nat, at@, message@));
    s
}

} // verus!
