use vstd::prelude::*;
use vstd::string::StringExecFns;

verus! {

/// Appends one character to a string, with `String::push` of std, which
/// appends the given char to the end of the string.
#[verifier::external_body]
pub(crate) fn push_char(s: &mut String, c: char)
    ensures
        final(s)@ == old(s)@.push(c),
{
    s.push(c);
}

/// Appends all characters of `t` to `s`.
pub(crate) fn push_str(s: &mut String, t: &String)
    ensures
        final(s)@ == old(s)@ + t@,
{
    s.append(t.as_str());
}

/// The decimal digit character of `d`, for `d` below ten.
pub open spec fn digit_char(d: nat) -> char {
    if d == 0 { '0' }
    else if d == 1 { '1' }
    else if d == 2 { '2' }
    else if d == 3 { '3' }
    else if d == 4 { '4' }
    else if d == 5 { '5' }
    else if d == 6 { '6' }
    else if d == 7 { '7' }
    else if d == 8 { '8' }
    else { '9' }
}

/// The decimal digits of a natural number, most significant first, without
/// leading zeros (zero is the single digit `0`).
pub open spec fn digits(n: nat) -> Seq<char>
    decreases n,
{
    if n < 10 {
        seq![digit_char(n)]
    } else {
        digits(n / 10).push(digit_char(n % 10))
    }
}

/// The decimal text of an integer, with a leading `-` when it is negative.
pub open spec fn int_chars(i: int) -> Seq<char> {
    if i < 0 {
        seq!['-'] + digits((-i) as nat)
    } else {
        digits(i as nat)
    }
}

fn digit(d: u64) -> (c: char)
    requires
        d < 10,
    ensures
        c == digit_char(d as nat),
{
    if d == 0 { '0' }
    else if d == 1 { '1' }
    else if d == 2 { '2' }
    else if d == 3 { '3' }
    else if d == 4 { '4' }
    else if d == 5 { '5' }
    else if d == 6 { '6' }
    else if d == 7 { '7' }
    else if d == 8 { '8' }
    else { '9' }
}

fn push_digits(s: &mut String, n: u64)
    ensures
        final(s)@ == old(s)@ + digits(n as nat),
    decreases n,
{
    if n >= 10 {
        push_digits(s, n / 10);
        push_char(s, digit(n % 10));
        assert(s@ =~= old(s)@ + digits(n as nat));
    } else {
        push_char(s, digit(n));
        assert(s@ =~= old(s)@ + digits(n as nat));
    }
}

/// Appends the decimal text of `i` to `s`.
pub(crate) fn push_int(s: &mut String, i: i64)
    ensures
        final(s)@ == old(s)@ + int_chars(i as int),
{
    if i < 0 {
        push_char(s, '-');
        let m: u64 = (0i128 - (i as i128)) as u64;
        push_digits(s, m);
        assert(s@ =~= old(s)@ + int_chars(i as int));
    } else {
        push_digits(s, i as u64);
    }
}

} // verus!
