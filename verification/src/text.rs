use vstd::prelude::*;

verus! {

/// The decimal digit character for `d` (0 ≤ d < 10).
pub open spec fn digit_char(d: int) -> char {
    (48 + d) as char
}

/// The decimal digits of a natural number, most significant first, without
/// leading zeros (zero itself is written "0").
pub open spec fn decimal_digits(n: nat) -> Seq<char>
    decreases n,
{
    if n < 10 {
        seq![digit_char(n as int)]
    } else {
        decimal_digits(n / 10).push(digit_char((n % 10) as int))
    }
}

/// The decimal text of an integer, with a leading '-' when it is negative:
/// how `Display` writes an integer.
pub open spec fn decimal(n: int) -> Seq<char> {
    if n < 0 {
        seq!['-'] + decimal_digits((-n) as nat)
    } else {
        decimal_digits(n as nat)
    }
}

/// Appends one character to a string: `String::push`.
/// Claimed: the string afterwards is the string before with `c` at its end.
#[verifier::external_body]
pub(crate) fn push_char(s: &mut String, c: char)
    ensures
        final(s)@ == old(s)@.push(c),
{
    s.push(c);
}

fn digit(d: u16) -> (c: char)
    requires
        d < 10,
    ensures
        c == digit_char(d as int),
{
    let b: u8 = d as u8;
    (48u8 + b) as char
}

/// Appends the decimal text of `n` to `out`.
pub(crate) fn push_decimal(out: &mut String, n: i16)
    requires
        -1000 < n < 1000,
    ensures
        final(out)@ == old(out)@ + decimal(n as int),
{
    let ghost start = out@;
    let m: u16;
    if n < 0 {
        push_char(out, '-');
        m = (-n) as u16;
    } else {
        m = n as u16;
    }
    let ghost mid = out@;
    let ghost mm = m as nat;
    if m >= 100 {
        push_char(out, digit(m / 100));
        push_char(out, digit((m / 10) % 10));
        push_char(out, digit(m % 10));
        assert(decimal_digits(mm / 100) == seq![digit_char((m / 100) as int)]);
        assert(decimal_digits(mm / 10) == decimal_digits(mm / 100).push(digit_char(((m / 10) % 10) as int)));
    } else if m >= 10 {
        push_char(out, digit(m / 10));
        push_char(out, digit(m % 10));
        assert(decimal_digits(mm / 10) == seq![digit_char((m / 10) as int)]);
    } else {
        push_char(out, digit(m));
    }
    assert(out@ == mid + decimal_digits(mm));
    assert(out@ == start + decimal(n as int));
}

/// Decimal text is base ten, most significant digit first: a number below
/// ten is its one digit character, a larger one is the text of its tenth
/// followed by the digit of its last place, and a negative number is '-'
/// followed by the text of its magnitude.
pub proof fn lemma_decimal_is_base_ten(n: int)
    ensures
        0 <= n < 10 ==> decimal(n) == seq![('0' as int + n) as char],
        n >= 10 ==> decimal(n) == decimal(n / 10) + seq![('0' as int + n % 10) as char],
        n < 0 ==> decimal(n) == seq!['-'] + decimal(-n),
{
    if n >= 10 {
        assert(decimal(n) =~= decimal(n / 10) + seq![('0' as int + n % 10) as char]);
    }
}

} // verus!
