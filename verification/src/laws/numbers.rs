//! Numbers as text.
use crate::cast::{to_signed, to_unsigned};
use crate::decimal::{
    all_digits, decimal, digit, digits, digits_have_their_value, is_digit, parse_unsigned,
    push_decimal, push_decimal_unsigned, push_zero_padded, value, zero_padded,
};
use vstd::prelude::*;

verus! {

/// Below ten a number is written as its digit.
pub proof fn small_numbers_are_single_digits(n: int)
    requires
        0 <= n < 10,
    ensures
        decimal(n) == seq![
            if n == 0 {
                '0'
            } else if n == 1 {
                '1'
            } else if n == 2 {
                '2'
            } else if n == 3 {
                '3'
            } else if n == 4 {
                '4'
            } else if n == 5 {
                '5'
            } else if n == 6 {
                '6'
            } else if n == 7 {
                '7'
            } else if n == 8 {
                '8'
            } else {
                '9'
            },
        ],
{
}

/// From ten on a number is written as its tenth, rounded down, and behind it the
/// digit that is left; below zero as `-` and the number without its sign.
pub proof fn numbers_are_written_digit_by_digit(n: int)
    ensures
        n >= 10 ==> decimal(n) == decimal(n / 10) + decimal(n % 10),
        n < 0 ==> decimal(n) == seq!['-'] + decimal(-n),
{
    if n >= 10 {
        assert(digits(n as nat) =~= digits((n / 10) as nat) + seq![digit(n % 10)]);
    }
}

/// Writing a number appends it to what stands there.
pub proof fn numbers_are_appended(
    out: &mut String,
    n: i64,
    other: &mut String,
    m: u64,
)
    requires
        call_ensures(push_decimal, (out, n), ()),
        call_ensures(push_decimal_unsigned, (other, m), ()),
    ensures
        final(out)@ == old(out)@ + decimal(n as int),
        final(other)@ == old(other)@ + decimal(m as int),
{
}

/// A number that is not negative and is written to a width is filled up with
/// zeros in front: what is appended ends with the number, has nothing but zeros
/// before it, and is as long as the width or as the number, whichever is longer.
pub proof fn padded_numbers_are_filled_with_zeros(
    out: &mut String,
    n: i32,
    width: usize,
)
    requires
        width >= 1,
        n >= 0,
        call_ensures(push_zero_padded, (out, n, width), ()),
    ensures
        ({
            let text = decimal(n as int);
            let total = if text.len() < width {
                width as int
            } else {
                text.len() as int
            };
            let end = final(out)@;
            &&& end.len() == old(out)@.len() + total
            &&& end.take(old(out)@.len() as int) == old(out)@
            &&& end.skip(end.len() - text.len()) == text
            &&& forall|i: int|
                old(out)@.len() <= i < end.len() - text.len() ==> #[trigger] end[i] == '0'
        }),
{
    let text = decimal(n as int);
    let end = final(out)@;
    assert(end == old(out)@ + zero_padded(n as int, width as int));
    assert(end.take(old(out)@.len() as int) =~= old(out)@);
    assert(end.skip(end.len() - text.len()) =~= text);
}

proof fn lemma_all_digits_push(s: Seq<char>, c: char)
    ensures
        all_digits(s.push(c)) == (all_digits(s) && is_digit(c)),
        value(s.push(c)) == (value(s) * 10 + (c as int - 48)) as nat,
{
    assert(s.push(c).drop_last() =~= s);
    if all_digits(s.push(c)) {
        assert forall|i: int| 0 <= i < s.len() implies is_digit(#[trigger] s[i]) by {
            assert(s.push(c)[i] == s[i]);
        }
        assert(s.push(c)[s.len() as int] == c);
    }
}

/// What was written of a number is read back as that number wherever it is no more
/// than the most that is asked for, also behind a `+`; a greater one is not read.
pub proof fn written_numbers_are_read_back(
    s: &str,
    max: u64,
    number: Option<u64>,
    n: u64,
)
    requires
        call_ensures(parse_unsigned, (s, max), number),
        s@ == decimal(n as int) || s@ == seq!['+'] + decimal(n as int),
    ensures
        n <= max ==> number == Some(n),
        n > max ==> number is None,
{
    digits_have_their_value(n as nat);
    let d = digits(n as nat);
    assert(is_digit(d[0]));
    if s@ == seq!['+'] + d {
        assert(s@.skip(1) =~= d);
    }
}

/// A text with another character than a digit, but for a `+` in front, stands for
/// no number, and neither does one without a digit.
pub proof fn other_texts_are_no_numbers(s: &str, max: u64, number: Option<u64>)
    requires
        call_ensures(parse_unsigned, (s, max), number),
        s@.len() == 0 || s@ == seq!['+'] || (exists|i: int|
            0 <= i < s@.len() && !('0' <= #[trigger] s@[i] <= '9') && !(i == 0 && s@[i] == '+')),
    ensures
        number is None,
{
    let d = if s@.len() > 0 && s@[0] == '+' {
        s@.skip(1)
    } else {
        s@
    };
    if d.len() > 0 {
        let i = choose|i: int|
            0 <= i < s@.len() && !('0' <= #[trigger] s@[i] <= '9') && !(i == 0 && s@[i] == '+');
        if s@[0] == '+' {
            assert(d[i - 1] == s@[i]);
            assert(!is_digit(d[i - 1]));
        } else {
            assert(d[i] == s@[i]);
            assert(!is_digit(d[i]));
        }
    }
}

/// A digit more makes a number ten times as large and adds the digit.
pub proof fn a_digit_more_counts_ten_times(
    s: &str,
    longer: &str,
    max: u64,
    number: Option<u64>,
    larger: Option<u64>,
    c: char,
)
    requires
        call_ensures(parse_unsigned, (s, max), number),
        call_ensures(parse_unsigned, (longer, max), larger),
        '0' <= c <= '9',
        longer@ == s@.push(c),
        number is Some,
    ensures
        number->0 * 10 + (c as int - '0' as int) <= max ==> larger is Some && larger->0
            == number->0 * 10 + (c as int - '0' as int),
        number->0 * 10 + (c as int - '0' as int) > max ==> larger is None,
{
    let d = if s@[0] == '+' {
        s@.skip(1)
    } else {
        s@
    };
    lemma_all_digits_push(d, c);
    if s@[0] == '+' {
        assert(longer@.skip(1) =~= d.push(c));
    }
}

/// A negative number that is written to a width has its zeros between the sign and
/// the digits.
pub proof fn signs_stand_before_the_zeros(out: &mut String, n: i32, width: usize)
    requires
        width >= 1,
        n < 0,
        call_ensures(push_zero_padded, (out, n, width), ()),
    ensures
        ({
            let text = decimal(-(n as int));
            let fill = if text.len() + 1 < width {
                (width - text.len() - 1) as nat
            } else {
                0nat
            };
            final(out)@ == old(out)@ + seq!['-'] + Seq::new(fill, |i: int| '0') + text
        }),
{
    let text = decimal(-(n as int));
    let fill = if text.len() + 1 < width {
        (width - text.len() - 1) as nat
    } else {
        0nat
    };
    assert(final(out)@ =~= old(out)@ + seq!['-'] + Seq::new(fill, |i: int| '0') + text);
}

/// Reading a number with or without a sign changes nothing where both readings are
/// the same, and elsewhere shifts it by 2^64; reading it back gives it again.
pub proof fn signs_are_read_both_ways(
    n: u64,
    s: i64,
    back: u64,
)
    requires
        call_ensures(to_signed, (n,), s),
        call_ensures(to_unsigned, (s,), back),
    ensures
        n <= 0x7fff_ffff_ffff_ffff ==> s == n,
        n > 0x7fff_ffff_ffff_ffff ==> s == n - 0x1_0000_0000_0000_0000,
        back == n,
{
}

} // verus!
