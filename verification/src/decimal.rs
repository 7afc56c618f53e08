//! Decimal numbers as text, in both directions.
use crate::text::characters;
use vstd::prelude::*;

verus! {

/// The character for a digit from 0 to 9.
pub open spec fn digit(d: int) -> char {
    (48 + d) as char
}

/// `c` is one of `0` to `9`.
pub open spec fn is_digit(c: char) -> bool {
    '0' <= c <= '9'
}

/// `n` in decimal, without leading zeros.
pub open spec fn digits(n: nat) -> Seq<char>
    decreases n,
{
    if n < 10 {
        seq![digit(n as int)]
    } else {
        digits(n / 10).push(digit((n % 10) as int))
    }
}

/// `n` in decimal, with a `-` in front where it is negative.
pub open spec fn decimal(n: int) -> Seq<char> {
    if n < 0 {
        seq!['-'] + digits((-n) as nat)
    } else {
        digits(n as nat)
    }
}

/// `n` times `0`.
pub open spec fn zeros(n: int) -> Seq<char> {
    Seq::new(if n > 0 { n as nat } else { 0 }, |i: int| '0')
}

/// `n` in decimal, filled up to `width` characters with zeros that stand behind
/// the sign.
pub open spec fn zero_padded(n: int, width: int) -> Seq<char> {
    if n < 0 {
        let d = digits((-n) as nat);
        seq!['-'] + zeros(width - 1 - d.len()) + d
    } else {
        let d = digits(n as nat);
        zeros(width - d.len()) + d
    }
}

/// The number that a sequence of digits stands for.
pub open spec fn value(s: Seq<char>) -> nat
    decreases s.len(),
{
    if s.len() == 0 {
        0
    } else {
        (value(s.drop_last()) * 10 + (s.last() as int - 48)) as nat
    }
}

/// Every character of `s` is a digit.
pub open spec fn all_digits(s: Seq<char>) -> bool {
    forall|i: int| 0 <= i < s.len() ==> is_digit(#[trigger] s[i])
}

/// The digits of a number stand for that number.
pub proof fn digits_have_their_value(n: nat)
    ensures
        all_digits(digits(n)),
        digits(n).len() > 0,
        value(digits(n)) == n,
    decreases n,
{
    if n < 10 {
        let s = digits(n);
        assert(s.drop_last() =~= Seq::<char>::empty());
        assert(value(s.drop_last()) == 0);
    } else {
        digits_have_their_value(n / 10);
        let s = digits(n);
        assert(s.drop_last() =~= digits(n / 10));
    }
}

/// Leading zeros do not change what digits stand for.
proof fn lemma_leading_zeros(k: int, s: Seq<char>)
    requires
        all_digits(s),
    ensures
        value(zeros(k) + s) == value(s),
    decreases s.len(), if k > 0 { k } else { 0 },
{
    let whole = zeros(k) + s;
    if s.len() > 0 {
        assert(whole.drop_last() =~= zeros(k) + s.drop_last());
        assert(all_digits(s.drop_last())) by {
            assert forall|i: int| 0 <= i < s.drop_last().len() implies is_digit(
                #[trigger] s.drop_last()[i],
            ) by {
                assert(s.drop_last()[i] == s[i]);
            }
        }
        lemma_leading_zeros(k, s.drop_last());
    } else if k > 0 {
        assert(whole.drop_last() =~= zeros(k - 1) + s);
        lemma_leading_zeros(k - 1, s);
    } else {
        assert(whole =~= s);
    }
}

/// Two natural numbers with the same padded text are the same number.
pub proof fn padded_text_tells_numbers_apart(a: nat, b: nat, width: int)
    requires
        zero_padded(a as int, width) == zero_padded(b as int, width),
    ensures
        a == b,
{
    digits_have_their_value(a);
    digits_have_their_value(b);
    lemma_leading_zeros(width - digits(a).len(), digits(a));
    lemma_leading_zeros(width - digits(b).len(), digits(b));
}

/// Two natural numbers with the same decimal text are the same number.
pub proof fn decimal_text_tells_numbers_apart(a: nat, b: nat)
    requires
        decimal(a as int) == decimal(b as int),
    ensures
        a == b,
{
    digits_have_their_value(a);
    digits_have_their_value(b);
}

fn push_digits(out: &mut String, n: u64)
    ensures
        final(out)@ == old(out)@ + digits(n as nat),
    decreases n,
{
    if n >= 10 {
        push_digits(out, n / 10);
    }
    let d: u8 = (n % 10) as u8;
    assert(old(out)@ + digits(n as nat / 10).push(digit(d as int)) =~= (old(out)@ + digits(
        n as nat / 10,
    )).push(digit(d as int)));
    assert(old(out)@ + seq![digit(d as int)] =~= old(out)@.push(digit(d as int)));
    out.push((48u8 + d) as char);
}

/// Appends `n` in decimal to `out`.
pub fn push_decimal(out: &mut String, n: i64)
    ensures
        final(out)@ == old(out)@ + decimal(n as int),
{
    if n < 0 {
        let magnitude: u64 = (-(n as i128)) as u64;
        out.push('-');
        assert(old(out)@.push('-') + digits(magnitude as nat) =~= old(out)@ + (seq!['-'] + digits(
            magnitude as nat,
        )));
        push_digits(out, magnitude);
    } else {
        push_digits(out, n as u64);
    }
}

/// Appends an unsigned `n` in decimal to `out`.
pub fn push_decimal_unsigned(out: &mut String, n: u64)
    ensures
        final(out)@ == old(out)@ + decimal(n as int),
{
    push_digits(out, n);
}

fn push_zeros(out: &mut String, n: usize)
    ensures
        final(out)@ == old(out)@ + zeros(n as int),
{
    let mut i: usize = 0;
    assert(out@ + zeros(0) =~= out@);
    while i < n
        invariant
            i <= n,
            out@ == old(out)@ + zeros(i as int),
        decreases n - i,
    {
        out.push('0');
        i += 1;
        assert(zeros(i - 1).push('0') =~= zeros(i as int));
        assert((old(out)@ + zeros(i - 1)).push('0') =~= old(out)@ + zeros(i - 1).push('0'));
    }
}

/// Appends `n` in decimal to `out`, filled up to `width` characters with zeros.
pub fn push_zero_padded(out: &mut String, n: i32, width: usize)
    requires
        width >= 1,
    ensures
        final(out)@ == old(out)@ + zero_padded(n as int, width as int),
{
    let negative: bool = n < 0;
    let magnitude: u64 = if negative {
        (-(n as i64)) as u64
    } else {
        n as u64
    };
    let mut body: String = String::new();
    push_digits(&mut body, magnitude);
    assert(body@ =~= digits(magnitude as nat));
    let used: usize = characters(body.as_str()).len();
    let room: usize = if negative {
        width - 1
    } else {
        width
    };
    let fill: usize = if used < room {
        room - used
    } else {
        0
    };
    assert(zeros(fill as int) =~= zeros(room - used));
    let ghost start = out@;
    if negative {
        out.push('-');
        assert(start.push('-') =~= start + seq!['-']);
    }
    push_zeros(out, fill);
    out.append(body.as_str());
    assert(out@ =~= start + zero_padded(n as int, width as int));
}

/// The number that `s` stands for where it is an unsigned decimal number of at
/// most `max`: digits, at least one, behind an optional `+`.
pub open spec fn parsed(s: Seq<char>, max: int) -> Option<int> {
    let d = if s.len() > 0 && s[0] == '+' {
        s.skip(1)
    } else {
        s
    };
    if d.len() > 0 && all_digits(d) && value(d) <= max {
        Some(value(d) as int)
    } else {
        None
    }
}

/// Reads an unsigned decimal number of at most `max`.
pub fn parse_unsigned(s: &str, max: u64) -> (number: Option<u64>)
    ensures
        match number {
            Some(n) => parsed(s@, max as int) == Some(n as int),
            None => parsed(s@, max as int) is None,
        },
{
    let chars: Vec<char> = characters(s);
    let from: usize = if chars.len() > 0 && chars[0] == '+' {
        1
    } else {
        0
    };
    let ghost d = if s@.len() > 0 && s@[0] == '+' {
        s@.skip(1)
    } else {
        s@
    };
    assert(d =~= chars@.skip(from as int));
    if from == chars.len() {
        return None;
    }
    let mut total: u64 = 0;
    let mut i: usize = from;
    let mut over: bool = false;
    assert(d.take(0) =~= Seq::<char>::empty());
    while i < chars.len()
        invariant
            from <= i <= chars@.len(),
            d == chars@.skip(from as int),
            d == (if s@.len() > 0 && s@[0] == '+' {
                s@.skip(1)
            } else {
                s@
            }),
            forall|j: int| 0 <= j < i - from ==> is_digit(#[trigger] d[j]),
            !over ==> total == value(d.take(i - from)) && total <= max,
            over ==> value(d.take(i - from)) > max,
        decreases chars@.len() - i,
    {
        let c: char = chars[i];
        assert(c == d[i - from]);
        if c < '0' || c > '9' {
            assert(!is_digit(d[i - from]));
            return None;
        }
        let ghost before = d.take(i - from);
        let ghost after = d.take(i - from + 1);
        assert(after.drop_last() =~= before);
        assert(value(after) == value(before) * 10 + (c as int - 48));
        if !over {
            let wider: u128 = (total as u128) * 10 + ((c as u32 - 48) as u128);
            if wider > max as u128 {
                over = true;
            } else {
                total = wider as u64;
            }
        }
        i += 1;
    }
    assert(d.take(d.len() as int) =~= d);
    if over {
        None
    } else {
        Some(total)
    }
}

/// Reading back the text of a number gives that number.
pub proof fn parsing_reads_back_what_was_written(n: nat, max: int)
    requires
        n <= max,
    ensures
        parsed(decimal(n as int), max) == Some(n as int),
{
    digits_have_their_value(n);
    assert(is_digit(digits(n)[0]));
}

} // verus!
