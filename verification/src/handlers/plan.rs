//! How a file is divided into parts.
//!
//! The number of parts is the file's size over the chunk size, rounded up, with
//! the division in double precision: both numbers and their quotient are first
//! brought to 53 binary digits. For files of up to 2^53 bytes that makes no
//! difference.
use vstd::prelude::*;

verus! {

/// The least integer that is not below `a / b`.
pub open spec fn ceiling(a: int, b: int) -> int {
    if b > 0 {
        -((-a) / b)
    } else {
        -(a / (-b))
    }
}

/// The least number that 53 binary digits cannot hold with all its neighbours.
pub const PRECISION: u64 = 0x20_0000_0000_0000;

/// `x` without its sign.
pub open spec fn absolute(x: int) -> int {
    if x >= 0 {
        x
    } else {
        -x
    }
}

/// The distance between numbers of 53 binary digits around `m`.
pub open spec fn spacing(m: int) -> int
    decreases m,
{
    if m < PRECISION {
        1
    } else {
        2 * spacing(m / 2)
    }
}

/// `m` to 53 binary digits: the nearest such number, and halfway between two of
/// them the one whose last digit is 0.
pub open spec fn nearest(m: int) -> int {
    let unit = spacing(m);
    let below = m / unit;
    let rest = m % unit;
    if 2 * rest > unit || (2 * rest == unit && below % 2 == 1) {
        (below + 1) * unit
    } else {
        below * unit
    }
}

/// The largest power of two that is not above `n`.
pub open spec fn power_below(n: int) -> int
    decreases n,
{
    if n < 2 {
        1
    } else {
        2 * power_below(n / 2)
    }
}

/// `a / b` to 53 binary digits, rounded up to an integer, for positive numbers
/// whose quotient has fewer than 32 digits before the point. From an integer on,
/// numbers of 53 digits lie 2^52 to the power of two below it apart; a quotient
/// that is no further than half of that above the integer becomes the integer.
pub open spec fn quotient(a: int, b: int) -> int {
    let below = a / b;
    let rest = a % b;
    if rest == 0 || (below > 0 && rest * PRECISION <= b * power_below(below)) {
        below
    } else {
        below + 1
    }
}

/// The number of parts of a file: its size over the chunk size in double
/// precision, rounded up and brought into the range of part counts. With
/// different signs it is 0 where the size is the smaller number; where it is not,
/// the number would be negative, for which -1 stands.
pub open spec fn parts_needed(total_size: int, chunk_size: int) -> int {
    let size = nearest(absolute(total_size));
    let chunk = nearest(absolute(chunk_size));
    if chunk_size == 0 {
        0
    } else if (total_size >= 0) == (chunk_size > 0) {
        if size / chunk >= i32::MAX {
            i32::MAX as int
        } else {
            quotient(size, chunk)
        }
    } else if size < chunk {
        0
    } else {
        -1
    }
}

/// A file of this size can be divided: there is a chunk size unless the file is
/// empty, and the number of parts is not negative.
pub open spec fn divisible(total_size: int, chunk_size: int) -> bool {
    &&& chunk_size != 0 || total_size == 0
    &&& parts_needed(total_size, chunk_size) >= 0
}

/// What is left of `a` when as many `b` as fit are taken away; it has the sign of
/// `a`.
pub open spec fn remainder(a: int, b: int) -> int {
    let m = if b > 0 {
        b
    } else {
        -b
    };
    if a >= 0 {
        a % m
    } else {
        -((-a) % m)
    }
}

/// The size of one part: the chunk size, but for the last part what is left,
/// where anything is.
pub open spec fn part_size(total_size: int, chunk_size: int, number: int, count: int) -> int {
    if number == count - 1 && remainder(total_size, chunk_size) != 0 {
        remainder(total_size, chunk_size)
    } else {
        chunk_size
    }
}

/// The sizes of the first `n` of `count` parts, taken together.
pub open spec fn sizes_sum(total_size: int, chunk_size: int, count: int, n: int) -> int
    decreases n,
{
    if n <= 0 {
        0
    } else {
        sizes_sum(total_size, chunk_size, count, n - 1) + part_size(
            total_size,
            chunk_size,
            n - 1,
            count,
        )
    }
}

/// `x` without its sign.
fn magnitude(x: i64) -> (m: u64)
    ensures
        m == absolute(x as int),
        m <= 0x8000_0000_0000_0000,
{
    if x >= 0 {
        x as u64
    } else {
        ((-(x + 1)) as u64) + 1
    }
}

/// A quotient rounded up is the quotient rounded down, and one more where something
/// is left.
pub proof fn lemma_ceiling(m: int, c: int)
    by (nonlinear_arith)
    requires
        m >= 0,
        c > 0,
    ensures
        -((-m) / c) == if m % c == 0 {
            m / c
        } else {
            m / c + 1
        },
        m / c >= 0,
        0 <= m % c < c,
{
}

/// `m` lies from 2^52 up to 2^53 spacings, where it is that large at all.
pub proof fn lemma_spacing(m: int)
    requires
        m >= 0,
    ensures
        spacing(m) >= 1,
        m < PRECISION ==> spacing(m) == 1,
        m >= PRECISION ==> spacing(m) >= 2,
        m / spacing(m) < PRECISION,
        m >= PRECISION ==> m / spacing(m) >= PRECISION / 2,
        m > 0 ==> spacing(m) <= m,
    decreases m,
{
    if m >= PRECISION {
        let half = m / 2;
        let unit = spacing(half);
        lemma_spacing(half);
        assert(m / (2 * unit) == half / unit) by {
            vstd::arithmetic::div_mod::lemma_div_denominator(m, 2, unit);
        }
        if half < PRECISION {
            assert(half / 1 == half);
        }
    } else {
        assert(m / 1 == m);
    }
}

/// Rounding to 53 binary digits keeps a number within twice itself, and keeps it as
/// it is where it has no more digits.
pub proof fn lemma_nearest(m: int)
    requires
        0 <= m <= 0x8000_0000_0000_0000,
    ensures
        0 <= nearest(m) <= m + m,
        m <= PRECISION ==> nearest(m) == m,
        m >= PRECISION ==> nearest(m) >= PRECISION,
        m > 0 ==> nearest(m) > 0,
{
    lemma_spacing(m);
    let unit = spacing(m);
    let below = m / unit;
    let rest = m % unit;
    assert(m == below * unit + rest && 0 <= rest < unit && below >= 0) by (nonlinear_arith)
        requires
            unit >= 1,
            m >= 0,
            below == m / unit,
            rest == m % unit,
    ;
    assert((below + 1) * unit == below * unit + unit) by (nonlinear_arith);
    if m < PRECISION {
        assert(below * 1 == below);
    } else {
        assert(below * unit >= PRECISION) by (nonlinear_arith)
            requires
                below >= PRECISION / 2,
                unit >= 2,
        ;
        if m == PRECISION {
            assert(spacing(m) == 2 * spacing(m / 2));
        }
    }
}

/// The distance between numbers of 53 binary digits around `m`.
fn spacing_around(m: u64) -> (unit: u64)
    requires
        m > 0,
    ensures
        unit == spacing(m as int),
        1 <= unit <= m,
    decreases m,
{
    proof {
        lemma_spacing(m as int);
    }
    if m < PRECISION {
        1
    } else {
        proof {
            lemma_spacing(m as int / 2);
        }
        2 * spacing_around(m / 2)
    }
}

/// `m` to 53 binary digits.
fn round_to_nearest(m: u64) -> (rounded: u64)
    requires
        m <= 0x8000_0000_0000_0000,
    ensures
        rounded == nearest(m as int),
{
    proof {
        lemma_nearest(m as int);
    }
    if m == 0 {
        assert(nearest(0) == 0);
        return 0;
    }
    let unit: u64 = spacing_around(m);
    let below: u64 = m / unit;
    let rest: u64 = m % unit;
    let up: bool = rest > unit - rest || (rest == unit - rest && below % 2 == 1);
    let ghost result = nearest(m as int);
    proof {
        lemma_spacing(m as int);
        assert(m as int == below * unit + rest && below * unit >= 0) by (nonlinear_arith)
            requires
                unit >= 1,
                m >= 0,
                below == m / unit,
                rest == m % unit,
        ;
        assert((below + 1) * unit == below * unit + unit) by (nonlinear_arith);
    }
    if up {
        below * unit + unit
    } else {
        below * unit
    }
}

/// The largest power of two that is not above `n`.
fn power_not_above(n: u64) -> (power: u64)
    requires
        n > 0,
    ensures
        power == power_below(n as int),
        1 <= power <= n,
    decreases n,
{
    if n < 2 {
        1
    } else {
        2 * power_not_above(n / 2)
    }
}

proof fn lemma_power_below(n: int)
    requires
        n > 0,
    ensures
        1 <= power_below(n) <= n,
    decreases n,
{
    if n >= 2 {
        lemma_power_below(n / 2);
    }
}

/// Whether a file of this size can be divided into chunks of this size.
pub fn can_divide(total_size: i64, chunk_size: i64) -> (yes: bool)
    ensures
        yes == divisible(total_size as int, chunk_size as int),
{
    if chunk_size == 0 {
        return total_size == 0;
    }
    let size: u64 = round_to_nearest(magnitude(total_size));
    let chunk: u64 = round_to_nearest(magnitude(chunk_size));
    proof {
        lemma_nearest(absolute(total_size as int));
        lemma_nearest(absolute(chunk_size as int));
        lemma_ceiling(size as int, chunk as int);
    }
    (total_size >= 0) == (chunk_size > 0) || size < chunk
}

/// The number of parts of a file.
pub fn count_parts(total_size: i64, chunk_size: i64) -> (count: i32)
    requires
        divisible(total_size as int, chunk_size as int),
    ensures
        count == parts_needed(total_size as int, chunk_size as int),
{
    if chunk_size == 0 || (total_size >= 0) != (chunk_size > 0) {
        return 0;
    }
    let size: u64 = round_to_nearest(magnitude(total_size));
    let chunk: u64 = round_to_nearest(magnitude(chunk_size));
    proof {
        lemma_nearest(absolute(chunk_size as int));
    }
    let below: u64 = size / chunk;
    let rest: u64 = size % chunk;
    if below >= 2147483647 {
        return 2147483647;
    }
    if rest == 0 {
        return below as i32;
    }
    if below == 0 {
        return 1;
    }
    let power: u64 = power_not_above(below);
    assert(rest * PRECISION <= u64::MAX * PRECISION) by (nonlinear_arith)
        requires
            0 <= rest <= u64::MAX,
    ;
    assert(chunk * power <= u64::MAX * 2147483647) by (nonlinear_arith)
        requires
            0 <= chunk <= u64::MAX,
            0 <= power <= 2147483647,
    ;
    assert(rest * PRECISION >= 0 && chunk * power >= 0) by (nonlinear_arith)
        requires
            rest >= 0,
            chunk >= 0,
            power >= 0,
    ;
    if rest as u128 * PRECISION as u128 <= chunk as u128 * power as u128 {
        below as i32
    } else {
        below as i32 + 1
    }
}

/// The size of one part.
pub fn size_of_part(total_size: i64, chunk_size: i64, number: i32, count: i32) -> (size: i64)
    requires
        chunk_size != 0,
        count >= 0,
    ensures
        size == part_size(total_size as int, chunk_size as int, number as int, count as int),
{
    let left: u64 = magnitude(total_size) % magnitude(chunk_size);
    if number == count - 1 && left != 0 {
        if total_size >= 0 {
            left as i64
        } else {
            assert(left <= 9223372036854775807);
            -(left as i64)
        }
    } else {
        chunk_size
    }
}

// ---------------------------------------------------------------------------
// Laws
// ---------------------------------------------------------------------------
proof fn lemma_full_parts(total_size: int, chunk_size: int, count: int, n: int)
    requires
        0 <= n < count || n == 0,
    ensures
        sizes_sum(total_size, chunk_size, count, n) == n * chunk_size,
    decreases n,
{
    if n > 0 {
        lemma_full_parts(total_size, chunk_size, count, n - 1);
        assert(n * chunk_size == (n - 1) * chunk_size + chunk_size) by (nonlinear_arith);
    }
}

/// Files of up to 2^53 bytes are counted exactly: the number of parts is the size
/// over the chunk size, rounded up, as far as that is in range.
pub proof fn ordinary_files_are_counted_exactly(total_size: int, chunk_size: int)
    requires
        0 <= total_size <= PRECISION,
        0 < chunk_size <= i64::MAX,
    ensures
        parts_needed(total_size, chunk_size) == if ceiling(total_size, chunk_size) > i32::MAX {
            i32::MAX as int
        } else {
            ceiling(total_size, chunk_size)
        },
{
    lemma_nearest(total_size);
    lemma_nearest(chunk_size);
    lemma_ceiling(total_size, chunk_size);
    let chunk = nearest(chunk_size);
    let below = total_size / chunk;
    let rest = total_size % chunk;
    assert(total_size == below * chunk + rest && 0 <= rest < chunk && below >= 0)
        by (nonlinear_arith)
        requires
            chunk > 0,
            total_size >= 0,
            below == total_size / chunk,
            rest == total_size % chunk,
    ;
    assert(nearest(absolute(total_size)) == total_size);
    assert(nearest(absolute(chunk_size)) == chunk);
    assert(parts_needed(total_size, chunk_size) == if below >= i32::MAX {
        i32::MAX as int
    } else {
        quotient(total_size, chunk)
    });
    if chunk_size <= PRECISION {
        assert(chunk == chunk_size);
        if below > 0 && rest > 0 {
            lemma_power_below(below);
            let power = power_below(below);
            assert(chunk * power < rest * PRECISION) by (nonlinear_arith)
                requires
                    power <= below,
                    chunk > 0,
                    below * chunk + rest <= PRECISION,
                    rest >= 1,
            ;
        }
        assert(ceiling(total_size, chunk_size) == if rest == 0 {
            below
        } else {
            below + 1
        });
        assert(quotient(total_size, chunk) == ceiling(total_size, chunk_size));
    } else if total_size < chunk {
        assert(below == 0 && rest == total_size) by (nonlinear_arith)
            requires
                0 <= total_size < chunk,
                below == total_size / chunk,
                rest == total_size % chunk,
        ;
        assert(total_size / chunk_size == 0) by (nonlinear_arith)
            requires
                0 <= total_size < chunk_size,
        ;
        assert(total_size % chunk_size == total_size) by (nonlinear_arith)
            requires
                0 <= total_size < chunk_size,
        ;
    } else {
        assert(total_size == chunk);
        assert(below == 1 && rest == 0) by (nonlinear_arith)
            requires
                total_size == chunk,
                chunk > 0,
                below == total_size / chunk,
                rest == total_size % chunk,
        ;
        assert(total_size / chunk_size == 0 && total_size % chunk_size == total_size)
            by (nonlinear_arith)
            requires
                0 <= total_size < chunk_size,
        ;
    }
}

/// The parts make up the file, wherever their number is the size over the chunk
/// size rounded up: their sizes add up to its size, none is empty or larger than
/// a chunk, and the parts before any part fill whole chunks.
pub proof fn parts_make_up_the_file(total_size: int, chunk_size: int)
    requires
        total_size >= 0,
        chunk_size > 0,
        parts_needed(total_size, chunk_size) == ceiling(total_size, chunk_size),
    ensures
        ({
            let count = parts_needed(total_size, chunk_size);
            &&& count >= 0
            &&& sizes_sum(total_size, chunk_size, count, count) == total_size
            &&& forall|i: int|
                0 <= i < count ==> 0 < #[trigger] part_size(total_size, chunk_size, i, count)
                    <= chunk_size
            &&& forall|i: int|
                0 <= i < count ==> #[trigger] sizes_sum(total_size, chunk_size, count, i) == i
                    * chunk_size
        }),
{
    lemma_ceiling(total_size, chunk_size);
    let count = parts_needed(total_size, chunk_size);
    let whole = total_size / chunk_size;
    let left = total_size % chunk_size;
    assert(total_size == whole * chunk_size + left) by (nonlinear_arith)
        requires
            chunk_size > 0,
            whole == total_size / chunk_size,
            left == total_size % chunk_size,
    ;
    assert forall|i: int| 0 <= i < count implies #[trigger] sizes_sum(
        total_size,
        chunk_size,
        count,
        i,
    ) == i * chunk_size by {
        lemma_full_parts(total_size, chunk_size, count, i);
    }
    if count > 0 {
        lemma_full_parts(total_size, chunk_size, count, count - 1);
        if left == 0 {
            assert(count == whole);
            assert((count - 1) * chunk_size + chunk_size == whole * chunk_size) by (nonlinear_arith)
                requires
                    count == whole,
            ;
        } else {
            assert(count - 1 == whole);
        }
    } else {
        assert(whole == 0 && left == 0);
        assert(whole * chunk_size == 0) by (nonlinear_arith)
            requires
                whole == 0,
        ;
    }
}

} // verus!
