//! How a file is divided into parts.
use crate::handlers::plan::{
    can_divide, count_parts, lemma_ceiling, lemma_nearest, lemma_spacing, nearest,
    ordinary_files_are_counted_exactly, power_below, size_of_part, spacing, PRECISION,
};
use crate::laws::announcing::lemma_last_part;
use vstd::arithmetic::power2::{lemma2_to64, lemma_pow2_unfold, pow2};
use vstd::prelude::*;

verus! {

/// A file of any size from zero on can be divided into chunks of any size above
/// zero; into chunks of no size only an empty file can.
pub proof fn files_can_be_divided_into_chunks(total_size: i64, chunk_size: i64, yes: bool)
    requires
        call_ensures(can_divide, (total_size, chunk_size), yes),
    ensures
        total_size >= 0 && chunk_size > 0 ==> yes,
        chunk_size == 0 ==> yes == (total_size == 0),
{
    if total_size >= 0 && chunk_size > 0 {
        lemma_nearest(total_size as int);
        lemma_nearest(chunk_size as int);
        lemma_ceiling(nearest(total_size as int), nearest(chunk_size as int));
    }
}

/// A file of up to 2^53 bytes has just as many parts as it takes: with one chunk
/// fewer it would not fit. An empty file has none.
pub proof fn files_are_counted_in_chunks(total_size: i64, chunk_size: i64, count: i32)
    requires
        call_ensures(count_parts, (total_size, chunk_size), count),
        0 <= total_size <= 0x20_0000_0000_0000,
        0 < chunk_size,
        total_size <= 0x7fff_ffff * chunk_size,
    ensures
        (count - 1) * chunk_size < total_size <= count * chunk_size,
        total_size == 0 ==> count == 0,
{
    let a = total_size as int;
    let b = chunk_size as int;
    ordinary_files_are_counted_exactly(a, b);
    let q = (-a) / b;
    assert((-q - 1) * b < a <= -q * b && (a <= 0x7fff_ffff * b ==> -q <= 0x7fff_ffff)) by (
    nonlinear_arith)
        requires
            b > 0,
            q == (-a) / b,
    ;
    if a == 0 {
        assert(q == 0) by (nonlinear_arith)
            requires
                b > 0,
                q == (-a) / b,
                a == 0,
        ;
    }
}

/// Every part but the last has the size of a chunk, and the last has what is left.
pub proof fn the_last_part_has_what_is_left(
    total_size: i64,
    chunk_size: i64,
    number: i32,
    count: i32,
    size: i64,
)
    requires
        call_ensures(size_of_part, (total_size, chunk_size, number, count), size),
        0 < chunk_size,
        (count - 1) * chunk_size < total_size <= count * chunk_size,
        0 <= number < count,
    ensures
        number < count - 1 ==> size == chunk_size,
        number == count - 1 ==> size == total_size - (count - 1) * chunk_size,
        0 < size <= chunk_size,
{
    lemma_last_part(total_size as int, chunk_size as int, count as int);
}

/// Whatever the number of parts is, no part but the last has another size than a
/// chunk, and the last has what is left when whole chunks are taken away, or a chunk
/// where nothing is.
pub proof fn only_the_last_part_differs(
    total_size: i64,
    chunk_size: i64,
    number: i32,
    count: i32,
    size: i64,
)
    requires
        call_ensures(size_of_part, (total_size, chunk_size, number, count), size),
    ensures
        number != count - 1 ==> size == chunk_size,
        number == count - 1 && total_size >= 0 && chunk_size > 0 ==> 0 < size <= chunk_size
            && exists|whole: int| total_size == #[trigger] (whole * chunk_size) + size,
{
    if number == count - 1 && total_size >= 0 && chunk_size > 0 {
        let a = total_size as int;
        let b = chunk_size as int;
        let q = a / b;
        assert(a == q * b + a % b && 0 <= a % b < b) by (nonlinear_arith)
            requires
                b > 0,
                q == a / b,
        ;
        assert(q * b == (q - 1) * b + b) by (nonlinear_arith);
        if a % b == 0 {
            assert(a == ((q - 1) * chunk_size) + size);
        } else {
            assert(a == (q * chunk_size) + size);
        }
    }
}

// ---------------------------------------------------------------------------
// Very large files
// ---------------------------------------------------------------------------
/// `r` is `m` to 53 binary digits: `m` itself where it has no more, and otherwise
/// the nearest multiple of the power of two that leaves 53 digits, of two that are
/// equally near the even one.
pub open spec fn is_rounded(m: int, r: int) -> bool {
    if m < 0x20_0000_0000_0000 {
        r == m
    } else {
        exists|e: nat| is_rounded_to(m, r, #[trigger] pow2(e) as int)
    }
}

/// `r` is the multiple of `unit` that is nearest to `m`, where `m` lies from 2^52
/// up to 2^53 units.
pub open spec fn is_rounded_to(m: int, r: int, unit: int) -> bool {
    &&& unit > 0
    &&& 0x10_0000_0000_0000 * unit <= m < 0x20_0000_0000_0000 * unit
    &&& r % unit == 0
    &&& -unit <= 2 * (r - m) <= unit
    &&& 2 * (r - m) == unit || 2 * (r - m) == -unit ==> (r / unit) % 2 == 0
}

proof fn lemma_spacing_power(m: int) -> (e: nat)
    ensures
        spacing(m) == pow2(e),
    decreases m,
{
    lemma2_to64();
    if m < PRECISION {
        0
    } else {
        let e = lemma_spacing_power(m / 2);
        lemma_pow2_unfold(e + 1);
        e + 1
    }
}

proof fn lemma_rounded(m: int)
    requires
        0 <= m <= 0x8000_0000_0000_0000,
    ensures
        is_rounded(m, nearest(m)),
{
    lemma_nearest(m);
    if m >= PRECISION {
        let e = lemma_spacing_power(m);
        lemma_spacing(m);
        let unit = spacing(m);
        let below = m / unit;
        let rest = m % unit;
        let r = nearest(m);
        assert(m == below * unit + rest && 0 <= rest < unit) by (nonlinear_arith)
            requires
                unit >= 1,
                m >= 0,
                below == m / unit,
                rest == m % unit,
        ;
        assert(0x10_0000_0000_0000 * unit <= below * unit && below * unit + unit
            <= 0x20_0000_0000_0000 * unit) by (nonlinear_arith)
            requires
                0x10_0000_0000_0000 <= below < 0x20_0000_0000_0000,
                unit >= 1,
        ;
        assert((below + 1) * unit == below * unit + unit) by (nonlinear_arith);
        assert(r % unit == 0 && (r == below * unit ==> r / unit == below) && (r == (below + 1)
            * unit ==> r / unit == below + 1)) by {
            vstd::arithmetic::div_mod::lemma_div_by_multiple(below, unit);
            vstd::arithmetic::div_mod::lemma_div_by_multiple(below + 1, unit);
            vstd::arithmetic::div_mod::lemma_mod_multiples_basic(below, unit);
            vstd::arithmetic::div_mod::lemma_mod_multiples_basic(below + 1, unit);
        }
        assert(is_rounded_to(m, r, pow2(e) as int));
    }
}

/// The power of two that belongs to a number is the largest that is not above it;
/// its exponent is given back.
pub proof fn powers_below_are_the_largest(n: int) -> (e: nat)
    requires
        n > 0,
    ensures
        power_below(n) == pow2(e),
        power_below(n) <= n < 2 * power_below(n),
    decreases n,
{
    lemma2_to64();
    if n < 2 {
        0
    } else {
        let e = powers_below_are_the_largest(n / 2);
        lemma_pow2_unfold(e + 1);
        e + 1
    }
}

/// The number of parts of any file: its size and the chunk size are rounded to 53
/// binary digits, and so is the quotient of the two before it is rounded up. So the
/// number is the quotient rounded up, unless the quotient lies no further above an
/// integer than half of a 53rd digit, when it is that integer. More than 2^31 - 1
/// it never is.
pub proof fn files_are_counted_in_double_precision(
    total_size: i64,
    chunk_size: i64,
    count: i32,
)
    requires
        call_ensures(count_parts, (total_size, chunk_size), count),
        0 <= total_size,
        0 < chunk_size,
    ensures
        exists|a: int, b: int|
            #![trigger is_rounded(total_size as int, a), is_rounded(chunk_size as int, b)]
            is_rounded(total_size as int, a) && is_rounded(chunk_size as int, b) && b > 0 && {
                let n = count as int;
                ||| n == 0x7fff_ffff && a >= n * b
                ||| a == n * b
                ||| n > 0 && 0 < (a - n * b) * 0x20_0000_0000_0000 <= b * power_below(n)
                ||| n == 1 && 0 < a < b
                ||| n > 1 && (n - 1) * b < a < n * b && (a - (n - 1) * b) * 0x20_0000_0000_0000 > b
                    * power_below(n - 1)
            },
{
    let a = nearest(total_size as int);
    let b = nearest(chunk_size as int);
    lemma_nearest(total_size as int);
    lemma_nearest(chunk_size as int);
    lemma_rounded(total_size as int);
    lemma_rounded(chunk_size as int);
    let n = count as int;
    let below = a / b;
    let rest = a % b;
    assert(a == below * b + rest && 0 <= rest < b && below >= 0) by (nonlinear_arith)
        requires
            b > 0,
            a >= 0,
            below == a / b,
            rest == a % b,
    ;
    assert((below + 1) * b == below * b + b) by (nonlinear_arith);
    if below >= i32::MAX {
        assert(a >= n * b) by (nonlinear_arith)
            requires
                a == below * b + rest,
                rest >= 0,
                b > 0,
                below >= n,
        ;
    }
    assert(is_rounded(total_size as int, a) && is_rounded(chunk_size as int, b));
}

} // verus!
