//! Fixed-point scalars: a signed 64-bit count of units of 10^-12.
//!
//! Sums, differences and products saturate at the ends of the 64-bit range
//! instead of wrapping, and a product is rounded toward zero.
//!
//! The exponential `e^-t` is built from one number, `e^-(1/4096)`: below
//! 1/4096 it falls in a straight line from 1.0 to that number, and every step
//! of 1/4096, of 1/256, of 1/16 and of 1 multiplies by the power of it that
//! belongs to the step. Every operation rounds down, so a larger `t` never
//! gives a larger result.

use vstd::prelude::*;

verus! {

/// The scalar 1.0.
pub const ONE: i64 = 1_000_000_000_000;

/// The scalar 0.5.
pub const HALF: i64 = 500_000_000_000;

/// The scalar 0.1.
pub const TENTH: i64 = 100_000_000_000;

/// The width of the finest cell of the exponential: 1/4096.
pub const CELL: i64 = 244_140_625;

/// `e^-(1/4096)`, rounded down.
pub const CELL_END: i64 = 999_755_889_174;

/// `e^-(1/256)`: the sixteenth power of [`CELL_END`].
pub const RATIO_256TH: i64 = 996_101_369_448;

/// `e^-(1/16)`: the sixteenth power of [`RATIO_256TH`].
pub const RATIO_16TH: i64 = 939_413_062_472;

/// `e^-1`: the sixteenth power of [`RATIO_16TH`].
pub const RATIO_WHOLE: i64 = 367_879_439_027;

/// From this many whole units on, `e^-t` is zero.
pub const EXP_CUTOFF: u64 = 28;

/// The nearest representable scalar to an unbounded integer count of units.
pub open spec fn clamp(v: int) -> i64 {
    if v < i64::MIN {
        i64::MIN
    } else if v > i64::MAX {
        i64::MAX
    } else {
        v as i64
    }
}

/// Saturating sum.
pub open spec fn sat_add(a: i64, b: i64) -> i64 {
    clamp(a + b)
}

/// Saturating difference.
pub open spec fn sat_sub(a: i64, b: i64) -> i64 {
    clamp(a - b)
}

/// Quotient rounded toward zero, for a positive divisor.
pub open spec fn trunc_div(n: int, d: int) -> int {
    if n >= 0 {
        n / d
    } else {
        -((-n) / d)
    }
}

/// Saturating fixed-point product, rounded toward zero.
pub open spec fn sat_mul(a: i64, b: i64) -> i64 {
    clamp(trunc_div(a * b, ONE as int))
}

/// `max(0, x)`.
pub open spec fn rectified(x: i64) -> i64 {
    if x < 0 {
        0
    } else {
        x
    }
}

/// `c` multiplied by itself `j` times, each product rounded down: `c^j` for a
/// factor `c` between 0.0 and 1.0.
pub open spec fn power(c: int, j: int) -> int
    decreases j,
{
    if j <= 0 {
        ONE as int
    } else {
        power(c, j - 1) * c / (ONE as int)
    }
}

/// The factor that one step at `level` multiplies by: `e^-(1/4096)` at level
/// 0, and at every further level the sixteenth power of the level below.
pub open spec fn step_ratio(level: int) -> int
    decreases level,
{
    if level <= 0 {
        CELL_END as int
    } else {
        power(step_ratio(level - 1), 16)
    }
}

/// The width of one step at `level`: 1/4096 at level 0, sixteen times the
/// level below at every further level, and so 1.0 at level 3.
pub open spec fn step_width(level: int) -> int
    decreases level,
{
    if level <= 0 {
        CELL as int
    } else {
        16 * step_width(level - 1)
    }
}

/// `e^-u` for `u` below 1/4096: the straight line from 1.0 at zero to
/// `e^-(1/4096)` at 1/4096, rounded down.
pub open spec fn exp_cell(u: int) -> int {
    ONE - (ONE - CELL_END) * u / (CELL as int)
}

/// `e^-s` for `s` below one step of `level`: the factor of the level below,
/// once for every whole step of that level in `s`, times `e^-` of what is left.
pub open spec fn exp_level(level: int, s: int) -> int
    decreases level,
{
    if level <= 0 {
        exp_cell(s)
    } else {
        power(step_ratio(level - 1), s / step_width(level - 1)) * exp_level(
            level - 1,
            s % step_width(level - 1),
        ) / (ONE as int)
    }
}

/// `e^-t` for a non-negative `t`: `e^-1` once for every whole unit of `t`,
/// times `e^-` of the fraction; zero from [`EXP_CUTOFF`] units on.
pub open spec fn exp_neg(t: int) -> int {
    if t / (ONE as int) >= EXP_CUTOFF {
        0
    } else {
        power(step_ratio(3), t / (ONE as int)) * exp_level(3, t % (ONE as int)) / (ONE as int)
    }
}

/// A product of two factors, rounded down, does not grow when a factor shrinks,
/// and does not exceed either factor when the other is at most 1.0.
pub proof fn lemma_product_ordered(a1: int, b1: int, a2: int, b2: int)
    requires
        0 <= a2 <= a1 <= ONE,
        0 <= b2 <= b1 <= ONE,
    ensures
        0 <= a2 * b2 / (ONE as int) <= a1 * b1 / (ONE as int) <= a1,
        a1 * b1 / (ONE as int) <= b1,
        a1 == ONE ==> a1 * b1 / (ONE as int) == b1,
{
    let d = ONE as int;
    assert(0 <= a2 * b2 <= a1 * b1) by (nonlinear_arith)
        requires
            0 <= a2 <= a1,
            0 <= b2 <= b1,
    ;
    assert(a1 * b1 <= a1 * d && a1 * b1 <= d * b1) by (nonlinear_arith)
        requires
            0 <= a1 <= d,
            0 <= b1 <= d,
    ;
    let x = a2 * b2;
    let y = a1 * b1;
    assert(0 <= x / d <= y / d) by (nonlinear_arith)
        requires
            0 <= x <= y,
            d > 0,
    ;
    assert(y / d <= a1) by (nonlinear_arith)
        requires
            0 <= y <= a1 * d,
            d > 0,
    ;
    assert(y / d <= b1) by (nonlinear_arith)
        requires
            0 <= y <= d * b1,
            d > 0,
    ;
    if a1 == ONE {
        assert(y / d == b1) by (nonlinear_arith)
            requires
                y == d * b1,
                d > 0,
        ;
    }
}

/// Powers of a factor between 0.0 and 1.0 lie between 0.0 and 1.0 and do not
/// grow with the exponent.
pub proof fn lemma_power_ordered(c: int, i: int, j: int)
    requires
        0 <= c <= ONE,
        0 <= i <= j,
    ensures
        0 <= power(c, j) <= power(c, i) <= ONE,
    decreases j,
{
    if j > 0 {
        if i == j {
            lemma_power_ordered(c, j - 1, j - 1);
        } else {
            lemma_power_ordered(c, i, j - 1);
        }
        lemma_product_ordered(power(c, j - 1), c, power(c, j - 1), c);
    }
}

/// The factor of every level lies between 0.0 and 1.0, and its width is positive.
pub proof fn lemma_step(level: int)
    ensures
        0 <= step_ratio(level) <= ONE,
        0 < step_width(level),
    decreases level,
{
    if level > 0 {
        lemma_step(level - 1);
        lemma_power_ordered(step_ratio(level - 1), 16, 16);
    }
}

/// Below one step of its level, `e^-s` starts at 1.0, never rises, and stays
/// at or above the factor of the level.
pub proof fn lemma_exp_level(level: int, s1: int, s2: int)
    requires
        0 <= level,
        0 <= s1 <= s2 < step_width(level),
    ensures
        step_ratio(level) <= exp_level(level, s2) <= exp_level(level, s1) <= ONE,
        s1 == 0 ==> exp_level(level, s1) == ONE,
    decreases level,
{
    if level == 0 {
        let slope = ONE - CELL_END;
        let w = CELL as int;
        assert(0 <= slope * s1 <= slope * s2 < slope * w) by (nonlinear_arith)
            requires
                0 <= s1 <= s2 < w,
                slope > 0,
        ;
        let x = slope * s1;
        let y = slope * s2;
        assert(0 <= x / w <= y / w < slope) by (nonlinear_arith)
            requires
                0 <= x <= y < slope * w,
                w > 0,
        ;
        if s1 == 0 {
            assert(slope * s1 == 0) by (nonlinear_arith)
                requires
                    s1 == 0,
            ;
        }
    } else {
        let w = step_width(level - 1);
        let c = step_ratio(level - 1);
        lemma_step(level - 1);
        let i1 = s1 / w;
        let i2 = s2 / w;
        let r1 = s1 % w;
        let r2 = s2 % w;
        assert(0 <= i1 <= i2 < 16 && 0 <= r1 < w && 0 <= r2 < w && (i1 == i2 ==> r1 <= r2)) by (nonlinear_arith)
            requires
                0 <= s1 <= s2 < 16 * w,
                w > 0,
                i1 == s1 / w,
                i2 == s2 / w,
                r1 == s1 % w,
                r2 == s2 % w,
        ;
        lemma_exp_level(level - 1, r1, r1);
        lemma_exp_level(level - 1, r2, r2);
        let g1 = exp_level(level - 1, r1);
        let g2 = exp_level(level - 1, r2);
        lemma_power_ordered(c, i1, i2);
        lemma_power_ordered(c, i2 + 1, 16);
        lemma_power_ordered(c, 0, i1);
        // the value at s2 is at or above the whole step that follows it
        lemma_product_ordered(power(c, i2), g2, power(c, i2), c);
        if i1 == i2 {
            lemma_exp_level(level - 1, r1, r2);
            lemma_product_ordered(power(c, i1), g1, power(c, i2), g2);
        } else {
            lemma_power_ordered(c, i1 + 1, i2);
            lemma_product_ordered(power(c, i1), g1, power(c, i1), c);
            lemma_product_ordered(power(c, i2), ONE as int, power(c, i2), g2);
        }
        lemma_product_ordered(power(c, i1), g1, power(c, i1), g1);
        if s1 == 0 {
            assert(i1 == 0 && r1 == 0) by (nonlinear_arith)
                requires
                    s1 == 0,
                    w > 0,
                    i1 == s1 / w,
                    r1 == s1 % w,
            ;
            lemma_exp_level(level - 1, 0, 0);
            lemma_product_ordered(ONE as int, g1, ONE as int, g1);
        }
    }
}

/// The widths of the four levels, as numbers: one step of level 3 is one whole unit.
pub proof fn lemma_step_widths()
    ensures
        step_width(0) == CELL,
        step_width(1) == 3_906_250_000,
        step_width(2) == 62_500_000_000,
        step_width(3) == ONE,
{
    reveal_with_fuel(step_width, 4);
}

/// The exponential never rises: a larger `t` never gives a larger `e^-t`.
pub proof fn lemma_exp_neg_monotone(t1: int, t2: int)
    requires
        0 <= t1 <= t2,
    ensures
        0 <= exp_neg(t2) <= exp_neg(t1) <= ONE,
{
    let d = ONE as int;
    let c = step_ratio(3);
    lemma_step(3);
    lemma_step_widths();
    let q1 = t1 / d;
    let q2 = t2 / d;
    let r1 = t1 % d;
    let r2 = t2 % d;
    assert(0 <= q1 <= q2 && 0 <= r1 < d && 0 <= r2 < d && (q1 == q2 ==> r1 <= r2)) by (nonlinear_arith)
        requires
            0 <= t1 <= t2,
            d > 0,
            q1 == t1 / d,
            q2 == t2 / d,
            r1 == t1 % d,
            r2 == t2 % d,
    ;
    lemma_exp_level(3, r1, r1);
    lemma_exp_level(3, r2, r2);
    let g1 = exp_level(3, r1);
    let g2 = exp_level(3, r2);
    lemma_power_ordered(c, q1, q2);
    lemma_power_ordered(c, 0, q1);
    lemma_product_ordered(power(c, q1), g1, power(c, q1), g1);
    lemma_product_ordered(power(c, q2), g2, power(c, q2), g2);
    if q2 < EXP_CUTOFF {
        if q1 == q2 {
            lemma_exp_level(3, r1, r2);
            lemma_product_ordered(power(c, q1), g1, power(c, q2), g2);
        } else {
            lemma_power_ordered(c, q1 + 1, q2);
            lemma_product_ordered(power(c, q1), g1, power(c, q1), c);
            lemma_product_ordered(power(c, q2), ONE as int, power(c, q2), g2);
        }
    }
}

/// `e^-t` lies between 0.0 and 1.0, and `e^0` is exactly 1.0.
pub proof fn lemma_exp_neg_bounds(t: int)
    requires
        0 <= t,
    ensures
        0 <= exp_neg(t) <= ONE,
        t == 0 ==> exp_neg(t) == ONE,
{
    lemma_exp_neg_monotone(t, t);
    if t == 0 {
        lemma_step_widths();
        lemma_exp_level(3, 0, 0);
        lemma_product_ordered(ONE as int, ONE as int, ONE as int, ONE as int);
    }
}

/// The factors of the four levels, as numbers.
pub proof fn lemma_step_ratios()
    ensures
        step_ratio(0) == CELL_END,
        step_ratio(1) == RATIO_256TH,
        step_ratio(2) == RATIO_16TH,
        step_ratio(3) == RATIO_WHOLE,
{
    reveal_with_fuel(step_ratio, 4);
    lemma_sixteenth_power_of_cell_end();
    lemma_sixteenth_power_of_256th();
    lemma_sixteenth_power_of_16th();
}

/// The sixteenth power of `e^-(1/4096)`, step by step.
proof fn lemma_sixteenth_power_of_cell_end()
    ensures
        power(CELL_END as int, 16) == RATIO_256TH,
{
    assert(power(999755889174, 0) == ONE);
    assert(power(999755889174, 1) == 999755889174);
    assert(power(999755889174, 2) == 999511837938);
    assert(power(999755889174, 3) == 999267846277);
    assert(power(999755889174, 4) == 999023914177);
    assert(power(999755889174, 5) == 998780041624);
    assert(power(999755889174, 6) == 998536228603);
    assert(power(999755889174, 7) == 998292475099);
    assert(power(999755889174, 8) == 998048781098);
    assert(power(999755889174, 9) == 997805146585);
    assert(power(999755889174, 10) == 997561571546);
    assert(power(999755889174, 11) == 997318055966);
    assert(power(999755889174, 12) == 997074599831);
    assert(power(999755889174, 13) == 996831203126);
    assert(power(999755889174, 14) == 996587865837);
    assert(power(999755889174, 15) == 996344587949);
    assert(power(999755889174, 16) == 996101369448);
}

/// The sixteenth power of `e^-(1/256)`, step by step.
proof fn lemma_sixteenth_power_of_256th()
    ensures
        power(RATIO_256TH as int, 16) == RATIO_16TH,
{
    assert(power(996101369448, 0) == ONE);
    assert(power(996101369448, 1) == 996101369448);
    assert(power(996101369448, 2) == 992217938216);
    assert(power(996101369448, 3) == 988349647047);
    assert(power(996101369448, 4) == 984496436916);
    assert(power(996101369448, 5) == 980658249028);
    assert(power(996101369448, 6) == 976835024817);
    assert(power(996101369448, 7) == 973026705944);
    assert(power(996101369448, 8) == 969233234300);
    assert(power(996101369448, 9) == 965454552000);
    assert(power(996101369448, 10) == 961690601387);
    assert(power(996101369448, 11) == 957941325026);
    assert(power(996101369448, 12) == 954206665709);
    assert(power(996101369448, 13) == 950486566449);
    assert(power(996101369448, 14) == 946780970481);
    assert(power(996101369448, 15) == 943089821263);
    assert(power(996101369448, 16) == 939413062472);
}

/// The sixteenth power of `e^-(1/16)`, step by step.
proof fn lemma_sixteenth_power_of_16th()
    ensures
        power(RATIO_16TH as int, 16) == RATIO_WHOLE,
{
    assert(power(939413062472, 0) == ONE);
    assert(power(939413062472, 1) == 939413062472);
    assert(power(939413062472, 2) == 882496901943);
    assert(power(939413062472, 3) == 829029117276);
    assert(power(939413062472, 4) == 778800781938);
    assert(power(939413062472, 5) == 731615627615);
    assert(power(939413062472, 6) == 687289277290);
    assert(power(939413062472, 7) == 645648524783);
    assert(power(939413062472, 8) == 606530657946);
    assert(power(939413062472, 9) == 569782822864);
    assert(power(939413062472, 10) == 535261426570);
    assert(power(939413062472, 11) == 502831575957);
    assert(power(939413062472, 12) == 472366550677);
    assert(power(939413062472, 13) == 443747307980);
    assert(power(939413062472, 14) == 416862017553);
    assert(power(939413062472, 15) == 391605624537);
    assert(power(939413062472, 16) == 367879439027);
}

/// Saturating sum of two scalars.
pub fn add_fixed(a: i64, b: i64) -> (r: i64)
    ensures
        r == sat_add(a, b),
{
    let wide: i128 = a as i128 + b as i128;
    narrow(wide)
}

/// Saturating difference of two scalars.
pub fn sub_fixed(a: i64, b: i64) -> (r: i64)
    ensures
        r == sat_sub(a, b),
{
    let wide: i128 = a as i128 - b as i128;
    narrow(wide)
}

/// Saturating fixed-point product of two scalars, rounded toward zero.
pub fn mul_fixed(a: i64, b: i64) -> (r: i64)
    ensures
        r == sat_mul(a, b),
{
    let x: i128 = a as i128;
    let y: i128 = b as i128;
    assert(-0x4000_0000_0000_0000_0000_0000_0000_0000 <= x * y
        <= 0x4000_0000_0000_0000_0000_0000_0000_0000) by (nonlinear_arith)
        requires
            -0x8000_0000_0000_0000 <= x <= 0x8000_0000_0000_0000,
            -0x8000_0000_0000_0000 <= y <= 0x8000_0000_0000_0000,
    ;
    let product: i128 = x * y;
    let quotient: i128 = if product >= 0 {
        product / 1_000_000_000_000
    } else {
        -((-product) / 1_000_000_000_000)
    };
    narrow(quotient)
}

/// `max(0, x)`.
pub fn rectify(x: i64) -> (r: i64)
    ensures
        r == rectified(x),
{
    if x < 0 {
        0
    } else {
        x
    }
}

/// The distance `hi - lo` between two ordered scalars, which always fits 64 unsigned bits.
pub fn distance(hi: i64, lo: i64) -> (r: u64)
    requires
        lo <= hi,
    ensures
        r == hi - lo,
{
    let wide: i128 = hi as i128 - lo as i128;
    wide as u64
}

/// `c` multiplied by itself `j` times, each product rounded down.
pub fn power_fixed(c: u64, j: u64) -> (r: u64)
    requires
        c <= ONE,
    ensures
        r == power(c as int, j as int),
        r <= ONE,
{
    let mut value: u64 = 1_000_000_000_000;
    let mut i: u64 = 0;
    while i < j
        invariant
            i <= j,
            c <= ONE,
            value <= ONE,
            value == power(c as int, i as int),
        decreases j - i,
    {
        value = scale(value, c);
        i += 1;
    }
    value
}

/// The product of two factors between 0.0 and 1.0, rounded down.
fn scale(a: u64, b: u64) -> (r: u64)
    requires
        a <= ONE,
        b <= ONE,
    ensures
        r == a * b / (ONE as int),
        r <= ONE,
{
    proof {
        lemma_product_ordered(a as int, b as int, a as int, b as int);
        assert(a * b <= 1_000_000_000_000 * 1_000_000_000_000) by (nonlinear_arith)
            requires
                0 <= a <= 1_000_000_000_000,
                0 <= b <= 1_000_000_000_000,
        ;
    }
    ((a as u128 * b as u128) / 1_000_000_000_000) as u64
}

/// `e^-t` for a non-negative distance `t`.
pub fn exp_neg_fixed(t: u64) -> (r: i64)
    ensures
        r == exp_neg(t as int),
        0 <= r <= ONE,
{
    proof {
        lemma_exp_neg_bounds(t as int);
        lemma_step_widths();
        lemma_step_ratios();
        reveal_with_fuel(exp_level, 4);
    }
    let whole: u64 = t / 1_000_000_000_000;
    if whole >= EXP_CUTOFF {
        return 0;
    }
    let below_whole: u64 = t % 1_000_000_000_000;
    let sixteenths: u64 = below_whole / 62_500_000_000;
    let below_16th: u64 = below_whole % 62_500_000_000;
    let two_hundred_fifty_sixths: u64 = below_16th / 3_906_250_000;
    let below_256th: u64 = below_16th % 3_906_250_000;
    let cells: u64 = below_256th / 244_140_625;
    let within_cell: u64 = below_256th % 244_140_625;
    proof {
        lemma_exp_level(0, within_cell as int, within_cell as int);
        lemma_exp_level(1, below_256th as int, below_256th as int);
        lemma_exp_level(2, below_16th as int, below_16th as int);
        lemma_exp_level(3, below_whole as int, below_whole as int);
    }
    let fall: u64 = ((1_000_000_000_000 - CELL_END as u64) * within_cell) / 244_140_625;
    let level0: u64 = 1_000_000_000_000 - fall;
    let level1: u64 = scale(power_fixed(CELL_END as u64, cells), level0);
    let level2: u64 = scale(power_fixed(RATIO_256TH as u64, two_hundred_fifty_sixths), level1);
    let level3: u64 = scale(power_fixed(RATIO_16TH as u64, sixteenths), level2);
    let result: u64 = scale(power_fixed(RATIO_WHOLE as u64, whole), level3);
    result as i64
}

/// Narrows a wide intermediate to the nearest scalar.
fn narrow(v: i128) -> (r: i64)
    ensures
        r == clamp(v as int),
{
    if v < -0x8000_0000_0000_0000 {
        i64::MIN
    } else if v > 0x7fff_ffff_ffff_ffff {
        i64::MAX
    } else {
        v as i64
    }
}

} // verus!
