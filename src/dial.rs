use vstd::prelude::*;

verus! {

/// The quotient of `a` by `b`, rounded toward zero as a cast of the exact ratio
/// to an integer rounds it.
pub open spec fn trunc_div(a: int, b: int) -> int {
    let q: int = (vstd::math::abs(a) / vstd::math::abs(b)) as int;
    if (a < 0) != (b < 0) {
        -q
    } else {
        q
    }
}

/// `x` held within the range of `i32`, as a cast from a float saturates.
pub open spec fn saturate_i32(x: int) -> int {
    if x < i32::MIN {
        i32::MIN as int
    } else if x > i32::MAX {
        i32::MAX as int
    } else {
        x
    }
}

/// The angle, in whole degrees counter-clockwise from east, of the value `n / 6`
/// on a dial that runs from 225 degrees at `min` down to -45 degrees at `max`:
/// `225 - 270 * (n / 6 - min) / (max - min)`, rounded toward zero.
/// An empty range sends a value above it to the lowest angle, one below it to
/// the highest, and the bound itself to 0, as the float ratio would.
pub open spec fn angle_of_sixths(n: int, min: int, max: int) -> int {
    let d = max - min;
    let off = n - 6 * min;
    if d == 0 {
        if off > 0 {
            i32::MIN as int
        } else if off < 0 {
            i32::MAX as int
        } else {
            0
        }
    } else {
        saturate_i32(trunc_div(225 * d - 45 * off, d))
    }
}

/// The angle of the value `v`.
pub open spec fn angle_of(v: int, min: int, max: int) -> int {
    angle_of_sixths(6 * v, min, max)
}

fn trunc_div_exec(a: i128, b: i128) -> (q: i128)
    requires
        b != 0,
        a > i128::MIN,
        b > i128::MIN,
    ensures
        q == trunc_div(a as int, b as int),
{
    let ua: u128 = if a < 0 {
        (-a) as u128
    } else {
        a as u128
    };
    let ub: u128 = if b < 0 {
        (-b) as u128
    } else {
        b as u128
    };
    let uq: u128 = ua / ub;
    assert(uq <= ua) by (nonlinear_arith)
        requires
            ub >= 1,
            uq == ua / ub,
    ;
    if (a < 0) != (b < 0) {
        -(uq as i128)
    } else {
        uq as i128
    }
}

/// The angle of the value `n / 6` between `min` and `max` (see `angle_of_sixths`).
pub fn sixths_to_angle(n: i128, min: i64, max: i64) -> (a: i32)
    requires
        -0x10_0000_0000_0000_0000 <= n <= 0x10_0000_0000_0000_0000,
    ensures
        a == angle_of_sixths(n as int, min as int, max as int),
{
    let d: i128 = max as i128 - min as i128;
    let off: i128 = n - 6 * (min as i128);
    if d == 0 {
        if off > 0 {
            i32::MIN
        } else if off < 0 {
            i32::MAX
        } else {
            0
        }
    } else {
        assert(-0x1000_0000_0000_0000_0000 <= 225 * d <= 0x1000_0000_0000_0000_0000) by (nonlinear_arith)
            requires
                -0x1_0000_0000_0000_0000 <= d <= 0x1_0000_0000_0000_0000,
        ;
        let q: i128 = trunc_div_exec(225 * d - 45 * off, d);
        if q < i32::MIN as i128 {
            i32::MIN
        } else if q > i32::MAX as i128 {
            i32::MAX
        } else {
            q as i32
        }
    }
}

/// How many of the evenly spaced steps `min + k * (max - min) / 6`, counting from
/// `k == 0`, stand one whole unit or more below `max` when `max - min == d > 0`:
/// those are labelled as they are, the next one is replaced by `max` itself.
pub open spec fn clear_steps(d: int) -> int {
    if d >= 6 {
        6
    } else if d >= 3 {
        5
    } else if d == 2 {
        4
    } else {
        1
    }
}

/// The tick positions of a dial from `min` to `max`, in sixths of a unit: the
/// evenly spaced steps that stand clear of `max`, then `max` exactly. An empty
/// range has one tick, a reversed one its two bounds.
pub open spec fn tick_sixths(min: int, max: int) -> Seq<int> {
    let d = max - min;
    if d == 0 {
        seq![6 * min]
    } else if d < 0 {
        seq![6 * min, 6 * max]
    } else {
        Seq::new(
            (clear_steps(d) + 1) as nat,
            |i: int|
                if i < clear_steps(d) {
                    6 * min + i * d
                } else {
                    6 * max
                },
        )
    }
}

/// Step `k` of a dial stands clear of its maximum exactly when `k` counts among
/// its clear steps.
pub proof fn lemma_clear_steps(d: int, k: int)
    requires
        d > 0,
        0 <= k <= 6,
    ensures
        (k < clear_steps(d)) <==> ((6 - k) * d >= 6),
{
    if d >= 6 {
        assert((6 - k) * d >= 6 <==> k < 6) by (nonlinear_arith)
            requires
                d >= 6,
                0 <= k <= 6,
        ;
    } else {
        assert(d == 1 || d == 2 || d == 3 || d == 4 || d == 5);
        assert(k == 0 || k == 1 || k == 2 || k == 3 || k == 4 || k == 5 || k == 6);
    }
}

/// A labelled tick around the dial.
#[derive(Clone, Copy, Debug, PartialEq, Eq, Structural)]
pub struct Tick {
    /// Where the tick stands, in sixths of a unit.
    pub sixths: i128,
    /// The tick's value rounded toward zero, as it is written.
    pub label: i64,
    /// The angle at which it is written.
    pub angle: i32,
}

/// The tick that stands at `n / 6` on a dial from `min` to `max`.
pub open spec fn tick_at(n: int, min: int, max: int) -> Tick {
    Tick {
        sixths: n as i128,
        label: trunc_div(n, 6) as i64,
        angle: angle_of_sixths(n, min, max) as i32,
    }
}

/// Every tick stands between the two bounds of its dial.
pub proof fn lemma_tick_bounds(min: i64, max: i64, i: int)
    requires
        0 <= i < tick_sixths(min as int, max as int).len(),
    ensures
        ({
            let n = tick_sixths(min as int, max as int)[i];
            (6 * min <= n <= 6 * max) || (6 * max <= n <= 6 * min)
        }),
{
    let d = max - min;
    if d > 0 && i < clear_steps(d) {
        lemma_clear_steps(d, i);
        assert(0 <= i * d) by (nonlinear_arith)
            requires
                d > 0,
                i >= 0,
        ;
        assert((6 - i) * d == 6 * d - i * d) by (nonlinear_arith);
    }
}

/// Every tick's label is a whole value between the dial's bounds.
pub proof fn lemma_tick_label_bounds(min: i64, max: i64, i: int)
    requires
        0 <= i < tick_sixths(min as int, max as int).len(),
    ensures
        ({
            let l = trunc_div(tick_sixths(min as int, max as int)[i], 6);
            (min <= l <= max) || (max <= l <= min)
        }),
{
    let n = tick_sixths(min as int, max as int)[i];
    lemma_tick_bounds(min, max, i);
    let lo = trunc_div(6 * min, 6);
    let hi = trunc_div(6 * max, 6);
    assert(lo == min && hi == max) by {
        lemma_trunc_div_exact(min as int);
        lemma_trunc_div_exact(max as int);
    }
    if 6 * min <= n <= 6 * max {
        lemma_trunc_div_ordered(6 * min, n, 6);
        lemma_trunc_div_ordered(n, 6 * max, 6);
    } else {
        lemma_trunc_div_ordered(6 * max, n, 6);
        lemma_trunc_div_ordered(n, 6 * min, 6);
    }
}

proof fn lemma_trunc_div_exact(m: int)
    ensures
        trunc_div(6 * m, 6) == m,
{
    lemma_trunc_div_bounds(6 * m, 6);
    let t = trunc_div(6 * m, 6);
    assert(t == m) by (nonlinear_arith)
        requires
            6 * m >= 0 ==> t * 6 <= 6 * m < t * 6 + 6,
            6 * m < 0 ==> t * 6 - 6 < 6 * m <= t * 6,
    ;
}

/// The labelled ticks of a dial from `min` to `max`: one at each of
/// `tick_sixths(min, max)`.
pub fn ticks(min: i64, max: i64) -> (r: Vec<Tick>)
    ensures
        r@.len() == tick_sixths(min as int, max as int).len(),
        forall|i: int|
            0 <= i < r@.len() ==> r@[i] == tick_at(
                #[trigger] tick_sixths(min as int, max as int)[i],
                min as int,
                max as int,
            ),
{
    let ghost s = tick_sixths(min as int, max as int);
    let d: i128 = max as i128 - min as i128;
    let top: i128 = 6 * (max as i128);
    let mut n: i128 = 6 * (min as i128);
    let mut out: Vec<Tick> = Vec::new();
    proof {
        if d > 0 {
            lemma_clear_steps(d as int, 0);
        }
    }
    loop
        invariant
            s == tick_sixths(min as int, max as int),
            d == max - min,
            top == 6 * max,
            out@.len() < s.len(),
            n == s[out@.len() as int],
            forall|i: int|
                0 <= i < out@.len() ==> out@[i] == tick_at(#[trigger] s[i], min as int, max as int),
        decreases s.len() - out@.len(),
    {
        let ghost k = out@.len() as int;
        proof {
            lemma_tick_bounds(min, max, k);
        }
        let label: i128 = trunc_div_exec(n, 6);
        let angle: i32 = sixths_to_angle(n, min, max);
        out.push(Tick { sixths: n, label: label as i64, angle });
        if n == top {
            proof {
                if d > 0 && k < clear_steps(d as int) {
                    lemma_clear_steps(d as int, k);
                    assert((6 - k) * d == 6 * d - k * d) by (nonlinear_arith);
                }
            }
            return out;
        }
        n = n + d;
        if top - n < 6 {
            n = top;
        }
        proof {
            if d > 0 {
                lemma_clear_steps(d as int, k);
                if k + 1 <= 6 {
                    lemma_clear_steps(d as int, k + 1);
                }
                assert((6 - k) * d == 6 * d - k * d) by (nonlinear_arith);
                assert((6 - (k + 1)) * d == 6 * d - (k + 1) * d) by (nonlinear_arith);
                assert((k + 1) * d == k * d + d) by (nonlinear_arith);
            }
        }
    }
}

/// The angle of the value `v` on a dial from `min` to `max`.
pub fn angle_for(v: i64, min: i64, max: i64) -> (a: i32)
    ensures
        a == angle_of(v as int, min as int, max as int),
{
    sixths_to_angle(6 * (v as i128), min, max)
}

} // verus!

verus! {

proof fn lemma_trunc_div_bounds(x: int, d: int)
    requires
        d > 0,
    ensures
        x >= 0 ==> trunc_div(x, d) * d <= x < trunc_div(x, d) * d + d,
        x < 0 ==> trunc_div(x, d) * d - d < x <= trunc_div(x, d) * d,
{
    let a = vstd::math::abs(x) as int;
    vstd::arithmetic::div_mod::lemma_fundamental_div_mod(a, d);
    vstd::arithmetic::div_mod::lemma_mod_bound(a, d);
    let q = a / d;
    assert(a == d * q + a % d);
    if x >= 0 {
        assert(trunc_div(x, d) == q);
        assert(q * d == d * q) by (nonlinear_arith);
    } else {
        assert(trunc_div(x, d) == -q);
        assert((-q) * d == -(d * q)) by (nonlinear_arith);
    }
}

proof fn lemma_trunc_div_ordered(x: int, y: int, d: int)
    requires
        d > 0,
        x <= y,
    ensures
        trunc_div(x, d) <= trunc_div(y, d),
{
    if x >= 0 {
        vstd::arithmetic::div_mod::lemma_div_is_ordered(x, y, d);
    } else if y < 0 {
        vstd::arithmetic::div_mod::lemma_div_is_ordered(-y, -x, d);
    } else {
        vstd::arithmetic::div_mod::lemma_div_pos_is_pos(y, d);
        vstd::arithmetic::div_mod::lemma_div_pos_is_pos(-x, d);
    }
}

/// The lowest value of a dial stands at 225 degrees, the highest at -45 degrees.
pub proof fn lemma_angle_at_bounds(min: int, max: int)
    requires
        min < max,
    ensures
        angle_of(min, min, max) == 225,
        angle_of(max, min, max) == -45,
{
    let d = max - min;
    lemma_trunc_div_bounds(225 * d, d);
    lemma_trunc_div_bounds(-45 * d, d);
    let t1 = trunc_div(225 * d, d);
    let t2 = trunc_div(-45 * d, d);
    assert(t1 == 225) by (nonlinear_arith)
        requires
            d > 0,
            t1 * d <= 225 * d < t1 * d + d,
    ;
    assert(t2 == -45) by (nonlinear_arith)
        requires
            d > 0,
            t2 * d - d < -45 * d <= t2 * d,
    ;
    assert(225 * d - 45 * (6 * max - 6 * min) == -45 * d);
}

/// The angle never grows as the value grows.
pub proof fn lemma_angle_non_increasing(min: int, max: int, v1: int, v2: int)
    requires
        min < max,
        v1 <= v2,
    ensures
        angle_of(v1, min, max) >= angle_of(v2, min, max),
{
    let d = max - min;
    lemma_trunc_div_ordered(225 * d - 270 * (v2 - min), 225 * d - 270 * (v1 - min), d);
}

/// Between the bounds, the angle strictly falls wherever the values lie far
/// enough apart for the exact angles to differ by two degrees or more; closer
/// values may share a whole degree.
pub proof fn lemma_angle_decreasing(min: int, max: int, v1: int, v2: int)
    requires
        min < v1 < v2 < max,
        135 * (v2 - v1) >= max - min,
    ensures
        angle_of(v1, min, max) > angle_of(v2, min, max),
{
    let d = max - min;
    let x1 = 225 * d - 270 * (v1 - min);
    let x2 = 225 * d - 270 * (v2 - min);
    lemma_trunc_div_bounds(x1, d);
    lemma_trunc_div_bounds(x2, d);
    let t1 = trunc_div(x1, d);
    let t2 = trunc_div(x2, d);
    assert(-45 * d < x2 < x1 < 225 * d);
    assert(-46 < t2 && t1 < 226 && t2 < t1) by (nonlinear_arith)
        requires
            d > 0,
            x1 - x2 >= 2 * d,
            -45 * d < x2,
            x1 < 225 * d,
            t1 * d - d < x1 < t1 * d + d,
            t2 * d - d < x2 < t2 * d + d,
    ;
}

/// On a dial whose range is not empty, the ticks begin at the minimum and end at
/// the maximum, each exactly once; they rise strictly, number between two and
/// seven, and the last one stands at least one whole unit above the one before.
pub proof fn lemma_ticks_span(min: int, max: int)
    requires
        min < max,
    ensures
        ({
            let s = tick_sixths(min, max);
            &&& 2 <= s.len() <= 7
            &&& s[0] == 6 * min
            &&& s[s.len() - 1] == 6 * max
            &&& forall|i: int, j: int| 0 <= i < j < s.len() ==> s[i] < s[j]
            &&& s[s.len() - 1] - s[s.len() - 2] >= 6
        }),
{
    let d = max - min;
    let s = tick_sixths(min, max);
    let k = clear_steps(d);
    lemma_clear_steps(d, k - 1);
    assert((6 - (k - 1)) * d == 6 * d - (k - 1) * d) by (nonlinear_arith);
    assert forall|i: int, j: int| 0 <= i < j < s.len() implies s[i] < s[j] by {
        lemma_clear_steps(d, i);
        assert((6 - i) * d == 6 * d - i * d) by (nonlinear_arith);
        if j < k {
            assert(i * d < j * d) by (nonlinear_arith)
                requires
                    d > 0,
                    i < j,
            ;
        }
    }
}

} // verus!
