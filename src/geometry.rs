//! Fixed-point vectors, division toward zero and the speed limit.
use vstd::prelude::*;

verus! {

/// Sub-units per world unit: one world unit is `UNIT` in every coordinate.
pub const UNIT: i64 = 1000;

/// The speed limit, 25 world units per time unit.
pub const SPEED_LIMIT: i64 = 25000;

/// A 2D vector of fixed-point coordinates.
#[derive(Clone, Copy, Debug, PartialEq, Eq)]
pub struct Vec2 {
    pub x: i64,
    pub y: i64,
}

impl Vec2 {
    pub fn new(x: i64, y: i64) -> (r: Vec2)
        ensures
            r.x == x,
            r.y == y,
    {
        Vec2 { x, y }
    }

    pub open spec fn norm_sq(self) -> int {
        self.x * self.x + self.y * self.y
    }
}

/// Integer division rounded toward zero, as machine division does.
pub open spec fn trunc_div(a: int, d: int) -> int {
    if a >= 0 {
        a / d
    } else {
        -((-a) / d)
    }
}

pub fn div_toward_zero(a: i128, d: i128) -> (r: i128)
    requires
        d > 0,
        a > i128::MIN,
    ensures
        r == trunc_div(a as int, d as int),
{
    if a >= 0 {
        a / d
    } else {
        -((-a) / d)
    }
}

pub proof fn lemma_trunc_div_bound(a: int, d: int)
    requires
        d > 0,
    ensures
        trunc_div(a, d) * d * trunc_div(a, d) * d <= a * a,
        -a <= trunc_div(a, d) * d <= a || a <= trunc_div(a, d) * d <= -a,
        a >= 0 ==> 0 <= trunc_div(a, d) <= a,
        a < 0 ==> a <= trunc_div(a, d) <= 0,
{
    if a >= 0 {
        assert(0 <= (a / d) * d <= a) by (nonlinear_arith)
            requires
                d > 0,
                a >= 0,
        ;
        assert(a / d <= a) by (nonlinear_arith)
            requires
                d > 0,
                a >= 0,
        ;
        let q = a / d;
        assert(q * d * q * d <= a * a) by (nonlinear_arith)
            requires
                0 <= q * d <= a,
        ;
    } else {
        let b = -a;
        assert(0 <= (b / d) * d <= b) by (nonlinear_arith)
            requires
                d > 0,
                b >= 0,
        ;
        assert(b / d <= b) by (nonlinear_arith)
            requires
                d > 0,
                b >= 0,
        ;
        let q = b / d;
        assert(trunc_div(a, d) == -q);
        assert((-q) * d * (-q) * d <= a * a) by (nonlinear_arith)
            requires
                0 <= q * d <= b,
                b == -a,
        ;
        assert((-q) * d == -(q * d)) by (nonlinear_arith);
    }
}

/// A quotient rounded toward zero stays within the bound that the dividend
/// has in units of the divisor.
pub proof fn lemma_trunc_div_within(a: int, d: int, b: int)
    requires
        d > 0,
        -b * d <= a <= b * d,
    ensures
        -b <= trunc_div(a, d) <= b,
{
    lemma_trunc_div_bound(a, d);
    let t = trunc_div(a, d);
    assert((-b) * d == -(b * d)) by (nonlinear_arith);
    if a >= 0 {
        assert(t <= b) by (nonlinear_arith)
            requires
                d > 0,
                a >= 0,
                a <= b * d,
                t == a / d,
        ;
        assert(t >= 0);
        assert(b >= 0) by (nonlinear_arith)
            requires
                d > 0,
                0 <= a <= b * d,
        ;
    } else {
        assert(-t <= b) by (nonlinear_arith)
            requires
                d > 0,
                -a > 0,
                -a <= b * d,
                -t == (-a) / d,
        ;
    }
}

/// A product stays within the product of its factors' bounds.
pub proof fn lemma_mul_within(a: int, b: int, ba: int, bb: int)
    requires
        -ba <= a <= ba,
        -bb <= b <= bb,
    ensures
        -(ba * bb) <= a * b <= ba * bb,
{
    assert(-(ba * bb) <= a * b <= ba * bb) by (nonlinear_arith)
        requires
            -ba <= a <= ba,
            -bb <= b <= bb,
    ;
}

pub proof fn lemma_square_bound(a: int, b: int)
    requires
        -b <= a <= b,
    ensures
        a * a <= b * b,
        0 <= a * a,
{
    assert(a * a <= b * b) by (nonlinear_arith)
        requires
            -b <= a <= b,
    ;
    assert(0 <= a * a) by (nonlinear_arith);
}

/// `q` is the least non-negative integer whose square reaches `n`.
pub open spec fn is_ceil_sqrt(q: int, n: int) -> bool {
    &&& q >= 0
    &&& q * q >= n
    &&& (q == 0 || (q - 1) * (q - 1) < n)
}

/// The least non-negative integer whose square reaches `n`.
pub open spec fn ceil_sqrt(n: int) -> int {
    choose|q: int| is_ceil_sqrt(q, n)
}

pub proof fn lemma_ceil_sqrt_unique(q: int, p: int, n: int)
    requires
        is_ceil_sqrt(q, n),
        is_ceil_sqrt(p, n),
    ensures
        q == p,
{
    if q < p {
        assert(q * q <= (p - 1) * (p - 1)) by (nonlinear_arith)
            requires
                0 <= q <= p - 1,
        ;
    } else if p < q {
        assert(p * p <= (q - 1) * (q - 1)) by (nonlinear_arith)
            requires
                0 <= p <= q - 1,
        ;
    }
}

/// Every non-negative integer has a least square root from above.
pub proof fn lemma_ceil_sqrt_exists(n: int)
    requires
        n >= 0,
    ensures
        is_ceil_sqrt(ceil_sqrt(n), n),
    decreases n,
{
    if n == 0 {
        assert(is_ceil_sqrt(0, n));
    } else if n == 1 {
        assert(is_ceil_sqrt(1, n));
    } else {
        lemma_ceil_sqrt_exists(n - 1);
        let p = ceil_sqrt(n - 1);
        if p * p >= n {
            assert(is_ceil_sqrt(p, n));
        } else {
            assert((p + 1) * (p + 1) == p * p + 2 * p + 1) by (nonlinear_arith);
            assert(p >= 1) by (nonlinear_arith)
                requires
                    p >= 0,
                    p * p >= n - 1,
                    n >= 2,
            ;
            assert(is_ceil_sqrt(p + 1, n));
        }
    }
}

/// The speed limit holds of every velocity it returns.
pub proof fn lemma_limit_speed_within(v: (int, int))
    ensures
        ({
            let r = limit_speed(v);
            &&& r.0 * r.0 + r.1 * r.1 <= SPEED_LIMIT * SPEED_LIMIT
            &&& -SPEED_LIMIT <= r.0 <= SPEED_LIMIT
            &&& -SPEED_LIMIT <= r.1 <= SPEED_LIMIT
        }),
{
    let nn = v.0 * v.0 + v.1 * v.1;
    let ll = SPEED_LIMIT as int;
    let (tx, ty) = limit_speed(v);
    assert(v.0 * v.0 >= 0 && v.1 * v.1 >= 0) by (nonlinear_arith);
    if nn > ll * ll {
        lemma_ceil_sqrt_exists(nn);
        let qq = ceil_sqrt(nn);
        assert(qq > 0) by (nonlinear_arith)
            requires
                qq >= 0,
                qq * qq >= nn,
                nn > 0,
        ;
        let (a, b) = (v.0 * ll, v.1 * ll);
        lemma_trunc_div_bound(a, qq);
        lemma_trunc_div_bound(b, qq);
        assert(a * a + b * b == nn * (ll * ll)) by (nonlinear_arith)
            requires
                a == v.0 * ll,
                b == v.1 * ll,
                nn == v.0 * v.0 + v.1 * v.1,
        ;
        assert((tx * tx + ty * ty) * (qq * qq) <= nn * (ll * ll)) by (nonlinear_arith)
            requires
                tx * qq * tx * qq <= a * a,
                ty * qq * ty * qq <= b * b,
                a * a + b * b == nn * (ll * ll),
        ;
        assert(nn * (ll * ll) <= (qq * qq) * (ll * ll)) by (nonlinear_arith)
            requires
                nn <= qq * qq,
        ;
        assert(tx * tx + ty * ty <= ll * ll) by (nonlinear_arith)
            requires
                (tx * tx + ty * ty) * (qq * qq) <= (qq * qq) * (ll * ll),
                qq > 0,
        ;
    }
    assert(tx * tx >= 0 && ty * ty >= 0) by (nonlinear_arith);
    assert(-ll <= tx <= ll) by (nonlinear_arith)
        requires
            tx * tx + ty * ty <= ll * ll,
            ty * ty >= 0,
            ll > 0,
    ;
    assert(-ll <= ty <= ll) by (nonlinear_arith)
        requires
            tx * tx + ty * ty <= ll * ll,
            tx * tx >= 0,
            ll > 0,
    ;
}

/// Computes `ceil_sqrt(n)` by bisection.
pub fn ceil_sqrt_exec(n: i128) -> (r: i128)
    requires
        0 < n <= 0x1000_0000_0000_0000_0000_0000_0000_0000,
    ensures
        r == ceil_sqrt(n as int),
        is_ceil_sqrt(r as int, n as int),
{
    let mut lo: i128 = 0;
    let mut hi: i128 = 0x4000_0000_0000_0000;
    assert(hi * hi == 0x1000_0000_0000_0000_0000_0000_0000_0000);
    while hi - lo > 1
        invariant
            0 <= lo < hi <= 0x4000_0000_0000_0000,
            lo * lo < n,
            hi * hi >= n,
        decreases hi - lo,
    {
        let mid: i128 = lo + (hi - lo) / 2;
        assert(mid * mid <= 0x1000_0000_0000_0000_0000_0000_0000_0000) by (nonlinear_arith)
            requires
                0 <= mid <= 0x4000_0000_0000_0000,
        ;
        if mid * mid >= n {
            hi = mid;
        } else {
            lo = mid;
        }
    }
    assert(hi - 1 == lo);
    assert(is_ceil_sqrt(hi as int, n as int));
    proof {
        let c = ceil_sqrt(n as int);
        assert(is_ceil_sqrt(c, n as int));
        lemma_ceil_sqrt_unique(c, hi as int, n as int);
    }
    hi
}

/// The speed limit applied to a velocity: one above the limit is scaled down
/// to the limit, by the least integer length that is at least its own, with
/// each component rounded toward zero.
pub open spec fn limit_speed(v: (int, int)) -> (int, int) {
    let n = v.0 * v.0 + v.1 * v.1;
    let l = SPEED_LIMIT as int;
    if n > l * l {
        let q = ceil_sqrt(n);
        (trunc_div(v.0 * l, q), trunc_div(v.1 * l, q))
    } else {
        v
    }
}

/// The bound on a velocity component before the limit is applied.
pub const RAW_SPEED_MAX: i128 = 0x2000_0000_0000_0000;

pub fn limit_speed_exec(vx: i128, vy: i128) -> (r: Vec2)
    requires
        -RAW_SPEED_MAX <= vx <= RAW_SPEED_MAX,
        -RAW_SPEED_MAX <= vy <= RAW_SPEED_MAX,
    ensures
        (r.x as int, r.y as int) == limit_speed((vx as int, vy as int)),
        r.norm_sq() <= SPEED_LIMIT * SPEED_LIMIT,
        -SPEED_LIMIT <= r.x <= SPEED_LIMIT,
        -SPEED_LIMIT <= r.y <= SPEED_LIMIT,
{
    let l: i128 = SPEED_LIMIT as i128;
    proof {
        lemma_square_bound(vx as int, RAW_SPEED_MAX as int);
        lemma_square_bound(vy as int, RAW_SPEED_MAX as int);
    }
    let n: i128 = vx * vx + vy * vy;
    if n > l * l {
        let q = ceil_sqrt_exec(n);
        assert(q > 0) by (nonlinear_arith)
            requires
                q >= 0,
                q * q >= n,
                n > 0,
        ;
        assert(vx * l <= 0x2000_0000_0000_0000 * 25000 && vx * l >= -0x2000_0000_0000_0000 * 25000)
            by (nonlinear_arith)
            requires
                -RAW_SPEED_MAX <= vx <= RAW_SPEED_MAX,
                l == 25000,
        ;
        assert(vy * l <= 0x2000_0000_0000_0000 * 25000 && vy * l >= -0x2000_0000_0000_0000 * 25000)
            by (nonlinear_arith)
            requires
                -RAW_SPEED_MAX <= vy <= RAW_SPEED_MAX,
                l == 25000,
        ;
        let x = div_toward_zero(vx * l, q);
        let y = div_toward_zero(vy * l, q);
        proof {
            lemma_limit_speed_within((vx as int, vy as int));
        }
        Vec2 { x: x as i64, y: y as i64 }
    } else {
        proof {
            lemma_limit_speed_within((vx as int, vy as int));
        }
        Vec2 { x: vx as i64, y: vy as i64 }
    }
}

} // verus!
