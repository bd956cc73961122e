//! Fixed-point scalars and angles.
//!
//! A real number `x` is held as an `i64` close to `x * ONE`. Products are
//! formed exactly in `i128` and then rounded down once.
use vstd::prelude::*;

verus! {

/// The raw value of `1.0`: 2⁴⁸, so one raw unit is about 3.6e-15.
pub const ONE: i64 = 281474976710656;

/// Largest magnitude of a coordinate that the transforms accept (256.0).
pub const MAX_COORD: i64 = 72057594037927936;

/// Largest magnitude of a matrix entry or scale factor that the products
/// accept (16.0).
pub const MAX_ENTRY: i64 = 4503599627370496;

/// How far `cos² + sin²` of a valid angle may stray from `ONE²`.
pub const ANGLE_SLACK: i64 = 562949953421312;

/// The real `n / d` rounded down, for `d > 0`.
pub open spec fn floor_div(n: int, d: int) -> int {
    n / d
}

/// The real `n / d` rounded to the nearest integer, halves away from zero,
/// for `d > 0`.
pub open spec fn round_div(n: int, d: int) -> int {
    if n >= 0 {
        (2 * n + d) / (2 * d)
    } else {
        -((d - 2 * n) / (2 * d))
    }
}

/// `|x|`.
pub open spec fn abs(x: int) -> int {
    if x < 0 {
        -x
    } else {
        x
    }
}

/// `a` and `b` differ by at most `tol`.
pub open spec fn near(a: int, b: int, tol: int) -> bool {
    abs(a - b) <= tol
}

/// `|a * b| <= A * B` when `|a| <= A` and `|b| <= B`.
pub proof fn lemma_mul_bound(a: int, b: int, ba: int, bb: int)
    requires
        abs(a) <= ba,
        abs(b) <= bb,
    ensures
        abs(a * b) <= ba * bb,
        -(ba * bb) <= a * b <= ba * bb,
{
    assert(abs(a * b) == abs(a) * abs(b)) by (nonlinear_arith);
    assert(abs(a) * abs(b) <= ba * bb) by (nonlinear_arith)
        requires
            0 <= abs(a) <= ba,
            0 <= abs(b) <= bb,
    ;
}

/// `cos² + sin²` of a valid angle, rescaled once, is `ONE` within two.
pub proof fn lemma_unit_circle(a: Angle)
    requires
        a.wf(),
    ensures
        near(floor_div(a.cos * a.cos + a.sin * a.sin, ONE as int), ONE as int, 2),
{
    let n = a.cos * a.cos + a.sin * a.sin;
    lemma_floor_div(n, ONE as int);
    let q = floor_div(n, ONE as int);
    assert(near(q, ONE as int, 2)) by (nonlinear_arith)
        requires
            ONE * q <= n < ONE * q + ONE,
            ONE * ONE - 2 * ONE <= n <= ONE * ONE + 2 * ONE,
            ONE > 0,
    ;
}

/// Division by `d > 0` rounded down, characterised by its remainder.
pub proof fn lemma_floor_div(n: int, d: int)
    requires
        d > 0,
    ensures
        d * floor_div(n, d) <= n < d * floor_div(n, d) + d,
{
    vstd::arithmetic::div_mod::lemma_fundamental_div_mod(n, d);
    assert(0 <= n % d < d) by {
        vstd::arithmetic::div_mod::lemma_mod_bound(n, d);
    }
}

/// A quotient pinned down by its remainder.
pub proof fn lemma_floor_div_unique(n: int, d: int, q: int)
    requires
        d > 0,
        d * q <= n < d * q + d,
    ensures
        floor_div(n, d) == q,
{
    assert(n == q * d + (n - d * q)) by (nonlinear_arith);
    vstd::arithmetic::div_mod::lemma_fundamental_div_mod_converse(n, d, q, n - d * q);
}

/// Rounds `n / d` down, for `d > 0`.
pub fn div_floor(n: i128, d: i128) -> (r: i128)
    requires
        d > 0,
        n > i128::MIN,
    ensures
        r == floor_div(n as int, d as int),
{
    if n >= 0 {
        n / d
    } else {
        let q = (-n) / d;
        let m = (-n) % d;
        proof {
            vstd::arithmetic::div_mod::lemma_fundamental_div_mod((-n) as int, d as int);
            vstd::arithmetic::div_mod::lemma_mod_bound((-n) as int, d as int);
            assert(n as int == d * (-q) - m) by (nonlinear_arith)
                requires (-n) as int == d * (q as int) + m;
        }
        if m == 0 {
            proof {
                lemma_floor_div_unique(n as int, d as int, -q);
            }
            -q
        } else {
            proof {
                assert(n as int == d * (-q - 1) + (d - m)) by (nonlinear_arith)
                    requires n as int == d * (-q) - m;
                lemma_floor_div_unique(n as int, d as int, -q - 1);
            }
            -q - 1
        }
    }
}

/// Rounds `n / d` to the nearest integer, halves away from zero, for `d > 0`.
pub fn div_round(n: i128, d: i128) -> (r: i128)
    requires
        0 < d <= i128::MAX / 4,
        -(i128::MAX / 4) <= n <= i128::MAX / 4,
    ensures
        r == round_div(n as int, d as int),
{
    if n >= 0 {
        (2 * n + d) / (2 * d)
    } else {
        -((d - 2 * n) / (2 * d))
    }
}

/// The nearest integer at or below `sqrt(n)`.
pub fn isqrt(n: u128) -> (r: u64)
    requires
        n < 83076749736557242056487941267521536,
    ensures
        r as int * r as int <= n < (r as int + 1) * (r as int + 1),
{
    let mut lo: u64 = 0;
    let mut hi: u64 = 288230376151711744;
    assert(hi as int * hi as int > n) by (nonlinear_arith)
        requires hi == 288230376151711744u64, n < 83076749736557242056487941267521536u128;
    while hi - lo > 1
        invariant
            lo < hi <= 288230376151711744,
            lo as int * lo as int <= n,
            n < hi as int * hi as int,
        decreases hi - lo,
    {
        let mid = lo + (hi - lo) / 2;
        assert(mid as int * mid as int <= 83076749736557242056487941267521536) by (nonlinear_arith)
            requires mid <= 288230376151711744u64;
        if (mid as u128) * (mid as u128) <= n {
            lo = mid;
        } else {
            hi = mid;
        }
    }
    assert(hi == lo + 1);
    lo
}

/// An angle held by its cosine and sine.
#[derive(Debug, Clone, Copy, PartialEq, Eq)]
pub struct Angle {
    pub cos: i64,
    pub sin: i64,
}

impl Angle {
    /// Both parts lie in `[-1, 1]` and `cos² + sin²` is `1` up to rounding.
    pub open spec fn wf(self) -> bool {
        &&& abs(self.cos as int) <= ONE
        &&& abs(self.sin as int) <= ONE
        &&& near(
            self.cos as int * self.cos as int + self.sin as int * self.sin as int,
            ONE as int * ONE as int,
            ANGLE_SLACK as int,
        )
    }

    /// The angle with the given cosine and sine, where they make one.
    pub fn new(cos: i64, sin: i64) -> (r: Option<Angle>)
        ensures
            r is Some <==> (Angle { cos, sin }).wf(),
            r is Some ==> r->0 == (Angle { cos, sin }),
    {
        if cos < -ONE || cos > ONE || sin < -ONE || sin > ONE {
            return None;
        }
        proof {
            lemma_mul_bound(cos as int, cos as int, ONE as int, ONE as int);
            lemma_mul_bound(sin as int, sin as int, ONE as int, ONE as int);
        }
        let sq = (cos as i128) * (cos as i128) + (sin as i128) * (sin as i128);
        let d = sq - (ONE as i128) * (ONE as i128);
        if -(ANGLE_SLACK as i128) <= d && d <= ANGLE_SLACK as i128 {
            Some(Angle { cos, sin })
        } else {
            None
        }
    }

    /// The opposite angle: same cosine, sine negated.
    pub open spec fn opposite(self) -> Angle {
        Angle { cos: self.cos, sin: (-self.sin) as i64 }
    }

    /// The opposite angle.
    pub fn neg(self) -> (r: Angle)
        requires
            self.wf(),
        ensures
            r.wf(),
            r == self.opposite(),
            r.sin == -self.sin,
    {
        proof {
            assert((-self.sin) as int * (-self.sin) as int == self.sin as int * self.sin as int)
                by (nonlinear_arith);
        }
        Angle { cos: self.cos, sin: -self.sin }
    }

    /// The zero angle.
    pub fn zero() -> (r: Angle)
        ensures
            r.wf(),
            r.cos == ONE,
            r.sin == 0,
    {
        Angle { cos: ONE, sin: 0 }
    }

    /// A quarter turn, `π/2`.
    pub fn quarter_turn() -> (r: Angle)
        ensures
            r.wf(),
            r.cos == 0,
            r.sin == ONE,
    {
        Angle { cos: 0, sin: ONE }
    }
}

} // verus!

verus! {

/// `π/90`, its cosine and sine rounded to the nearest fixed-point value.
pub open spec fn pi_over_90_angle() -> Angle {
    Angle { cos: 281303509760043, sin: 9823335021550 }
}

/// `π/70`, its cosine and sine rounded to the nearest fixed-point value.
pub open spec fn pi_over_70_angle() -> Angle {
    Angle { cos: 281191550138823, sin: 12628327078039 }
}

/// `π/180`, its cosine and sine rounded to the nearest fixed-point value.
pub open spec fn pi_over_180_angle() -> Angle {
    Angle { cos: 281432106708348, sin: 4912415695479 }
}

/// `π/12`, its cosine and sine rounded to the nearest fixed-point value.
pub open spec fn pi_over_12_angle() -> Angle {
    Angle { cos: 271883949458937, sin: 72851084692506 }
}

impl Angle {
    /// `π/90`, the automatic spin's main step.
    pub fn pi_over_90() -> (r: Angle)
        ensures
            r.wf(),
            r == pi_over_90_angle(),
    {
        let r = Angle { cos: 281303509760043, sin: 9823335021550 };
        assert(r.wf());
        r
    }

    /// `π/70`.
    pub fn pi_over_70() -> (r: Angle)
        ensures
            r.wf(),
            r == pi_over_70_angle(),
    {
        let r = Angle { cos: 281191550138823, sin: 12628327078039 };
        assert(r.wf());
        r
    }

    /// `π/180`.
    pub fn pi_over_180() -> (r: Angle)
        ensures
            r.wf(),
            r == pi_over_180_angle(),
    {
        let r = Angle { cos: 281432106708348, sin: 4912415695479 };
        assert(r.wf());
        r
    }

    /// `π/12`, one keystroke's turn.
    pub fn pi_over_12() -> (r: Angle)
        ensures
            r.wf(),
            r == pi_over_12_angle(),
    {
        let r = Angle { cos: 271883949458937, sin: 72851084692506 };
        assert(r.wf());
        r
    }
}

} // verus!
