use vstd::prelude::*;
use vstd::arithmetic::div_mod::{lemma_div_by_multiple, lemma_div_is_ordered, lemma_div_pos_is_pos};
use vstd::arithmetic::mul::lemma_mul_inequality;

verus! {

/// A 2D integer vector, in thousandths of a world unit (or of a world unit
/// per second, for velocities).
#[derive(Clone, Copy, Debug, PartialEq, Eq, Structural)]
pub struct Vec2i {
    pub x: i64,
    pub y: i64,
}

/// A 2D vector of unsigned integers (texture coordinates, pixel sizes).
#[derive(Clone, Copy, Debug, PartialEq, Eq, Structural)]
pub struct Vec2u {
    pub x: u32,
    pub y: u32,
}

/// The squared Euclidean length of `(x, y)`.
pub open spec fn length_squared(x: int, y: int) -> int {
    x * x + y * y
}

/// `r` is the integer square root of `n`.
pub open spec fn is_sqrt(n: int, r: int) -> bool {
    0 <= r && r * r <= n < (r + 1) * (r + 1)
}

impl Vec2i {
    /// Both coordinates lie within the range of entity positions.
    pub open spec fn wf_position(self) -> bool {
        &&& -crate::settings::POSITION_LIMIT <= self.x <= crate::settings::POSITION_LIMIT
        &&& -crate::settings::POSITION_LIMIT <= self.y <= crate::settings::POSITION_LIMIT
    }

    pub open spec fn len2(self) -> int {
        length_squared(self.x as int, self.y as int)
    }

    pub open spec fn new_spec(x: i64, y: i64) -> Vec2i {
        Vec2i { x, y }
    }

    pub fn new(x: i64, y: i64) -> (r: Vec2i)
        ensures
            r == Vec2i::new_spec(x, y),
    {
        Vec2i { x, y }
    }

    pub open spec fn spec_zero() -> Vec2i {
        Vec2i { x: 0, y: 0 }
    }

    /// The squared length; every component must be at most two billion in
    /// absolute value.
    pub fn length_squared(&self) -> (r: i64)
        requires
            -2_000_000_000 <= self.x <= 2_000_000_000,
            -2_000_000_000 <= self.y <= 2_000_000_000,
        ensures
            r == self.len2(),
            r >= 0,
    {
        let x = self.x;
        let y = self.y;
        assert(0 <= x * x <= 4_000_000_000_000_000_000int) by (nonlinear_arith)
            requires
                -2_000_000_000 <= x <= 2_000_000_000,
        ;
        assert(0 <= y * y <= 4_000_000_000_000_000_000int) by (nonlinear_arith)
            requires
                -2_000_000_000 <= y <= 2_000_000_000,
        ;
        x * x + y * y
    }

    pub fn zero() -> (r: Vec2i)
        ensures
            r == Vec2i::spec_zero(),
    {
        Vec2i { x: 0, y: 0 }
    }
}

/// An axis-aligned box; `top_left` holds the smaller coordinates.
#[derive(Clone, Copy, Debug, PartialEq, Eq, Structural)]
pub struct Bounds {
    pub top_left: Vec2i,
    pub bottom_right: Vec2i,
}

/// Two boxes overlap strictly on both axes (touching edges do not count).
pub open spec fn boxes_intersect(a: Bounds, b: Bounds) -> bool {
    &&& a.top_left.x < b.bottom_right.x
    &&& a.bottom_right.x > b.top_left.x
    &&& a.top_left.y < b.bottom_right.y
    &&& a.bottom_right.y > b.top_left.y
}

impl Bounds {
    pub fn intersects(&self, other: &Bounds) -> (r: bool)
        ensures
            r == boxes_intersect(*self, *other),
    {
        intersects(self.top_left, self.bottom_right, other.top_left, other.bottom_right)
    }
}

/// Whether the box from `a_tl` to `a_br` and the box from `b_tl` to `b_br`
/// overlap strictly on both axes.
pub fn intersects(a_tl: Vec2i, a_br: Vec2i, b_tl: Vec2i, b_br: Vec2i) -> (r: bool)
    ensures
        r == boxes_intersect(Bounds { top_left: a_tl, bottom_right: a_br }, Bounds { top_left: b_tl, bottom_right: b_br }),
{
    a_tl.x < b_br.x && a_br.x > b_tl.x && a_tl.y < b_br.y && a_br.y > b_tl.y
}

/// The integer square root of `n`, rounded down.
pub open spec fn floor_sqrt(n: int) -> int {
    choose|r: int| is_sqrt(n, r)
}

/// A number has at most one integer square root.
pub proof fn lemma_sqrt_unique(n: int, r1: int, r2: int)
    requires
        is_sqrt(n, r1),
        is_sqrt(n, r2),
    ensures
        r1 == r2,
{
    if r1 < r2 {
        assert((r1 + 1) * (r1 + 1) <= r2 * r2) by (nonlinear_arith)
            requires
                0 <= r1 < r2,
        ;
    } else if r2 < r1 {
        assert((r2 + 1) * (r2 + 1) <= r1 * r1) by (nonlinear_arith)
            requires
                0 <= r2 < r1,
        ;
    }
}

/// Integer square root, rounded down.
pub fn isqrt(n: u64) -> (r: u64)
    ensures
        is_sqrt(n as int, r as int),
        r == floor_sqrt(n as int),
        r < 0x1_0000_0000,
{
    // invariant: lo * lo <= n < hi * hi
    let mut lo: u64 = 0;
    let mut hi: u64 = 0x1_0000_0000;
    assert(hi * hi > n) by (nonlinear_arith)
        requires
            hi == 0x1_0000_0000u64,
            n <= u64::MAX,
    ;
    while hi - lo > 1
        invariant
            lo < hi <= 0x1_0000_0000,
            lo * lo <= n,
            n < hi * hi,
        decreases hi - lo,
    {
        let mid: u64 = lo + (hi - lo) / 2;
        assert(mid * mid <= 0xFFFF_FFFE_0000_0001) by (nonlinear_arith)
            requires
                mid < 0x1_0000_0000,
        ;
        if mid * mid <= n {
            lo = mid;
        } else {
            hi = mid;
        }
    }
    assert(hi == lo + 1);
    proof {
        let c = floor_sqrt(n as int);
        assert(is_sqrt(n as int, lo as int));
        assert(is_sqrt(n as int, c));
        lemma_sqrt_unique(n as int, lo as int, c);
    }
    lo
}

/// Every coordinate of a vector is at most the integer square root of its
/// squared length, in absolute value.
pub proof fn lemma_component_le_sqrt(x: int, y: int, r: int)
    requires
        is_sqrt(length_squared(x, y), r),
    ensures
        -r <= x <= r,
        -r <= y <= r,
{
    assert(x * x <= length_squared(x, y)) by (nonlinear_arith)
        requires
            length_squared(x, y) == x * x + y * y,
    ;
    assert(y * y <= length_squared(x, y)) by (nonlinear_arith)
        requires
            length_squared(x, y) == x * x + y * y,
    ;
    assert(-r <= x <= r) by (nonlinear_arith)
        requires
            x * x < (r + 1) * (r + 1),
            r >= 0,
    ;
    assert(-r <= y <= r) by (nonlinear_arith)
        requires
            y * y < (r + 1) * (r + 1),
            r >= 0,
    ;
}

/// Division rounded toward zero, as integer division in Rust does.
pub open spec fn trunc_div(a: int, b: int) -> int {
    if a >= 0 {
        a / b
    } else {
        -((-a) / b)
    }
}

/// Divides rounding toward zero.
pub fn div_toward_zero(a: i64, b: i64) -> (r: i64)
    requires
        b > 0,
        a > i64::MIN,
    ensures
        r == trunc_div(a as int, b as int),
{
    if a >= 0 {
        a / b
    } else {
        -((-a) / b)
    }
}

/// A quotient rounded toward zero is bounded as its dividend is.
pub proof fn lemma_trunc_div_bound(a: int, b: int, m: int)
    requires
        b > 0,
        m >= 0,
        -(m * b) <= a <= m * b,
    ensures
        -m <= trunc_div(a, b) <= m,
{
    lemma_div_by_multiple(m, b);
    if a >= 0 {
        lemma_div_is_ordered(a, m * b, b);
        lemma_div_pos_is_pos(a, b);
    } else {
        lemma_div_is_ordered(-a, m * b, b);
        lemma_div_pos_is_pos(-a, b);
    }
}

/// `c` scaled by the fraction `num / den` (at most one), rounded toward zero,
/// is no larger than `c` in absolute value.
pub proof fn lemma_scale_bound(c: int, num: int, den: int)
    requires
        0 <= num <= den,
        den > 0,
    ensures
        -(if c >= 0 { c } else { -c }) <= trunc_div(c * num, den) <= (if c >= 0 { c } else { -c }),
{
    let m = if c >= 0 { c } else { -c };
    lemma_mul_inequality(num, den, m);
    assert(m * num == num * m && m * den == den * m) by (nonlinear_arith);
    if c >= 0 {
        assert(c * num >= 0) by (nonlinear_arith)
            requires
                c >= 0,
                num >= 0,
        ;
    } else {
        assert(c * num == -(m * num)) by (nonlinear_arith)
            requires
                m == -c,
        ;
        assert(m * num >= 0) by (nonlinear_arith)
            requires
                m >= 0,
                num >= 0,
        ;
    }
    lemma_trunc_div_bound(c * num, den, m);
}

} // verus!
