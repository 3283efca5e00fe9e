//! Fixed-point plane geometry: vectors in milli-units, integer square
//! root, and normalization to near-unit direction vectors of scale 1000.

use vstd::prelude::*;

verus! {

/// Greatest coordinate magnitude the simulation uses (milli-units).
pub const COORD_LIMIT: i64 = 1_073_741_824;

/// Lower bound on the squared length of a normalized direction
/// (scale 1000, so an exact unit vector has squared length 1_000_000).
pub const UNIT_LO: i64 = 995_000;

/// Upper bound on the squared length of a normalized direction.
pub const UNIT_HI: i64 = 1_003_000;

/// A plane vector in milli-units. 1000 milli-units make one world
/// unit, and a direction vector of squared length near 1000 * 1000
/// stands for a unit vector.
#[derive(Clone, Copy, Debug, PartialEq, Eq, Structural)]
pub struct Vec2 {
    pub x: i64,
    pub y: i64,
}

impl Vec2 {
    /// Squared length, as a mathematical integer.
    pub open spec fn len_sq(self) -> int {
        self.x * self.x + self.y * self.y
    }

    /// The vector points somewhere: it is not the zero vector.
    pub open spec fn is_nonzero(self) -> bool {
        self.x != 0 || self.y != 0
    }

    /// A near-unit direction of scale 1000: its squared length lies in
    /// the band [`UNIT_LO`, `UNIT_HI`] around 1000 * 1000.
    pub open spec fn is_near_unit(self) -> bool {
        UNIT_LO <= self.len_sq() <= UNIT_HI
    }

    /// Both coordinates lie within `bound` in magnitude.
    pub open spec fn bounded(self, bound: int) -> bool {
        -bound <= self.x <= bound && -bound <= self.y <= bound
    }
}

/// `r` is the integer square root of `n`.
pub open spec fn is_isqrt(n: int, r: int) -> bool {
    0 <= r && r * r <= n < (r + 1) * (r + 1)
}

/// The integer square root of `n`, as a spec-level value.
pub open spec fn isqrt_spec(n: int) -> int {
    choose|r: int| is_isqrt(n, r)
}

/// Exhibits an integer square root of `n`.
proof fn lemma_isqrt_witness(n: int) -> (w: int)
    requires
        0 <= n,
    ensures
        is_isqrt(n, w),
    decreases n,
{
    if n == 0 {
        assert(is_isqrt(0, 0));
        0
    } else {
        let r = lemma_isqrt_witness(n - 1);
        if (r + 1) * (r + 1) <= n {
            assert(n < (r + 2) * (r + 2)) by (nonlinear_arith)
                requires
                    0 <= r,
                    n - 1 < (r + 1) * (r + 1),
            ;
            assert(is_isqrt(n, r + 1));
            r + 1
        } else {
            assert(is_isqrt(n, r));
            r
        }
    }
}

/// Every non-negative integer has an integer square root, and
/// `isqrt_spec` denotes it.
pub proof fn lemma_isqrt_exists(n: int)
    requires
        0 <= n,
    ensures
        is_isqrt(n, isqrt_spec(n)),
{
    let w = lemma_isqrt_witness(n);
    assert(exists|r: int| #[trigger] is_isqrt(n, r));
}

/// The integer square root is unique.
pub proof fn lemma_isqrt_unique(n: int, a: int, b: int)
    by (nonlinear_arith)
    requires
        is_isqrt(n, a),
        is_isqrt(n, b),
    ensures
        a == b,
{
}

/// Integer square root: the greatest `r` with `r * r <= n`.
pub fn isqrt(n: u64) -> (r: u64)
    ensures
        is_isqrt(n as int, r as int),
        r == isqrt_spec(n as int),
{
    let mut lo: u64 = 0;
    let mut hi: u64 = 4_294_967_296;
    assert((n as int) < 4_294_967_296 * 4_294_967_296) by (nonlinear_arith)
        requires
            n <= u64::MAX,
    ;
    while lo + 1 < hi
        invariant
            0 <= lo < hi <= 4_294_967_296,
            (lo as int) * (lo as int) <= n as int,
            (n as int) < (hi as int) * (hi as int),
        decreases hi - lo,
    {
        let mid: u64 = lo + (hi - lo) / 2;
        assert((mid as int) * (mid as int) <= 4_294_967_296 * 4_294_967_296) by (nonlinear_arith)
            requires
                0 <= mid <= 4_294_967_296,
        ;
        if (mid as u128) * (mid as u128) <= n as u128 {
            lo = mid;
        } else {
            hi = mid;
        }
    }
    assert((n as int) < ((lo + 1) as int) * ((lo + 1) as int)) by (nonlinear_arith)
        requires
            (n as int) < (hi as int) * (hi as int),
            0 <= hi <= lo + 1,
    ;
    proof {
        lemma_isqrt_exists(n as int);
        lemma_isqrt_unique(n as int, lo as int, isqrt_spec(n as int));
    }
    lo
}

/// `x` scaled by 1000 and divided by `l`, truncating toward zero, as the
/// executable code computes it on the magnitude of `x`.
pub open spec fn scale_div(x: int, l: int) -> int {
    if x >= 0 {
        (x * 1000) / l
    } else {
        -((-x * 1000) / l)
    }
}

/// The normalized direction of `(x, y)` at scale 1000: each coordinate is
/// scaled by 1000 and divided by the integer square root of the squared
/// length. The zero vector stays exactly zero.
pub open spec fn norm_unit(x: int, y: int) -> (int, int) {
    if x == 0 && y == 0 {
        (0, 0)
    } else {
        let l = isqrt_spec(x * x + y * y);
        (scale_div(x, l), scale_div(y, l))
    }
}

/// Floor division brackets the dividend between consecutive multiples.
proof fn lemma_div_brackets(a: int, l: int)
    requires
        0 <= a,
        0 < l,
    ensures
        0 <= a / l,
        (a / l) * l <= a,
        a < (a / l + 1) * l,
{
    vstd::arithmetic::div_mod::lemma_fundamental_div_mod(a, l);
    vstd::arithmetic::div_mod::lemma_mod_division_less_than_divisor(a, l);
    let q = a / l;
    let r = a % l;
    assert(0 <= q && q * l <= a && a < (q + 1) * l) by (nonlinear_arith)
        requires
            a == l * q + r,
            0 <= r < l,
            0 <= a,
            0 < l,
    ;
}

/// Core of the near-unit bound, on magnitudes: scaling two non-negative
/// coordinates by 1000 and dividing by the integer square root of their
/// squared length yields a vector whose squared length lies within the
/// unit band, with each coordinate at most 1000.
proof fn lemma_scale_div_near(a: int, b: int, l: int)
    requires
        0 <= a,
        0 <= b,
        900 <= l,
        is_isqrt(a * a + b * b, l),
    ensures
        ({
            let ua = (a * 1000) / l;
            let ub = (b * 1000) / l;
            0 <= ua <= 1000 && 0 <= ub <= 1000
                && UNIT_LO <= ua * ua + ub * ub <= UNIT_HI
        }),
{
    let n = a * a + b * b;
    let ua = (a * 1000) / l;
    let ub = (b * 1000) / l;
    lemma_div_brackets(a * 1000, l);
    lemma_div_brackets(b * 1000, l);
    assert(a <= l && b <= l) by (nonlinear_arith)
        requires
            0 <= a,
            0 <= b,
            0 < l,
            a * a <= n,
            b * b <= n,
            n < (l + 1) * (l + 1),
    ;
    assert(ua <= 1000) by (nonlinear_arith)
        requires
            ua * l <= a * 1000,
            a <= l,
            0 < l,
            0 <= ua,
    ;
    assert(ub <= 1000) by (nonlinear_arith)
        requires
            ub * l <= b * 1000,
            b <= l,
            0 < l,
            0 <= ub,
    ;
    // Upper bound: (ua^2 + ub^2) * l^2 <= 1000^2 * n <= 1000^2 * (l^2 + 2l)
    // and 2l <= l^2 * 2 / 900, so the sum is at most 1_002_223.
    assert(ua * ua * (l * l) <= (a * 1000) * (a * 1000)) by (nonlinear_arith)
        requires
            0 <= ua,
            0 < l,
            ua * l <= a * 1000,
    ;
    assert(ub * ub * (l * l) <= (b * 1000) * (b * 1000)) by (nonlinear_arith)
        requires
            0 <= ub,
            0 < l,
            ub * l <= b * 1000,
    ;
    assert((ua * ua + ub * ub) * (l * l) <= 1_000_000 * n) by (nonlinear_arith)
        requires
            ua * ua * (l * l) <= (a * 1000) * (a * 1000),
            ub * ub * (l * l) <= (b * 1000) * (b * 1000),
            n == a * a + b * b,
    ;
    assert(n <= l * l + 2 * l) by (nonlinear_arith)
        requires
            n < (l + 1) * (l + 1),
    ;
    assert(ua * ua + ub * ub <= UNIT_HI) by (nonlinear_arith)
        requires
            (ua * ua + ub * ub) * (l * l) <= 1_000_000 * n,
            n <= l * l + 2 * l,
            900 <= l,
            0 <= ua,
            0 <= ub,
    ;
    // Lower bound: 1000^2 * n < ((ua+1)^2 + (ub+1)^2) * l^2 and n >= l^2,
    // with ua, ub <= 1000, so ua^2 + ub^2 > 1_000_000 - 4002.
    assert((a * 1000) * (a * 1000) < (ua + 1) * (ua + 1) * (l * l)) by (nonlinear_arith)
        requires
            0 <= a * 1000,
            0 < l,
            a * 1000 < (ua + 1) * l,
    ;
    assert((b * 1000) * (b * 1000) < (ub + 1) * (ub + 1) * (l * l)) by (nonlinear_arith)
        requires
            0 <= b * 1000,
            0 < l,
            b * 1000 < (ub + 1) * l,
    ;
    assert(1_000_000 * n < ((ua + 1) * (ua + 1) + (ub + 1) * (ub + 1)) * (l * l))
        by (nonlinear_arith)
        requires
            (a * 1000) * (a * 1000) < (ua + 1) * (ua + 1) * (l * l),
            (b * 1000) * (b * 1000) < (ub + 1) * (ub + 1) * (l * l),
            n == a * a + b * b,
    ;
    assert(UNIT_LO <= ua * ua + ub * ub) by (nonlinear_arith)
        requires
            1_000_000 * n < ((ua + 1) * (ua + 1) + (ub + 1) * (ub + 1)) * (l * l),
            l * l <= n,
            0 <= ua <= 1000,
            0 <= ub <= 1000,
            0 < l,
    ;
}

/// Normalizing a vector whose squared length is at least 810_000 (length
/// at least 0.9 units) yields a near-unit direction.
pub proof fn lemma_norm_unit_in_band(x: int, y: int)
    requires
        810_000 <= x * x + y * y,
    ensures
        ({
            let (ux, uy) = norm_unit(x, y);
            UNIT_LO <= ux * ux + uy * uy <= UNIT_HI
                && -1000 <= ux <= 1000 && -1000 <= uy <= 1000
        }),
{
    let n = x * x + y * y;
    assert(0 <= n);
    lemma_isqrt_exists(n);
    let l = isqrt_spec(n);
    assert(900 <= l) by (nonlinear_arith)
        requires
            0 <= l,
            810_000 <= n,
            n < (l + 1) * (l + 1),
    ;
    let a = if x >= 0 { x } else { -x };
    let b = if y >= 0 { y } else { -y };
    assert(a * a == x * x && b * b == y * y) by (nonlinear_arith)
        requires
            a == x || a == -x,
            b == y || b == -y,
    ;
    lemma_scale_div_near(a, b, l);
    let (ux, uy) = norm_unit(x, y);
    assert(ux == scale_div(x, l) && uy == scale_div(y, l));
    assert(ux * ux == ((a * 1000) / l) * ((a * 1000) / l)) by (nonlinear_arith)
        requires
            ux == (a * 1000) / l || ux == -((a * 1000) / l),
    ;
    assert(uy * uy == ((b * 1000) / l) * ((b * 1000) / l)) by (nonlinear_arith)
        requires
            uy == (b * 1000) / l || uy == -((b * 1000) / l),
    ;
}

/// A normalized direction always has coordinates within 1000 in
/// magnitude, and is nonzero whenever the input is.
pub proof fn lemma_norm_unit_bounds(x: int, y: int)
    requires
        x != 0 || y != 0,
    ensures
        ({
            let (ux, uy) = norm_unit(x, y);
            -1000 <= ux <= 1000 && -1000 <= uy <= 1000 && (ux != 0 || uy != 0)
        }),
{
    let n = x * x + y * y;
    assert(0 < n) by (nonlinear_arith)
        requires
            x != 0 || y != 0,
            n == x * x + y * y,
    ;
    lemma_isqrt_exists(n);
    let l = isqrt_spec(n);
    assert(0 < l) by (nonlinear_arith)
        requires
            0 <= l,
            0 < n,
            n < (l + 1) * (l + 1),
    ;
    let a = if x >= 0 { x } else { -x };
    let b = if y >= 0 { y } else { -y };
    assert(a * a == x * x && b * b == y * y) by (nonlinear_arith)
        requires
            a == x || a == -x,
            b == y || b == -y,
    ;
    let ua = (a * 1000) / l;
    let ub = (b * 1000) / l;
    lemma_div_brackets(a * 1000, l);
    lemma_div_brackets(b * 1000, l);
    assert(a <= l && b <= l) by (nonlinear_arith)
        requires
            0 <= a,
            0 <= b,
            0 < l,
            a * a <= n,
            b * b <= n,
            n < (l + 1) * (l + 1),
    ;
    assert(ua <= 1000 && ub <= 1000) by (nonlinear_arith)
        requires
            ua * l <= a * 1000,
            ub * l <= b * 1000,
            a <= l,
            b <= l,
            0 < l,
            0 <= ua,
            0 <= ub,
    ;
    // The larger coordinate survives: if a >= b then l <= 1000 * a, so
    // ua >= 1.
    if a >= b {
        assert(l <= 1000 * a) by (nonlinear_arith)
            requires
                0 <= b <= a,
                0 < l,
                l * l <= a * a + b * b,
                1 <= a,
        ;
        assert(1 <= ua) by (nonlinear_arith)
            requires
                l <= 1000 * a,
                a * 1000 < (ua + 1) * l,
                0 < l,
        ;
    } else {
        assert(l <= 1000 * b) by (nonlinear_arith)
            requires
                0 <= a <= b,
                0 < l,
                l * l <= a * a + b * b,
                1 <= b,
        ;
        assert(1 <= ub) by (nonlinear_arith)
            requires
                l <= 1000 * b,
                b * 1000 < (ub + 1) * l,
                0 < l,
        ;
    }
}

/// Normalize `v` to a direction of scale 1000 (fixed-point unit vector):
/// each coordinate is scaled by 1000 and divided by the integer square
/// root of the squared length, truncating toward zero. The zero vector
/// stays exactly zero.
pub fn normalize(v: Vec2) -> (r: Vec2)
    requires
        v.bounded(2 * COORD_LIMIT as int),
    ensures
        (r.x as int, r.y as int) == norm_unit(v.x as int, v.y as int),
        r.bounded(1000),
        r.is_nonzero() == v.is_nonzero(),
{
    let ax: u64 = if v.x >= 0 { v.x as u64 } else { (-v.x) as u64 };
    let ay: u64 = if v.y >= 0 { v.y as u64 } else { (-v.y) as u64 };
    assert(ax * ax <= 0x4000_0000_0000_0000 && ay * ay <= 0x4000_0000_0000_0000)
        by (nonlinear_arith)
        requires
            ax <= 2 * COORD_LIMIT,
            ay <= 2 * COORD_LIMIT,
            COORD_LIMIT == 1_073_741_824,
    ;
    let n: u64 = ax * ax + ay * ay;
    proof {
        assert(ax as int * ax as int == v.x as int * v.x as int) by (nonlinear_arith)
            requires
                ax == v.x || ax == -(v.x as int),
        ;
        assert(ay as int * ay as int == v.y as int * v.y as int) by (nonlinear_arith)
            requires
                ay == v.y || ay == -(v.y as int),
        ;
    }
    if n == 0 {
        assert(v.x == 0 && v.y == 0) by (nonlinear_arith)
            requires
                v.x as int * v.x as int + v.y as int * v.y as int == 0,
        ;
        return Vec2 { x: 0, y: 0 };
    }
    let l: u64 = isqrt(n);
    proof {
        assert(1 <= l) by (nonlinear_arith)
            requires
                1 <= n,
                0 <= l,
                (n as int) < (l as int + 1) * (l as int + 1),
        ;
        lemma_div_brackets(ax as int * 1000, l as int);
        lemma_div_brackets(ay as int * 1000, l as int);
    }
    let mx: u64 = ax * 1000 / l;
    let my: u64 = ay * 1000 / l;
    proof {
        assert(v.x != 0 || v.y != 0) by (nonlinear_arith)
            requires
                v.x as int * v.x as int + v.y as int * v.y as int == n,
                0 < n,
        ;
        lemma_norm_unit_bounds(v.x as int, v.y as int);
        lemma_isqrt_unique(n as int, l as int, isqrt_spec(n as int));
    }
    let rx: i64 = if v.x >= 0 { mx as i64 } else { -(mx as i64) };
    let ry: i64 = if v.y >= 0 { my as i64 } else { -(my as i64) };
    Vec2 { x: rx, y: ry }
}

/// The unit direction of `(x, y)`: a short vector is scaled up by 1000
/// before normalizing, so the rounding of `norm_unit` cannot overshoot
/// and any nonzero vector yields a near-unit direction. The zero vector
/// stays exactly zero.
pub open spec fn norm_dir(x: int, y: int) -> (int, int) {
    if -1_000_000 < x < 1_000_000 && -1_000_000 < y < 1_000_000 {
        norm_unit(1000 * x, 1000 * y)
    } else {
        norm_unit(x, y)
    }
}

/// Any nonzero vector, however short, has a near-unit direction.
pub proof fn lemma_norm_dir_unit(x: int, y: int)
    requires
        x != 0 || y != 0,
    ensures
        ({
            let (dx, dy) = norm_dir(x, y);
            UNIT_LO <= dx * dx + dy * dy <= UNIT_HI && -1000 <= dx <= 1000 && -1000 <= dy
                <= 1000
        }),
{
    if -1_000_000 < x < 1_000_000 && -1_000_000 < y < 1_000_000 {
        assert(810_000 <= (1000 * x) * (1000 * x) + (1000 * y) * (1000 * y))
            by (nonlinear_arith)
            requires
                x != 0 || y != 0,
        ;
        lemma_norm_unit_in_band(1000 * x, 1000 * y);
    } else {
        assert(810_000 <= x * x + y * y) by (nonlinear_arith)
            requires
                x <= -1_000_000 || 1_000_000 <= x || y <= -1_000_000 || 1_000_000 <= y,
        ;
        lemma_norm_unit_in_band(x, y);
    }
}

/// Normalizes `v` to a unit direction of scale 1000, scaling a short
/// vector up first so that any nonzero input lands in the unit band.
pub fn normalize_dir(v: Vec2) -> (r: Vec2)
    requires
        v.bounded(2 * COORD_LIMIT as int),
    ensures
        (r.x as int, r.y as int) == norm_dir(v.x as int, v.y as int),
        r.bounded(1000),
        r.is_nonzero() == v.is_nonzero(),
        v.is_nonzero() ==> r.is_near_unit(),
{
    proof {
        if v.is_nonzero() {
            lemma_norm_dir_unit(v.x as int, v.y as int);
        }
    }
    if -1_000_000 < v.x && v.x < 1_000_000 && -1_000_000 < v.y && v.y < 1_000_000 {
        normalize(Vec2 { x: v.x * 1000, y: v.y * 1000 })
    } else {
        normalize(v)
    }
}

/// The first coordinate of the complex product of `f` and `c`.
pub open spec fn cmul_x(f: Vec2, c: Vec2) -> int {
    f.x * c.x - f.y * c.y
}

/// The second coordinate of the complex product of `f` and `c`.
pub open spec fn cmul_y(f: Vec2, c: Vec2) -> int {
    f.x * c.y + f.y * c.x
}

/// The squared length of a complex product is the product of the squared
/// lengths of its factors.
pub proof fn lemma_cmul_len_sq(fx: int, fy: int, cx: int, cy: int)
    ensures
        (fx * cx - fy * cy) * (fx * cx - fy * cy) + (fx * cy + fy * cx) * (fx * cy + fy * cx)
            == (fx * fx + fy * fy) * (cx * cx + cy * cy),
{
    let a = fx * cx;
    let b = fy * cy;
    let c = fx * cy;
    let d = fy * cx;
    assert(a * b == c * d) by (nonlinear_arith)
        requires
            a == fx * cx,
            b == fy * cy,
            c == fx * cy,
            d == fy * cx,
    ;
    assert((a - b) * (a - b) + (c + d) * (c + d) == a * a + b * b + c * c + d * d - 2 * (a
        * b) + 2 * (c * d)) by (nonlinear_arith);
    assert(a * a == (fx * fx) * (cx * cx) && b * b == (fy * fy) * (cy * cy) && c * c == (
    fx * fx) * (cy * cy) && d * d == (fy * fy) * (cx * cx)) by (nonlinear_arith)
        requires
            a == fx * cx,
            b == fy * cy,
            c == fx * cy,
            d == fy * cx,
    ;
    let x2 = fx * fx;
    let y2 = fy * fy;
    let u2 = cx * cx;
    let v2 = cy * cy;
    assert(x2 * u2 + y2 * v2 + x2 * v2 + y2 * u2 == (x2 + y2) * (u2 + v2))
        by (nonlinear_arith);
}

/// Rotating a near-unit vector by any nonzero integer vector keeps the
/// squared length at least 810_000, so the product normalizes back into
/// the unit band.
pub proof fn lemma_cmul_in_band(f: Vec2, c: Vec2)
    requires
        UNIT_LO <= f.len_sq(),
        c.is_nonzero(),
    ensures
        810_000 <= cmul_x(f, c) * cmul_x(f, c) + cmul_y(f, c) * cmul_y(f, c),
{
    lemma_cmul_len_sq(f.x as int, f.y as int, c.x as int, c.y as int);
    assert(1 <= c.len_sq()) by (nonlinear_arith)
        requires
            c.x != 0 || c.y != 0,
    ;
    assert(995_000 <= f.len_sq() * c.len_sq()) by (nonlinear_arith)
        requires
            995_000 <= f.len_sq(),
            1 <= c.len_sq(),
    ;
}

/// The complex product of `f` and `c`: `f` rotated (and scaled) by `c`.
/// The factors must be small enough that every coordinate of the product
/// stays within twice the coordinate limit.
pub fn cmul(f: Vec2, c: Vec2) -> (r: Vec2)
    requires
        f.bounded(1001),
        vstd::math::abs(c.x as int) + vstd::math::abs(c.y as int) <= 2_100_000,
    ensures
        r.x == cmul_x(f, c),
        r.y == cmul_y(f, c),
        r.bounded(2 * COORD_LIMIT as int),
{
    proof {
        assert(-2_102_100_000 <= f.x as int * c.x as int <= 2_102_100_000
            && -2_102_100_000 <= f.y as int * c.y as int <= 2_102_100_000
            && -2_102_100_000 <= f.x as int * c.y as int <= 2_102_100_000
            && -2_102_100_000 <= f.y as int * c.x as int <= 2_102_100_000
            && -2_102_100_000 <= f.x as int * c.x as int - f.y as int * c.y as int
                <= 2_102_100_000
            && -2_102_100_000 <= f.x as int * c.y as int + f.y as int * c.x as int
                <= 2_102_100_000) by (nonlinear_arith)
            requires
                -1001 <= f.x <= 1001,
                -1001 <= f.y <= 1001,
                vstd::math::abs(c.x as int) + vstd::math::abs(c.y as int) <= 2_100_000,
        ;
    }
    Vec2 { x: f.x * c.x - f.y * c.y, y: f.x * c.y + f.y * c.x }
}

} // verus!
