use vstd::prelude::*;
use vstd::arithmetic::div_mod::{
    lemma_fundamental_div_mod, lemma_mod_bound, lemma_fundamental_div_mod_converse,
};

verus! {

/// A 2D vector in fixed-point integer units.
///
/// Positions are measured in sub-units, velocities in sub-units per
/// nanosecond, so that a displacement is exactly `velocity * nanoseconds`.
/// A direction, such as a contact normal, is held at [`NORMAL_SCALE`]: the
/// unit vector `u` as the integer vector nearest to `NORMAL_SCALE * u`.
#[derive(Clone, Copy, Debug, PartialEq, Eq, Structural)]
pub struct Vec2 {
    pub x: i64,
    pub y: i64,
}

impl View for Vec2 {
    type V = (int, int);

    open spec fn view(&self) -> (int, int) {
        (self.x as int, self.y as int)
    }
}

/// The length at which a unit direction is held.
pub const NORMAL_SCALE: i64 = 65_536;

/// Largest velocity component the response functions accept.
pub const RESPONSE_LIMIT: i64 = 1_099_511_627_776;

/// Longest push the push function accepts.
pub const PUSH_REACH: i64 = 4_398_046_511_104;

/// Dot product of two mathematical vectors.
pub open spec fn dot(a: (int, int), b: (int, int)) -> int {
    a.0 * b.0 + a.1 * b.1
}

pub open spec fn vadd(a: (int, int), b: (int, int)) -> (int, int) {
    (a.0 + b.0, a.1 + b.1)
}

pub open spec fn scale(a: (int, int), k: int) -> (int, int) {
    (a.0 * k, a.1 * k)
}

pub open spec fn abs(a: int) -> int {
    if a < 0 {
        -a
    } else {
        a
    }
}

/// Both components of `v` lie within `[-limit, limit]`.
pub open spec fn within(v: (int, int), limit: int) -> bool {
    -limit <= v.0 <= limit && -limit <= v.1 <= limit
}

/// Each component of `a` lies within `d` of that of `b`.
pub open spec fn near(a: (int, int), b: (int, int), d: int) -> bool {
    -d <= a.0 - b.0 <= d && -d <= a.1 - b.1 <= d
}

/// The larger magnitude of the two components.
pub open spec fn vmax(v: (int, int)) -> int {
    if abs(v.0) >= abs(v.1) {
        abs(v.0)
    } else {
        abs(v.1)
    }
}

/// A direction held at [`NORMAL_SCALE`]: components within the scale, and a
/// squared length within rounding of the scale's square.
pub open spec fn is_normal(n: (int, int)) -> bool {
    &&& within(n, NORMAL_SCALE as int)
    &&& NORMAL_SCALE * NORMAL_SCALE - 2 * NORMAL_SCALE <= dot(n, n)
    &&& dot(n, n) <= NORMAL_SCALE * NORMAL_SCALE + 2 * NORMAL_SCALE
}

/// `v` mirrored across the line orthogonal to `n`, `v - 2 (v . n) n / |n|^2`,
/// with each component's correction rounded down.
pub open spec fn reflect_spec(v: (int, int), n: (int, int)) -> (int, int) {
    (v.0 - 2 * ((dot(v, n) * n.0) / dot(n, n)), v.1 - 2 * ((dot(v, n) * n.1) / dot(n, n)))
}

/// `v` without its component along `n`, `v - (v . n) n / |n|^2`, with each
/// component's correction rounded down.
pub open spec fn slide_spec(v: (int, int), n: (int, int)) -> (int, int) {
    (v.0 - (dot(v, n) * n.0) / dot(n, n), v.1 - (dot(v, n) * n.1) / dot(n, n))
}

/// A displacement of length `k` in the direction of `n`,
/// `k * NORMAL_SCALE * n / |n|^2`, each component rounded down.
pub open spec fn push_spec(n: (int, int), k: int) -> (int, int) {
    ((n.0 * (k * NORMAL_SCALE)) / dot(n, n), (n.1 * (k * NORMAL_SCALE)) / dot(n, n))
}

proof fn lemma_floor(a: int, d: int)
    requires
        d > 0,
    ensures
        a == d * (a / d) + a % d,
        0 <= a % d < d,
{
    lemma_fundamental_div_mod(a, d);
    lemma_mod_bound(a, d);
}

proof fn lemma_square_bound(a: int, b: int)
    requires
        a * a <= b * b,
        b >= 0,
    ensures
        -b <= a <= b,
{
    if a > b {
        assert(a * a > b * b) by (nonlinear_arith)
            requires a > b, b >= 0;
    }
    if a < -b {
        assert(a * a > b * b) by (nonlinear_arith)
            requires a < -b, b >= 0;
    }
}

proof fn lemma_mul_abs(a: int, b: int, a_max: int, b_max: int)
    requires
        -a_max <= a <= a_max,
        -b_max <= b <= b_max,
    ensures
        -a_max * b_max <= a * b <= a_max * b_max,
{
    assert(-a_max * b_max <= a * b <= a_max * b_max) by (nonlinear_arith)
        requires -a_max <= a <= a_max, -b_max <= b <= b_max;
}

proof fn lemma_normal_facts(n: (int, int))
    requires
        is_normal(n),
    ensures
        dot(n, n) > 0,
        2 * dot(n, n) >= NORMAL_SCALE * NORMAL_SCALE,
        2 * abs(n.0) * (abs(n.0) + abs(n.1)) <= 3 * dot(n, n),
        2 * abs(n.1) * (abs(n.0) + abs(n.1)) <= 3 * dot(n, n),
        abs(n.0) + abs(n.1) <= 2 * NORMAL_SCALE,
{
    let (a, b) = n;
    let (x, y) = (abs(a), abs(b));
    assert(x * x == a * a && y * y == b * b) by (nonlinear_arith)
        requires x == abs(a), y == abs(b);
    assert(2 * x * (x + y) <= 3 * (x * x + y * y)) by (nonlinear_arith)
        requires x >= 0, y >= 0;
    assert(2 * y * (x + y) <= 3 * (x * x + y * y)) by (nonlinear_arith)
        requires x >= 0, y >= 0;
}

proof fn lemma_sq_diff(a: int, b: int)
    ensures
        (a - b) * (a - b) == a * a - 2 * (a * b) + b * b,
{
    assert((a - b) * (a - b) == a * a - 2 * (a * b) + b * b) by (nonlinear_arith);
}

/// Scaled by `|n|^2`, a response along `n` with factor `c` has squared
/// length `|n|^4 |v|^2 + (c^2 - 2c) |n|^2 (v . n)^2`.
proof fn lemma_response_identity(vi: int, vj: int, ni: int, nj: int, c: int)
    ensures
        ({
            let d = vi * ni + vj * nj;
            let nn = ni * ni + nj * nj;
            let x = nn * vi - c * d * ni;
            let y = nn * vj - c * d * nj;
            x * x + y * y == nn * nn * (vi * vi + vj * vj) + (c * c - 2 * c) * nn * (d * d)
        }),
{
    let d = vi * ni + vj * nj;
    let nn = ni * ni + nj * nj;
    let k = c * d;
    let a0 = nn * vi;
    let b0 = k * ni;
    let a1 = nn * vj;
    let b1 = k * nj;
    assert(c * d * ni == b0 && c * d * nj == b1) by (nonlinear_arith)
        requires k == c * d, b0 == k * ni, b1 == k * nj;
    lemma_sq_diff(a0, b0);
    lemma_sq_diff(a1, b1);
    assert(a0 * a0 + a1 * a1 == nn * nn * (vi * vi + vj * vj)) by (nonlinear_arith)
        requires a0 == nn * vi, a1 == nn * vj;
    assert(a0 * b0 == (nn * k) * (vi * ni)) by (nonlinear_arith)
        requires a0 == nn * vi, b0 == k * ni;
    assert(a1 * b1 == (nn * k) * (vj * nj)) by (nonlinear_arith)
        requires a1 == nn * vj, b1 == k * nj;
    assert((nn * k) * (vi * ni) + (nn * k) * (vj * nj) == (nn * k) * d) by (nonlinear_arith)
        requires d == vi * ni + vj * nj;
    assert(b0 * b0 + b1 * b1 == (k * k) * nn) by (nonlinear_arith)
        requires b0 == k * ni, b1 == k * nj, nn == ni * ni + nj * nj;
    assert((nn * k) * d == c * nn * (d * d)) by (nonlinear_arith)
        requires k == c * d;
    assert((k * k) * nn == c * c * nn * (d * d)) by (nonlinear_arith)
        requires k == c * d;
    assert(c * c * nn * (d * d) - 2 * (c * nn * (d * d)) == (c * c - 2 * c) * nn * (d * d))
        by (nonlinear_arith);
}

/// One component of a response with factor `c` is at most half again the
/// larger input component, plus two.
proof fn lemma_response_bound(vi: int, vj: int, ni: int, nj: int, c: int)
    requires
        is_normal((ni, nj)),
        c == 1 || c == 2,
    ensures
        ({
            let d = vi * ni + vj * nj;
            let nn = ni * ni + nj * nj;
            let q = (d * ni) / nn;
            let m = vmax((vi, vj));
            2 * abs(vi - c * q) <= 3 * m + 4
        }),
{
    lemma_normal_facts((ni, nj));
    let d = vi * ni + vj * nj;
    let nn = ni * ni + nj * nj;
    let q = (d * ni) / nn;
    let r = (d * ni) % nn;
    lemma_floor(d * ni, nn);
    let m = vmax((vi, vj));
    let x = nn * vi - c * d * ni;
    let y = nn * vj - c * d * nj;
    lemma_response_identity(vi, vj, ni, nj, c);
    assert(x * x + y * y == nn * nn * (vi * vi + vj * vj) + (c * c - 2 * c) * nn * (d * d));
    assert(c * c - 2 * c <= 0);
    assert((c * c - 2 * c) * nn * (d * d) <= 0) by (nonlinear_arith)
        requires c * c - 2 * c <= 0, nn > 0;
    assert(y * y >= 0) by (nonlinear_arith);
    assert(vi * vi + vj * vj <= 2 * (m * m)) by (nonlinear_arith)
        requires -m <= vi <= m, -m <= vj <= m;
    assert(nn * nn * (vi * vi + vj * vj) <= 2 * (nn * nn) * (m * m)) by (nonlinear_arith)
        requires vi * vi + vj * vj <= 2 * (m * m);
    assert((2 * x) * (2 * x) == 4 * (x * x)) by (nonlinear_arith);
    assert((3 * nn * m) * (3 * nn * m) == 9 * (nn * nn) * (m * m)) by (nonlinear_arith);
    assert((nn * nn) * (m * m) >= 0) by (nonlinear_arith);
    assert(x * x <= 2 * (nn * nn) * (m * m));
    assert((2 * x) * (2 * x) <= (3 * nn * m) * (3 * nn * m)) by (nonlinear_arith)
        requires x * x <= 2 * (nn * nn) * (m * m), (nn * nn) * (m * m) >= 0;
    assert(3 * nn * m >= 0) by (nonlinear_arith)
        requires nn > 0, m >= 0;
    lemma_square_bound(2 * x, 3 * nn * m);
    assert(nn * (vi - c * q) == x + c * r) by (nonlinear_arith)
        requires d * ni == nn * q + r, x == nn * vi - c * d * ni;
    assert(nn * (2 * abs(vi - c * q)) <= nn * (3 * m + 4)) by (nonlinear_arith)
        requires nn * (vi - c * q) == x + c * r, -(3 * nn * m) <= 2 * x <= 3 * nn * m, 0 <= r < nn,
            c == 1 || c == 2, nn > 0,
            abs(vi - c * q) == (if vi - c * q < 0 { -(vi - c * q) } else { vi - c * q });
    assert(2 * abs(vi - c * q) <= 3 * m + 4) by (nonlinear_arith)
        requires nn * (2 * abs(vi - c * q)) <= nn * (3 * m + 4), nn > 0;
}

/// Reflecting or sliding leaves no component larger than half again the
/// larger input component, plus two.
pub proof fn lemma_response_bounded(v: (int, int), n: (int, int))
    requires
        is_normal(n),
    ensures
        2 * vmax(reflect_spec(v, n)) <= 3 * vmax(v) + 4,
        2 * vmax(slide_spec(v, n)) <= 3 * vmax(v) + 4,
{
    let (v0, v1, n0, n1) = (v.0, v.1, n.0, n.1);
    assert(is_normal((n1, n0)));
    lemma_response_bound(v0, v1, n0, n1, 1);
    lemma_response_bound(v1, v0, n1, n0, 1);
    lemma_response_bound(v0, v1, n0, n1, 2);
    lemma_response_bound(v1, v0, n1, n0, 2);
    assert(v1 * n1 + v0 * n0 == dot(v, n));
    assert(n1 * n1 + n0 * n0 == dot(n, n));
    assert(vmax((v1, v0)) == vmax(v));
}

/// `|n|^2` times the dot product with `n` of `v` less the rounded-down
/// correction `(k n_i) / |n|^2` in each component.
proof fn lemma_correction_dot(v0: int, v1: int, n0: int, n1: int, k: int)
    requires
        n0 * n0 + n1 * n1 > 0,
    ensures
        ({
            let nn = n0 * n0 + n1 * n1;
            let q0 = (k * n0) / nn;
            let q1 = (k * n1) / nn;
            let r0 = (k * n0) % nn;
            let r1 = (k * n1) % nn;
            &&& nn * ((v0 - q0) * n0 + (v1 - q1) * n1) == nn * (v0 * n0 + v1 * n1) - k * nn + (r0 * n0
                + r1 * n1)
            &&& 0 <= r0 < nn
            &&& 0 <= r1 < nn
        }),
{
    let nn = n0 * n0 + n1 * n1;
    lemma_floor(k * n0, nn);
    lemma_floor(k * n1, nn);
    let q0 = (k * n0) / nn;
    let q1 = (k * n1) / nn;
    let r0 = (k * n0) % nn;
    let r1 = (k * n1) % nn;
    assert(nn * ((v0 - q0) * n0 + (v1 - q1) * n1) == nn * (v0 * n0 + v1 * n1) - ((nn * q0) * n0 + (
        nn * q1) * n1)) by (nonlinear_arith);
    assert((nn * q0) * n0 + (nn * q1) * n1 == (k * n0 - r0) * n0 + (k * n1 - r1) * n1);
    assert((k * n0 - r0) * n0 + (k * n1 - r1) * n1 == k * nn - (r0 * n0 + r1 * n1)) by (nonlinear_arith)
        requires nn == n0 * n0 + n1 * n1;
}

/// A remainder-weighted sum over a normal is below `|n|^2 (|n.x| + |n.y|)`.
proof fn lemma_remainder_sum(r0: int, r1: int, n0: int, n1: int, nn: int)
    requires
        0 <= r0 < nn,
        0 <= r1 < nn,
        nn > 0,
        nn == n0 * n0 + n1 * n1,
    ensures
        -(nn * (abs(n0) + abs(n1))) < r0 * n0 + r1 * n1 < nn * (abs(n0) + abs(n1)),
{
    let (a0, a1) = (abs(n0), abs(n1));
    assert(-(r0 * a0) <= r0 * n0 <= r0 * a0) by (nonlinear_arith)
        requires 0 <= r0, a0 == (if n0 < 0 { -n0 } else { n0 });
    assert(-(r1 * a1) <= r1 * n1 <= r1 * a1) by (nonlinear_arith)
        requires 0 <= r1, a1 == (if n1 < 0 { -n1 } else { n1 });
    assert(a0 + a1 > 0) by (nonlinear_arith)
        requires nn == n0 * n0 + n1 * n1, nn > 0, a0 == (if n0 < 0 { -n0 } else { n0 }),
            a1 == (if n1 < 0 { -n1 } else { n1 });
    assert(r0 * a0 + r1 * a1 < nn * (a0 + a1)) by (nonlinear_arith)
        requires 0 <= r0 < nn, 0 <= r1 < nn, a0 >= 0, a1 >= 0, a0 + a1 > 0;
}

/// After sliding along a normal, what is left along it is below rounding:
/// the dot product with `n` is less than `|n.x| + |n.y|` in magnitude, that
/// is under two velocity units once divided by the normal's length.
pub proof fn lemma_slide_orthogonal(v: (int, int), n: (int, int))
    requires
        is_normal(n),
    ensures
        abs(dot(slide_spec(v, n), n)) < abs(n.0) + abs(n.1),
{
    lemma_normal_facts(n);
    let (v0, v1, n0, n1) = (v.0, v.1, n.0, n.1);
    let nn = dot(n, n);
    let d = dot(v, n);
    lemma_correction_dot(v0, v1, n0, n1, d);
    let r0 = (d * n0) % nn;
    let r1 = (d * n1) % nn;
    lemma_remainder_sum(r0, r1, n0, n1, nn);
    let e = dot(slide_spec(v, n), n);
    assert(nn * e == r0 * n0 + r1 * n1) by (nonlinear_arith)
        requires d == v0 * n0 + v1 * n1, nn == n0 * n0 + n1 * n1,
            nn * e == nn * (v0 * n0 + v1 * n1) - d * nn + (r0 * n0 + r1 * n1);
    let b = abs(n0) + abs(n1);
    assert(-b < e < b) by (nonlinear_arith)
        requires nn * e == r0 * n0 + r1 * n1, -(nn * b) < r0 * n0 + r1 * n1 < nn * b, nn > 0;
}

/// Reflecting twice across the same normal gives back the original
/// velocity up to rounding: each component within ten units.
pub proof fn lemma_reflect_involution(v: (int, int), n: (int, int))
    requires
        is_normal(n),
    ensures
        near(reflect_spec(reflect_spec(v, n), n), v, 10),
{
    lemma_normal_facts(n);
    let (v0, v1, n0, n1) = (v.0, v.1, n.0, n.1);
    let nn = dot(n, n);
    let d = dot(v, n);
    lemma_floor(d * n0, nn);
    lemma_floor(d * n1, nn);
    let (q0, r0) = ((d * n0) / nn, (d * n0) % nn);
    let (q1, r1) = ((d * n1) / nn, (d * n1) % nn);
    let w = reflect_spec(v, n);
    let (w0, w1) = (v0 - 2 * q0, v1 - 2 * q1);
    assert(w == (w0, w1));
    let e = dot(w, n);
    assert(e == w0 * n0 + w1 * n1);
    lemma_floor(e * n0, nn);
    lemma_floor(e * n1, nn);
    let (p0, t0) = ((e * n0) / nn, (e * n0) % nn);
    let (p1, t1) = ((e * n1) / nn, (e * n1) % nn);
    let z = reflect_spec(w, n);
    assert(z == (w0 - 2 * p0, w1 - 2 * p1));
    let s = r0 * n0 + r1 * n1;
    // |n|^2 (w . n) = -|n|^2 (v . n) + 2 s
    assert(e == d - 2 * (q0 * n0 + q1 * n1)) by (nonlinear_arith)
        requires d == v0 * n0 + v1 * n1, e == w0 * n0 + w1 * n1, w0 == v0 - 2 * q0, w1 == v1 - 2 * q1;
    assert(nn * (q0 * n0 + q1 * n1) == (nn * q0) * n0 + (nn * q1) * n1) by (nonlinear_arith);
    assert((nn * q0) * n0 + (nn * q1) * n1 == (d * n0 - r0) * n0 + (d * n1 - r1) * n1);
    assert((d * n0 - r0) * n0 + (d * n1 - r1) * n1 == d * nn - s) by (nonlinear_arith)
        requires nn == n0 * n0 + n1 * n1, s == r0 * n0 + r1 * n1;
    let ne = nn * e;
    assert(ne == nn * d - 2 * (nn * (q0 * n0 + q1 * n1))) by (nonlinear_arith)
        requires ne == nn * e, e == d - 2 * (q0 * n0 + q1 * n1);
    assert(d * nn == nn * d) by (nonlinear_arith);
    assert(ne == -(nn * d) + 2 * s);
    lemma_remainder_sum(r0, r1, n0, n1, nn);
    let b = abs(n0) + abs(n1);
    lemma_involution_component(v0, q0, p0, r0, t0, n0, d, e, s, nn, b);
    lemma_involution_component(v1, q1, p1, r1, t1, n1, d, e, s, nn, b);
}

proof fn lemma_involution_component(
    vi: int,
    qi: int,
    pi: int,
    ri: int,
    ti: int,
    ni: int,
    d: int,
    e: int,
    s: int,
    nn: int,
    b: int,
)
    requires
        d * ni == nn * qi + ri,
        e * ni == nn * pi + ti,
        0 <= ri < nn,
        0 <= ti < nn,
        nn > 0,
        nn * e == -(nn * d) + 2 * s,
        -(nn * b) < s < nn * b,
        2 * abs(ni) * b <= 3 * nn,
    ensures
        -10 <= (vi - 2 * qi - 2 * pi) - vi <= 10,
{
    // |n|^4 times the drift is 2 |n|^2 (ri + ti) - 4 ni s
    let x = nn * qi;
    let y = nn * pi;
    assert(x == d * ni - ri);
    assert(y == e * ni - ti);
    assert(nn * y == (nn * e) * ni - nn * ti) by (nonlinear_arith)
        requires y == e * ni - ti;
    assert((nn * e) * ni == -(nn * (d * ni)) + 2 * (s * ni)) by (nonlinear_arith)
        requires nn * e == -(nn * d) + 2 * s;
    assert(nn * x == nn * (d * ni) - nn * ri) by (nonlinear_arith)
        requires x == d * ni - ri;
    assert(nn * x + nn * y == 2 * (s * ni) - nn * ri - nn * ti) by (nonlinear_arith)
        requires nn * y == (nn * e) * ni - nn * ti, (nn * e) * ni == -(nn * (d * ni)) + 2 * (s * ni),
            nn * x == nn * (d * ni) - nn * ri;
    assert(-(2 * (nn * b) * abs(ni)) <= 2 * (s * ni) <= 2 * (nn * b) * abs(ni)) by (nonlinear_arith)
        requires -(nn * b) < s < nn * b, abs(ni) == (if ni < 0 { -ni } else { ni });
    assert(2 * (nn * b) * abs(ni) <= 3 * (nn * nn)) by (nonlinear_arith)
        requires 2 * abs(ni) * b <= 3 * nn, nn > 0;
    assert(0 <= nn * ri < nn * nn && 0 <= nn * ti < nn * nn) by (nonlinear_arith)
        requires 0 <= ri < nn, 0 <= ti < nn, nn > 0;
    assert(nn * nn * (qi + pi) == nn * x + nn * y) by (nonlinear_arith)
        requires x == nn * qi, y == nn * pi;
    assert(-5 <= qi + pi <= 3) by (nonlinear_arith)
        requires nn * nn * (qi + pi) == nn * x + nn * y,
            nn * x + nn * y == 2 * (s * ni) - nn * ri - nn * ti,
            -(3 * (nn * nn)) <= 2 * (s * ni) <= 3 * (nn * nn), 0 <= nn * ri < nn * nn,
            0 <= nn * ti < nn * nn, nn > 0;
}

/// Pushing by `k` along a normal moves the dot product with it by at least
/// `k * NORMAL_SCALE` less rounding, and moves no component by more than
/// `2 k + 1`.
pub proof fn lemma_push(n: (int, int), k: int)
    requires
        is_normal(n),
        k >= 0,
    ensures
        dot(push_spec(n, k), n) > k * NORMAL_SCALE - (abs(n.0) + abs(n.1)),
        dot(push_spec(n, k), n) >= k * NORMAL_SCALE - 2 * NORMAL_SCALE,
        within(push_spec(n, k), 2 * k + 1),
{
    lemma_normal_facts(n);
    let (n0, n1) = (n.0, n.1);
    let nn = dot(n, n);
    let ks = k * NORMAL_SCALE;
    lemma_floor(n0 * ks, nn);
    lemma_floor(n1 * ks, nn);
    assert(n0 * ks == ks * n0 && n1 * ks == ks * n1) by (nonlinear_arith);
    lemma_correction_dot(0, 0, n0, n1, ks);
    let (q0, r0) = ((ks * n0) / nn, (ks * n0) % nn);
    let (q1, r1) = ((ks * n1) / nn, (ks * n1) % nn);
    let p = push_spec(n, k);
    assert(p == (q0, q1));
    lemma_remainder_sum(r0, r1, n0, n1, nn);
    let b = abs(n0) + abs(n1);
    assert(nn * ((0 - q0) * n0 + (0 - q1) * n1) == nn * (0 * n0 + 0 * n1) - ks * nn + (r0 * n0 + r1
        * n1));
    assert(nn * dot(p, n) == ks * nn - (r0 * n0 + r1 * n1)) by (nonlinear_arith)
        requires nn * ((0 - q0) * n0 + (0 - q1) * n1) == nn * (0 * n0 + 0 * n1) - ks * nn + (r0 * n0
            + r1 * n1), p == (q0, q1), dot(p, n) == p.0 * n0 + p.1 * n1;
    assert(dot(p, n) > ks - b) by (nonlinear_arith)
        requires nn * dot(p, n) == ks * nn - (r0 * n0 + r1 * n1), r0 * n0 + r1 * n1 < nn * b, nn > 0;
    // size of each component
    let sc = NORMAL_SCALE as int;
    lemma_push_component(n0, ks, k, q0, r0, nn, sc);
    lemma_push_component(n1, ks, k, q1, r1, nn, sc);
}

proof fn lemma_push_component(ni: int, ks: int, k: int, qi: int, ri: int, nn: int, sc: int)
    requires
        ks == k * sc,
        k >= 0,
        sc > 0,
        -sc <= ni <= sc,
        ks * ni == nn * qi + ri,
        0 <= ri < nn,
        2 * nn >= sc * sc,
    ensures
        -(2 * k + 1) <= qi <= 2 * k + 1,
{
    assert(-(k * (sc * sc)) <= ks * ni <= k * (sc * sc)) by (nonlinear_arith)
        requires ks == k * sc, k >= 0, -sc <= ni <= sc;
    assert(k * (sc * sc) <= 2 * k * nn) by (nonlinear_arith)
        requires k >= 0, 2 * nn >= sc * sc;
    assert(-(2 * k + 1) <= qi <= 2 * k + 1) by (nonlinear_arith)
        requires nn * qi == ks * ni - ri, -(k * (sc * sc)) <= ks * ni <= k * (sc * sc),
            k * (sc * sc) <= 2 * k * nn, 0 <= ri < nn, nn > 0;
}

/// A bounded component times a bounded duration stays bounded.
pub proof fn lemma_mul_bounded(a: int, t: int, a_max: int, t_max: int)
    requires
        -a_max <= a <= a_max,
        0 <= t <= t_max,
    ensures
        -a_max * t_max <= a * t <= a_max * t_max,
{
    assert(-a_max * t <= a * t <= a_max * t) by (nonlinear_arith)
        requires -a_max <= a <= a_max, 0 <= t;
    assert(-a_max * t_max <= -a_max * t && a_max * t <= a_max * t_max) by (nonlinear_arith)
        requires 0 <= t <= t_max, 0 <= a_max;
}

/// `a / b` rounded down.
fn floor_div(a: i128, b: i128) -> (q: i128)
    requires
        b > 0,
        -0x1_0000_0000_0000_0000_0000 <= a <= 0x1_0000_0000_0000_0000_0000,
        b <= 0x1_0000_0000_0000_0000,
    ensures
        q == a / b,
{
    if a >= 0 {
        let q = ((a as u128) / (b as u128)) as i128;
        proof {
            lemma_floor(a as int, b as int);
            lemma_floor(q as int, 1);
            lemma_fundamental_div_mod_converse(a as int, b as int, a as int / b as int, a as int % b as int);
        }
        q
    } else {
        let m = (-a) as u128;
        let bb = b as u128;
        let c = (m + (bb - 1)) / bb;
        proof {
            let mi = m as int;
            let bi = b as int;
            let ci = c as int;
            lemma_floor(mi + bi - 1, bi);
            let r = (mi + bi - 1) % bi;
            assert(mi + bi - 1 == bi * ci + r);
            assert((a as int) == (-ci) * bi + (bi - 1 - r)) by (nonlinear_arith)
                requires mi + bi - 1 == bi * ci + r, a as int == -mi;
            lemma_fundamental_div_mod_converse(a as int, bi, -ci, bi - 1 - r);
        }
        -(c as i128)
    }
}

impl Vec2 {
    pub fn new(x: i64, y: i64) -> (r: Vec2)
        ensures
            r.x == x,
            r.y == y,
    {
        Vec2 { x, y }
    }

    /// Whether `self` is a direction held at [`NORMAL_SCALE`].
    pub fn is_normal(&self) -> (r: bool)
        ensures
            r == is_normal(self@),
    {
        if !self.is_within(NORMAL_SCALE) {
            return false;
        }
        proof {
            lemma_mul_abs(self.x as int, self.x as int, NORMAL_SCALE as int, NORMAL_SCALE as int);
            lemma_mul_abs(self.y as int, self.y as int, NORMAL_SCALE as int, NORMAL_SCALE as int);
        }
        let nn = self.x * self.x + self.y * self.y;
        NORMAL_SCALE * NORMAL_SCALE - 2 * NORMAL_SCALE <= nn && nn <= NORMAL_SCALE * NORMAL_SCALE + 2
            * NORMAL_SCALE
    }

    /// Whether both components lie within `[-limit, limit]`.
    pub fn is_within(&self, limit: i64) -> (r: bool)
        requires
            limit >= 0,
        ensures
            r == within(self@, limit as int),
    {
        -limit <= self.x && self.x <= limit && -limit <= self.y && self.y <= limit
    }
}

/// `|n|^2` and `v . n` for a normal and a bounded vector.
fn dots(v: Vec2, n: Vec2) -> (r: (i128, i128))
    requires
        is_normal(n@),
        within(v@, RESPONSE_LIMIT as int),
    ensures
        r.0 == dot(n@, n@),
        r.1 == dot(v@, n@),
        -0x1_0000_0000_0000_0000 <= r.1 <= 0x1_0000_0000_0000_0000,
        0 < r.0 <= 0x1_0000_0000_0000,
{
    proof {
        lemma_normal_facts(n@);
        lemma_mul_abs(v.x as int, n.x as int, RESPONSE_LIMIT as int, NORMAL_SCALE as int);
        lemma_mul_abs(v.y as int, n.y as int, RESPONSE_LIMIT as int, NORMAL_SCALE as int);
        lemma_mul_abs(n.x as int, n.x as int, NORMAL_SCALE as int, NORMAL_SCALE as int);
        lemma_mul_abs(n.y as int, n.y as int, NORMAL_SCALE as int, NORMAL_SCALE as int);
    }
    let (nx, ny) = (n.x as i128, n.y as i128);
    (nx * nx + ny * ny, v.x as i128 * nx + v.y as i128 * ny)
}

/// The rounded-down correction `(d n_i) / |n|^2`.
fn correction(d: i128, ni: i64, nn: i128) -> (q: i128)
    requires
        -0x1_0000_0000_0000_0000 <= d <= 0x1_0000_0000_0000_0000,
        -NORMAL_SCALE <= ni <= NORMAL_SCALE,
        0 < nn <= 0x1_0000_0000_0000,
    ensures
        q == (d * ni) / (nn as int),
{
    proof {
        lemma_mul_abs(d as int, ni as int, 0x1_0000_0000_0000_0000, NORMAL_SCALE as int);
    }
    floor_div(d * ni as i128, nn)
}

/// Velocity response that mirrors `v` across the contact normal `n`
/// (used for bouncing projectiles).
pub fn reflect(v: Vec2, n: Vec2) -> (r: Vec2)
    requires
        is_normal(n@),
        within(v@, RESPONSE_LIMIT as int),
    ensures
        r@ == reflect_spec(v@, n@),
        2 * vmax(r@) <= 3 * vmax(v@) + 4,
{
    let (nn, d) = dots(v, n);
    let qx = correction(d, n.x, nn);
    let qy = correction(d, n.y, nn);
    proof {
        lemma_response_bounded(v@, n@);
    }
    Vec2 { x: (v.x as i128 - 2 * qx) as i64, y: (v.y as i128 - 2 * qy) as i64 }
}

/// Velocity response that drops the component of `v` along the contact
/// normal `n` and keeps the tangential one (used for sliding along walls).
pub fn slide(v: Vec2, n: Vec2) -> (r: Vec2)
    requires
        is_normal(n@),
        within(v@, RESPONSE_LIMIT as int),
    ensures
        r@ == slide_spec(v@, n@),
        2 * vmax(r@) <= 3 * vmax(v@) + 4,
{
    let (nn, d) = dots(v, n);
    let qx = correction(d, n.x, nn);
    let qy = correction(d, n.y, nn);
    proof {
        lemma_response_bounded(v@, n@);
    }
    Vec2 { x: (v.x as i128 - qx) as i64, y: (v.y as i128 - qy) as i64 }
}

/// A displacement of length `k` in the direction of the normal `n`.
pub fn push(n: Vec2, k: i64) -> (r: Vec2)
    requires
        is_normal(n@),
        0 <= k <= PUSH_REACH,
    ensures
        r@ == push_spec(n@, k as int),
        within(r@, 2 * k + 1),
{
    proof {
        lemma_normal_facts(n@);
        lemma_push(n@, k as int);
        lemma_mul_abs(n.x as int, n.x as int, NORMAL_SCALE as int, NORMAL_SCALE as int);
        lemma_mul_abs(n.y as int, n.y as int, NORMAL_SCALE as int, NORMAL_SCALE as int);
    }
    let nn = n.x as i128 * n.x as i128 + n.y as i128 * n.y as i128;
    let ks = k as i128 * NORMAL_SCALE as i128;
    proof {
        lemma_mul_abs(n.x as int, ks as int, NORMAL_SCALE as int, PUSH_REACH * NORMAL_SCALE);
        lemma_mul_abs(n.y as int, ks as int, NORMAL_SCALE as int, PUSH_REACH * NORMAL_SCALE);
        assert(n.x as int * (k * NORMAL_SCALE) == n.x as int * ks as int);
    }
    let px = floor_div(n.x as i128 * ks, nn);
    let py = floor_div(n.y as i128 * ks, nn);
    Vec2 { x: px as i64, y: py as i64 }
}

/// Component-wise sum of two vectors.
pub fn plus(a: Vec2, b: Vec2) -> (r: Vec2)
    requires
        i64::MIN <= a.x + b.x <= i64::MAX,
        i64::MIN <= a.y + b.y <= i64::MAX,
    ensures
        r@ == vadd(a@, b@),
{
    Vec2 { x: a.x + b.x, y: a.y + b.y }
}

/// A point in the world.
#[derive(Clone, Copy, Debug, PartialEq, Eq, Structural)]
pub struct Position {
    pub p: Vec2,
}

impl Position {

    pub fn new(x: i64, y: i64) -> (r: Position)
        ensures
            r.p.x == x,
            r.p.y == y,
    {
        Position { p: Vec2 { x, y } }
    }
}

/// A rate of motion, in sub-units per nanosecond.
#[derive(Clone, Copy, Debug, PartialEq, Eq, Structural)]
pub struct Velocity {
    pub v: Vec2,
}

impl Velocity {

    pub fn new(x: i64, y: i64) -> (r: Velocity)
        ensures
            r.v.x == x,
            r.v.y == y,
    {
        Velocity { v: Vec2 { x, y } }
    }
}

} // verus!
