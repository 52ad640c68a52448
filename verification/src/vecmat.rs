//! Fixed-point vectors, column-major matrices and the transforms the
//! renderer needs: floor division, integer square root, the view-space
//! depth of a point, and the perspective projection matrix.

use vstd::prelude::*;
use crate::ease::SCALE;

verus! {

/// Largest magnitude, in fixed-point units, of any scene coordinate or
/// clip-plane value the library accepts.
pub const COORD_MAX: i64 = 268435456;

/// Largest magnitude of a matrix entry accepted by the point transforms.
pub const ENTRY_MAX: i64 = 2147483648;

/// Cotangent of half the vertical field of view (45 degrees), fixed-point:
/// `1 / tan(22.5 deg) ~= 2.41421`, scaled by `SCALE`.
pub const FOV_COT: i64 = 2472;

/// A fixed-point 3-component vector.
#[derive(Clone, Copy, PartialEq, Eq, Structural)]
pub struct Vec3 {
    pub x: i64,
    pub y: i64,
    pub z: i64,
}

/// A fixed-point 4-component vector.
#[derive(Clone, Copy, PartialEq, Eq, Structural)]
pub struct Vec4 {
    pub x: i64,
    pub y: i64,
    pub z: i64,
    pub w: i64,
}

/// A fixed-point 4x4 matrix; `x`, `y`, `z`, `w` are its columns.
#[derive(Clone, Copy, PartialEq, Eq, Structural)]
pub struct Mat4 {
    pub x: Vec4,
    pub y: Vec4,
    pub z: Vec4,
    pub w: Vec4,
}

pub open spec fn coord_ok(v: int) -> bool {
    -COORD_MAX <= v <= COORD_MAX
}

impl Vec3 {
    pub open spec fn bounded(self) -> bool {
        coord_ok(self.x as int) && coord_ok(self.y as int) && coord_ok(self.z as int)
    }
}

pub open spec fn entry_ok(v: int) -> bool {
    -ENTRY_MAX <= v <= ENTRY_MAX
}

impl Vec4 {
    pub open spec fn bounded(self) -> bool {
        entry_ok(self.x as int) && entry_ok(self.y as int) && entry_ok(self.z as int)
            && entry_ok(self.w as int)
    }
}

impl Mat4 {
    /// All sixteen entries are small enough for the point transforms.
    pub open spec fn bounded(self) -> bool {
        self.x.bounded() && self.y.bounded() && self.z.bounded() && self.w.bounded()
    }

    /// The identity transform in fixed-point units.
    pub fn identity() -> (r: Mat4)
        ensures
            r == Mat4::identity_spec(),
            r.bounded(),
    {
        Mat4 {
            x: Vec4 { x: SCALE, y: 0, z: 0, w: 0 },
            y: Vec4 { x: 0, y: SCALE, z: 0, w: 0 },
            z: Vec4 { x: 0, y: 0, z: SCALE, w: 0 },
            w: Vec4 { x: 0, y: 0, z: 0, w: SCALE },
        }
    }

    pub open spec fn identity_spec() -> Mat4 {
        Mat4 {
            x: Vec4 { x: SCALE, y: 0, z: 0, w: 0 },
            y: Vec4 { x: 0, y: SCALE, z: 0, w: 0 },
            z: Vec4 { x: 0, y: 0, z: SCALE, w: 0 },
            w: Vec4 { x: 0, y: 0, z: 0, w: SCALE },
        }
    }
}

/// Bounds the product of two bounded factors.
pub proof fn lemma_mul_bound(a: int, b: int, ca: int, cb: int)
    by (nonlinear_arith)
    requires
        -ca <= a <= ca,
        -cb <= b <= cb,
    ensures
        -(ca * cb) <= a * b <= ca * cb,
{
}

/// Floor division with a positive divisor, exact on negative numerators as
/// well (Rust's `/` truncates toward zero instead).
pub fn div_floor(a: i64, b: i64) -> (r: i64)
    requires
        0 < b <= 2147483648,
        -4611686018427387904 <= a <= 4611686018427387904,
    ensures
        r == a as int / b as int,
        a >= 0 ==> 0 <= r <= a,
        a < 0 ==> a <= r <= 0,
{
    let ghost ai = a as int;
    let ghost bi = b as int;
    if a >= 0 {
        let r = a / b;
        proof {
            vstd::arithmetic::div_mod::lemma_div_pos_is_pos(ai, bi);
            assert(r <= ai) by (nonlinear_arith)
                requires r == ai / bi && 0 <= ai && 0 < bi;
        }
        r
    } else {
        let q = (0 - a + b - 1) / b;
        proof {
            let m = -ai;
            assert(q == (m + bi - 1) / bi);
            vstd::arithmetic::div_mod::lemma_fundamental_div_mod(m + bi - 1, bi);
            let r1 = (m + bi - 1) % bi;
            assert(0 <= r1 < bi);
            assert(m + bi - 1 == bi * q + r1);
            assert(ai == (-q) * bi + (bi - 1 - r1)) by (nonlinear_arith)
                requires ai == -m && m + bi - 1 == bi * q + r1;
            // a == (-q) * b + (b - 1 - r1), with the remainder in [0, b)
            vstd::arithmetic::div_mod::lemma_fundamental_div_mod_converse(
                ai, bi, -q, bi - 1 - r1);
            vstd::arithmetic::div_mod::lemma_div_pos_is_pos(m + bi - 1, bi);
            assert(q <= m) by (nonlinear_arith)
                requires q == (m + bi - 1) / bi && 1 <= m && 0 < bi;
        }
        -q
    }
}

/// Floor of the square root: the unique `r >= 0` with
/// `r * r <= n < (r + 1) * (r + 1)`.
pub open spec fn sqrt_floor(n: int) -> int {
    choose|r: int| 0 <= r && #[trigger] (r * r) <= n && n < (r + 1) * (r + 1)
}

/// The square-root characterization has exactly one solution, so any value
/// satisfying it is `sqrt_floor`.
pub proof fn lemma_sqrt_floor_unique(n: int, r: int)
    requires
        0 <= r,
        r * r <= n,
        n < (r + 1) * (r + 1),
    ensures
        sqrt_floor(n) == r,
{
    assert(0 <= r && r * r <= n && n < (r + 1) * (r + 1));
    let c = sqrt_floor(n);
    assert(0 <= c && c * c <= n && n < (c + 1) * (c + 1)) by {
        assert(exists|q: int| 0 <= q && #[trigger] (q * q) <= n && n < (q + 1) * (q + 1));
    }
    if c < r {
        assert((c + 1) * (c + 1) <= r * r) by (nonlinear_arith)
            requires 0 <= c && c < r;
        assert(false);
    }
    if r < c {
        assert((r + 1) * (r + 1) <= c * c) by (nonlinear_arith)
            requires 0 <= r && r < c;
        assert(false);
    }
}

/// Integer square root by bisection.
pub fn isqrt(n: i64) -> (r: i64)
    requires
        0 <= n < 4611686018427387904,
    ensures
        0 <= r <= 2147483648,
        r * r <= n,
        n < (r + 1) * (r + 1),
        r == sqrt_floor(n as int),
{
    let mut lo: i64 = 0;
    let mut hi: i64 = 2147483648;
    assert(n < hi * hi) by (nonlinear_arith)
        requires n < 4611686018427387904 && hi == 2147483648;
    while lo + 1 < hi
        invariant
            0 <= lo < hi <= 2147483648,
            lo * lo <= n,
            n < hi * hi,
            n < 4611686018427387904,
        decreases hi - lo,
    {
        let mid = lo + (hi - lo) / 2;
        assert(mid * mid < 4611686018427387904) by (nonlinear_arith)
            requires 0 <= mid < 2147483648;
        if mid * mid <= n {
            lo = mid;
        } else {
            hi = mid;
        }
    }
    proof {
        lemma_sqrt_floor_unique(n as int, lo as int);
    }
    lo
}

/// One affine component of a column-major point transform: the row picked
/// from columns `a`, `b`, `c` applied to `p`, plus the translation `d`.
pub open spec fn affine_comp(a: int, b: int, c: int, d: int, p: Vec3) -> int {
    (a * p.x + b * p.y + c * p.z) / (SCALE as int) + d
}

/// The view-space depth (z component) of a point under a bounded matrix.
pub open spec fn view_z_spec(m: Mat4, p: Vec3) -> int {
    affine_comp(m.x.z as int, m.y.z as int, m.z.z as int, m.w.z as int, p)
}

/// Transforms `p` (as a position, with homogeneous coordinate 1) and keeps
/// only the z component: the view-space depth used for draw ordering.
pub fn view_z(m: &Mat4, p: Vec3) -> (r: i64)
    requires
        m.bounded(),
        p.bounded(),
    ensures
        r == view_z_spec(*m, p),
{
    proof {
        lemma_mul_bound(m.x.z as int, p.x as int, ENTRY_MAX as int, COORD_MAX as int);
        lemma_mul_bound(m.y.z as int, p.y as int, ENTRY_MAX as int, COORD_MAX as int);
        lemma_mul_bound(m.z.z as int, p.z as int, ENTRY_MAX as int, COORD_MAX as int);
    }
    let n = m.x.z * p.x + m.y.z * p.y + m.z.z * p.z;
    let d = div_floor(n, SCALE);
    d + m.w.z
}

/// Transforms `p` as a position (homogeneous coordinate 1) by `m`,
/// producing the full 4-component result.
pub fn transform_point(m: &Mat4, p: Vec3) -> (r: Vec4)
    requires
        m.bounded(),
        p.bounded(),
    ensures
        r.x == affine_comp(m.x.x as int, m.y.x as int, m.z.x as int, m.w.x as int, p),
        r.y == affine_comp(m.x.y as int, m.y.y as int, m.z.y as int, m.w.y as int, p),
        r.z == affine_comp(m.x.z as int, m.y.z as int, m.z.z as int, m.w.z as int, p),
        r.w == affine_comp(m.x.w as int, m.y.w as int, m.z.w as int, m.w.w as int, p),
{
    proof {
        lemma_mul_bound(m.x.x as int, p.x as int, ENTRY_MAX as int, COORD_MAX as int);
        lemma_mul_bound(m.y.x as int, p.y as int, ENTRY_MAX as int, COORD_MAX as int);
        lemma_mul_bound(m.z.x as int, p.z as int, ENTRY_MAX as int, COORD_MAX as int);
        lemma_mul_bound(m.x.y as int, p.x as int, ENTRY_MAX as int, COORD_MAX as int);
        lemma_mul_bound(m.y.y as int, p.y as int, ENTRY_MAX as int, COORD_MAX as int);
        lemma_mul_bound(m.z.y as int, p.z as int, ENTRY_MAX as int, COORD_MAX as int);
        lemma_mul_bound(m.x.z as int, p.x as int, ENTRY_MAX as int, COORD_MAX as int);
        lemma_mul_bound(m.y.z as int, p.y as int, ENTRY_MAX as int, COORD_MAX as int);
        lemma_mul_bound(m.z.z as int, p.z as int, ENTRY_MAX as int, COORD_MAX as int);
        lemma_mul_bound(m.x.w as int, p.x as int, ENTRY_MAX as int, COORD_MAX as int);
        lemma_mul_bound(m.y.w as int, p.y as int, ENTRY_MAX as int, COORD_MAX as int);
        lemma_mul_bound(m.z.w as int, p.z as int, ENTRY_MAX as int, COORD_MAX as int);
    }
    let x = div_floor(m.x.x * p.x + m.y.x * p.y + m.z.x * p.z, SCALE) + m.w.x;
    let y = div_floor(m.x.y * p.x + m.y.y * p.y + m.z.y * p.z, SCALE) + m.w.y;
    let z = div_floor(m.x.z * p.x + m.y.z * p.y + m.z.z * p.z, SCALE) + m.w.z;
    let w = div_floor(m.x.w * p.x + m.y.w * p.y + m.z.w * p.z, SCALE) + m.w.w;
    Vec4 { x, y, z, w }
}

/// The perspective projection matrix for a 45-degree vertical field of
/// view, written entry by entry in fixed point: diagonal terms
/// `cot(fov/2) * height / width` and `cot(fov/2)`, the clip-space terms
/// `(near + far) / (near - far)` and `2 * far * near / (near - far)`, and
/// the `-1` that selects the perspective divide.
pub open spec fn is_perspective(m: Mat4, width: int, height: int, near: int, far: int) -> bool {
    &&& m.x == (Vec4 { x: (((FOV_COT as int) * height) / width) as i64, y: 0, z: 0, w: 0 })
    &&& m.y == (Vec4 { x: 0, y: FOV_COT, z: 0, w: 0 })
    &&& m.z.x == 0 && m.z.y == 0
    &&& m.z.z == ((-((near + far) * (SCALE as int))) / (far - near)) as i64
    &&& m.z.w == -SCALE
    &&& m.w.x == 0 && m.w.y == 0
    &&& m.w.z == ((-(2 * far * near)) / (far - near)) as i64
    &&& m.w.w == 0
}

/// Builds the perspective projection matrix.
pub fn perspective(width: i64, height: i64, near: i64, far: i64) -> (m: Mat4)
    requires
        1 <= width <= COORD_MAX,
        1 <= height <= COORD_MAX,
        coord_ok(near as int),
        coord_ok(far as int),
        near < far,
    ensures
        is_perspective(m, width as int, height as int, near as int, far as int),
{
    proof {
        lemma_mul_bound(2 * (far as int), near as int, 2 * (COORD_MAX as int), COORD_MAX as int);
    }
    let xx = div_floor(FOV_COT * height, width);
    let zz = div_floor(-((near + far) * SCALE), far - near);
    let wz = div_floor(-(2 * far * near), far - near);
    Mat4 {
        x: Vec4 { x: xx, y: 0, z: 0, w: 0 },
        y: Vec4 { x: 0, y: FOV_COT, z: 0, w: 0 },
        z: Vec4 { x: 0, y: 0, z: zz, w: -SCALE },
        w: Vec4 { x: 0, y: 0, z: wz, w: 0 },
    }
}

/// A multiple of a positive divisor divides exactly.
pub proof fn lemma_div_mul_exact(b: int, d: int)
    requires
        0 < d,
    ensures
        (b * d) / d == b,
{
    vstd::arithmetic::div_mod::lemma_fundamental_div_mod_converse(b * d, d, b, 0);
}

/// Dividing a value within `[-n, n]`, scaled up by `SCALE`, by `n` lands in
/// `[-SCALE, SCALE]`.
pub proof fn lemma_unit_div_bound(a: int, n: int)
    requires
        0 < n,
        -n <= a <= n,
    ensures
        -SCALE <= (a * (SCALE as int)) / n <= SCALE,
{
    let s = SCALE as int;
    lemma_div_mul_exact(s, n);
    lemma_div_mul_exact(-s, n);
    assert(a * s <= n * s && -(n * s) <= a * s) by (nonlinear_arith)
        requires -n <= a <= n && 0 < s;
    assert(s * n == n * s);
    assert((-s) * n == -(n * s));
    vstd::arithmetic::div_mod::lemma_div_is_ordered(a * s, s * n, n);
    vstd::arithmetic::div_mod::lemma_div_is_ordered((-s) * n, a * s, n);
}

/// Dividing a value within `[-c * SCALE, c * SCALE]` by `SCALE` lands in
/// `[-c, c]`.
pub proof fn lemma_div_scale_bound(a: int, c: int)
    requires
        0 <= c,
        -(c * (SCALE as int)) <= a <= c * (SCALE as int),
    ensures
        -c <= a / (SCALE as int) <= c,
{
    let s = SCALE as int;
    lemma_div_mul_exact(c, s);
    lemma_div_mul_exact(-c, s);
    vstd::arithmetic::div_mod::lemma_div_is_ordered(a, c * s, s);
    vstd::arithmetic::div_mod::lemma_div_is_ordered((-c) * s, a, s);
}

/// The view transform that looks from `eye` toward `center` with world-up
/// `(0, 1, 0)`, written entry by entry in fixed point. The forward axis is
/// the normalized difference, the side axis the normalized cross product of
/// forward and up, the corrected up axis their cross product; normalization
/// divides by the integer square root of the squared length, and a zero
/// length falls back to a fixed axis so the transform is total.
pub open spec fn is_look_at(m: Mat4, eye: Vec3, center: Vec3) -> bool {
    let s = SCALE as int;
    let dx = center.x - eye.x;
    let dy = center.y - eye.y;
    let dz = center.z - eye.z;
    let nf = sqrt_floor(dx * dx + dy * dy + dz * dz);
    let fx = if nf == 0 { 0int } else { (dx * s) / nf };
    let fy = if nf == 0 { 0int } else { (dy * s) / nf };
    let fz = if nf == 0 { s } else { (dz * s) / nf };
    let ns = sqrt_floor(fz * fz + fx * fx);
    let sx = if ns == 0 { s } else { ((-fz) * s) / ns };
    let sz = if ns == 0 { 0int } else { (fx * s) / ns };
    let ux = ((-sz) * fy) / s;
    let uy = (sz * fx - sx * fz) / s;
    let uz = (sx * fy) / s;
    &&& m.x.x == sx && m.x.y == ux && m.x.z == -fx && m.x.w == 0
    &&& m.y.x == 0 && m.y.y == uy && m.y.z == -fy && m.y.w == 0
    &&& m.z.x == sz && m.z.y == uz && m.z.z == -fz && m.z.w == 0
    &&& m.w.x == -((sx * eye.x + sz * eye.z) / s)
    &&& m.w.y == -((ux * eye.x + uy * eye.y + uz * eye.z) / s)
    &&& m.w.z == (fx * eye.x + fy * eye.y + fz * eye.z) / s
    &&& m.w.w == SCALE
}

/// Builds the view matrix that looks from `eye` toward `center` with
/// world-up `(0, 1, 0)`.
pub fn look_at(eye: Vec3, center: Vec3) -> (m: Mat4)
    requires
        eye.bounded(),
        center.bounded(),
    ensures
        is_look_at(m, eye, center),
        m.bounded(),
{
    let s = SCALE;
    let dx = center.x - eye.x;
    let dy = center.y - eye.y;
    let dz = center.z - eye.z;
    proof {
        lemma_mul_bound(dx as int, dx as int, 2 * COORD_MAX as int, 2 * COORD_MAX as int);
        lemma_mul_bound(dy as int, dy as int, 2 * COORD_MAX as int, 2 * COORD_MAX as int);
        lemma_mul_bound(dz as int, dz as int, 2 * COORD_MAX as int, 2 * COORD_MAX as int);
        assert(0 <= dx * dx && 0 <= dy * dy && 0 <= dz * dz) by (nonlinear_arith);
    }
    let nsq = dx * dx + dy * dy + dz * dz;
    let nf = isqrt(nsq);
    let fx: i64;
    let fy: i64;
    let fz: i64;
    if nf == 0 {
        fx = 0;
        fy = 0;
        fz = s;
    } else {
        proof {
            assert(-nf <= dx <= nf && -nf <= dy <= nf && -nf <= dz <= nf) by (nonlinear_arith)
                requires
                    0 <= nf,
                    dx * dx + dy * dy + dz * dz < (nf + 1) * (nf + 1);
            lemma_unit_div_bound(dx as int, nf as int);
            lemma_unit_div_bound(dy as int, nf as int);
            lemma_unit_div_bound(dz as int, nf as int);
        }
        fx = div_floor(dx * s, nf);
        fy = div_floor(dy * s, nf);
        fz = div_floor(dz * s, nf);
    }
    proof {
        lemma_mul_bound(fz as int, fz as int, SCALE as int, SCALE as int);
        lemma_mul_bound(fx as int, fx as int, SCALE as int, SCALE as int);
        assert(0 <= fz * fz && 0 <= fx * fx) by (nonlinear_arith);
    }
    let ssq = fz * fz + fx * fx;
    let ns = isqrt(ssq);
    let sx: i64;
    let sz: i64;
    if ns == 0 {
        sx = s;
        sz = 0;
    } else {
        proof {
            assert(-ns <= fz <= ns && -ns <= fx <= ns) by (nonlinear_arith)
                requires
                    0 <= ns,
                    0 <= fx * fx,
                    0 <= fz * fz,
                    fz * fz + fx * fx < (ns + 1) * (ns + 1);
            lemma_unit_div_bound(-(fz as int), ns as int);
            lemma_unit_div_bound(fx as int, ns as int);
        }
        sx = div_floor((-fz) * s, ns);
        sz = div_floor(fx * s, ns);
    }
    proof {
        lemma_mul_bound(-(sz as int), fy as int, SCALE as int, SCALE as int);
        lemma_mul_bound(sz as int, fx as int, SCALE as int, SCALE as int);
        lemma_mul_bound(sx as int, fz as int, SCALE as int, SCALE as int);
        lemma_mul_bound(sx as int, fy as int, SCALE as int, SCALE as int);
        lemma_div_scale_bound(-(sz as int) * (fy as int), SCALE as int);
        lemma_div_scale_bound((sz as int) * (fx as int) - (sx as int) * (fz as int),
            2 * SCALE as int);
        lemma_div_scale_bound((sx as int) * (fy as int), SCALE as int);
    }
    let ux = div_floor((-sz) * fy, s);
    let uy = div_floor(sz * fx - sx * fz, s);
    let uz = div_floor(sx * fy, s);
    proof {
        lemma_mul_bound(sx as int, eye.x as int, SCALE as int, COORD_MAX as int);
        lemma_mul_bound(sz as int, eye.z as int, SCALE as int, COORD_MAX as int);
        lemma_div_scale_bound((sx as int) * (eye.x as int) + (sz as int) * (eye.z as int),
            2 * COORD_MAX as int);
        lemma_mul_bound(ux as int, eye.x as int, 2 * SCALE as int, COORD_MAX as int);
        lemma_mul_bound(uy as int, eye.y as int, 2 * SCALE as int, COORD_MAX as int);
        lemma_mul_bound(uz as int, eye.z as int, 2 * SCALE as int, COORD_MAX as int);
        lemma_div_scale_bound(
            (ux as int) * (eye.x as int) + (uy as int) * (eye.y as int)
                + (uz as int) * (eye.z as int),
            6 * COORD_MAX as int);
        lemma_mul_bound(fx as int, eye.x as int, SCALE as int, COORD_MAX as int);
        lemma_mul_bound(fy as int, eye.y as int, SCALE as int, COORD_MAX as int);
        lemma_mul_bound(fz as int, eye.z as int, SCALE as int, COORD_MAX as int);
        lemma_div_scale_bound(
            (fx as int) * (eye.x as int) + (fy as int) * (eye.y as int)
                + (fz as int) * (eye.z as int),
            3 * COORD_MAX as int);
    }
    let ds = div_floor(sx * eye.x + sz * eye.z, s);
    let du = div_floor(ux * eye.x + uy * eye.y + uz * eye.z, s);
    let df = div_floor(fx * eye.x + fy * eye.y + fz * eye.z, s);
    Mat4 {
        x: Vec4 { x: sx, y: ux, z: -fx, w: 0 },
        y: Vec4 { x: 0, y: uy, z: -fy, w: 0 },
        z: Vec4 { x: sz, y: uz, z: -fz, w: 0 },
        w: Vec4 { x: -ds, y: -du, z: df, w: s },
    }
}

} // verus!
