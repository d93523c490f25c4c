use vstd::prelude::*;
use crate::vector::Vec3;

verus! {

/// Number of scattering choices: the 48 symmetries of the cube (6 axis
/// permutations times 8 sign patterns) applied to the relative velocity.
pub const SCATTER_CHOICES: u64 = 48;

pub open spec fn flip(v: int, bit: int) -> int {
    if bit == 1 {
        -v
    } else {
        v
    }
}

/// Symmetry `c` of the cube applied to `g`: axis permutation `c / 8`, then the
/// signs of the three components flipped by the bits of `c % 8`.
pub open spec fn rotate(g: (int, int, int), c: int) -> (int, int, int) {
    let p = c / 8;
    let sg = c % 8;
    let t = if p == 0 {
        (g.0, g.1, g.2)
    } else if p == 1 {
        (g.0, g.2, g.1)
    } else if p == 2 {
        (g.1, g.0, g.2)
    } else if p == 3 {
        (g.1, g.2, g.0)
    } else if p == 4 {
        (g.2, g.0, g.1)
    } else {
        (g.2, g.1, g.0)
    };
    (flip(t.0, sg % 2), flip(t.1, (sg / 2) % 2), flip(t.2, (sg / 4) % 2))
}

/// Within twice the span of an `i64`: sums and differences of two `i64`.
pub open spec fn wide(v: int) -> bool {
    -(i64::MAX as int - i64::MIN as int) - 1 <= v <= i64::MAX as int - i64::MIN as int + 1
}

pub open spec fn in_i64(v: int) -> bool {
    i64::MIN <= v <= i64::MAX
}

/// One axis: the new velocities `(s + t) / 2` and `(s - t) / 2` are whole
/// numbers and fit an `i64`.
pub open spec fn axis_usable(s: int, g: int, t: int) -> bool {
    &&& (t - g) % 2 == 0
    &&& in_i64((s + t) / 2)
    &&& in_i64((s - t) / 2)
}

pub open spec fn rotation_usable(s: (int, int, int), g: (int, int, int), c: int) -> bool {
    let t = rotate(g, c);
    axis_usable(s.0, g.0, t.0) && axis_usable(s.1, g.1, t.1) && axis_usable(s.2, g.2, t.2)
}

pub open spec fn sum3(a: Vec3, b: Vec3) -> (int, int, int) {
    (a.x + b.x, a.y + b.y, a.z + b.z)
}

pub open spec fn diff3(a: Vec3, b: Vec3) -> (int, int, int) {
    (a.x - b.x, a.y - b.y, a.z - b.z)
}

/// Post-collision relative velocity for choice `c`: the symmetry `c` when its
/// result stays on the integer lattice and in range, else its sign pattern
/// alone, which always does.
pub open spec fn relative_after(va: Vec3, vb: Vec3, c: int) -> (int, int, int) {
    if rotation_usable(sum3(va, vb), diff3(va, vb), c) {
        rotate(diff3(va, vb), c)
    } else {
        rotate(diff3(va, vb), c % 8)
    }
}

/// Velocities of two equal-mass particles after an elastic collision whose
/// centre-of-mass velocity is kept and whose relative velocity becomes
/// `relative_after(va, vb, c)`.
pub open spec fn collision_spec(va: Vec3, vb: Vec3, c: int) -> (Vec3, Vec3) {
    let s = sum3(va, vb);
    let t = relative_after(va, vb, c);
    (
        Vec3 { x: ((s.0 + t.0) / 2) as i64, y: ((s.1 + t.1) / 2) as i64, z: ((s.2 + t.2) / 2) as i64 },
        Vec3 { x: ((s.0 - t.0) / 2) as i64, y: ((s.1 - t.1) / 2) as i64, z: ((s.2 - t.2) / 2) as i64 },
    )
}

proof fn lemma_flip_square(v: int, b: int)
    ensures
        flip(v, b) * flip(v, b) == v * v,
{
    if b == 1 {
        assert((-v) * (-v) == v * v) by (nonlinear_arith);
    }
}

proof fn lemma_rotate_norm(g: (int, int, int), c: int)
    requires
        0 <= c < 48,
    ensures
        ({
            let t = rotate(g, c);
            t.0 * t.0 + t.1 * t.1 + t.2 * t.2 == g.0 * g.0 + g.1 * g.1 + g.2 * g.2
        }),
{
    let sg = c % 8;
    lemma_flip_square(g.0, sg % 2);
    lemma_flip_square(g.1, sg % 2);
    lemma_flip_square(g.2, sg % 2);
    lemma_flip_square(g.0, (sg / 2) % 2);
    lemma_flip_square(g.1, (sg / 2) % 2);
    lemma_flip_square(g.2, (sg / 2) % 2);
    lemma_flip_square(g.0, (sg / 4) % 2);
    lemma_flip_square(g.1, (sg / 4) % 2);
    lemma_flip_square(g.2, (sg / 4) % 2);
}

/// The sign pattern alone always keeps the velocities on the lattice and in range.
proof fn lemma_signs_usable(va: Vec3, vb: Vec3, c: int)
    requires
        0 <= c < 8,
    ensures
        rotation_usable(sum3(va, vb), diff3(va, vb), c),
{
}

/// One axis of an exchange: if `a + b == s`, `a - b == t`, then
/// `2 (a^2 + b^2) == s^2 + t^2`.
proof fn lemma_axis_energy(s: int, t: int)
    requires
        (s + t) % 2 == 0,
    ensures
        (s + t) / 2 + (s - t) / 2 == s,
        2 * (((s + t) / 2) * ((s + t) / 2) + ((s - t) / 2) * ((s - t) / 2)) == s * s + t * t,
{
    let a = (s + t) / 2;
    let b = (s - t) / 2;
    assert(2 * a == s + t);
    assert(2 * b == s - t);
    assert(2 * (a * a + b * b) == (a + b) * (a + b) + (a - b) * (a - b)) by (nonlinear_arith);
}

/// Conservation in one elastic collision of equal masses: the sum of the
/// velocities (total momentum over the mass) and the sum of the squared speeds
/// (twice the kinetic energy over the mass) are exactly the same after it.
#[verifier::rlimit(50)]
pub proof fn lemma_collision_conserves(va: Vec3, vb: Vec3, c: int)
    requires
        0 <= c < SCATTER_CHOICES,
    ensures
        ({
            let (ra, rb) = collision_spec(va, vb, c);
            &&& ra.x + rb.x == va.x + vb.x
            &&& ra.y + rb.y == va.y + vb.y
            &&& ra.z + rb.z == va.z + vb.z
            &&& ra.norm2() + rb.norm2() == va.norm2() + vb.norm2()
        }),
{
    let s = sum3(va, vb);
    let g = diff3(va, vb);
    lemma_signs_usable(va, vb, c % 8);
    let c2 = if rotation_usable(s, g, c) { c } else { c % 8 };
    let t = rotate(g, c2);
    assert(t == relative_after(va, vb, c));
    assert(rotation_usable(s, g, c2));
    lemma_rotate_norm(g, c2);
    lemma_axis_energy(s.0, t.0);
    lemma_axis_energy(s.1, t.1);
    lemma_axis_energy(s.2, t.2);
    lemma_axis_energy(s.0, g.0);
    lemma_axis_energy(s.1, g.1);
    lemma_axis_energy(s.2, g.2);
    assert((s.0 + g.0) / 2 == va.x && (s.0 - g.0) / 2 == vb.x);
    assert((s.1 + g.1) / 2 == va.y && (s.1 - g.1) / 2 == vb.y);
    assert((s.2 + g.2) / 2 == va.z && (s.2 - g.2) / 2 == vb.z);
}

/// `h / 2` when `h` is even.
fn half_if_even(h: i128) -> (r: Option<i128>)
    ensures
        r is Some <==> h % 2 == 0,
        r is Some ==> r->Some_0 == h / 2,
{
    if h >= 0 {
        let u = h as u128;
        if u % 2 == 0 {
            Some((u / 2) as i128)
        } else {
            None
        }
    } else {
        if h == i128::MIN {
            return Some(i128::MIN / 2);
        }
        let u = (-h) as u128;
        if u % 2 == 0 {
            Some(-((u / 2) as i128))
        } else {
            None
        }
    }
}

fn flip_exec(v: i128, bit: u64) -> (r: i128)
    requires
        wide(v as int),
    ensures
        r == flip(v as int, bit as int),
{
    if bit == 1 {
        -v
    } else {
        v
    }
}

fn rotate_exec(g: (i128, i128, i128), c: u64) -> (r: (i128, i128, i128))
    requires
        c < 48,
        wide(g.0 as int),
        wide(g.1 as int),
        wide(g.2 as int),
    ensures
        (r.0 as int, r.1 as int, r.2 as int) == rotate((g.0 as int, g.1 as int, g.2 as int), c as int),
{
    let p = c / 8;
    let sg = c % 8;
    let t = if p == 0 {
        (g.0, g.1, g.2)
    } else if p == 1 {
        (g.0, g.2, g.1)
    } else if p == 2 {
        (g.1, g.0, g.2)
    } else if p == 3 {
        (g.1, g.2, g.0)
    } else if p == 4 {
        (g.2, g.0, g.1)
    } else {
        (g.2, g.1, g.0)
    };
    (flip_exec(t.0, sg % 2), flip_exec(t.1, (sg / 2) % 2), flip_exec(t.2, (sg / 4) % 2))
}

/// New velocities for one axis when usable, as in `axis_usable`.
fn axis_exec(s: i128, g: i128, t: i128) -> (r: Option<(i64, i64)>)
    requires
        wide(s as int),
        wide(g as int),
        wide(t as int),
        (s - g) % 2 == 0,
    ensures
        r is Some <==> axis_usable(s as int, g as int, t as int),
        r is Some ==> r->Some_0.0 == (s + t) / 2 && r->Some_0.1 == (s - t) / 2,
{
    match half_if_even(t - g) {
        None => None,
        Some(_) => {
            let a = half_if_even(s + t);
            let b = half_if_even(s - t);
            match (a, b) {
                (Some(a), Some(b)) => {
                    if i64::MIN as i128 <= a && a <= i64::MAX as i128 && i64::MIN as i128 <= b
                        && b <= i64::MAX as i128 {
                        Some((a as i64, b as i64))
                    } else {
                        None
                    }
                },
                _ => None,
            }
        },
    }
}

/// Elastic collision of two particles of equal mass: the centre-of-mass
/// velocity is kept and the relative velocity is turned by the cube symmetry
/// `c` (`c < 48`), drawn uniformly by the caller. The 48 directions are the
/// symmetric images of the relative velocity on the integer lattice: a
/// discrete stand-in for isotropic scattering that keeps the conservation laws
/// exact.
pub fn collide_pair(va: Vec3, vb: Vec3, c: u64) -> (r: (Vec3, Vec3))
    requires
        c < SCATTER_CHOICES,
    ensures
        r == collision_spec(va, vb, c as int),
{
    let s = (va.x as i128 + vb.x as i128, va.y as i128 + vb.y as i128, va.z as i128 + vb.z as i128);
    let g = (va.x as i128 - vb.x as i128, va.y as i128 - vb.y as i128, va.z as i128 - vb.z as i128);
    let t = rotate_exec(g, c);
    let x = axis_exec(s.0, g.0, t.0);
    let y = axis_exec(s.1, g.1, t.1);
    let z = axis_exec(s.2, g.2, t.2);
    match (x, y, z) {
        (Some(x), Some(y), Some(z)) => {
            (Vec3 { x: x.0, y: y.0, z: z.0 }, Vec3 { x: x.1, y: y.1, z: z.1 })
        },
        _ => {
            proof {
                lemma_signs_usable(va, vb, (c % 8) as int);
            }
            let t = rotate_exec(g, c % 8);
            let x = axis_exec(s.0, g.0, t.0);
            let y = axis_exec(s.1, g.1, t.1);
            let z = axis_exec(s.2, g.2, t.2);
            match (x, y, z) {
                (Some(x), Some(y), Some(z)) => {
                    (Vec3 { x: x.0, y: y.0, z: z.0 }, Vec3 { x: x.1, y: y.1, z: z.1 })
                },
                _ => (va, vb),
            }
        },
    }
}

} // verus!

verus! {

/// Sum of `f` over the velocities of `s`.
pub open spec fn sum_of(s: Seq<Vec3>, f: spec_fn(Vec3) -> int) -> int
    decreases s.len(),
{
    if s.len() == 0 {
        0
    } else {
        sum_of(s.drop_last(), f) + f(s.last())
    }
}

pub open spec fn px(v: Vec3) -> int {
    v.x as int
}

pub open spec fn py(v: Vec3) -> int {
    v.y as int
}

pub open spec fn pz(v: Vec3) -> int {
    v.z as int
}

pub open spec fn sq(v: Vec3) -> int {
    v.norm2()
}

/// Total momentum over the common mass (per axis) and twice the total kinetic
/// energy over the common mass of a set of equal-mass particles.
pub open spec fn conserved(s: Seq<Vec3>) -> (int, int, int, int) {
    (sum_of(s, |v: Vec3| px(v)), sum_of(s, |v: Vec3| py(v)), sum_of(s, |v: Vec3| pz(v)), sum_of(s, |v: Vec3| sq(v)))
}

proof fn lemma_sum_update(s: Seq<Vec3>, i: int, a: Vec3, f: spec_fn(Vec3) -> int)
    requires
        0 <= i < s.len(),
    ensures
        sum_of(s.update(i, a), f) == sum_of(s, f) - f(s[i]) + f(a),
    decreases s.len(),
{
    let t = s.update(i, a);
    if i == s.len() - 1 {
        assert(t.drop_last() == s.drop_last());
    } else {
        assert(t.drop_last() == s.drop_last().update(i, a));
        lemma_sum_update(s.drop_last(), i, a, f);
    }
}

/// Replacing the velocities of two distinct particles by the outcome of an
/// elastic collision keeps the totals of a whole set of particles.
pub proof fn lemma_collision_keeps_totals(s: Seq<Vec3>, i: int, j: int, c: int)
    requires
        0 <= i < s.len(),
        0 <= j < s.len(),
        i != j,
        0 <= c < SCATTER_CHOICES,
    ensures
        ({
            let (a, b) = collision_spec(s[i], s[j], c);
            conserved(s.update(i, a).update(j, b)) == conserved(s)
        }),
{
    let (a, b) = collision_spec(s[i], s[j], c);
    lemma_collision_conserves(s[i], s[j], c);
    let t = s.update(i, a);
    assert(t[j] == s[j]);
    lemma_sum_update(s, i, a, |v: Vec3| px(v));
    lemma_sum_update(t, j, b, |v: Vec3| px(v));
    lemma_sum_update(s, i, a, |v: Vec3| py(v));
    lemma_sum_update(t, j, b, |v: Vec3| py(v));
    lemma_sum_update(s, i, a, |v: Vec3| pz(v));
    lemma_sum_update(t, j, b, |v: Vec3| pz(v));
    lemma_sum_update(s, i, a, |v: Vec3| sq(v));
    lemma_sum_update(t, j, b, |v: Vec3| sq(v));
}

} // verus!
