use vstd::prelude::*;
use rand::rngs::StdRng;
use rand::Rng;
use crate::config::{CollisionParameters, MAX_WIDTH_OR_LIMIT};
use crate::scatter::{collide_pair, collision_spec, conserved, lemma_collision_keeps_totals, SCATTER_CHOICES};
use crate::vector::Vec3;

verus! {

#[verifier::external_type_specification]
#[verifier::external_body]
pub struct ExStdRng(StdRng);

/// Relies on rand::Rng::gen_range: a value drawn uniformly from `0..n`; it
/// panics on an empty range, which `requires` leaves out.
#[verifier::external_body]
fn draw_below(rng: &mut StdRng, n: u128) -> (r: u128)
    requires
        n > 0,
    ensures
        r < n,
{
    rng.gen_range(0..n)
}

/// Largest `r` with `r * r <= n`.
pub fn isqrt(n: u128) -> (r: u64)
    ensures
        r as int * r as int <= n,
        n < (r as int + 1) * (r as int + 1),
{
    let mut lo: u128 = 0;
    let mut hi: u128 = 0x1_0000_0000_0000_0000;
    assert(hi as int * hi as int > u128::MAX) by (nonlinear_arith)
        requires
            hi == 0x1_0000_0000_0000_0000u128,
    ;
    while hi - lo > 1
        invariant
            lo < hi <= 0x1_0000_0000_0000_0000u128,
            lo as int * lo as int <= n,
            n < hi as int * hi as int,
        decreases hi - lo,
    {
        let mid = lo + (hi - lo) / 2;
        assert(mid as int * mid as int <= u128::MAX) by (nonlinear_arith)
            requires
                mid < 0x1_0000_0000_0000_0000u128,
        ;
        if mid * mid <= n {
            lo = mid;
        } else {
            hi = mid;
        }
    }
    lo as u64
}

/// `r` is the square root of `m` rounded down.
pub open spec fn is_floor_root(r: nat, m: int) -> bool {
    r * r <= m < (r + 1) * (r + 1)
}

/// Speed of one particle over the square root of two, rounded down: a
/// particle's share of the mean relative speed in the collision rate.
pub open spec fn rate_speed(v: Vec3) -> nat {
    choose|r: nat| #[trigger] is_floor_root(r, v.norm2() / 2)
}

pub open spec fn speed_sum(vels: Seq<Vec3>, members: Seq<usize>) -> int
    decreases members.len(),
{
    if members.len() == 0 {
        0
    } else {
        speed_sum(vels, members.drop_last()) + rate_speed(vels[members.last() as int])
    }
}

/// Numerator of the expected collision count of a box with `n` particles:
/// `n * density * sigma * vbar * dt / sqrt(2)` with `density = n * macro / w^3`
/// and `vbar = speed_sum / n`, over the denominator `w^3`.
pub open spec fn expected_num(n: int, s: int, params: CollisionParameters) -> int {
    n * params.macroparticle * params.sigma * params.timestep * s
}

pub open spec fn expected_den(params: CollisionParameters) -> int {
    params.box_width * params.box_width * params.box_width
}

/// What the collision pass did in one box.
#[derive(Debug, Clone, Copy, PartialEq, Eq, Structural)]
pub struct BoxOutcome {
    /// Number of simulated particles in the box.
    pub particles: u64,
    /// Number of collisions resolved.
    pub collisions: u64,
    /// The expected count exceeded the ceiling, so the ceiling was applied.
    pub capped: bool,
}

proof fn lemma_unique_root(a: nat, b: nat, m: int)
    requires
        a * a <= m < (a + 1) * (a + 1),
        b * b <= m < (b + 1) * (b + 1),
    ensures
        a == b,
{
    if a < b {
        assert((a + 1) * (a + 1) <= b * b) by (nonlinear_arith)
            requires
                a + 1 <= b,
        ;
    } else if b < a {
        assert((b + 1) * (b + 1) <= a * a) by (nonlinear_arith)
            requires
                b + 1 <= a,
        ;
    }
}

fn particle_rate_speed(v: &Vec3) -> (r: u64)
    ensures
        r == rate_speed(*v),
{
    let x = v.x as i128;
    let y = v.y as i128;
    let z = v.z as i128;
    assert(0 <= x * x <= 0x4000_0000_0000_0000_0000_0000_0000_0000) by (nonlinear_arith)
        requires
            i64::MIN <= x <= i64::MAX,
    ;
    assert(0 <= y * y <= 0x4000_0000_0000_0000_0000_0000_0000_0000) by (nonlinear_arith)
        requires
            i64::MIN <= y <= i64::MAX,
    ;
    assert(0 <= z * z <= 0x4000_0000_0000_0000_0000_0000_0000_0000) by (nonlinear_arith)
        requires
            i64::MIN <= z <= i64::MAX,
    ;
    let sq: u128 = (x * x) as u128 + (y * y) as u128 + (z * z) as u128;
    let r = isqrt(sq / 2);
    proof {
        let m = v.norm2() / 2;
        assert(sq as int == v.norm2());
        let c = rate_speed(*v);
        assert(is_floor_root(r as nat, m));
        lemma_unique_root(c as nat, r as nat, m);
    }
    r
}

/// Sum of `rate_speed` over the members of a box.
fn box_speed_sum(vels: &Vec<Vec3>, members: &Vec<usize>) -> (r: u128)
    requires
        forall|j: int| 0 <= j < members@.len() ==> members@[j] < vels@.len(),
    ensures
        r == speed_sum(vels@, members@),
{
    let mut sum: u128 = 0;
    let mut j: usize = 0;
    while j < members.len()
        invariant
            j <= members@.len(),
            forall|k: int| 0 <= k < members@.len() ==> members@[k] < vels@.len(),
            sum == speed_sum(vels@, members@.take(j as int)),
            sum <= j as int * 0x1_0000_0000_0000_0000,
        decreases members@.len() - j,
    {
        let s = particle_rate_speed(&vels[members[j]]);
        proof {
            assert(members@.take(j + 1).drop_last() == members@.take(j as int));
            assert(j as int * 0x1_0000_0000_0000_0000 + 0x1_0000_0000_0000_0000 <= u128::MAX + 1)
                by (nonlinear_arith)
                requires
                    j < usize::MAX,
            ;
        }
        sum = sum + s as u128;
        j = j + 1;
    }
    assert(members@.take(j as int) == members@);
    sum
}

} // verus!

verus! {

/// `a * b`, or `None` when it exceeds `u128::MAX`.
fn mul_or_none(a: Option<u128>, b: u128) -> (r: Option<u128>)
    ensures
        a is None ==> r is None,
        a is Some ==> (r is Some <==> a->Some_0 as int * b as int <= u128::MAX),
        r is Some ==> r->Some_0 == a->Some_0 as int * b as int,
{
    match a {
        None => None,
        Some(x) => x.checked_mul(b),
    }
}

proof fn lemma_mul_grows(a: int, b: int)
    requires
        a >= 0,
        b >= 1,
    ensures
        a * b >= a,
{
    assert(a * b >= a) by (nonlinear_arith)
        requires
            a >= 0,
            b >= 1,
    ;
}

/// The numerator `expected_num`, or `None` when it exceeds `u128::MAX`.
fn expected_numerator(n: usize, s: u128, params: &CollisionParameters) -> (r: Option<u128>)
    requires
        params.wf(),
    ensures
        r is Some ==> r->Some_0 == expected_num(n as int, s as int, *params),
        r is None ==> expected_num(n as int, s as int, *params) > u128::MAX,
{
    if s == 0 || n == 0 {
        assert(expected_num(n as int, s as int, *params) == 0) by (nonlinear_arith)
            requires
                s == 0 || n == 0,
        ;
        return Some(0);
    }
    let m = params.macroparticle as u128;
    let sg = params.sigma as u128;
    let dt = params.timestep as u128;
    let p1 = mul_or_none(Some(s), n as u128);
    let p2 = mul_or_none(p1, m);
    let p3 = mul_or_none(p2, sg);
    let p4 = mul_or_none(p3, dt);
    let ghost a1 = s as int * n as int;
    let ghost a2 = a1 * m as int;
    let ghost a3 = a2 * sg as int;
    let ghost a4 = a3 * dt as int;
    proof {
        lemma_mul_grows(a1, m as int);
        lemma_mul_grows(a2, sg as int);
        lemma_mul_grows(a3, dt as int);
        assert(a4 == expected_num(n as int, s as int, *params)) by (nonlinear_arith)
            requires
                a1 == s as int * n as int,
                a2 == a1 * m as int,
                a3 == a2 * sg as int,
                a4 == a3 * dt as int,
                m == params.macroparticle,
                sg == params.sigma,
                dt == params.timestep,
        ;
    }
    p4
}

/// Number of candidate events among `limit` that a box resolves: each is kept
/// with probability `num / (limit * den)`, so the count has mean
/// `num / den` below the ceiling and never exceeds `limit`.
fn draw_collision_count(rng: &mut StdRng, num: u128, cap_den: u128, limit: u64) -> (r: u64)
    requires
        num < cap_den,
    ensures
        r <= limit,
        num == 0 ==> r == 0,
{
    let mut count: u64 = 0;
    let mut t: u64 = 0;
    while t < limit
        invariant
            t <= limit,
            count <= t,
            num < cap_den,
            num == 0 ==> count == 0,
        decreases limit - t,
    {
        let u = draw_below(rng, cap_den);
        if u < num {
            count = count + 1;
        }
        t = t + 1;
    }
    count
}

/// Indices (into the box) of two distinct particles drawn uniformly at random.
fn draw_pair(rng: &mut StdRng, n: usize) -> (r: (usize, usize))
    requires
        n >= 2,
    ensures
        r.0 < n,
        r.1 < n,
        r.0 != r.1,
{
    let i = draw_below(rng, n as u128) as usize;
    let j = draw_below(rng, (n - 1) as u128) as usize;
    if j >= i {
        (i, j + 1)
    } else {
        (i, j)
    }
}

pub open spec fn valid_members(members: Seq<usize>, len: int) -> bool {
    &&& forall|j: int| 0 <= j < members.len() ==> #[trigger] members[j] < len
    &&& forall|j: int, k: int|
        0 <= j < members.len() && 0 <= k < members.len() && j != k ==> #[trigger] members[j]
            != #[trigger] members[k]
}

/// Collision pass of one box whose particles are `members`: estimates the
/// expected number of collisions from the box's density and mean speed, caps
/// it at the ceiling, draws the realised count and resolves that many elastic
/// collisions between random distinct pairs of the box.
pub fn resolve_box(
    vels: &mut Vec<Vec3>,
    members: &Vec<usize>,
    params: &CollisionParameters,
    rng: &mut StdRng,
) -> (r: BoxOutcome)
    requires
        params.wf(),
        valid_members(members@, old(vels)@.len() as int),
    ensures
        final(vels)@.len() == old(vels)@.len(),
        r.particles == members@.len(),
        r.collisions <= params.collision_limit,
        members@.len() < 2 ==> r.collisions == 0 && !r.capped,
        members@.len() >= 2 ==> (r.capped <==> expected_num(
            members@.len() as int,
            speed_sum(old(vels)@, members@),
            *params,
        ) > params.collision_limit * expected_den(*params)),
        members@.len() >= 2 && expected_num(
            members@.len() as int,
            speed_sum(old(vels)@, members@),
            *params,
        ) >= params.collision_limit * expected_den(*params) ==> r.collisions
            == params.collision_limit,
        expected_num(members@.len() as int, speed_sum(old(vels)@, members@), *params) == 0
            ==> r.collisions == 0,
        r.collisions == 0 ==> final(vels)@ == old(vels)@,
        conserved(final(vels)@) == conserved(old(vels)@),
        forall|q: usize|
            q < old(vels)@.len() && !members@.contains(q) ==> final(vels)@[q as int]
                == old(vels)@[q as int],
{
    let n = members.len();
    if n < 2 {
        return BoxOutcome { particles: n as u64, collisions: 0, capped: false };
    }
    let s = box_speed_sum(vels, members);
    let num = expected_numerator(n, s, params);
    let w = params.box_width as u128;
    let limit = params.collision_limit;
    assert(w * w * w * limit < 0x1_0000_0000_0000_0000_0000_0000_0000_0000) by (nonlinear_arith)
        requires
            w < MAX_WIDTH_OR_LIMIT,
            limit < MAX_WIDTH_OR_LIMIT,
    ;
    assert(w * w <= w * w * w) by (nonlinear_arith)
        requires
            w >= 1,
    ;
    assert(w * w * w <= w * w * w * limit || limit == 0) by (nonlinear_arith)
        requires
            w >= 1,
    ;
    assert(w * w * w < 0x1_0000_0000_0000_0000_0000_0000_0000_0000) by (nonlinear_arith)
        requires
            w < MAX_WIDTH_OR_LIMIT,
    ;
    let den = w * w * w;
    let cap_den = den * limit as u128;
    assert(cap_den as int == params.collision_limit * expected_den(*params)) by (nonlinear_arith)
        requires
            den == w * w * w,
            w == params.box_width,
            limit == params.collision_limit,
            cap_den == den * limit,
    ;
    assert(limit > 0 ==> cap_den > 0) by (nonlinear_arith)
        requires
            den == w * w * w,
            w >= 1,
            cap_den == den * limit,
    ;
    let (count, capped) = match num {
        None => (limit, true),
        Some(v) => {
            if v >= cap_den {
                (limit, v > cap_den)
            } else {
                (draw_collision_count(rng, v, cap_den, limit), false)
            }
        },
    };
    let ghost old_vels = vels@;
    let mut k: u64 = 0;
    while k < count
        invariant
            k <= count,
            vels@.len() == old_vels.len(),
            valid_members(members@, old_vels.len() as int),
            n == members@.len(),
            n >= 2,
            count == 0 ==> vels@ == old_vels,
            conserved(vels@) == conserved(old_vels),
            forall|q: usize|
                q < old_vels.len() && !members@.contains(q) ==> vels@[q as int]
                    == old_vels[q as int],
        decreases count - k,
    {
        let (i, j) = draw_pair(rng, n);
        let c = draw_below(rng, SCATTER_CHOICES as u128) as u64;
        let pa = members[i];
        let pb = members[j];
        let ghost before = vels@;
        assert(members@[i as int] != members@[j as int]);
        let (a, b) = collide_pair(vels[pa], vels[pb], c);
        vels.set(pa, a);
        vels.set(pb, b);
        proof {
            lemma_collision_keeps_totals(before, pa as int, pb as int, c as int);
            assert(vels@ == before.update(pa as int, a).update(pb as int, b));
        }
        k = k + 1;
    }
    BoxOutcome { particles: n as u64, collisions: count, capped }
}

} // verus!
