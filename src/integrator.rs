use vstd::prelude::*;
use vstd::arithmetic::div_mod::{
    lemma_fundamental_div_mod, lemma_fundamental_div_mod_converse, lemma_mod_pos_bound,
};
use crate::config::{CollisionParameters, MAX_WIDTH_OR_LIMIT};
use crate::scatter::in_i64;
use crate::vector::Vec3;

verus! {

/// Per-particle state: positions, velocities and the force accumulator that
/// outside force providers fill before each step. All particles belong to one
/// species of mass `mass`.
pub struct ParticleStore {
    pub positions: Vec<Vec3>,
    pub velocities: Vec<Vec3>,
    pub forces: Vec<Vec3>,
    pub mass: u64,
}

/// Why a step could not be taken.
#[derive(Debug, Clone, Copy, PartialEq, Eq, Structural)]
pub enum StepError {
    /// A position or velocity after the step would not fit an `i64`.
    OutOfRange,
}

impl ParticleStore {
    pub open spec fn wf(&self) -> bool {
        &&& self.positions@.len() == self.velocities@.len()
        &&& self.forces@.len() == self.positions@.len()
        &&& self.mass > 0
    }

    /// A store of particles at rest with no force, all of mass `mass`.
    pub fn new(positions: Vec<Vec3>, velocities: Vec<Vec3>, mass: u64) -> (r: Option<ParticleStore>)
        ensures
            r is Some <==> positions@.len() == velocities@.len() && mass > 0,
            r is Some ==> ({
                let s = r->Some_0;
                &&& s.wf()
                &&& s.positions@ == positions@
                &&& s.velocities@ == velocities@
                &&& s.mass == mass
                &&& forall|i: int| 0 <= i < s.forces@.len() ==> s.forces@[i] == Vec3::zero_spec()
            }),
    {
        if positions.len() != velocities.len() || mass == 0 {
            return None;
        }
        let forces = zero_forces(positions.len());
        Some(ParticleStore { positions, velocities, forces, mass })
    }

    pub fn len(&self) -> (r: usize)
        requires
            self.wf(),
        ensures
            r == self.positions@.len(),
    {
        self.positions.len()
    }

    /// Adds `f` to the force accumulator of particle `i`.
    pub fn add_force(&mut self, i: usize, f: Vec3) -> (r: bool)
        requires
            old(self).wf(),
        ensures
            final(self).wf(),
            r <==> i < old(self).forces@.len() && in_i64(old(self).forces@[i as int].x + f.x)
                && in_i64(old(self).forces@[i as int].y + f.y) && in_i64(
                old(self).forces@[i as int].z + f.z,
            ),
            r ==> final(self).forces@ == old(self).forces@.update(
                i as int,
                Vec3 {
                    x: (old(self).forces@[i as int].x + f.x) as i64,
                    y: (old(self).forces@[i as int].y + f.y) as i64,
                    z: (old(self).forces@[i as int].z + f.z) as i64,
                },
            ),
            !r ==> final(self).forces@ == old(self).forces@,
            final(self).positions@ == old(self).positions@,
            final(self).velocities@ == old(self).velocities@,
            final(self).mass == old(self).mass,
    {
        if i >= self.forces.len() {
            return false;
        }
        let old_f = self.forces[i];
        let x = old_f.x.checked_add(f.x);
        let y = old_f.y.checked_add(f.y);
        let z = old_f.z.checked_add(f.z);
        match (x, y, z) {
            (Some(x), Some(y), Some(z)) => {
                self.forces.set(i, Vec3 { x, y, z });
                true
            },
            _ => false,
        }
    }
}

fn zero_forces(n: usize) -> (r: Vec<Vec3>)
    ensures
        r@.len() == n,
        forall|i: int| 0 <= i < n ==> r@[i] == Vec3::zero_spec(),
{
    let mut r: Vec<Vec3> = Vec::new();
    let mut i: usize = 0;
    while i < n
        invariant
            i <= n,
            r@.len() == i,
            forall|k: int| 0 <= k < i ==> r@[k] == Vec3::zero_spec(),
        decreases n - i,
    {
        r.push(Vec3::zero());
        i = i + 1;
    }
    r
}

/// Velocity component after the kick: `v + floor(f * dt / m)`.
pub open spec fn kick(v: int, f: int, dt: int, m: int) -> int {
    v + (f * dt) / m
}

/// Position component after the drift with the new velocity `v`.
pub open spec fn drift(x: int, v: int, dt: int) -> int {
    x + v * dt
}

pub open spec fn axis_fits(x: int, v: int, f: int, dt: int, m: int) -> bool {
    in_i64(kick(v, f, dt, m)) && in_i64(drift(x, kick(v, f, dt, m), dt))
}

pub open spec fn particle_fits(x: Vec3, v: Vec3, f: Vec3, dt: int, m: int) -> bool {
    &&& axis_fits(x.x as int, v.x as int, f.x as int, dt, m)
    &&& axis_fits(x.y as int, v.y as int, f.y as int, dt, m)
    &&& axis_fits(x.z as int, v.z as int, f.z as int, dt, m)
}

pub open spec fn kicked(v: Vec3, f: Vec3, dt: int, m: int) -> Vec3 {
    Vec3 {
        x: kick(v.x as int, f.x as int, dt, m) as i64,
        y: kick(v.y as int, f.y as int, dt, m) as i64,
        z: kick(v.z as int, f.z as int, dt, m) as i64,
    }
}

pub open spec fn drifted(x: Vec3, v: Vec3, dt: int) -> Vec3 {
    Vec3 {
        x: drift(x.x as int, v.x as int, dt) as i64,
        y: drift(x.y as int, v.y as int, dt) as i64,
        z: drift(x.z as int, v.z as int, dt) as i64,
    }
}

pub open spec fn store_fits(s: ParticleStore, dt: int) -> bool {
    forall|i: int|
        0 <= i < s.positions@.len() ==> particle_fits(
            s.positions@[i],
            s.velocities@[i],
            s.forces@[i],
            dt,
            s.mass as int,
        )
}

/// `floor(a / m)`.
fn floor_div(a: i128, m: u64) -> (r: i128)
    requires
        m > 0,
        -0x1_0000_0000_0000_0000_0000_0000 <= a <= 0x1_0000_0000_0000_0000_0000_0000,
    ensures
        r == a as int / m as int,
{
    if a >= 0 {
        (a as u128 / m as u128) as i128
    } else {
        let b = (-a) as u128;
        let q = (b + (m as u128) - 1) / (m as u128);
        let rem = (b + (m as u128) - 1) % (m as u128);
        proof {
            let t = b as int + m as int - 1;
            lemma_fundamental_div_mod(t, m as int);
            lemma_mod_pos_bound(t, m as int);
            assert(t == (m as int) * (q as int) + rem as int);
            assert(a as int == -(q as int) * m as int + (m as int - 1 - rem as int)) by (nonlinear_arith)
                requires
                    t == (m as int) * (q as int) + rem as int,
                    t == b as int + m as int - 1,
                    b as int == -(a as int),
            ;
            lemma_fundamental_div_mod_converse(
                a as int,
                m as int,
                -(q as int),
                m as int - 1 - rem as int,
            );
        }
        -(q as i128)
    }
}

/// One axis of the kick-drift step, or `None` when it leaves the `i64` range.
fn advance_axis(x: i64, v: i64, f: i64, dt: u64, m: u64) -> (r: Option<(i64, i64)>)
    requires
        m > 0,
        dt < MAX_WIDTH_OR_LIMIT,
    ensures
        r is Some <==> axis_fits(x as int, v as int, f as int, dt as int, m as int),
        r is Some ==> r->Some_0.0 == drift(x as int, kick(v as int, f as int, dt as int, m as int), dt as int)
            && r->Some_0.1 == kick(v as int, f as int, dt as int, m as int),
{
    assert(-0x1_0000_0000_0000_0000_0000_0000 <= f as int * dt as int <= 0x1_0000_0000_0000_0000_0000_0000)
        by (nonlinear_arith)
        requires
            i64::MIN <= f <= i64::MAX,
            0 <= dt < MAX_WIDTH_OR_LIMIT,
    ;
    let imp = floor_div(f as i128 * dt as i128, m);
    assert(-0x1_0000_0000_0000_0000_0000_0000 <= imp <= 0x1_0000_0000_0000_0000_0000_0000) by (nonlinear_arith)
        requires
            imp == (f as int * dt as int) / m as int,
            m >= 1,
            -0x1_0000_0000_0000_0000_0000_0000 <= f as int * dt as int <= 0x1_0000_0000_0000_0000_0000_0000,
    ;
    let nv = v as i128 + imp;
    if nv < i64::MIN as i128 || nv > i64::MAX as i128 {
        return None;
    }
    assert(-0x1_0000_0000_0000_0000_0000_0000 <= nv as int * dt as int <= 0x1_0000_0000_0000_0000_0000_0000)
        by (nonlinear_arith)
        requires
            i64::MIN <= nv <= i64::MAX,
            0 <= dt < MAX_WIDTH_OR_LIMIT,
    ;
    let nx = x as i128 + nv * dt as i128;
    if nx < i64::MIN as i128 || nx > i64::MAX as i128 {
        return None;
    }
    Some((nx as i64, nv as i64))
}

fn advance_particle(x: Vec3, v: Vec3, f: Vec3, dt: u64, m: u64) -> (r: Option<(Vec3, Vec3)>)
    requires
        m > 0,
        dt < MAX_WIDTH_OR_LIMIT,
    ensures
        r is Some <==> particle_fits(x, v, f, dt as int, m as int),
        r is Some ==> r->Some_0.1 == kicked(v, f, dt as int, m as int) && r->Some_0.0 == drifted(
            x,
            kicked(v, f, dt as int, m as int),
            dt as int,
        ),
{
    let ax = advance_axis(x.x, v.x, f.x, dt, m);
    let ay = advance_axis(x.y, v.y, f.y, dt, m);
    let az = advance_axis(x.z, v.z, f.z, dt, m);
    match (ax, ay, az) {
        (Some(ax), Some(ay), Some(az)) => Some(
            (Vec3 { x: ax.0, y: ay.0, z: az.0 }, Vec3 { x: ax.1, y: ay.1, z: az.1 }),
        ),
        _ => None,
    }
}

/// Symplectic (kick-drift) step of every particle by the timestep, using the
/// accumulated forces, which are then reset to zero. When some particle would
/// leave the `i64` range the store is left as it was.
pub fn integrate(store: &mut ParticleStore, params: &CollisionParameters) -> (r: Result<(), StepError>)
    requires
        old(store).wf(),
        params.wf(),
    ensures
        final(store).wf(),
        final(store).mass == old(store).mass,
        r is Ok <==> store_fits(*old(store), params.timestep as int),
        r is Err ==> *final(store) == *old(store),
        r is Ok ==> {
            &&& final(store).positions@.len() == old(store).positions@.len()
            &&& forall|i: int|
                0 <= i < old(store).positions@.len() ==> {
                    let nv = kicked(
                        old(store).velocities@[i],
                        old(store).forces@[i],
                        params.timestep as int,
                        old(store).mass as int,
                    );
                    &&& #[trigger] final(store).velocities@[i] == nv
                    &&& final(store).positions@[i] == drifted(
                        old(store).positions@[i],
                        nv,
                        params.timestep as int,
                    )
                    &&& final(store).forces@[i] == Vec3::zero_spec()
                }
        },
{
    let n = store.positions.len();
    let dt = params.timestep;
    let m = store.mass;
    let mut new_pos: Vec<Vec3> = Vec::new();
    let mut new_vel: Vec<Vec3> = Vec::new();
    let mut i: usize = 0;
    while i < n
        invariant
            store.wf(),
            n == store.positions@.len(),
            m == store.mass,
            dt == params.timestep,
            params.wf(),
            i <= n,
            new_pos@.len() == i,
            new_vel@.len() == i,
            forall|k: int|
                0 <= k < i ==> particle_fits(
                    store.positions@[k],
                    store.velocities@[k],
                    store.forces@[k],
                    dt as int,
                    m as int,
                ),
            forall|k: int|
                0 <= k < i ==> new_vel@[k] == kicked(
                    store.velocities@[k],
                    store.forces@[k],
                    dt as int,
                    m as int,
                ) && new_pos@[k] == drifted(store.positions@[k], new_vel@[k], dt as int),
        decreases n - i,
    {
        match advance_particle(store.positions[i], store.velocities[i], store.forces[i], dt, m) {
            Some((p, v)) => {
                new_pos.push(p);
                new_vel.push(v);
            },
            None => {
                return Err(StepError::OutOfRange);
            },
        }
        i = i + 1;
    }
    store.positions = new_pos;
    store.velocities = new_vel;
    store.forces = zero_forces(n);
    Ok(())
}

} // verus!
