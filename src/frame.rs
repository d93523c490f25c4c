use vstd::prelude::*;
use rand::rngs::StdRng;
use crate::binning::{build_boxes, lemma_boxes_partition, BoxPartition};
use crate::config::CollisionParameters;
use crate::engine::{expected_den, expected_num, resolve_box, speed_sum, valid_members, BoxOutcome};
use crate::integrator::{drifted, integrate, kicked, store_fits, ParticleStore, StepError};
use crate::scatter::conserved;
use crate::vector::Vec3;

verus! {

/// Statistics of one frame's collision pass.
#[derive(Debug, Clone, Copy, PartialEq, Eq, Structural)]
pub struct FrameStats {
    /// Collisions resolved over all boxes.
    pub collisions: u128,
    /// Boxes holding at least two particles.
    pub occupied_boxes: u64,
    /// Particles in those boxes; over `occupied_boxes` it gives the mean
    /// number of simulated particles per occupied box.
    pub occupied_particles: u128,
    /// Boxes where the ceiling was applied.
    pub capped_boxes: u64,
}

pub open spec fn is_occupied(o: BoxOutcome) -> bool {
    o.particles >= 2
}

pub open spec fn total_collisions(o: Seq<BoxOutcome>) -> int
    decreases o.len(),
{
    if o.len() == 0 {
        0
    } else {
        total_collisions(o.drop_last()) + o.last().collisions
    }
}

pub open spec fn occupied_count(o: Seq<BoxOutcome>) -> int
    decreases o.len(),
{
    if o.len() == 0 {
        0
    } else {
        occupied_count(o.drop_last()) + if is_occupied(o.last()) {
            1int
        } else {
            0int
        }
    }
}

pub open spec fn occupied_particle_count(o: Seq<BoxOutcome>) -> int
    decreases o.len(),
{
    if o.len() == 0 {
        0
    } else {
        occupied_particle_count(o.drop_last()) + if is_occupied(o.last()) {
            o.last().particles as int
        } else {
            0int
        }
    }
}

pub open spec fn capped_count(o: Seq<BoxOutcome>) -> int
    decreases o.len(),
{
    if o.len() == 0 {
        0
    } else {
        capped_count(o.drop_last()) + if o.last().capped {
            1int
        } else {
            0int
        }
    }
}

pub open spec fn stats_spec(o: Seq<BoxOutcome>) -> FrameStats {
    FrameStats {
        collisions: total_collisions(o) as u128,
        occupied_boxes: occupied_count(o) as u64,
        occupied_particles: occupied_particle_count(o) as u128,
        capped_boxes: capped_count(o) as u64,
    }
}

proof fn lemma_counts_bounded(o: Seq<BoxOutcome>)
    ensures
        0 <= total_collisions(o) <= o.len() * 0x1_0000_0000_0000_0000,
        0 <= occupied_count(o) <= o.len(),
        0 <= occupied_particle_count(o) <= o.len() * 0x1_0000_0000_0000_0000,
        0 <= capped_count(o) <= o.len(),
    decreases o.len(),
{
    if o.len() > 0 {
        lemma_counts_bounded(o.drop_last());
    }
}

/// Frame statistics of the box outcomes: total collisions, the number of
/// occupied boxes (two particles or more), the particles in them, and the
/// number of boxes where the ceiling was applied.
pub fn summarize(outcomes: &Vec<BoxOutcome>) -> (r: FrameStats)
    ensures
        r == stats_spec(outcomes@),
{
    let mut c: u128 = 0;
    let mut b: u64 = 0;
    let mut p: u128 = 0;
    let mut k: u64 = 0;
    let mut i: usize = 0;
    while i < outcomes.len()
        invariant
            i <= outcomes@.len(),
            c == total_collisions(outcomes@.take(i as int)),
            b == occupied_count(outcomes@.take(i as int)),
            p == occupied_particle_count(outcomes@.take(i as int)),
            k == capped_count(outcomes@.take(i as int)),
        decreases outcomes@.len() - i,
    {
        let o = outcomes[i];
        proof {
            let s = outcomes@.take(i + 1);
            assert(s.drop_last() == outcomes@.take(i as int));
            lemma_counts_bounded(s);
            assert((i + 1) as int * 0x1_0000_0000_0000_0000 <= u128::MAX + 1) by (nonlinear_arith)
                requires
                    i < usize::MAX,
            ;
        }
        c = c + o.collisions as u128;
        if o.particles >= 2 {
            b = b + 1;
            p = p + o.particles as u128;
        }
        if o.capped {
            k = k + 1;
        }
        i = i + 1;
    }
    assert(outcomes@.take(i as int) == outcomes@);
    FrameStats { collisions: c, occupied_boxes: b, occupied_particles: p, capped_boxes: k }
}

/// What each box outcome of a collision pass guarantees.
/// What the collision pass guarantees of the outcome of the box `members`,
/// whose velocities at the start of the pass are those of `vels`.
pub open spec fn outcome_ok(
    o: BoxOutcome,
    members: Seq<usize>,
    vels: Seq<Vec3>,
    params: CollisionParameters,
) -> bool {
    let e = expected_num(members.len() as int, speed_sum(vels, members), params);
    let cap = params.collision_limit * expected_den(params);
    &&& o.particles == members.len()
    &&& o.collisions <= params.collision_limit
    &&& members.len() < 2 ==> o.collisions == 0 && !o.capped
    &&& members.len() >= 2 ==> (o.capped <==> e > cap)
    &&& members.len() >= 2 && e >= cap ==> o.collisions == params.collision_limit
    &&& e == 0 ==> o.collisions == 0
}

proof fn lemma_speed_sum_same(a: Seq<Vec3>, b: Seq<Vec3>, m: Seq<usize>)
    requires
        forall|j: int| 0 <= j < m.len() ==> a[#[trigger] m[j] as int] == b[m[j] as int],
    ensures
        speed_sum(a, m) == speed_sum(b, m),
    decreases m.len(),
{
    if m.len() > 0 {
        let d = m.drop_last();
        assert forall|j: int| 0 <= j < d.len() implies a[#[trigger] d[j] as int] == b[d[j] as int] by {
            assert(d[j] == m[j]);
        }
        lemma_speed_sum_same(a, b, d);
        assert(a[m.last() as int] == b[m.last() as int]);
    }
}

pub open spec fn in_some_box(part: BoxPartition, q: usize) -> bool {
    exists|g: int| 0 <= g < part.members@.len() && #[trigger] part.members@[g]@.contains(q)
}

/// Collision pass over all boxes of a partition of the particles.
pub fn collision_pass(
    vels: &mut Vec<Vec3>,
    part: &BoxPartition,
    positions: &Vec<Vec3>,
    params: &CollisionParameters,
    rng: &mut StdRng,
) -> (r: Vec<BoxOutcome>)
    requires
        params.wf(),
        part.partitions(positions@, *params),
        old(vels)@.len() == positions@.len(),
    ensures
        final(vels)@.len() == old(vels)@.len(),
        conserved(final(vels)@) == conserved(old(vels)@),
        r@.len() == part.members@.len(),
        forall|g: int|
            0 <= g < r@.len() ==> outcome_ok(#[trigger] r@[g], part.members@[g]@, old(vels)@, *params),
        forall|q: usize|
            q < old(vels)@.len() && !in_some_box(*part, q) ==> final(vels)@[q as int]
                == old(vels)@[q as int],
{
    let ghost old_vels = vels@;
    let mut out: Vec<BoxOutcome> = Vec::new();
    let mut g: usize = 0;
    while g < part.members.len()
        invariant
            params.wf(),
            part.partitions(positions@, *params),
            old_vels.len() == positions@.len(),
            vels@.len() == old_vels.len(),
            conserved(vels@) == conserved(old_vels),
            g <= part.members@.len(),
            out@.len() == g,
            forall|h: int| 0 <= h < g ==> outcome_ok(#[trigger] out@[h], part.members@[h]@, old_vels, *params),
            forall|q: usize|
                q < old_vels.len() && !(exists|h: int|
                    0 <= h < g && #[trigger] part.members@[h]@.contains(q)) ==> vels@[q as int]
                    == old_vels[q as int],
        decreases part.members@.len() - g,
    {
        let members = &part.members[g];
        proof {
            assert forall|j: int, k: int|
                0 <= j < members@.len() && 0 <= k < members@.len() && j != k implies #[trigger] members@[j]
                    != #[trigger] members@[k] by {
                if j < k {
                    assert(part.members@[g as int]@[j] < part.members@[g as int]@[k]);
                } else {
                    assert(part.members@[g as int]@[k] < part.members@[g as int]@[j]);
                }
            }
            assert forall|j: int| 0 <= j < members@.len() implies #[trigger] members@[j] < vels@.len() by {
                assert(part.members@[g as int]@[j] == members@[j]);
            }
        }
        proof {
            lemma_boxes_partition(part, positions@, *params);
            assert forall|j: int| 0 <= j < members@.len() implies vels@[#[trigger] members@[j] as int]
                == old_vels[members@[j] as int] by {
                let q = members@[j];
                assert(part.members@[g as int]@[j] == q);
                if exists|h: int| 0 <= h < g && #[trigger] part.members@[h]@.contains(q) {
                    let h = choose|h: int| 0 <= h < g && #[trigger] part.members@[h]@.contains(q);
                    let k = choose|k: int| 0 <= k < part.members@[h]@.len() && part.members@[h]@[k] == q;
                    assert(part.members@[h]@[k] != part.members@[g as int]@[j]);
                }
            }
            lemma_speed_sum_same(vels@, old_vels, members@);
        }
        let o = resolve_box(vels, members, params, rng);
        out.push(o);
        proof {
            assert forall|q: usize|
                q < old_vels.len() && !(exists|h: int|
                    0 <= h < g + 1 && #[trigger] part.members@[h]@.contains(q)) implies vels@[q as int]
                    == old_vels[q as int] by {
                assert(!part.members@[g as int]@.contains(q));
                assert(!(exists|h: int| 0 <= h < g && #[trigger] part.members@[h]@.contains(q)));
            }
        }
        g = g + 1;
    }
    out
}

/// Append-only record of the statistics of every frame.
pub struct CollisionsTracker {
    pub records: Vec<FrameStats>,
}

impl CollisionsTracker {
    pub fn new() -> (r: CollisionsTracker)
        ensures
            r.records@.len() == 0,
    {
        CollisionsTracker { records: Vec::new() }
    }

    /// Appends the statistics of one frame.
    pub fn record(&mut self, stats: FrameStats)
        ensures
            final(self).records@ == old(self).records@.push(stats),
    {
        self.records.push(stats);
    }

    pub fn len(&self) -> (r: usize)
        ensures
            r == self.records@.len(),
    {
        self.records.len()
    }
}

proof fn lemma_step_stats(
    o: Seq<BoxOutcome>,
    part: BoxPartition,
    positions: Seq<Vec3>,
    v0: Seq<Vec3>,
    params: CollisionParameters,
)
    requires
        part.partitions(positions, params),
        o.len() == part.members@.len(),
        o.len() <= usize::MAX,
        forall|g: int|
            0 <= g < o.len() ==> outcome_ok(#[trigger] o[g], part.members@[g]@, v0, params),
    ensures
        frame_stats_ok(stats_spec(o), positions, v0, params),
        stats_spec(o).collisions <= params.collision_limit * stats_spec(o).occupied_boxes,
        2 * stats_spec(o).occupied_boxes <= stats_spec(o).occupied_particles,
{
    assert(o.len() * 0x1_0000_0000_0000_0000 <= u128::MAX) by (nonlinear_arith)
        requires
            o.len() <= usize::MAX,
    ;
    lemma_counts_bounded(o);
    lemma_stats_bounds(o, params.collision_limit as int);
    assert({
        &&& part.partitions(positions, params)
        &&& o.len() == part.members@.len()
        &&& forall|g: int|
            0 <= g < o.len() ==> outcome_ok(#[trigger] o[g], part.members@[g]@, v0, params)
        &&& stats_spec(o) == stats_spec(o)
    });
    assert(frame_stats_ok(stats_spec(o), positions, v0, params));
}

proof fn lemma_stats_bounds(o: Seq<BoxOutcome>, limit: int)
    requires
        forall|g: int|
            0 <= g < o.len() ==> (#[trigger] o[g]).collisions <= limit && (o[g].particles < 2
                ==> o[g].collisions == 0),
    ensures
        total_collisions(o) <= limit * occupied_count(o),
        2 * occupied_count(o) <= occupied_particle_count(o),
    decreases o.len(),
{
    if o.len() > 0 {
        let d = o.drop_last();
        assert forall|g: int| 0 <= g < d.len() implies (#[trigger] d[g]).collisions <= limit && (
        d[g].particles < 2 ==> d[g].collisions == 0) by {
            assert(d[g] == o[g]);
        }
        lemma_stats_bounds(d, limit);
        let x = o.last();
        assert(x == o[o.len() - 1]);
        if x.particles >= 2 {
            assert(limit * occupied_count(d) + limit == limit * (occupied_count(d) + 1)) by (nonlinear_arith);
        }
    }
}

/// Velocities of all particles after the kick of one step.
pub open spec fn kicked_all(s: ParticleStore, dt: int) -> Seq<Vec3> {
    Seq::new(
        s.velocities@.len(),
        |i: int| kicked(s.velocities@[i], s.forces@[i], dt, s.mass as int),
    )
}

/// One simulation frame: integrate with the accumulated forces, rebuild the
/// boxes from the new positions, resolve the collisions of every box and
/// append the frame's statistics to the tracker. When the integrator refuses
/// the step nothing changes.
/// What one frame's statistics are: those of the outcomes of a collision pass
/// over a partition of `positions` into boxes, starting from velocities `v0`.
pub open spec fn frame_stats_ok(
    stats: FrameStats,
    positions: Seq<Vec3>,
    v0: Seq<Vec3>,
    params: CollisionParameters,
) -> bool {
    exists|p2: BoxPartition, o2: Seq<BoxOutcome>|
        #![trigger p2.partitions(positions, params), stats_spec(o2)]
        {
            &&& p2.partitions(positions, params)
            &&& o2.len() == p2.members@.len()
            &&& forall|g: int|
                0 <= g < o2.len() ==> outcome_ok(#[trigger] o2[g], p2.members@[g]@, v0, params)
            &&& stats == stats_spec(o2)
        }
}

/// Collision phase of a frame: rebuild the boxes from the current positions,
/// resolve the collisions of every box and append the frame's statistics to
/// the tracker.
pub fn collide_and_record(
    store: &mut ParticleStore,
    params: &CollisionParameters,
    rng: &mut StdRng,
    tracker: &mut CollisionsTracker,
) -> (r: FrameStats)
    requires
        old(store).wf(),
        params.wf(),
    ensures
        final(store).wf(),
        final(store).mass == old(store).mass,
        final(store).positions@ == old(store).positions@,
        final(store).forces@ == old(store).forces@,
        final(store).velocities@.len() == old(store).velocities@.len(),
        conserved(final(store).velocities@) == conserved(old(store).velocities@),
        final(tracker).records@ == old(tracker).records@.push(r),
        frame_stats_ok(r, old(store).positions@, old(store).velocities@, *params),
        r.collisions <= params.collision_limit * r.occupied_boxes,
        2 * r.occupied_boxes <= r.occupied_particles,
{
    let part = build_boxes(&store.positions, params);
    let mut vels: Vec<Vec3> = Vec::new();
    std::mem::swap(&mut vels, &mut store.velocities);
    let outcomes = collision_pass(&mut vels, &part, &store.positions, params, rng);
    std::mem::swap(&mut vels, &mut store.velocities);
    let stats = summarize(&outcomes);
    let n_out = outcomes.len();
    proof {
        lemma_step_stats(outcomes@, part, store.positions@, old(store).velocities@, *params);
        assert(stats == stats_spec(outcomes@));
    }
    tracker.record(stats);
    stats
}

/// One simulation frame: integrate with the accumulated forces, rebuild the
/// boxes from the new positions, resolve the collisions of every box and
/// append the frame's statistics to the tracker. When the integrator refuses
/// the step nothing changes.
pub fn step(
    store: &mut ParticleStore,
    params: &CollisionParameters,
    rng: &mut StdRng,
    tracker: &mut CollisionsTracker,
) -> (r: Result<FrameStats, StepError>)
    requires
        old(store).wf(),
        params.wf(),
    ensures
        final(store).wf(),
        final(store).mass == old(store).mass,
        final(store).positions@.len() == old(store).positions@.len(),
        r is Err ==> *final(store) == *old(store) && final(tracker).records@ == old(
            tracker,
        ).records@,
        r is Ok <==> store_fits(*old(store), params.timestep as int),
        r is Ok ==> final(tracker).records@ == old(tracker).records@.push(r->Ok_0),
        r is Ok ==> conserved(final(store).velocities@) == conserved(
            kicked_all(*old(store), params.timestep as int),
        ),
        r is Ok ==> frame_stats_ok(
            r->Ok_0,
            final(store).positions@,
            kicked_all(*old(store), params.timestep as int),
            *params,
        ),
        r is Ok ==> r->Ok_0.collisions <= params.collision_limit * r->Ok_0.occupied_boxes,
        r is Ok ==> 2 * r->Ok_0.occupied_boxes <= r->Ok_0.occupied_particles,
        r is Ok ==> forall|i: int|
            0 <= i < old(store).positions@.len() ==> {
                &&& #[trigger] final(store).positions@[i] == drifted(
                    old(store).positions@[i],
                    kicked_all(*old(store), params.timestep as int)[i],
                    params.timestep as int,
                )
                &&& final(store).forces@[i] == Vec3::zero_spec()
            },
{
    match integrate(store, params) {
        Err(e) => {
            return Err(e);
        },
        Ok(()) => {},
    }
    proof {
        assert(store.velocities@ =~= kicked_all(*old(store), params.timestep as int));
    }
    let stats = collide_and_record(store, params, rng, tracker);
    Ok(stats)
}

} // verus!

verus! {

/// A box with fewer than two particles, which resolves no collision, adds
/// nothing to a frame's statistics: neither collisions, nor an occupied box,
/// nor particles of occupied boxes, nor a capped box.
pub proof fn lemma_sparse_box_adds_nothing(o: Seq<BoxOutcome>, x: BoxOutcome)
    requires
        x.particles < 2,
        x.collisions == 0,
        !x.capped,
    ensures
        stats_spec(o.push(x)) == stats_spec(o),
{
    assert(o.push(x).drop_last() == o);
}

} // verus!

verus! {

/// Mean number of real atoms per occupied box, in hundredths, rounded to the
/// nearest (halves up): `100 * macroparticle * occupied_particles /
/// occupied_boxes`, and 0 for a frame without an occupied box.
pub open spec fn mean_atoms_hundredths_spec(s: FrameStats, macroparticle: int) -> int {
    if s.occupied_boxes == 0 {
        0
    } else {
        (200 * macroparticle * s.occupied_particles + s.occupied_boxes) / (2 * s.occupied_boxes)
    }
}

pub open spec fn hundredths_fit(s: FrameStats, macroparticle: int) -> bool {
    s.occupied_boxes == 0 || 200 * macroparticle * s.occupied_particles + s.occupied_boxes
        <= u128::MAX
}

/// The columns of the collision statistics as they are written out: per
/// frame, the collisions, the mean atoms per occupied box (in hundredths) and
/// the occupied boxes.
pub struct TrackerTable {
    pub collisions: Vec<u128>,
    pub mean_atoms_hundredths: Vec<u128>,
    pub occupied_boxes: Vec<u64>,
}

impl FrameStats {
    /// `mean_atoms_hundredths_spec`, or `u128::MAX` when the atom count
    /// times 200 does not fit a `u128`.
    pub fn mean_atoms_hundredths(&self, macroparticle: u64) -> (r: u128)
        ensures
            hundredths_fit(*self, macroparticle as int) ==> r == mean_atoms_hundredths_spec(
                *self,
                macroparticle as int,
            ),
            !hundredths_fit(*self, macroparticle as int) ==> r == u128::MAX,
    {
        if self.occupied_boxes == 0 {
            assert(hundredths_fit(*self, macroparticle as int));
            return 0;
        }
        let b = self.occupied_boxes as u128;
        let ghost t = 200 * macroparticle as int * self.occupied_particles as int;
        match (200u128 * macroparticle as u128).checked_mul(self.occupied_particles) {
            Some(v) => {
                assert(v as int == t);
                match v.checked_add(b) {
                    Some(w) => w / (2 * b),
                    None => u128::MAX,
                }
            },
            None => u128::MAX,
        }
    }
}

impl CollisionsTracker {
    /// The tracker's records laid out as the three columns that are written
    /// out.
    #[verifier::rlimit(50)]
    pub fn table(&self, macroparticle: u64) -> (r: TrackerTable)
        ensures
            r.collisions@.len() == self.records@.len(),
            r.mean_atoms_hundredths@.len() == self.records@.len(),
            r.occupied_boxes@.len() == self.records@.len(),
            forall|i: int|
                0 <= i < self.records@.len() ==> {
                    &&& #[trigger] r.collisions@[i] == self.records@[i].collisions
                    &&& r.occupied_boxes@[i] == self.records@[i].occupied_boxes
                    &&& hundredths_fit(self.records@[i], macroparticle as int)
                        ==> r.mean_atoms_hundredths@[i] == mean_atoms_hundredths_spec(
                        self.records@[i],
                        macroparticle as int,
                    )
                
                    &&& !hundredths_fit(self.records@[i], macroparticle as int)
                        ==> r.mean_atoms_hundredths@[i] == u128::MAX
                },
    {
        let mut c: Vec<u128> = Vec::new();
        let mut m: Vec<u128> = Vec::new();
        let mut o: Vec<u64> = Vec::new();
        let mut i: usize = 0;
        while i < self.records.len()
            invariant
                i <= self.records@.len(),
                c@.len() == i,
                m@.len() == i,
                o@.len() == i,
                forall|k: int|
                    0 <= k < i ==> {
                        &&& #[trigger] c@[k] == self.records@[k].collisions
                        &&& o@[k] == self.records@[k].occupied_boxes
                        &&& hundredths_fit(self.records@[k], macroparticle as int)
                            ==> m@[k] == mean_atoms_hundredths_spec(
                            self.records@[k],
                            macroparticle as int,
                        )
                    
                        &&& !hundredths_fit(self.records@[k], macroparticle as int)
                            ==> m@[k] == u128::MAX
                    },
            decreases self.records@.len() - i,
        {
            let s = self.records[i];
            c.push(s.collisions);
            let h = s.mean_atoms_hundredths(macroparticle);
            m.push(h);
            assert(m@[i as int] == h);
            o.push(s.occupied_boxes);
            i = i + 1;
        }
        TrackerTable { collisions: c, mean_atoms_hundredths: m, occupied_boxes: o }
    }
}

} // verus!
