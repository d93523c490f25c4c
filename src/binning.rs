use vstd::prelude::*;
use std::collections::HashMap;
use crate::config::{CollisionParameters, MAX_BOX_NUMBER};
use crate::vector::Vec3;

verus! {

broadcast use vstd::std_specs::hash::group_hash_axioms;

/// Grid coordinate along one axis of a particle at coordinate `p`: the grid of
/// `n` boxes of width `w` is centred on the origin, and a coordinate on a
/// boundary belongs to the box on its positive side.
pub open spec fn coord_spec(p: int, n: int, w: int) -> int {
    (2 * p + n * w) / (2 * w)
}

pub open spec fn coord_inside(p: int, n: int, w: int) -> bool {
    0 <= coord_spec(p, n, w) < n
}

/// The box of a position: `None` outside the grid, else the flattened index
/// `cx + n * cy + n^2 * cz` of its three grid coordinates.
pub open spec fn box_spec(pos: Vec3, n: int, w: int) -> Option<u64> {
    if coord_inside(pos.x as int, n, w) && coord_inside(pos.y as int, n, w)
        && coord_inside(pos.z as int, n, w) {
        Some((coord_spec(pos.x as int, n, w) + n * coord_spec(pos.y as int, n, w)
            + n * n * coord_spec(pos.z as int, n, w)) as u64)
    } else {
        None
    }
}

pub open spec fn box_of_params(pos: Vec3, params: CollisionParameters) -> Option<u64> {
    box_spec(pos, params.box_number as int, params.box_width as int)
}

/// Grid coordinate along one axis, or `None` outside the grid.
pub fn cell_coord(p: i64, params: &CollisionParameters) -> (r: Option<u64>)
    requires
        params.wf(),
    ensures
        r is Some <==> coord_inside(p as int, params.box_number as int, params.box_width as int),
        r is Some ==> r->Some_0 as int == coord_spec(
            p as int,
            params.box_number as int,
            params.box_width as int,
        ),
{
    let n = params.box_number;
    let w = params.box_width;
    assert((n as int * w as int) <= MAX_BOX_NUMBER as int * 4294967296) by (nonlinear_arith)
        requires
            n <= MAX_BOX_NUMBER,
            w < 4294967296int,
    ;
    let t: i128 = 2 * (p as i128) + (n as i128) * (w as i128);
    if t < 0 {
        assert(((2 * p as int + n as int * w as int) / (2 * w as int)) < 0) by (nonlinear_arith)
            requires
                (2 * p as int + n as int * w as int) < 0,
                w > 0,
        ;
        None
    } else {
        let c: u128 = (t as u128) / (2 * (w as u128));
        if c < n as u128 {
            Some(c as u64)
        } else {
            None
        }
    }
}

proof fn lemma_flat_index_bound(cx: int, cy: int, cz: int, n: int)
    requires
        0 <= cx < n,
        0 <= cy < n,
        0 <= cz < n,
    ensures
        0 <= cx + n * cy + n * n * cz < n * n * n,
{
    assert(0 <= n * cy <= n * (n - 1)) by (nonlinear_arith)
        requires
            0 <= cy < n,
    ;
    assert(0 <= n * n * cz <= n * n * (n - 1)) by (nonlinear_arith)
        requires
            0 <= cz < n,
    ;
    assert(n * n * (n - 1) + n * (n - 1) + n - 1 == n * n * n - 1) by (nonlinear_arith);
}

/// The box that holds `pos`, or `None` when it lies outside the grid.
pub fn box_of(pos: &Vec3, params: &CollisionParameters) -> (r: Option<u64>)
    requires
        params.wf(),
    ensures
        r == box_of_params(*pos, *params),
{
    let n = params.box_number;
    let cx = cell_coord(pos.x, params);
    let cy = cell_coord(pos.y, params);
    let cz = cell_coord(pos.z, params);
    match (cx, cy, cz) {
        (Some(a), Some(b), Some(c)) => {
            proof {
                lemma_flat_index_bound(a as int, b as int, c as int, n as int);
                assert((n as int * n as int * n as int) <= MAX_BOX_NUMBER as int * MAX_BOX_NUMBER as int
                    * MAX_BOX_NUMBER as int) by (nonlinear_arith)
                    requires
                        0 < n <= MAX_BOX_NUMBER,
                ;
                assert((n as int * n as int) <= MAX_BOX_NUMBER as int * MAX_BOX_NUMBER as int) by (nonlinear_arith)
                    requires
                        0 < n <= MAX_BOX_NUMBER,
                ;
                assert((n as int * b as int) <= n as int * n as int) by (nonlinear_arith)
                    requires (b as int) < (n as int);
                assert((n as int * n as int * c as int) <= n as int * n as int * n as int) by (nonlinear_arith)
                    requires (c as int) < (n as int);
            }
            Some(a + n * b + n * n * c)
        },
        _ => None,
    }
}

/// Particles grouped by box for one frame: `members[g]` holds, in increasing
/// order, the indices of the particles whose box is `ids[g]`.
pub struct BoxPartition {
    pub ids: Vec<u64>,
    pub members: Vec<Vec<usize>>,
}

impl BoxPartition {
    /// What `build_boxes` guarantees of the grouping of `positions`.
    pub open spec fn partitions(&self, positions: Seq<Vec3>, params: CollisionParameters) -> bool {
        &&& self.ids@.len() == self.members@.len()
        &&& forall|g: int, h: int|
            0 <= g < h < self.ids@.len() ==> self.ids@[g] != self.ids@[h]
        &&& forall|g: int, j: int|
            0 <= g < self.members@.len() && 0 <= j < self.members@[g]@.len() ==> {
                let q = #[trigger] self.members@[g]@[j] as int;
                &&& 0 <= q < positions.len()
                &&& box_of_params(positions[q], params) == Some(self.ids@[g])
            }
        &&& forall|g: int, j: int, k: int|
            0 <= g < self.members@.len() && 0 <= j < k < self.members@[g]@.len()
                ==> #[trigger] self.members@[g]@[j] < #[trigger] self.members@[g]@[k]
        &&& forall|g: int| 0 <= g < self.members@.len() ==> self.members@[g]@.len() > 0
        &&& forall|q: int|
            0 <= q < positions.len() && box_of_params(positions[q], params) is Some ==> exists|
                g: int,
                j: int,
            |
                0 <= g < self.members@.len() && 0 <= j < self.members@[g]@.len()
                    && #[trigger] self.members@[g]@[j] == q
    }
}

/// `index` maps each box id to its position in `ids`.
spec fn index_matches(index: Map<u64, usize>, ids: Seq<u64>) -> bool {
    &&& forall|g: int| 0 <= g < ids.len() ==> #[trigger] index.contains_key(ids[g])
        && index[ids[g]] == g
    &&& forall|b: u64| #[trigger] index.contains_key(b) ==> index[b] < ids.len()
        && ids[index[b] as int] == b
}

/// Rebuilds from scratch the grouping of the particles by box.
pub fn build_boxes(positions: &Vec<Vec3>, params: &CollisionParameters) -> (r: BoxPartition)
    requires
        params.wf(),
    ensures
        r.partitions(positions@, *params),
{
    let mut index: HashMap<u64, usize> = HashMap::new();
    let mut ids: Vec<u64> = Vec::new();
    let mut members: Vec<Vec<usize>> = Vec::new();
    let mut i: usize = 0;
    while i < positions.len()
        invariant
            i <= positions@.len(),
            params.wf(),
            ids@.len() == members@.len(),
            forall|g: int, h: int| 0 <= g < h < ids@.len() ==> ids@[g] != ids@[h],
            index_matches(index@, ids@),
            forall|g: int, j: int|
                0 <= g < members@.len() && 0 <= j < members@[g]@.len() ==> {
                    let q = #[trigger] members@[g]@[j] as int;
                    &&& 0 <= q < i
                    &&& box_of_params(positions@[q], *params) == Some(ids@[g])
                },
            forall|g: int, j: int, k: int|
                0 <= g < members@.len() && 0 <= j < k < members@[g]@.len()
                    ==> #[trigger] members@[g]@[j] < #[trigger] members@[g]@[k],
            forall|g: int| 0 <= g < members@.len() ==> members@[g]@.len() > 0,
            forall|q: int|
                0 <= q < i && box_of_params(positions@[q], *params) is Some ==> exists|
                    g: int,
                    j: int,
                |
                    0 <= g < members@.len() && 0 <= j < members@[g]@.len()
                        && #[trigger] members@[g]@[j] == q,
        decreases positions.len() - i,
    {
        let b = box_of(&positions[i], params);
        match b {
            Some(id) => {
                let found: Option<usize> = match index.get(&id) {
                    Some(g) => Some(*g),
                    None => None,
                };
                match found {
                    Some(g) => {
                        let ghost old_members = members@;
                        let mut group: Vec<usize> = Vec::new();
                        std::mem::swap(&mut group, &mut members[g]);
                        group.push(i);
                        members.set(g, group);
                        proof {
                            assert forall|g2: int, j: int|
                                0 <= g2 < members@.len() && 0 <= j < members@[g2]@.len() implies {
                                    let q = #[trigger] members@[g2]@[j] as int;
                                    &&& 0 <= q < i + 1
                                    &&& box_of_params(positions@[q], *params) == Some(ids@[g2])
                                } by {
                                if g2 != g || j < old_members[g2]@.len() {
                                    assert(members@[g2]@[j] == old_members[g2]@[j]);
                                }
                            }
                            assert forall|q: int|
                                0 <= q < i + 1 && box_of_params(positions@[q], *params) is Some
                                    implies exists|g2: int, j: int|
                                    0 <= g2 < members@.len() && 0 <= j < members@[g2]@.len()
                                        && #[trigger] members@[g2]@[j] == q by {
                                if q == i {
                                    let j = old_members[g as int]@.len() as int;
                                    assert(members@[g as int]@[j] == q);
                                } else {
                                    let (g2, j) = choose|g2: int, j: int|
                                        0 <= g2 < old_members.len() && 0 <= j
                                            < old_members[g2]@.len() && old_members[g2]@[j] == q;
                                    assert(members@[g2]@[j] == q);
                                }
                            }
                        }
                    },
                    None => {
                        let g = ids.len();
                        let ghost old_members = members@;
                        let ghost old_index = index@;
                        let ghost old_ids = ids@;
                        index.insert(id, g);
                        ids.push(id);
                        let mut group: Vec<usize> = Vec::new();
                        group.push(i);
                        members.push(group);
                        proof {
                            assert forall|q: int|
                                0 <= q < i + 1 && box_of_params(positions@[q], *params) is Some
                                    implies exists|g2: int, j: int|
                                    0 <= g2 < members@.len() && 0 <= j < members@[g2]@.len()
                                        && #[trigger] members@[g2]@[j] == q by {
                                if q == i {
                                    assert(members@[g as int]@[0] == q);
                                } else {
                                    let (g2, j) = choose|g2: int, j: int|
                                        0 <= g2 < old_members.len() && 0 <= j
                                            < old_members[g2]@.len() && old_members[g2]@[j] == q;
                                    assert(members@[g2]@[j] == q);
                                }
                            }
                            assert forall|g2: int| 0 <= g2 < ids@.len() implies #[trigger] index@.contains_key(ids@[g2])
                                && index@[ids@[g2]] == g2 by {
                                if g2 == g {
                                    assert(index@[id] == g);
                                } else {
                                    assert(old_ids[g2] == ids@[g2]);
                                    assert(old_index.contains_key(old_ids[g2]));
                                    assert(ids@[g2] != id);
                                }
                            }
                        }
                    },
                }
            },
            None => {},
        }
        i = i + 1;
    }
    BoxPartition { ids, members }
}

} // verus!

verus! {

/// Box membership is a partition: a particle lies in some box exactly when its
/// position is inside the grid, no particle lies in two boxes, and no box lists
/// a particle twice.
pub proof fn lemma_boxes_partition(
    part: &BoxPartition,
    positions: Seq<Vec3>,
    params: CollisionParameters,
)
    requires
        part.partitions(positions, params),
    ensures
        forall|q: int|
            0 <= q < positions.len() ==> (box_of_params(positions[q], params) is Some <==> exists|
                g: int,
                j: int,
            |
                0 <= g < part.members@.len() && 0 <= j < part.members@[g]@.len()
                    && #[trigger] part.members@[g]@[j] == q),
        forall|g: int, h: int, j: int, k: int|
            0 <= g < part.members@.len() && 0 <= h < part.members@.len() && 0 <= j
                < part.members@[g]@.len() && 0 <= k < part.members@[h]@.len() && (g != h || j != k)
                ==> #[trigger] part.members@[g]@[j] != #[trigger] part.members@[h]@[k],
{
    assert forall|q: int|
        0 <= q < positions.len() && (exists|g: int, j: int|
            0 <= g < part.members@.len() && 0 <= j < part.members@[g]@.len()
                && #[trigger] part.members@[g]@[j] == q) implies box_of_params(
        positions[q],
        params,
    ) is Some by {
        let (g, j) = choose|g: int, j: int|
            0 <= g < part.members@.len() && 0 <= j < part.members@[g]@.len()
                && #[trigger] part.members@[g]@[j] == q;
        assert(box_of_params(positions[part.members@[g]@[j] as int], params) == Some(
            part.ids@[g],
        ));
    }
    assert forall|g: int, h: int, j: int, k: int|
        0 <= g < part.members@.len() && 0 <= h < part.members@.len() && 0 <= j
            < part.members@[g]@.len() && 0 <= k < part.members@[h]@.len() && (g != h || j != k)
            implies #[trigger] part.members@[g]@[j] != #[trigger] part.members@[h]@[k] by {
        if g == h {
            if j < k {
                assert(part.members@[g]@[j] < part.members@[g]@[k]);
            } else {
                assert(part.members@[g]@[k] < part.members@[g]@[j]);
            }
        } else {
            let a = part.members@[g]@[j] as int;
            let b = part.members@[h]@[k] as int;
            assert(box_of_params(positions[a], params) == Some(part.ids@[g]));
            assert(box_of_params(positions[b], params) == Some(part.ids@[h]));
            if g < h {
                assert(part.ids@[g] != part.ids@[h]);
            } else {
                assert(part.ids@[h] != part.ids@[g]);
            }
        }
    }
}

} // verus!
