//! The spatial index over agent positions.
//!
//! Once per simulation step the engine rebuilds a balanced 2-D k-d tree
//! from every agent's position (there is no incremental update — a
//! deliberate simplicity trade-off for populations of at most a few
//! thousand) and runs one radius query per agent against it. The tree
//! itself comes from the `kd_tree` crate; it is opaque here, so two named
//! results describe it: what a built tree holds, and what a radius query
//! returns. An item is `(x, y, index)`: a fixed-point position and the
//! index of the agent it came from.
//!
//! Both building and querying are deterministic functions of their inputs,
//! which is what lets a whole run be reproduced from a seed.

use vstd::prelude::*;

use crate::bird::Bird;
use crate::vec2::Vec2;

verus! {

/// Coordinates and radii handed to the index stay within 2^29 in
/// magnitude, so the crate's internal squared-distance arithmetic stays
/// within `i64`.
pub const KD_COORD_MAX: i64 = 0x2000_0000;

/// The spatial index over one population snapshot. The `kd_tree` tree type
/// cannot be declared to the verifier (its dimension parameter is a
/// type-level number of an outside crate), so it is held in an opaque
/// wrapper struct and described only through the named results below.
#[verifier::external_body]
pub struct SpatialIndex {
    tree: kd_tree::KdTree<([i64; 2], u64)>,
}

/// What a built tree holds, in its internal storage order.
pub uninterp spec fn kd_points(t: SpatialIndex) -> Seq<(i64, i64, u64)>;

/// The storage order that building a tree gives to the input items.
pub uninterp spec fn kd_arrange(pts: Seq<(i64, i64, u64)>) -> Seq<(i64, i64, u64)>;

/// What a radius query on a tree with the given contents returns, in
/// returned order.
pub uninterp spec fn kd_range_order(
    pts: Seq<(i64, i64, u64)>,
    qx: i64,
    qy: i64,
    radius: i64,
) -> Seq<(i64, i64, u64)>;

/// Whether an item lies strictly within `radius` of the query point —
/// the condition the crate's `within_radius` tests, in exact arithmetic.
pub open spec fn kd_in_range(p: (i64, i64, u64), qx: int, qy: int, radius: int) -> bool {
    let dx = p.0 - qx;
    let dy = p.1 - qy;
    dx * dx + dy * dy < radius * radius
}

/// All item coordinates within the range the index's arithmetic supports.
pub open spec fn kd_coords_ok(pts: Seq<(i64, i64, u64)>) -> bool {
    forall|i: int|
        0 <= i < pts.len() ==> -KD_COORD_MAX <= #[trigger] pts[i].0 <= KD_COORD_MAX
            && -KD_COORD_MAX <= pts[i].1 <= KD_COORD_MAX
}

/// Relies on `kd_tree::KdTreeN::build`: the tree stores exactly the given
/// items, deterministically reordered into its internal layout.
#[verifier::external_body]
pub(crate) fn kd_build(pts: Vec<(i64, i64, u64)>) -> (t: SpatialIndex)
    ensures
        kd_points(t) == kd_arrange(pts@),
        kd_points(t).to_multiset() == pts@.to_multiset(),
{
    SpatialIndex { tree: kd_tree::KdTree::build(pts.into_iter().map(|p| ([p.0, p.1], p.2)).collect()) }
}

/// Relies on `kd_tree::KdSliceN::within_radius` (reached through the
/// tree's `Deref`): it returns exactly the stored items whose squared
/// Euclidean distance from the query point is strictly below the squared
/// radius, each once, in a deterministic traversal order. The coordinate
/// bounds keep its `i64` distance arithmetic exact.
#[verifier::external_body]
pub(crate) fn kd_within_radius(
    t: &SpatialIndex,
    qx: i64,
    qy: i64,
    radius: i64,
) -> (r: Vec<(i64, i64, u64)>)
    requires
        kd_coords_ok(kd_points(*t)),
        -KD_COORD_MAX <= qx <= KD_COORD_MAX,
        -KD_COORD_MAX <= qy <= KD_COORD_MAX,
        0 <= radius <= KD_COORD_MAX,
    ensures
        r@ == kd_range_order(kd_points(*t), qx, qy, radius),
        forall|x: (i64, i64, u64)|
            #[trigger] r@.to_multiset().count(x) == if kd_in_range(
                x,
                qx as int,
                qy as int,
                radius as int,
            ) {
                kd_points(*t).to_multiset().count(x)
            } else {
                0
            },
{
    t.tree.within_radius(&[qx, qy], radius).into_iter().map(|it| (it.0[0], it.0[1], it.1)).collect()
}

/// The index items for a population snapshot: each agent's position tagged
/// with its index.
pub open spec fn index_points(birds: Seq<Bird>) -> Seq<(i64, i64, u64)> {
    Seq::new(birds.len(), |j: int| (birds[j].position.x, birds[j].position.y, j as u64))
}

/// Collect the index items for the current population.
pub(crate) fn build_points(birds: &Vec<Bird>) -> (r: Vec<(i64, i64, u64)>)
    ensures
        r@ == index_points(birds@),
{
    let mut r: Vec<(i64, i64, u64)> = Vec::new();
    let mut j: usize = 0;
    while j < birds.len()
        invariant
            j <= birds.len(),
            r@ == index_points(birds@).take(j as int),
        decreases birds.len() - j,
    {
        r.push((birds[j].position.x, birds[j].position.y, j as u64));
        proof {
            assert(r@ =~= index_points(birds@).take(j + 1));
        }
        j = j + 1;
    }
    proof {
        assert(index_points(birds@).take(birds@.len() as int) =~= index_points(birds@));
    }
    r
}

/// The (position, velocity) pairs of the agents behind a list of index
/// items.
pub open spec fn neighbor_pairs(birds: Seq<Bird>, items: Seq<(i64, i64, u64)>) -> Seq<
    (Vec2, Vec2),
> {
    items.map_values(
        |it: (i64, i64, u64)| (birds[it.2 as int].position, birds[it.2 as int].velocity),
    )
}

/// Resolve queried index items back to the agents' position and velocity.
pub(crate) fn resolve_neighbors(birds: &Vec<Bird>, items: &Vec<(i64, i64, u64)>) -> (r: Vec<
    (Vec2, Vec2),
>)
    requires
        forall|i: int|
            0 <= i < items@.len() ==> (#[trigger] items@[i]).2 < birds@.len(),
    ensures
        r@ == neighbor_pairs(birds@, items@),
{
    let mut r: Vec<(Vec2, Vec2)> = Vec::new();
    let nb: usize = birds.len();
    let mut i: usize = 0;
    while i < items.len()
        invariant
            i <= items.len(),
            nb == birds@.len(),
            forall|k: int|
                0 <= k < items@.len() ==> (#[trigger] items@[k]).2 < birds@.len(),
            r@ == neighbor_pairs(birds@, items@).take(i as int),
        decreases items.len() - i,
    {
        proof {
            assert(items@[i as int].2 < birds@.len());
        }
        let idx: usize = items[i].2 as usize;
        proof {
            assert(idx as int == items@[i as int].2 as int);
        }
        r.push((birds[idx].position, birds[idx].velocity));
        proof {
            let m = neighbor_pairs(birds@, items@);
            assert(m[i as int] == (
                birds@[items@[i as int].2 as int].position,
                birds@[items@[i as int].2 as int].velocity,
            ));
            assert(r@ =~= m.take(i + 1));
        }
        i = i + 1;
    }
    proof {
        assert(neighbor_pairs(birds@, items@).take(items@.len() as int) =~= neighbor_pairs(
            birds@,
            items@,
        ));
    }
    r
}

/// Coordinate bounds carry over between sequences holding the same items.
pub proof fn lemma_points_coords_ok(pts: Seq<(i64, i64, u64)>, other: Seq<(i64, i64, u64)>)
    requires
        pts.to_multiset() == other.to_multiset(),
        kd_coords_ok(other),
    ensures
        kd_coords_ok(pts),
{
    broadcast use vstd::seq_lib::group_to_multiset_ensures;

    assert forall|i: int|
        0 <= i < pts.len() implies -KD_COORD_MAX <= (#[trigger] pts[i]).0 <= KD_COORD_MAX
        && -KD_COORD_MAX <= pts[i].1 <= KD_COORD_MAX by {
        let x = pts[i];
        assert(pts.contains(x));
        assert(pts.to_multiset().count(x) > 0);
        assert(other.to_multiset().count(x) > 0);
        assert(other.contains(x));
        let j = choose|j: int| 0 <= j < other.len() && other[j] == x;
        assert(-KD_COORD_MAX <= other[j].0 <= KD_COORD_MAX);
    }
}

/// Every item a radius query returns indexes a real agent whose position
/// the item carries: queried items come from the built tree, and the built
/// tree holds exactly the population snapshot.
pub proof fn lemma_query_items_resolve(
    birds: Seq<Bird>,
    t: SpatialIndex,
    found: Seq<(i64, i64, u64)>,
    qx: i64,
    qy: i64,
    radius: i64,
)
    requires
        birds.len() <= u64::MAX,
        kd_points(t).to_multiset() == index_points(birds).to_multiset(),
        forall|x: (i64, i64, u64)|
            #[trigger] found.to_multiset().count(x) == if kd_in_range(
                x,
                qx as int,
                qy as int,
                radius as int,
            ) {
                kd_points(t).to_multiset().count(x)
            } else {
                0
            },
    ensures
        forall|i: int|
            0 <= i < found.len() ==> (#[trigger] found[i]).2 < birds.len()
                && birds[found[i].2 as int].position.x == found[i].0
                && birds[found[i].2 as int].position.y == found[i].1,
{
    broadcast use vstd::seq_lib::group_to_multiset_ensures;

    let pts = index_points(birds);
    assert forall|i: int| 0 <= i < found.len() implies (#[trigger] found[i]).2 < birds.len()
        && birds[found[i].2 as int].position.x == found[i].0
        && birds[found[i].2 as int].position.y == found[i].1 by {
        let x = found[i];
        assert(found.contains(x));
        assert(found.to_multiset().count(x) > 0);
        assert(pts.to_multiset().count(x) > 0);
        assert(pts.contains(x));
        let j = choose|j: int| 0 <= j < pts.len() && pts[j] == x;
        assert(pts[j] == (birds[j].position.x, birds[j].position.y, j as u64));
        assert(x.2 as int == j);
    }
}

} // verus!
