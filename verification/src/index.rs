//! The spatial index: points keyed by two integers, loaded in bulk into an
//! R-tree and queried by closed boxes.

use vstd::multiset::Multiset;
use vstd::prelude::*;

verus! {

/// An immutable snapshot of a point set that answers box queries. It holds
/// an `rstar::RTree` over arrays of two coordinates.
#[verifier::external_body]
pub struct SpatialIndex {
    tree: rstar::RTree<[i64; 2]>,
}

/// The points that an index holds, each as often as it was loaded.
pub uninterp spec fn indexed_points(index: SpatialIndex) -> Multiset<(i64, i64)>;

/// `p` lies in the closed box that the corners `a` and `b` span, whichever
/// way round the corners are given.
pub open spec fn in_box(p: (i64, i64), a: (i64, i64), b: (i64, i64)) -> bool {
    &&& (a.0 <= p.0 <= b.0 || b.0 <= p.0 <= a.0)
    &&& (a.1 <= p.1 <= b.1 || b.1 <= p.1 <= a.1)
}

/// Calls `rstar::RTree::bulk_load` on the points, each as an array of its two
/// coordinates. Claimed: the tree holds exactly the points given, duplicates
/// included.
#[verifier::external_body]
fn bulk_load(points: Vec<(i64, i64)>) -> (index: SpatialIndex)
    ensures
        indexed_points(index) == points@.to_multiset(),
{
    SpatialIndex { tree: rstar::RTree::bulk_load(points.into_iter().map(|p| [p.0, p.1]).collect()) }
}

/// Calls `rstar::RTree::locate_in_envelope` with the box made by
/// `rstar::AABB::from_corners`. Claimed: what comes out are exactly the
/// tree's points inside the closed box, each as often as the tree holds it,
/// in no stated order.
#[verifier::external_body]
fn locate_in_envelope(index: &SpatialIndex, a: (i64, i64), b: (i64, i64)) -> (found: Vec<
    (i64, i64),
>)
    ensures
        found@.to_multiset() == indexed_points(*index).filter(|p: (i64, i64)| in_box(p, a, b)),
{
    let envelope = rstar::AABB::from_corners([a.0, a.1], [b.0, b.1]);
    index.tree.locate_in_envelope(&envelope).map(|p| (p[0], p[1])).collect()
}

impl SpatialIndex {
    /// The points of the snapshot, each as often as it was given.
    pub open spec fn points(&self) -> Multiset<(i64, i64)> {
        indexed_points(*self)
    }

    /// Builds the snapshot of a point set in one pass.
    pub fn build(points: Vec<(i64, i64)>) -> (index: SpatialIndex)
        ensures
            index.points() == points@.to_multiset(),
    {
        bulk_load(points)
    }

    /// Every point of the snapshot that lies in the closed box spanned by the
    /// corners `a` and `b`, in no particular order.
    pub fn query_range(&self, a: (i64, i64), b: (i64, i64)) -> (found: Vec<(i64, i64)>)
        ensures
            found@.to_multiset() == self.points().filter(|p: (i64, i64)| in_box(p, a, b)),
    {
        locate_in_envelope(self, a, b)
    }
}

/// A query returns a point exactly as often as a scan of the loaded points
/// finds it inside the box.
pub proof fn lemma_query_matches_scan(
    loaded: Seq<(i64, i64)>,
    index: SpatialIndex,
    found: Seq<(i64, i64)>,
    a: (i64, i64),
    b: (i64, i64),
    p: (i64, i64),
)
    requires
        index.points() == loaded.to_multiset(),
        found.to_multiset() == index.points().filter(|q: (i64, i64)| in_box(q, a, b)),
    ensures
        found.to_multiset().count(p) == (if in_box(p, a, b) {
            loaded.to_multiset().count(p)
        } else {
            0
        }),
        found.contains(p) <==> loaded.contains(p) && in_box(p, a, b),
{
    broadcast use vstd::multiset::group_multiset_axioms;
    vstd::seq_lib::to_multiset_contains(found, p);
    vstd::seq_lib::to_multiset_contains(loaded, p);
}

/// The one live snapshot: none before the first load, then always the one
/// published last.
pub struct Coordinator {
    current: Option<SpatialIndex>,
}

impl Coordinator {
    /// Whether a snapshot has been published.
    pub closed spec fn is_ready(&self) -> bool {
        self.current is Some
    }

    /// The points of the published snapshot; none before the first.
    pub closed spec fn points(&self) -> Multiset<(i64, i64)> {
        match self.current {
            Some(index) => index.points(),
            None => Multiset::empty(),
        }
    }

    /// A coordinator that has published nothing yet.
    pub fn new() -> (c: Coordinator)
        ensures
            !c.is_ready(),
            c.points() == Multiset::<(i64, i64)>::empty(),
    {
        Coordinator { current: None }
    }

    /// Replaces the published snapshot as a whole.
    pub fn publish(&mut self, index: SpatialIndex)
        ensures
            final(self).is_ready(),
            final(self).points() == index.points(),
    {
        self.current = Some(index);
    }

    /// Builds a snapshot of the points and publishes it in place of the last.
    pub fn refresh(&mut self, points: Vec<(i64, i64)>)
        ensures
            final(self).is_ready(),
            final(self).points() == points@.to_multiset(),
    {
        let index = SpatialIndex::build(points);
        self.publish(index);
    }

    /// Every point of the published snapshot inside the closed box; nothing
    /// before the first snapshot.
    pub fn query(&self, a: (i64, i64), b: (i64, i64)) -> (found: Vec<(i64, i64)>)
        ensures
            found@.to_multiset() == self.points().filter(|p: (i64, i64)| in_box(p, a, b)),
    {
        match &self.current {
            Some(index) => index.query_range(a, b),
            None => {
                let found: Vec<(i64, i64)> = Vec::new();
                proof {
                    broadcast use vstd::multiset::group_multiset_axioms;
                    vstd::seq_lib::to_multiset_len(found@);
                    vstd::multiset::lemma_multiset_empty_len(found@.to_multiset());
                    assert(Multiset::<(i64, i64)>::empty().filter(|p: (i64, i64)| in_box(p, a, b))
                        =~= Multiset::<(i64, i64)>::empty());
                }
                found
            },
        }
    }
}

} // verus!
