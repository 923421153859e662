//! The spatial index over atom envelopes, kept in an `rstar` R-tree.
//!
//! Each entry is an envelope `(min_x, min_y, max_x, max_y)` with the position
//! of its atom; the tree is built once and only queried afterwards.
use vstd::prelude::*;
use rstar::primitives::{GeomWithData, Rectangle};
use rstar::{RTree, AABB};

verus! {

/// The R-tree of envelopes. Verus cannot take the declaration of `rstar`'s
/// tree with its trait bounds, so the tree sits in a field hidden from it.
#[verifier::external_body]
pub struct EnvelopeIndex {
    tree: RTree<GeomWithData<Rectangle<[i64; 2]>, usize>>,
}

/// An envelope with the position of its atom.
pub type IndexEntry = (i64, i64, i64, i64, usize);

/// The entries that an index tree holds.
pub uninterp spec fn tree_entries(t: EnvelopeIndex) -> Set<(i64, i64, i64, i64, usize)>;

/// Two closed boxes `(min_x, min_y, max_x, max_y)` share a point.
pub open spec fn boxes_meet(a: (int, int, int, int), b: (int, int, int, int)) -> bool {
    &&& a.0 <= b.2
    &&& b.0 <= a.2
    &&& a.1 <= b.3
    &&& b.1 <= a.3
}

/// The box part of an entry.
pub open spec fn entry_box(e: IndexEntry) -> (int, int, int, int) {
    (e.0 as int, e.1 as int, e.2 as int, e.3 as int)
}

/// Relies on `rstar::RTree::bulk_load`: the tree holds exactly the given
/// rectangles, each with its data.
#[verifier::external_body]
pub(crate) fn build_tree(entries: Vec<IndexEntry>) -> (t: EnvelopeIndex)
    requires
        forall|k: int| 0 <= k < entries.len() ==> #[trigger] entries[k].0 <= entries[k].2 && entries[k].1 <= entries[k].3,
    ensures
        tree_entries(t) == entries@.to_set(),
{
    let items = entries.into_iter().map(|(a, b, c, d, k)| GeomWithData::new(Rectangle::from_corners([a, b], [c, d]), k));
    EnvelopeIndex { tree: RTree::bulk_load(items.collect()) }
}

/// Relies on `rstar::RTree::locate_in_envelope_intersecting`: it yields the
/// entries whose envelope shares a point with the closed query box.
#[verifier::external_body]
pub(crate) fn locate_intersecting(t: &EnvelopeIndex, min_x: i64, min_y: i64, max_x: i64, max_y: i64) -> (r: Vec<usize>)
    requires
        min_x <= max_x,
        min_y <= max_y,
    ensures
        forall|i: int|
            0 <= i < r.len() ==> exists|e: IndexEntry|
                #![trigger tree_entries(*t).contains(e)]
                tree_entries(*t).contains(e) && e.4 == #[trigger] r[i] && boxes_meet(
                    entry_box(e),
                    (min_x as int, min_y as int, max_x as int, max_y as int),
                ),
        forall|e: IndexEntry|
            tree_entries(*t).contains(e) && boxes_meet(
                entry_box(e),
                (min_x as int, min_y as int, max_x as int, max_y as int),
            ) ==> #[trigger] r@.contains(e.4),
{
    t.tree.locate_in_envelope_intersecting(AABB::from_corners([min_x, min_y], [max_x, max_y])).map(|e| e.data).collect()
}

} // verus!
