//! Envelopes of atoms, the extent of a set of atoms, and the atoms that a
//! grid accepts.
use vstd::prelude::*;
use crate::geometry::{AtomModel, Coord, GridGeom, atoms_view};
use crate::grid::{BBox, bbox_wf, coord_in_range};

verus! {

pub open spec fn coord_of(c: Coord, y: bool) -> i64 {
    if y {
        c.y
    } else {
        c.x
    }
}

/// The least (or, with `hi`, the greatest) first or second coordinate of a
/// non-empty ring.
pub open spec fn ring_extreme(s: Seq<Coord>, y: bool, hi: bool) -> i64
    decreases s.len(),
{
    if s.len() <= 1 {
        coord_of(s[0], y)
    } else {
        let r = ring_extreme(s.drop_last(), y, hi);
        let v = coord_of(s.last(), y);
        if (hi && v > r) || (!hi && v < r) {
            v
        } else {
            r
        }
    }
}

/// The envelope of an atom; a polygon's is that of its exterior ring.
pub open spec fn envelope(a: AtomModel) -> BBox {
    match a {
        AtomModel::Point(c) => BBox { min_x: c.x, min_y: c.y, max_x: c.x, max_y: c.y },
        AtomModel::Line(s, e) => BBox {
            min_x: if s.x <= e.x { s.x } else { e.x },
            min_y: if s.y <= e.y { s.y } else { e.y },
            max_x: if s.x <= e.x { e.x } else { s.x },
            max_y: if s.y <= e.y { e.y } else { s.y },
        },
        AtomModel::Polygon(p) => BBox {
            min_x: ring_extreme(p.exterior, false, false),
            min_y: ring_extreme(p.exterior, true, false),
            max_x: ring_extreme(p.exterior, false, true),
            max_y: ring_extreme(p.exterior, true, true),
        },
    }
}

/// The smallest box holding two boxes.
pub open spec fn union(a: BBox, b: BBox) -> BBox {
    BBox {
        min_x: if a.min_x <= b.min_x { a.min_x } else { b.min_x },
        min_y: if a.min_y <= b.min_y { a.min_y } else { b.min_y },
        max_x: if a.max_x >= b.max_x { a.max_x } else { b.max_x },
        max_y: if a.max_y >= b.max_y { a.max_y } else { b.max_y },
    }
}

/// The envelope of a non-empty sequence of atoms.
pub open spec fn atoms_bounds(s: Seq<AtomModel>) -> BBox
    decreases s.len(),
{
    if s.len() <= 1 {
        envelope(s[0])
    } else {
        union(atoms_bounds(s.drop_last()), envelope(s.last()))
    }
}

pub open spec fn coord_valid(c: Coord) -> bool {
    coord_in_range(c.x as int) && coord_in_range(c.y as int)
}

pub open spec fn ring_valid(r: Seq<Coord>) -> bool {
    forall|k: int| 0 <= k < r.len() ==> coord_valid(#[trigger] r[k])
}

/// An atom the grid accepts: coordinates in range and, for a polygon, a
/// non-empty exterior ring.
pub open spec fn atom_valid(a: AtomModel) -> bool {
    match a {
        AtomModel::Point(c) => coord_valid(c),
        AtomModel::Line(s, e) => coord_valid(s) && coord_valid(e),
        AtomModel::Polygon(p) => {
            &&& p.exterior.len() > 0
            &&& ring_valid(p.exterior)
            &&& forall|k: int| 0 <= k < p.interiors.len() ==> ring_valid(#[trigger] p.interiors[k])
        },
    }
}

/// Facts on the extremes of a ring: each coordinate lies between the least
/// and the greatest, which are coordinates of the ring.
proof fn lemma_ring_extreme(s: Seq<Coord>, y: bool)
    requires
        s.len() > 0,
    ensures
        forall|k: int|
            0 <= k < s.len() ==> ring_extreme(s, y, false) <= #[trigger] coord_of(s[k], y) <= ring_extreme(s, y, true),
        exists|k: int| 0 <= k < s.len() && ring_extreme(s, y, false) == #[trigger] coord_of(s[k], y),
        exists|k: int| 0 <= k < s.len() && ring_extreme(s, y, true) == #[trigger] coord_of(s[k], y),
    decreases s.len(),
{
    if s.len() > 1 {
        let t = s.drop_last();
        lemma_ring_extreme(t, y);
        let k1 = choose|k: int| 0 <= k < t.len() && ring_extreme(t, y, false) == #[trigger] coord_of(t[k], y);
        let k2 = choose|k: int| 0 <= k < t.len() && ring_extreme(t, y, true) == #[trigger] coord_of(t[k], y);
        let n = s.len() - 1;
        assert(t[k1] == s[k1] && t[k2] == s[k2] && s.last() == s[n]);
        let lo = if ring_extreme(s, y, false) == coord_of(s[n], y) { n } else { k1 };
        let hi = if ring_extreme(s, y, true) == coord_of(s[n], y) { n } else { k2 };
        assert(0 <= lo < s.len() && ring_extreme(s, y, false) == coord_of(s[lo], y));
        assert(0 <= hi < s.len() && ring_extreme(s, y, true) == coord_of(s[hi], y));
        assert forall|k: int| 0 <= k < s.len() implies ring_extreme(s, y, false) <= #[trigger] coord_of(s[k], y) <= ring_extreme(s, y, true) by {
            if k < n {
                assert(t[k] == s[k]);
                assert(ring_extreme(t, y, false) <= coord_of(t[k], y) <= ring_extreme(t, y, true));
            }
        }
    } else {
        assert(0 <= 0 < s.len() && ring_extreme(s, y, false) == coord_of(s[0], y));
        assert(0 <= 0 < s.len() && ring_extreme(s, y, true) == coord_of(s[0], y));
    }
}

/// The envelope of a valid atom is a well-formed box.
proof fn lemma_envelope_wf(a: AtomModel)
    requires
        atom_valid(a),
    ensures
        bbox_wf(envelope(a)),
{
    if let AtomModel::Polygon(p) = a {
        lemma_ring_extreme(p.exterior, false);
        lemma_ring_extreme(p.exterior, true);
        let k1 = choose|k: int| 0 <= k < p.exterior.len() && ring_extreme(p.exterior, false, false) == #[trigger] coord_of(p.exterior[k], false);
        let k2 = choose|k: int| 0 <= k < p.exterior.len() && ring_extreme(p.exterior, false, true) == #[trigger] coord_of(p.exterior[k], false);
        let k3 = choose|k: int| 0 <= k < p.exterior.len() && ring_extreme(p.exterior, true, false) == #[trigger] coord_of(p.exterior[k], true);
        let k4 = choose|k: int| 0 <= k < p.exterior.len() && ring_extreme(p.exterior, true, true) == #[trigger] coord_of(p.exterior[k], true);
        assert(coord_valid(p.exterior[k1]) && coord_valid(p.exterior[k2]) && coord_valid(p.exterior[k3]) && coord_valid(p.exterior[k4]));
        assert(coord_of(p.exterior[0], false) == coord_of(p.exterior[0], false));
        assert(coord_of(p.exterior[0], true) == coord_of(p.exterior[0], true));
    }
}

/// The envelope of a non-empty ring.
fn ring_envelope(r: &Vec<Coord>) -> (b: BBox)
    requires
        r.len() > 0,
    ensures
        b.min_x == ring_extreme(r@, false, false),
        b.min_y == ring_extreme(r@, true, false),
        b.max_x == ring_extreme(r@, false, true),
        b.max_y == ring_extreme(r@, true, true),
{
    let mut b = BBox { min_x: r[0].x, min_y: r[0].y, max_x: r[0].x, max_y: r[0].y };
    let mut i: usize = 1;
    while i < r.len()
        invariant
            1 <= i <= r.len(),
            b.min_x == ring_extreme(r@.subrange(0, i as int), false, false),
            b.min_y == ring_extreme(r@.subrange(0, i as int), true, false),
            b.max_x == ring_extreme(r@.subrange(0, i as int), false, true),
            b.max_y == ring_extreme(r@.subrange(0, i as int), true, true),
        decreases r.len() - i,
    {
        let c = r[i];
        if c.x < b.min_x {
            b.min_x = c.x;
        }
        if c.y < b.min_y {
            b.min_y = c.y;
        }
        if c.x > b.max_x {
            b.max_x = c.x;
        }
        if c.y > b.max_y {
            b.max_y = c.y;
        }
        assert(r@.subrange(0, i + 1).drop_last() =~= r@.subrange(0, i as int));
        i += 1;
    }
    assert(r@.subrange(0, i as int) =~= r@);
    b
}

/// The envelope of an atom.
pub(crate) fn atom_envelope(a: &GridGeom) -> (b: BBox)
    requires
        a@ is Polygon ==> a@->Polygon_0.exterior.len() > 0,
    ensures
        b == envelope(a@),
{
    match a {
        GridGeom::Point(c) => BBox { min_x: c.x, min_y: c.y, max_x: c.x, max_y: c.y },
        GridGeom::Line(s, e) => BBox {
            min_x: if s.x <= e.x { s.x } else { e.x },
            min_y: if s.y <= e.y { s.y } else { e.y },
            max_x: if s.x <= e.x { e.x } else { s.x },
            max_y: if s.y <= e.y { e.y } else { s.y },
        },
        GridGeom::Polygon(p) => ring_envelope(&p.exterior),
    }
}

fn coord_ok(c: Coord) -> (r: bool)
    ensures
        r == coord_valid(c),
{
    -0x8000_0000 <= c.x && c.x < 0x8000_0000 && -0x8000_0000 <= c.y && c.y < 0x8000_0000
}

fn ring_ok(r: &Vec<Coord>) -> (ok: bool)
    ensures
        ok == ring_valid(r@),
{
    let mut i: usize = 0;
    while i < r.len()
        invariant
            i <= r.len(),
            forall|k: int| 0 <= k < i ==> coord_valid(#[trigger] r@[k]),
        decreases r.len() - i,
    {
        if !coord_ok(r[i]) {
            return false;
        }
        i += 1;
    }
    true
}

/// Whether the grid accepts an atom.
pub(crate) fn atom_ok(a: &GridGeom) -> (ok: bool)
    ensures
        ok == atom_valid(a@),
{
    match a {
        GridGeom::Point(c) => coord_ok(*c),
        GridGeom::Line(s, e) => coord_ok(*s) && coord_ok(*e),
        GridGeom::Polygon(p) => {
            if p.exterior.len() == 0 || !ring_ok(&p.exterior) {
                return false;
            }
            let mut i: usize = 0;
            while i < p.interiors.len()
                invariant
                    i <= p.interiors.len(),
                    a@ == AtomModel::Polygon(p@),
                    p@.exterior.len() > 0,
                    ring_valid(p@.exterior),
                    forall|k: int| 0 <= k < i ==> ring_valid(#[trigger] p@.interiors[k]),
                decreases p.interiors.len() - i,
            {
                if !ring_ok(&p.interiors[i]) {
                    assert(p@.interiors[i as int] == p.interiors@[i as int]@);
                    assert(!ring_valid(p@.interiors[i as int]));
                    assert(!atom_valid(a@));
                    return false;
                }
                i += 1;
            }
            true
        },
    }
}

/// The envelope of all atoms.
pub(crate) fn bounds(atoms: &Vec<GridGeom>) -> (b: BBox)
    requires
        atoms.len() > 0,
        forall|k: int| 0 <= k < atoms.len() ==> atom_valid(#[trigger] atoms@[k]@),
    ensures
        b == atoms_bounds(atoms_view(atoms@)),
        bbox_wf(b),
{
    let ghost s = atoms_view(atoms@);
    proof {
        lemma_envelope_wf(atoms@[0]@);
    }
    let mut b = atom_envelope(&atoms[0]);
    let mut i: usize = 1;
    assert(s.subrange(0, 1).len() == 1);
    while i < atoms.len()
        invariant
            1 <= i <= atoms.len(),
            s == atoms_view(atoms@),
            forall|k: int| 0 <= k < atoms.len() ==> atom_valid(#[trigger] atoms@[k]@),
            b == atoms_bounds(s.subrange(0, i as int)),
            bbox_wf(b),
        decreases atoms.len() - i,
    {
        proof {
            lemma_envelope_wf(atoms@[i as int]@);
        }
        let e = atom_envelope(&atoms[i]);
        b = BBox {
            min_x: if b.min_x <= e.min_x { b.min_x } else { e.min_x },
            min_y: if b.min_y <= e.min_y { b.min_y } else { e.min_y },
            max_x: if b.max_x >= e.max_x { b.max_x } else { e.max_x },
            max_y: if b.max_y >= e.max_y { b.max_y } else { e.max_y },
        };
        assert(s.subrange(0, i + 1).drop_last() =~= s.subrange(0, i as int));
        assert(s.subrange(0, i + 1).last() == atoms@[i as int]@);
        i += 1;
    }
    assert(s.subrange(0, i as int) =~= s);
    b
}

/// An envelope of an atom other than a polygon with an empty exterior has
/// its minimum below its maximum on both axes.
pub(crate) proof fn lemma_envelope_ordered(a: AtomModel)
    requires
        a is Polygon ==> a->Polygon_0.exterior.len() > 0,
    ensures
        envelope(a).min_x <= envelope(a).max_x,
        envelope(a).min_y <= envelope(a).max_y,
{
    if let AtomModel::Polygon(p) = a {
        lemma_ring_extreme(p.exterior, false);
        lemma_ring_extreme(p.exterior, true);
        assert(coord_of(p.exterior[0], false) == coord_of(p.exterior[0], false));
        assert(coord_of(p.exterior[0], true) == coord_of(p.exterior[0], true));
    }
}


} // verus!
