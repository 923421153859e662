//! Input geometry and its decomposition into atoms.
use vstd::prelude::*;

verus! {

/// A position in data units. The core works on integers; callers map their
/// coordinates onto this grid of units.
#[derive(Clone, Copy, Debug, PartialEq, Eq, Structural)]
pub struct Coord {
    pub x: i64,
    pub y: i64,
}

/// A polygon: an exterior ring and its holes, each a sequence of vertices.
/// A ring need not repeat its first vertex at the end.
#[derive(Clone, Debug, PartialEq)]
pub struct Polygon {
    pub exterior: Vec<Coord>,
    pub interiors: Vec<Vec<Coord>>,
}

/// The mathematical value of a [`Polygon`].
pub ghost struct PolygonModel {
    pub exterior: Seq<Coord>,
    pub interiors: Seq<Seq<Coord>>,
}

impl View for Polygon {
    type V = PolygonModel;

    open spec fn view(&self) -> PolygonModel {
        PolygonModel { exterior: self.exterior@, interiors: self.interiors@.map_values(|r: Vec<Coord>| r@) }
    }
}

/// An atom: the only kind of shape that the index and the sampler handle.
#[derive(Clone, Debug, PartialEq)]
pub enum GridGeom {
    Point(Coord),
    Line(Coord, Coord),
    Polygon(Polygon),
}

/// The mathematical value of a [`GridGeom`].
pub ghost enum AtomModel {
    Point(Coord),
    Line(Coord, Coord),
    Polygon(PolygonModel),
}

impl View for GridGeom {
    type V = AtomModel;

    open spec fn view(&self) -> AtomModel {
        match self {
            GridGeom::Point(c) => AtomModel::Point(*c),
            GridGeom::Line(a, b) => AtomModel::Line(*a, *b),
            GridGeom::Polygon(p) => AtomModel::Polygon(p@),
        }
    }
}

/// A geometry value as a decoder hands it over.
#[derive(Debug, PartialEq)]
pub enum Geometry {
    Point(Coord),
    Line(Coord, Coord),
    LineString(Vec<Coord>),
    Polygon(Polygon),
    MultiPoint(Vec<Coord>),
    MultiLineString(Vec<Vec<Coord>>),
    MultiPolygon(Vec<Polygon>),
    GeometryCollection(Vec<Geometry>),
}

/// The views of a sequence of atoms.
pub open spec fn atoms_view(v: Seq<GridGeom>) -> Seq<AtomModel> {
    v.map_values(|a: GridGeom| a@)
}

/// One segment per pair of consecutive vertices.
pub open spec fn segments(pts: Seq<Coord>) -> Seq<AtomModel> {
    if pts.len() < 2 {
        Seq::empty()
    } else {
        Seq::new((pts.len() - 1) as nat, |i: int| AtomModel::Line(pts[i], pts[i + 1]))
    }
}

/// A ring with its first vertex repeated at the end, unless it is empty or
/// already closed.
pub open spec fn closed_ring(ring: Seq<Coord>) -> Seq<Coord> {
    if ring.len() > 0 && ring[0] != ring.last() {
        ring.push(ring[0])
    } else {
        ring
    }
}

/// The atoms of one polygon: none for an empty exterior; the polygon itself
/// as an area; otherwise the closed exterior ring as segments, holes dropped.
pub open spec fn polygon_atoms(p: PolygonModel, is_area: bool) -> Seq<AtomModel> {
    if p.exterior.len() == 0 {
        Seq::empty()
    } else if is_area {
        seq![AtomModel::Polygon(p)]
    } else {
        segments(closed_ring(p.exterior))
    }
}

/// The segments of the first `n` line strings.
pub open spec fn strings_atoms(ls: Seq<Vec<Coord>>, n: int) -> Seq<AtomModel>
    decreases n,
{
    if n <= 0 || n > ls.len() {
        Seq::empty()
    } else {
        strings_atoms(ls, n - 1) + segments(ls[n - 1]@)
    }
}

/// The atoms of the first `n` polygons.
pub open spec fn polygons_atoms(ps: Seq<Polygon>, n: int, is_area: bool) -> Seq<AtomModel>
    decreases n,
{
    if n <= 0 || n > ps.len() {
        Seq::empty()
    } else {
        polygons_atoms(ps, n - 1, is_area) + polygon_atoms(ps[n - 1]@, is_area)
    }
}

/// The atoms of a geometry, in order.
pub open spec fn normalize(g: Geometry, is_area: bool) -> Seq<AtomModel>
    decreases g, 0int,
{
    match g {
        Geometry::Point(c) => seq![AtomModel::Point(c)],
        Geometry::Line(a, b) => seq![AtomModel::Line(a, b)],
        Geometry::LineString(v) => segments(v@),
        Geometry::Polygon(p) => polygon_atoms(p@, is_area),
        Geometry::MultiPoint(v) => v@.map_values(|c: Coord| AtomModel::Point(c)),
        Geometry::MultiLineString(v) => strings_atoms(v@, v@.len() as int),
        Geometry::MultiPolygon(v) => polygons_atoms(v@, v@.len() as int, is_area),
        Geometry::GeometryCollection(v) => members_atoms(v, v@.len() as int, is_area),
    }
}

/// The atoms of the first `n` members of a collection, in order.
pub open spec fn members_atoms(v: Vec<Geometry>, n: int, is_area: bool) -> Seq<AtomModel>
    decreases v, 1int, n,
{
    if n <= 0 || n > v@.len() {
        Seq::empty()
    } else {
        members_atoms(v, n - 1, is_area) + normalize(v@[n - 1], is_area)
    }
}

proof fn lemma_view_push(v: Seq<GridGeom>, a: GridGeom)
    ensures
        atoms_view(v.push(a)) == atoms_view(v).push(a@),
{
    assert(atoms_view(v.push(a)) =~= atoms_view(v).push(a@));
}

fn copy_ring(ring: &Vec<Coord>) -> (out: Vec<Coord>)
    ensures
        out@ == ring@,
{
    let mut out: Vec<Coord> = Vec::new();
    let mut i: usize = 0;
    while i < ring.len()
        invariant
            i <= ring.len(),
            out@ == ring@.subrange(0, i as int),
        decreases ring.len() - i,
    {
        out.push(ring[i]);
        i += 1;
        assert(out@ =~= ring@.subrange(0, i as int));
    }
    assert(out@ =~= ring@);
    out
}

fn copy_polygon(p: &Polygon) -> (out: Polygon)
    ensures
        out@ == p@,
{
    let exterior = copy_ring(&p.exterior);
    let mut interiors: Vec<Vec<Coord>> = Vec::new();
    let mut i: usize = 0;
    while i < p.interiors.len()
        invariant
            i <= p.interiors.len(),
            interiors@.len() == i,
            forall|k: int| 0 <= k < i ==> (#[trigger] interiors@[k])@ == p.interiors@[k]@,
        decreases p.interiors.len() - i,
    {
        let ring = copy_ring(&p.interiors[i]);
        interiors.push(ring);
        i += 1;
    }
    assert(interiors@.map_values(|r: Vec<Coord>| r@) =~= p.interiors@.map_values(|r: Vec<Coord>| r@));
    let out = Polygon { exterior, interiors };
    assert(out@.interiors =~= p@.interiors);
    out
}

/// Appends one segment per pair of consecutive vertices, and with `close`
/// the segment from the last vertex back to the first where they differ.
fn push_segments(pts: &Vec<Coord>, close: bool, out: &mut Vec<GridGeom>)
    ensures
        atoms_view(final(out)@) == atoms_view(old(out)@) + segments(
            if close {
                closed_ring(pts@)
            } else {
                pts@
            },
        ),
{
    let ghost base = atoms_view(out@);
    let ghost target = if close {
        closed_ring(pts@)
    } else {
        pts@
    };
    let n = pts.len();
    if n < 2 {
        if close && n == 1 {
            assert(closed_ring(pts@) == pts@);
        }
        assert(segments(target) =~= Seq::empty());
        assert(base + Seq::<AtomModel>::empty() =~= base);
        return;
    }
    let mut i: usize = 0;
    while i + 1 < n
        invariant
            n == pts.len(),
            n >= 2,
            i + 1 <= n,
            atoms_view(out@) == base + Seq::new(i as nat, |k: int| AtomModel::Line(pts@[k], pts@[k + 1])),
        decreases n - i,
    {
        let a = GridGeom::Line(pts[i], pts[i + 1]);
        proof {
            lemma_view_push(out@, a);
        }
        out.push(a);
        i += 1;
        assert(atoms_view(out@) =~= base + Seq::new(i as nat, |k: int| AtomModel::Line(pts@[k], pts@[k + 1])));
    }
    if close && pts[0] != pts[n - 1] {
        let a = GridGeom::Line(pts[n - 1], pts[0]);
        proof {
            lemma_view_push(out@, a);
        }
        out.push(a);
        assert(atoms_view(out@) =~= base + segments(target));
    } else {
        assert(atoms_view(out@) =~= base + segments(target));
    }
}

/// Appends the atoms of one polygon.
fn push_polygon(p: &Polygon, is_area: bool, out: &mut Vec<GridGeom>)
    ensures
        atoms_view(final(out)@) == atoms_view(old(out)@) + polygon_atoms(p@, is_area),
{
    if p.exterior.len() == 0 {
        assert(atoms_view(out@) + Seq::<AtomModel>::empty() =~= atoms_view(out@));
    } else if is_area {
        let a = GridGeom::Polygon(copy_polygon(p));
        proof {
            lemma_view_push(out@, a);
        }
        out.push(a);
        assert(atoms_view(out@) =~= atoms_view(old(out)@) + polygon_atoms(p@, is_area));
    } else {
        push_segments(&p.exterior, true, out);
    }
}

/// Appends the atoms of a geometry.
fn normalize_into(g: &Geometry, is_area: bool, out: &mut Vec<GridGeom>)
    ensures
        atoms_view(final(out)@) == atoms_view(old(out)@) + normalize(*g, is_area),
    decreases g,
{
    let ghost base = atoms_view(out@);
    match g {
        Geometry::Point(c) => {
            let a = GridGeom::Point(*c);
            proof {
                lemma_view_push(out@, a);
            }
            out.push(a);
        },
        Geometry::Line(s, e) => {
            let a = GridGeom::Line(*s, *e);
            proof {
                lemma_view_push(out@, a);
            }
            out.push(a);
        },
        Geometry::LineString(v) => {
            push_segments(v, false, out);
        },
        Geometry::Polygon(p) => {
            push_polygon(p, is_area, out);
        },
        Geometry::MultiPoint(v) => {
            let mut i: usize = 0;
            while i < v.len()
                invariant
                    i <= v.len(),
                    atoms_view(out@) == base + v@.subrange(0, i as int).map_values(
                        |c: Coord| AtomModel::Point(c),
                    ),
                decreases v.len() - i,
            {
                let a = GridGeom::Point(v[i]);
                proof {
                    lemma_view_push(out@, a);
                }
                out.push(a);
                i += 1;
                assert(atoms_view(out@) =~= base + v@.subrange(0, i as int).map_values(
                    |c: Coord| AtomModel::Point(c),
                ));
            }
            assert(v@.subrange(0, i as int) =~= v@);
        },
        Geometry::MultiLineString(v) => {
            let mut i: usize = 0;
            assert(base + strings_atoms(v@, 0) =~= base);
            while i < v.len()
                invariant
                    i <= v.len(),
                    atoms_view(out@) == base + strings_atoms(v@, i as int),
                decreases v.len() - i,
            {
                push_segments(&v[i], false, out);
                i += 1;
                assert(base + strings_atoms(v@, i as int) =~= base + strings_atoms(v@, i - 1)
                    + segments(v@[i - 1]@));
            }
        },
        Geometry::MultiPolygon(v) => {
            let mut i: usize = 0;
            assert(base + polygons_atoms(v@, 0, is_area) =~= base);
            while i < v.len()
                invariant
                    i <= v.len(),
                    atoms_view(out@) == base + polygons_atoms(v@, i as int, is_area),
                decreases v.len() - i,
            {
                push_polygon(&v[i], is_area, out);
                i += 1;
                assert(base + polygons_atoms(v@, i as int, is_area) =~= base + polygons_atoms(
                    v@,
                    i - 1,
                    is_area,
                ) + polygon_atoms(v@[i - 1]@, is_area));
            }
        },
        Geometry::GeometryCollection(v) => {
            let mut i: usize = 0;
            assert(base + members_atoms(*v, 0, is_area) =~= base);
            while i < v.len()
                invariant
                    i <= v.len(),
                    atoms_view(out@) == base + members_atoms(*v, i as int, is_area),
                    *g == Geometry::GeometryCollection(*v),
                decreases v.len() - i,
            {
                proof {
                    assert(decreases_to!(*g => (*g)->GeometryCollection_0));
                    assert(decreases_to!(*v => v@[i as int]));
                    assert(decreases_to!(*g => v@[i as int]));
                }
                normalize_into(&v[i], is_area, out);
                i += 1;
                assert(base + members_atoms(*v, i as int, is_area) =~= base + members_atoms(
                    *v,
                    i - 1,
                    is_area,
                ) + normalize(v@[i - 1], is_area));
            }
        },
    }
}

impl GridGeom {
    /// Flattens a geometry into atoms: a point per point, a segment per pair
    /// of consecutive vertices, and per polygon either the polygon itself
    /// (`is_area`) or the segments of its closed exterior ring.
    pub fn vec_from_geom(geom: Geometry, is_area: bool) -> (r: Vec<GridGeom>)
        ensures
            atoms_view(r@) == normalize(geom, is_area),
    {
        let mut out: Vec<GridGeom> = Vec::new();
        normalize_into(&geom, is_area, &mut out);
        assert(atoms_view(Seq::<GridGeom>::empty()) + normalize(geom, is_area) =~= normalize(geom, is_area));
        out
    }
}

} // verus!
