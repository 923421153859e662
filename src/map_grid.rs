//! The rendered grid: atoms moved into dot units, indexed, and sampled.
//!
//! After fitting, a data point `(x, y)` is held as
//! `((x - min_x) * dot_den, (max_y - y) * dot_den)`: the origin is the top
//! left corner of the grid, the second axis points down, and a dot is a
//! square of side `dot_num`. Dot column `i` and dot row `j` cover
//! `[i * dot_num, (i + 1) * dot_num] x [j * dot_num, (j + 1) * dot_num]`;
//! cell `(row, col)` holds dot columns `2 * col ..= 2 * col + 1` and dot rows
//! `4 * row ..= 4 * row + 3`.
use vstd::prelude::*;
use crate::braille::{braille_char, cell_bits, cell_byte, lemma_cell_code_range};
use crate::contact::{box_meets_polygon, box_meets_segment, polygon_meets_box, segment_meets_box};
use crate::extent::{atom_envelope, atom_ok, atom_valid, atoms_bounds, bounds, coord_valid, envelope, lemma_envelope_ordered, ring_valid};
use crate::geometry::{AtomModel, Coord, GridGeom, Polygon, PolygonModel, atoms_view};
use crate::grid::{BBox, GridFit, bbox_wf, coord_in_range, fit_grid, fitted};
use crate::index::{EnvelopeIndex, IndexEntry, boxes_meet, build_tree, entry_box, locate_intersecting, tree_entries};

verus! {

/// Why a grid could not be built.
#[derive(Clone, Copy, Debug, PartialEq, Eq, Structural)]
pub enum GridError {
    /// The requested width or height is zero.
    ZeroSize,
    /// There are no atoms, so there is no extent to fit.
    EmptyGeometry,
    /// An atom has a coordinate outside `[-2^31, 2^31)` or a polygon with an
    /// empty exterior ring.
    InvalidAtom,
}

/// A data point in dot units of the fitted grid `g`.
pub open spec fn scale_coord(c: Coord, g: GridFit) -> Coord {
    Coord { x: ((c.x - g.min_x) * g.dot_den) as i64, y: ((g.max_y - c.y) * g.dot_den) as i64 }
}

pub open spec fn scale_ring(r: Seq<Coord>, g: GridFit) -> Seq<Coord> {
    r.map_values(|c: Coord| scale_coord(c, g))
}

pub open spec fn scale_atom(a: AtomModel, g: GridFit) -> AtomModel {
    match a {
        AtomModel::Point(c) => AtomModel::Point(scale_coord(c, g)),
        AtomModel::Line(s, e) => AtomModel::Line(scale_coord(s, g), scale_coord(e, g)),
        AtomModel::Polygon(p) => AtomModel::Polygon(
            PolygonModel {
                exterior: scale_ring(p.exterior, g),
                interiors: p.interiors.map_values(|r: Seq<Coord>| scale_ring(r, g)),
            },
        ),
    }
}

/// Half-open membership of a point in a dot: left and bottom edges in,
/// right and top edges out, so that the dots share out the plane.
pub open spec fn point_in_dot(c: Coord, i: int, j: int, p: int) -> bool {
    &&& i * p <= c.x < (i + 1) * p
    &&& j * p < c.y <= (j + 1) * p
}

/// The closed square of dot column `i`, dot row `j`.
pub open spec fn dot_square(i: int, j: int, p: int) -> (int, int, int, int) {
    (i * p, j * p, (i + 1) * p, (j + 1) * p)
}

/// The exact test of an atom against a dot.
pub open spec fn atom_hits(a: AtomModel, i: int, j: int, p: int) -> bool {
    match a {
        AtomModel::Point(c) => point_in_dot(c, i, j, p),
        AtomModel::Line(s, e) => segment_meets_box(s, e, i * p, j * p, (i + 1) * p, (j + 1) * p),
        AtomModel::Polygon(poly) => polygon_meets_box(poly, i * p, j * p, (i + 1) * p, (j + 1) * p),
    }
}

pub open spec fn bbox_tuple(b: BBox) -> (int, int, int, int) {
    (b.min_x as int, b.min_y as int, b.max_x as int, b.max_y as int)
}

/// A dot is set when some atom whose envelope meets the dot's square also
/// passes the exact test.
pub open spec fn dot_set(atoms: Seq<AtomModel>, p: int, i: int, j: int) -> bool {
    exists|k: int|
        0 <= k < atoms.len() && boxes_meet(bbox_tuple(envelope(atoms[k])), dot_square(i, j, p)) && #[trigger] atom_hits(
            atoms[k],
            i,
            j,
            p,
        )
}

/// The byte of cell `(row, col)`.
pub open spec fn cell_value(atoms: Seq<AtomModel>, p: int, row: int, col: int) -> int {
    cell_bits(|dr: int, dc: int| dot_set(atoms, p, 2 * col + dc, 4 * row + dr))
}

/// The mathematical value of a [`MapGrid`]: its fit and its atoms in dot
/// units.
pub ghost struct GridModel {
    pub fit: GridFit,
    pub atoms: Seq<AtomModel>,
}

/// Bound on coordinates in dot units: `2^50`.
pub open spec fn scaled_in_range(v: int) -> bool {
    -0x4_0000_0000_0000 <= v <= 0x4_0000_0000_0000
}

pub open spec fn coord_scaled_ok(c: Coord) -> bool {
    scaled_in_range(c.x as int) && scaled_in_range(c.y as int)
}

pub open spec fn ring_scaled_ok(r: Seq<Coord>) -> bool {
    forall|k: int| 0 <= k < r.len() ==> coord_scaled_ok(#[trigger] r[k])
}

/// An atom in dot units as the grid holds it.
pub open spec fn atom_scaled_ok(a: AtomModel) -> bool {
    match a {
        AtomModel::Point(c) => coord_scaled_ok(c),
        AtomModel::Line(s, e) => coord_scaled_ok(s) && coord_scaled_ok(e),
        AtomModel::Polygon(p) => {
            &&& p.exterior.len() > 0
            &&& ring_scaled_ok(p.exterior)
            &&& forall|k: int| 0 <= k < p.interiors.len() ==> ring_scaled_ok(#[trigger] p.interiors[k])
        },
    }
}

/// The bounds that a fit of valid data keeps.
pub open spec fn fit_inv(g: GridFit) -> bool {
    &&& g.rows >= 1
    &&& g.cols >= 1
    &&& coord_in_range(g.min_x as int)
    &&& -0x8000_0000 <= g.max_y <= 0x8000_0000
    &&& 0 < g.dot_num <= 0x1_0000_0000
    &&& 0 < g.dot_den <= 4 * 0xFFFF
}

/// The index entry of atom `k`: its envelope and its position.
pub open spec fn entry_of(a: AtomModel, k: int) -> IndexEntry {
    let b = envelope(a);
    (b.min_x, b.min_y, b.max_x, b.max_y, k as usize)
}

pub open spec fn entries_of(s: Seq<AtomModel>) -> Seq<IndexEntry> {
    Seq::new(s.len(), |k: int| entry_of(s[k], k))
}

/// A grid of Braille cells over a set of atoms.
pub struct MapGrid {
    fit: GridFit,
    atoms: Vec<GridGeom>,
    index: EnvelopeIndex,
}

impl View for MapGrid {
    type V = GridModel;

    closed spec fn view(&self) -> GridModel {
        GridModel { fit: self.fit, atoms: atoms_view(self.atoms@) }
    }
}

impl MapGrid {
    #[verifier::type_invariant]
    spec fn wf(self) -> bool {
        &&& fit_inv(self.fit)
        &&& forall|k: int| 0 <= k < self.atoms.len() ==> atom_scaled_ok(#[trigger] self.atoms@[k]@)
        &&& tree_entries(self.index) == entries_of(atoms_view(self.atoms@)).to_set()
    }

    /// The invariant as seen from outside.
    pub closed spec fn grid_inv(self) -> bool {
        &&& fit_inv(self@.fit)
        &&& forall|k: int| 0 <= k < self@.atoms.len() ==> atom_scaled_ok(#[trigger] self@.atoms[k])
    }
}

/// A fit of a well-formed box keeps the bounds that scaling relies on.
proof fn lemma_fit_inv(w: int, h: int, b: BBox, g: GridFit)
    requires
        1 <= w <= 0xFFFF,
        1 <= h <= 0xFFFF,
        bbox_wf(b),
        fitted(w, h, b, g),
    ensures
        fit_inv(g),
{
}

proof fn lemma_scaled_bound(d: int, q: int)
    requires
        -0x1_0000_0001 <= d <= 0x1_0000_0001,
        0 < q <= 4 * 0xFFFF,
    ensures
        scaled_in_range(d * q),
{
    assert(-0x1_0000_0001 * q <= d * q <= 0x1_0000_0001 * q) by (nonlinear_arith)
        requires
            -0x1_0000_0001 <= d <= 0x1_0000_0001,
            0 < q,
    ;
}

fn scale_point(c: Coord, g: &GridFit) -> (r: Coord)
    requires
        coord_valid(c),
        fit_inv(*g),
    ensures
        r == scale_coord(c, *g),
        coord_scaled_ok(r),
{
    proof {
        lemma_scaled_bound(c.x - g.min_x, g.dot_den as int);
        lemma_scaled_bound(g.max_y - c.y, g.dot_den as int);
    }
    Coord { x: (c.x - g.min_x) * g.dot_den, y: (g.max_y - c.y) * g.dot_den }
}

fn scale_ring_exec(r: &Vec<Coord>, g: &GridFit) -> (out: Vec<Coord>)
    requires
        ring_valid(r@),
        fit_inv(*g),
    ensures
        out@ == scale_ring(r@, *g),
        ring_scaled_ok(out@),
{
    let mut out: Vec<Coord> = Vec::new();
    let mut i: usize = 0;
    while i < r.len()
        invariant
            i <= r.len(),
            ring_valid(r@),
            fit_inv(*g),
            out@ == scale_ring(r@.subrange(0, i as int), *g),
            ring_scaled_ok(out@),
        decreases r.len() - i,
    {
        let c = scale_point(r[i], g);
        out.push(c);
        i += 1;
        assert(out@ =~= scale_ring(r@.subrange(0, i as int), *g));
    }
    assert(r@.subrange(0, i as int) =~= r@);
    out
}

/// An atom in dot units of the fit `g`.
fn scale_atom_exec(a: &GridGeom, g: &GridFit) -> (r: GridGeom)
    requires
        atom_valid(a@),
        fit_inv(*g),
    ensures
        r@ == scale_atom(a@, *g),
        atom_scaled_ok(r@),
{
    match a {
        GridGeom::Point(c) => GridGeom::Point(scale_point(*c, g)),
        GridGeom::Line(s, e) => GridGeom::Line(scale_point(*s, g), scale_point(*e, g)),
        GridGeom::Polygon(p) => {
            let exterior = scale_ring_exec(&p.exterior, g);
            let mut interiors: Vec<Vec<Coord>> = Vec::new();
            let mut i: usize = 0;
            while i < p.interiors.len()
                invariant
                    i <= p.interiors.len(),
                    fit_inv(*g),
                    a@ == AtomModel::Polygon(p@),
                    atom_valid(a@),
                    interiors.len() == i,
                    forall|k: int| 0 <= k < i ==> (#[trigger] interiors@[k])@ == scale_ring(p@.interiors[k], *g),
                    forall|k: int| 0 <= k < i ==> ring_scaled_ok((#[trigger] interiors@[k])@),
                decreases p.interiors.len() - i,
            {
                assert(ring_valid(p@.interiors[i as int]));
                let ring = scale_ring_exec(&p.interiors[i], g);
                interiors.push(ring);
                i += 1;
            }
            let q = Polygon { exterior, interiors };
            assert(q@.interiors =~= p@.interiors.map_values(|r: Seq<Coord>| scale_ring(r, *g)));
            assert forall|k: int| 0 <= k < q@.interiors.len() implies ring_scaled_ok(#[trigger] q@.interiors[k]) by {
                assert(q@.interiors[k] == q.interiors@[k]@);
            }
            GridGeom::Polygon(q)
        },
    }
}

impl MapGrid {
    /// Builds the grid of `width` x `height` characters over `atoms`: fits
    /// it to their envelope, moves them into dot units and indexes them.
    pub fn new(width: u16, height: u16, atoms: Vec<GridGeom>) -> (r: Result<MapGrid, GridError>)
        ensures
            (width == 0 || height == 0) ==> r == Err::<MapGrid, GridError>(GridError::ZeroSize),
            (width > 0 && height > 0 && atoms.len() == 0) ==> r == Err::<MapGrid, GridError>(
                GridError::EmptyGeometry,
            ),
            (width > 0 && height > 0 && atoms.len() > 0) ==> (r == Err::<MapGrid, GridError>(
                GridError::InvalidAtom,
            ) <==> exists|k: int| 0 <= k < atoms.len() && !atom_valid(#[trigger] atoms@[k]@)),
            r is Ok <==> (width > 0 && height > 0 && atoms.len() > 0 && forall|k: int|
                0 <= k < atoms.len() ==> atom_valid(#[trigger] atoms@[k]@)),
            r is Ok ==> fitted(width as int, height as int, atoms_bounds(atoms_view(atoms@)), r->Ok_0@.fit),
            r is Ok ==> r->Ok_0@.atoms == atoms_view(atoms@).map_values(|a: AtomModel| scale_atom(a, r->Ok_0@.fit)),
            r is Ok ==> r->Ok_0.grid_inv(),
    {
        if width == 0 || height == 0 {
            return Err(GridError::ZeroSize);
        }
        if atoms.len() == 0 {
            return Err(GridError::EmptyGeometry);
        }
        let mut k: usize = 0;
        while k < atoms.len()
            invariant
                k <= atoms.len(),
                width > 0 && height > 0,
                forall|m: int| 0 <= m < k ==> atom_valid(#[trigger] atoms@[m]@),
            decreases atoms.len() - k,
        {
            if !atom_ok(&atoms[k]) {
                return Err(GridError::InvalidAtom);
            }
            k += 1;
        }
        let b = bounds(&atoms);
        let fit = fit_grid(width, height, b);
        proof {
            lemma_fit_inv(width as int, height as int, b, fit);
        }
        let mut scaled: Vec<GridGeom> = Vec::new();
        let mut entries: Vec<IndexEntry> = Vec::new();
        let mut i: usize = 0;
        while i < atoms.len()
            invariant
                i <= atoms.len(),
                fit_inv(fit),
                forall|m: int| 0 <= m < atoms.len() ==> atom_valid(#[trigger] atoms@[m]@),
                scaled.len() == i,
                entries.len() == i,
                forall|m: int| 0 <= m < i ==> (#[trigger] scaled@[m])@ == scale_atom(atoms@[m]@, fit),
                forall|m: int| 0 <= m < i ==> atom_scaled_ok((#[trigger] scaled@[m])@),
                forall|m: int| 0 <= m < i ==> #[trigger] entries@[m] == entry_of(scaled@[m]@, m),
                forall|m: int|
                    0 <= m < i ==> (#[trigger] entries@[m]).0 <= entries@[m].2 && entries@[m].1 <= entries@[m].3,
            decreases atoms.len() - i,
        {
            let s = scale_atom_exec(&atoms[i], &fit);
            let e = atom_envelope(&s);
            proof {
                lemma_envelope_ordered(s@);
            }
            entries.push((e.min_x, e.min_y, e.max_x, e.max_y, i));
            scaled.push(s);
            i += 1;
        }
        let index = build_tree(entries);
        assert(entries@ =~= entries_of(atoms_view(scaled@)));
        let grid = MapGrid { fit, atoms: scaled, index };
        assert(grid@.atoms =~= atoms_view(atoms@).map_values(|a: AtomModel| scale_atom(a, fit)));
        Ok(grid)
    }
}

impl MapGrid {
    /// The exact test of atom `d` against the dot whose square is
    /// `[x0, x1] x [y0, y1]`, dot column `i`, dot row `j`.
    fn atom_hits_exec(&self, d: usize, i: i64, j: i64, x0: i64, y0: i64, x1: i64, y1: i64) -> (r: bool)
        requires
            d < self@.atoms.len(),
            0 <= i < 0x2_0000,
            0 <= j < 0x4_0000,
            x0 == i * self@.fit.dot_num,
            y0 == j * self@.fit.dot_num,
            x1 == (i + 1) * self@.fit.dot_num,
            y1 == (j + 1) * self@.fit.dot_num,
            0 <= x0 <= x1 <= 0x4_0000_0000_0000,
            0 <= y0 <= y1 <= 0x4_0000_0000_0000,
        ensures
            r == atom_hits(self@.atoms[d as int], i as int, j as int, self@.fit.dot_num as int),
    {
        proof {
            use_type_invariant(self);
            assert(self@.atoms[d as int] == self.atoms@[d as int]@);
            assert(atom_scaled_ok(self.atoms@[d as int]@));
        }
        match &self.atoms[d] {
            GridGeom::Point(c) => x0 <= c.x && c.x < x1 && y0 < c.y && c.y <= y1,
            GridGeom::Line(s, e) => box_meets_segment(*s, *e, x0, y0, x1, y1),
            GridGeom::Polygon(poly) => {
                proof {
                    assert forall|k: int| 0 <= k < poly@.interiors.len() implies crate::contact::ring_geo_safe(
                        #[trigger] poly@.interiors[k],
                    ) by {
                        assert(ring_scaled_ok(poly@.interiors[k]));
                    }
                }
                box_meets_polygon(poly, x0, y0, x1, y1)
            },
        }
    }

    /// Whether the dot at dot column `i`, dot row `j` is set: the index
    /// gives the atoms whose envelope meets the dot's square, and the first
    /// of them to pass the exact test decides.
    fn dot_is_set(&self, i: i64, j: i64) -> (r: bool)
        requires
            0 <= i < 0x2_0000,
            0 <= j < 0x4_0000,
        ensures
            r == dot_set(self@.atoms, self@.fit.dot_num as int, i as int, j as int),
    {
        proof {
            use_type_invariant(self);
        }
        let p = self.fit.dot_num;
        proof {
            assert(0 <= i * p <= (i + 1) * p <= 0x2_0000 * 0x1_0000_0000) by (nonlinear_arith)
                requires
                    0 <= i < 0x2_0000,
                    0 < p <= 0x1_0000_0000,
            ;
            assert(0 <= j * p <= (j + 1) * p <= 0x4_0000 * 0x1_0000_0000) by (nonlinear_arith)
                requires
                    0 <= j < 0x4_0000,
                    0 < p <= 0x1_0000_0000,
            ;
        }
        let x0 = i * p;
        let y0 = j * p;
        let x1 = (i + 1) * p;
        let y1 = (j + 1) * p;
        let cands = locate_intersecting(&self.index, x0, y0, x1, y1);
        let ghost atoms = self@.atoms;
        let ghost ents = entries_of(atoms);
        let ghost sq = dot_square(i as int, j as int, p as int);
        assert(sq == (x0 as int, y0 as int, x1 as int, y1 as int));
        assert(tree_entries(self.index) == ents.to_set());
        assert forall|m: int| 0 <= m < cands.len() implies (#[trigger] cands@[m]) < atoms.len() && boxes_meet(
            bbox_tuple(envelope(atoms[cands@[m] as int])),
            sq,
        ) by {
            let e = choose|e: IndexEntry|
                #![trigger tree_entries(self.index).contains(e)]
                tree_entries(self.index).contains(e) && e.4 == cands[m] && boxes_meet(entry_box(e), sq);
            assert(ents.contains(e));
            let idx = choose|idx: int| 0 <= idx < ents.len() && ents[idx] == e;
            assert(ents[idx] == entry_of(atoms[idx], idx));
        }
        let mut k: usize = 0;
        while k < cands.len()
            invariant
                k <= cands.len(),
                atoms == self@.atoms,
                p == self@.fit.dot_num,
                sq == dot_square(i as int, j as int, p as int),
                0 <= i < 0x2_0000,
                0 <= j < 0x4_0000,
                x0 == i * p && y0 == j * p && x1 == (i + 1) * p && y1 == (j + 1) * p,
                0 <= x0 <= x1 <= 0x4_0000_0000_0000,
                0 <= y0 <= y1 <= 0x4_0000_0000_0000,
                forall|m: int|
                    0 <= m < cands.len() ==> (#[trigger] cands@[m]) < atoms.len() && boxes_meet(
                        bbox_tuple(envelope(atoms[cands@[m] as int])),
                        sq,
                    ),
                forall|m: int|
                    0 <= m < k ==> !atom_hits(atoms[(#[trigger] cands@[m]) as int], i as int, j as int, p as int),
            decreases cands.len() - k,
        {
            let d = cands[k];
            if self.atom_hits_exec(d, i, j, x0, y0, x1, y1) {
                assert(atom_hits(atoms[d as int], i as int, j as int, p as int));
                return true;
            }
            k += 1;
        }
        proof {
            if dot_set(atoms, p as int, i as int, j as int) {
                let w = choose|w: int|
                    0 <= w < atoms.len() && boxes_meet(bbox_tuple(envelope(atoms[w])), sq) && #[trigger] atom_hits(
                        atoms[w],
                        i as int,
                        j as int,
                        p as int,
                    );
                let e = ents[w];
                assert(ents.to_set().contains(e));
                assert(boxes_meet(entry_box(e), sq));
                assert(cands@.contains(e.4));
                let m = choose|m: int| 0 <= m < cands.len() && cands@[m] == e.4;
                assert(cands@[m] as int == w);
            }
        }
        false
    }
}

/// Relies on `String::push`: appends the character.
#[verifier::external_body]
fn push_char(s: &mut String, c: char)
    ensures
        final(s)@ == old(s)@.push(c),
{
    s.push(c)
}

impl MapGrid {
    /// Number of character rows.
    pub fn rows(&self) -> (r: u16)
        ensures
            r == self@.fit.rows,
    {
        self.fit.rows
    }

    /// Number of character columns.
    pub fn cols(&self) -> (r: u16)
        ensures
            r == self@.fit.cols,
    {
        self.fit.cols
    }

    /// The fit the grid was built with.
    pub fn fit(&self) -> (r: GridFit)
        ensures
            r == self@.fit,
    {
        self.fit
    }

    /// The data-space size of one cell, width and height, each as a
    /// fraction `(num, den)`: two dots by four.
    pub fn cell_size(&self) -> (r: ((i64, i64), (i64, i64)))
        ensures
            r.0.0 == 2 * self@.fit.dot_num && r.0.1 == self@.fit.dot_den,
            r.1.0 == 4 * self@.fit.dot_num && r.1.1 == self@.fit.dot_den,
    {
        proof {
            use_type_invariant(self);
        }
        ((2 * self.fit.dot_num, self.fit.dot_den), (4 * self.fit.dot_num, self.fit.dot_den))
    }

    /// The top left corner of cell `(row, col)` in data units, as numerators
    /// over `dot_den`.
    pub fn cell_origin(&self, row: i32, col: i32) -> (r: (i128, i128))
        ensures
            r.0 == self@.fit.min_x * self@.fit.dot_den + 2 * col * self@.fit.dot_num,
            r.1 == self@.fit.max_y * self@.fit.dot_den - 4 * row * self@.fit.dot_num,
    {
        proof {
            use_type_invariant(self);
            let (mx, my, p, q) = (self.fit.min_x as int, self.fit.max_y as int, self.fit.dot_num as int, self.fit.dot_den as int);
            assert(-0x1_0000_0000_0000_0000 <= mx * q <= 0x1_0000_0000_0000_0000) by (nonlinear_arith)
                requires -0x8000_0000 <= mx <= 0x8000_0000, 0 < q <= 4 * 0xFFFF;
            assert(-0x1_0000_0000_0000_0000 <= my * q <= 0x1_0000_0000_0000_0000) by (nonlinear_arith)
                requires -0x8000_0000 <= my <= 0x8000_0000, 0 < q <= 4 * 0xFFFF;
            assert(-0x1_0000_0000_0000_0000 <= col * p <= 0x1_0000_0000_0000_0000) by (nonlinear_arith)
                requires -0x8000_0000 <= col <= 0x8000_0000, 0 < p <= 0x1_0000_0000;
            assert(-0x1_0000_0000_0000_0000 <= row * p <= 0x1_0000_0000_0000_0000) by (nonlinear_arith)
                requires -0x8000_0000 <= row <= 0x8000_0000, 0 < p <= 0x1_0000_0000;
        }
        let q = self.fit.dot_den as i128;
        let p = self.fit.dot_num as i128;
        let x = self.fit.min_x as i128 * q + 2 * (col as i128 * p);
        let y = self.fit.max_y as i128 * q - 4 * (row as i128 * p);
        assert(2 * (col * p) == 2 * col * p && 4 * (row * p) == 4 * row * p) by (nonlinear_arith);
        (x, y)
    }

    /// The corners, lower left and upper right, of dot `(row, col)` of the
    /// cell whose top left corner is `start`; all values are numerators over
    /// `dot_den`, in data units.
    pub fn min_max_points(&self, row: i32, col: i32, start: (i128, i128)) -> (r: ((i128, i128), (i128, i128)))
        requires
            -0x1_0000_0000_0000_0000_0000_0000 <= start.0 <= 0x1_0000_0000_0000_0000_0000_0000,
            -0x1_0000_0000_0000_0000_0000_0000 <= start.1 <= 0x1_0000_0000_0000_0000_0000_0000,
        ensures
            r.0.0 == start.0 + col * self@.fit.dot_num,
            r.0.1 == start.1 - (row + 1) * self@.fit.dot_num,
            r.1.0 == start.0 + (col + 1) * self@.fit.dot_num,
            r.1.1 == start.1 - row * self@.fit.dot_num,
    {
        proof {
            use_type_invariant(self);
            let p = self.fit.dot_num as int;
            assert(-0x1_0000_0000_0000_0000 <= col * p <= 0x1_0000_0000_0000_0000) by (nonlinear_arith)
                requires -0x8000_0000 <= col <= 0x8000_0000, 0 < p <= 0x1_0000_0000;
            assert(-0x1_0000_0000_0000_0000 <= row * p <= 0x1_0000_0000_0000_0000) by (nonlinear_arith)
                requires -0x8000_0000 <= row <= 0x8000_0000, 0 < p <= 0x1_0000_0000;
        }
        let p = self.fit.dot_num as i128;
        let min_x = start.0 + col as i128 * p;
        let max_y = start.1 - row as i128 * p;
        assert((row + 1) * p == row * p + p && (col + 1) * p == col * p + p) by (nonlinear_arith);
        ((min_x, max_y - p), (min_x + p, max_y))
    }

    /// The byte of cell `(row, col)`: the bits of its set dots.
    pub fn query_cell_value(&self, row: u16, col: u16) -> (r: u32)
        ensures
            r == cell_value(self@.atoms, self@.fit.dot_num as int, row as int, col as int),
            r <= 0xFF,
    {
        let i = 2 * (col as i64);
        let j = 4 * (row as i64);
        let dots = [
            self.dot_is_set(i, j),
            self.dot_is_set(i + 1, j),
            self.dot_is_set(i, j + 1),
            self.dot_is_set(i + 1, j + 1),
            self.dot_is_set(i, j + 2),
            self.dot_is_set(i + 1, j + 2),
            self.dot_is_set(i, j + 3),
            self.dot_is_set(i + 1, j + 3),
        ];
        let ghost set = |dr: int, dc: int| dot_set(self@.atoms, self@.fit.dot_num as int, 2 * col + dc, 4 * row + dr);
        let ghost got = |dr: int, dc: int| dots@[2 * dr + dc];
        assert(got(0, 0) == set(0, 0) && got(0, 1) == set(0, 1));
        assert(got(1, 0) == set(1, 0) && got(1, 1) == set(1, 1));
        assert(got(2, 0) == set(2, 0) && got(2, 1) == set(2, 1));
        assert(got(3, 0) == set(3, 0) && got(3, 1) == set(3, 1));
        cell_byte(dots)
    }

    /// The rendered text: `rows` lines of `cols` Braille characters, the
    /// character of cell `(row, col)` being `U+2800` plus the cell's byte.
    pub fn lines(&self) -> (r: Vec<String>)
        ensures
            r.len() == self@.fit.rows,
            forall|row: int| 0 <= row < r.len() ==> (#[trigger] r@[row])@.len() == self@.fit.cols,
            forall|row: int, col: int|
                0 <= row < r.len() && 0 <= col < self@.fit.cols ==> (#[trigger] r@[row]@[col]) as u32 == 0x2800
                    + cell_value(self@.atoms, self@.fit.dot_num as int, row, col),
            forall|row: int, col: int|
                0 <= row < r.len() && 0 <= col < self@.fit.cols ==> 0x2800 <= (#[trigger] r@[row]@[col]) as u32
                    <= 0x28FF,
    {
        let mut out: Vec<String> = Vec::new();
        let mut row: u16 = 0;
        while row < self.fit.rows
            invariant
                row <= self@.fit.rows,
                out.len() == row,
                forall|rr: int| 0 <= rr < out.len() ==> (#[trigger] out@[rr])@.len() == self@.fit.cols,
                forall|rr: int, cc: int|
                    0 <= rr < out.len() && 0 <= cc < self@.fit.cols ==> (#[trigger] out@[rr]@[cc]) as u32
                        == 0x2800 + cell_value(self@.atoms, self@.fit.dot_num as int, rr, cc),
            decreases self@.fit.rows - row,
        {
            let mut line = String::new();
            let mut col: u16 = 0;
            while col < self.fit.cols
                invariant
                    col <= self@.fit.cols,
                    line@.len() == col,
                    forall|cc: int|
                        0 <= cc < col ==> (#[trigger] line@[cc]) as u32 == 0x2800 + cell_value(
                            self@.atoms,
                            self@.fit.dot_num as int,
                            row as int,
                            cc,
                        ),
                decreases self@.fit.cols - col,
            {
                let v = self.query_cell_value(row, col);
                push_char(&mut line, braille_char(v));
                col += 1;
            }
            out.push(line);
            row += 1;
        }
        proof {
            assert forall|row: int, col: int|
                0 <= row < out.len() && 0 <= col < self@.fit.cols implies 0x2800 <= (#[trigger] out@[row]@[col]) as u32
                    <= 0x28FF by {
                lemma_cell_code_range(|dr: int, dc: int| dot_set(self@.atoms, self@.fit.dot_num as int, 2 * col + dc, 4 * row + dr));
            }
        }
        out
    }
}

/// A dataset of exactly one point atom sets exactly one dot of the grid
/// fitted to it, hence exactly one cell: the dot whose (half-open) square
/// holds the point.
pub proof fn lemma_single_point(w: int, h: int, c: Coord, g: GridFit)
    requires
        1 <= w <= 0xFFFF,
        1 <= h <= 0xFFFF,
        coord_valid(c),
        fitted(w, h, atoms_bounds(seq![AtomModel::Point(c)]), g),
    ensures
        exists|i0: int, j0: int|
            {
                &&& 0 <= i0 < 2 * w
                &&& 0 <= j0 < 4 * h
                &&& point_in_dot(scale_coord(c, g), i0, j0, g.dot_num as int)
                &&& forall|i: int, j: int|
                    0 <= i < 2 * w && 0 <= j < 4 * h ==> (#[trigger] dot_set(
                        seq![AtomModel::Point(scale_coord(c, g))],
                        g.dot_num as int,
                        i,
                        j,
                    ) <==> i == i0 && j == j0)
            },
{
    let atoms = seq![AtomModel::Point(c)];
    assert(atoms[0] == AtomModel::Point(c));
    assert(atoms_bounds(atoms) == envelope(atoms[0]));
    assert(g.min_x == c.x && g.max_y == c.y + 1);
    let q = g.dot_den as int;
    assert((c.x - g.min_x) * q == 0) by (nonlinear_arith)
        requires
            c.x - g.min_x == 0,
    ;
    assert((g.max_y - c.y) * q == q) by (nonlinear_arith)
        requires
            g.max_y - c.y == 1,
    ;
    assert(g.dot_num == 1);
    let sc = scale_coord(c, g);
    assert(sc.x == 0);
    assert(sc.y == q);
    let scaled = seq![AtomModel::Point(sc)];
    let j0 = q - 1;
    assert(point_in_dot(sc, 0, j0, 1));
    assert forall|i: int, j: int| 0 <= i < 2 * w && 0 <= j < 4 * h implies (#[trigger] dot_set(
        scaled,
        g.dot_num as int,
        i,
        j,
    ) <==> i == 0 && j == j0) by {
        if i == 0 && j == j0 {
            assert(boxes_meet(bbox_tuple(envelope(scaled[0])), dot_square(i, j, 1)));
            assert(atom_hits(scaled[0], i, j, 1));
        }
        if dot_set(scaled, g.dot_num as int, i, j) {
            let k = choose|k: int|
                0 <= k < scaled.len() && boxes_meet(bbox_tuple(envelope(scaled[k])), dot_square(i, j, 1)) && #[trigger] atom_hits(
                    scaled[k],
                    i,
                    j,
                    1,
                );
            assert(k == 0);
            assert(point_in_dot(sc, i, j, 1));
        }
    }
    assert(0 <= 0 < 2 * w && 0 <= j0 < 4 * h && point_in_dot(sc, 0, j0, g.dot_num as int));
}

} // verus!
