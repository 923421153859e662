//! Fitting a character grid to the extent of the data.
//!
//! Every character shows a 2 x 4 block of dots, so one character spans twice
//! as much height as width in dot counts. Dots are square in data units: a
//! dot has side `dot_num / dot_den`, a cell is two dots wide and four tall.
use vstd::prelude::*;

verus! {

/// An axis-aligned box in data units.
#[derive(Clone, Copy, Debug, PartialEq, Eq, Structural)]
pub struct BBox {
    pub min_x: i64,
    pub min_y: i64,
    pub max_x: i64,
    pub max_y: i64,
}

/// The result of fitting: the printed size, the data-space origin (the top
/// left corner of cell (0, 0)), the extent fitted, and the side of one dot.
#[derive(Clone, Copy, Debug, PartialEq, Eq, Structural)]
pub struct GridFit {
    pub rows: u16,
    pub cols: u16,
    pub min_x: i64,
    pub max_y: i64,
    pub box_width: i64,
    pub box_height: i64,
    pub dot_num: i64,
    pub dot_den: i64,
}

/// Coordinates that the core accepts lie in `[-2^31, 2^31)`.
pub open spec fn coord_in_range(v: int) -> bool {
    -0x8000_0000 <= v < 0x8000_0000
}

/// A box with `min <= max` on both axes and coordinates in range.
pub open spec fn bbox_wf(b: BBox) -> bool {
    &&& b.min_x <= b.max_x
    &&& b.min_y <= b.max_y
    &&& coord_in_range(b.min_x as int)
    &&& coord_in_range(b.max_x as int)
    &&& coord_in_range(b.min_y as int)
    &&& coord_in_range(b.max_y as int)
}

/// A zero extent (all data on one vertical or horizontal line) is fitted
/// as an extent of one unit, growing the box rightwards and upwards.
pub open spec fn fitted_extent(e: int) -> int {
    if e == 0 {
        1
    } else {
        e
    }
}

/// Whether the grid's virtual width is derived from the requested height:
/// the terminal is wider than tall, and either the box is at most twice as
/// wide as tall, or the terminal's aspect exceeds twice the box's.
pub open spec fn height_bound(w: int, h: int, bw: int, bh: int) -> bool {
    &&& w > h
    &&& (bw > 2 * bh ==> w * bh > 2 * bw * h)
}

/// The virtual number of columns, as a fraction `(num, den)`.
pub open spec fn cols_f(w: int, h: int, bw: int, bh: int) -> (int, int) {
    if height_bound(w, h, bw, bh) {
        (2 * h * bw, bh)
    } else {
        (w, 1)
    }
}

/// The virtual number of rows, as a fraction `(num, den)`.
pub open spec fn rows_f(w: int, h: int, bw: int, bh: int) -> (int, int) {
    if height_bound(w, h, bw, bh) {
        (h, 1)
    } else {
        (w * bh, 2 * bw)
    }
}

/// What fitting `w` x `h` characters to box `b` yields: the printed size is
/// the requested one, and a cell, two dots by four, measures
/// `box_width / cols_f` by `box_height / rows_f`.
pub open spec fn is_fit(w: int, h: int, b: BBox, g: GridFit) -> bool {
    let bw = fitted_extent(b.max_x - b.min_x);
    let bh = fitted_extent(b.max_y - b.min_y);
    let cf = cols_f(w, h, bw, bh);
    let rf = rows_f(w, h, bw, bh);
    &&& g.rows == h
    &&& g.cols == w
    &&& g.min_x == b.min_x
    &&& g.max_y == b.min_y + bh
    &&& g.box_width == bw
    &&& g.box_height == bh
    &&& g.dot_num > 0
    &&& g.dot_den > 0
    &&& 2 * g.dot_num * cf.0 == bw * g.dot_den * cf.1
    &&& 4 * g.dot_num * rf.0 == bh * g.dot_den * rf.1
}

/// The fit that [`fit_grid`] picks: the dot side is `box_height / (4 h)`
/// where the width follows the height, and `box_width / (2 w)` otherwise.
pub open spec fn fitted(w: int, h: int, b: BBox, g: GridFit) -> bool {
    &&& is_fit(w, h, b, g)
    &&& g.dot_num == (if height_bound(w, h, g.box_width as int, g.box_height as int) {
        g.box_height as int
    } else {
        g.box_width as int
    })
    &&& g.dot_den == (if height_bound(w, h, g.box_width as int, g.box_height as int) {
        4 * h
    } else {
        2 * w
    })
}

/// Fits a `width` x `height` character grid to the box `b`.
pub fn fit_grid(width: u16, height: u16, b: BBox) -> (g: GridFit)
    requires
        width > 0,
        height > 0,
        bbox_wf(b),
    ensures
        fitted(width as int, height as int, b, g),
{
    let bw: i64 = if b.max_x - b.min_x == 0 {
        1
    } else {
        b.max_x - b.min_x
    };
    let bh: i64 = if b.max_y - b.min_y == 0 {
        1
    } else {
        b.max_y - b.min_y
    };
    let w = width as i64;
    let h = height as i64;
    assert(0 <= w * bh <= 0x1_0000 * 0x1_0000_0000) by (nonlinear_arith)
        requires
            0 < w <= 0xFFFF,
            0 < bh <= 0x1_0000_0000,
    ;
    assert(0 <= bw * h <= 0x1_0000 * 0x1_0000_0000) by (nonlinear_arith)
        requires
            0 < h <= 0xFFFF,
            0 < bw <= 0x1_0000_0000,
    ;
    let wide = w > h && (!(bw > 2 * bh) || w * bh > 2 * (bw * h));
    assert(wide == height_bound(w as int, h as int, bw as int, bh as int)) by {
        assert(2 * (bw * h) == 2 * bw * h) by (nonlinear_arith);
    }
    let (dot_num, dot_den) = if wide {
        (bh, 4 * h)
    } else {
        (bw, 2 * w)
    };
    let g = GridFit {
        rows: height,
        cols: width,
        min_x: b.min_x,
        max_y: b.min_y + bh,
        box_width: bw,
        box_height: bh,
        dot_num,
        dot_den,
    };
    proof {
        let (bwi, bhi, wi, hi) = (bw as int, bh as int, w as int, h as int);
        if wide {
            assert(2 * bhi * (2 * hi * bwi) == bwi * (4 * hi) * bhi) by (nonlinear_arith);
            assert(4 * bhi * hi == bhi * (4 * hi) * 1) by (nonlinear_arith);
        } else {
            assert(2 * bwi * wi == bwi * (2 * wi) * 1) by (nonlinear_arith);
            assert(4 * bwi * (wi * bhi) == bhi * (2 * wi) * (2 * bwi)) by (nonlinear_arith);
        }
    }
    g
}

/// Fitting is a function of its inputs: any two fits of the same request
/// and box give cells, and dots, of the same size.
pub proof fn lemma_fit_deterministic(w: int, h: int, b: BBox, g1: GridFit, g2: GridFit)
    requires
        w > 0,
        h > 0,
        bbox_wf(b),
        is_fit(w, h, b, g1),
        is_fit(w, h, b, g2),
    ensures
        g1.dot_num * g2.dot_den == g2.dot_num * g1.dot_den,
        g1.rows == g2.rows && g1.cols == g2.cols,
        g1.min_x == g2.min_x && g1.max_y == g2.max_y,
{
    let bw = fitted_extent(b.max_x - b.min_x);
    let bh = fitted_extent(b.max_y - b.min_y);
    let cf = cols_f(w, h, bw, bh);
    let (p1, q1, p2, q2) = (g1.dot_num as int, g1.dot_den as int, g2.dot_num as int, g2.dot_den as int);
    assert(cf.0 > 0 && cf.1 > 0) by (nonlinear_arith)
        requires
            cf == cols_f(w, h, bw, bh),
            w > 0,
            h > 0,
            bw > 0,
            bh > 0,
    ;
    let (c0, c1) = (cf.0, cf.1);
    assert((2 * p1 * c0) * q2 == 2 * c0 * (p1 * q2)) by (nonlinear_arith);
    assert((2 * p2 * c0) * q1 == 2 * c0 * (p2 * q1)) by (nonlinear_arith);
    assert((bw * q1 * c1) * q2 == (bw * q2 * c1) * q1) by (nonlinear_arith);
    let (x, y) = (p1 * q2, p2 * q1);
    assert(x == y) by (nonlinear_arith)
        requires
            2 * c0 * x == 2 * c0 * y,
            c0 > 0,
    ;
}

} // verus!
