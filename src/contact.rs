//! Exact tests of whether an atom touches a closed box, through `geo`.
use vstd::prelude::*;
use geo::Intersects;
use crate::geometry::{Coord, Polygon, PolygonModel};

verus! {

/// Coordinates handed to `geo` stay within `2^60` in magnitude, so that its
/// orientation tests on `i128` cannot overflow.
pub open spec fn geo_safe(v: int) -> bool {
    -0x1000_0000_0000_0000 <= v <= 0x1000_0000_0000_0000
}

pub open spec fn coord_geo_safe(c: Coord) -> bool {
    geo_safe(c.x as int) && geo_safe(c.y as int)
}

pub open spec fn ring_geo_safe(r: Seq<Coord>) -> bool {
    forall|k: int| 0 <= k < r.len() ==> coord_geo_safe(#[trigger] r[k])
}

pub open spec fn polygon_geo_safe(p: PolygonModel) -> bool {
    &&& ring_geo_safe(p.exterior)
    &&& forall|k: int| 0 <= k < p.interiors.len() ==> ring_geo_safe(#[trigger] p.interiors[k])
}

/// The point `a + (n / d) (b - a)` of the segment from `a` to `b` lies in
/// the closed box from `(lo_x, lo_y)` to `(hi_x, hi_y)`.
pub open spec fn segment_point_in_box(a: Coord, b: Coord, lo_x: int, lo_y: int, hi_x: int, hi_y: int, n: int, d: int) -> bool {
    &&& d > 0
    &&& 0 <= n <= d
    &&& lo_x * d <= a.x * d + n * (b.x - a.x) <= hi_x * d
    &&& lo_y * d <= a.y * d + n * (b.y - a.y) <= hi_y * d
}

/// The closed segment from `a` to `b` shares a point with the closed box.
pub open spec fn segment_meets_box(a: Coord, b: Coord, lo_x: int, lo_y: int, hi_x: int, hi_y: int) -> bool {
    exists|n: int, d: int| #[trigger] segment_point_in_box(a, b, lo_x, lo_y, hi_x, hi_y, n, d)
}

/// What `geo` answers when asked whether a closed box and a polygon (with
/// its holes) intersect.
pub uninterp spec fn polygon_meets_box(p: PolygonModel, lo_x: int, lo_y: int, hi_x: int, hi_y: int) -> bool;

/// Relies on `geo::Intersects` of `Rect` with `Line`: true exactly when the
/// two closed sets share a point (its documented meaning), computed exactly
/// on integers.
#[verifier::external_body]
pub(crate) fn box_meets_segment(a: Coord, b: Coord, lo_x: i64, lo_y: i64, hi_x: i64, hi_y: i64) -> (r: bool)
    requires
        lo_x <= hi_x,
        lo_y <= hi_y,
        coord_geo_safe(a),
        coord_geo_safe(b),
        geo_safe(lo_x as int) && geo_safe(lo_y as int) && geo_safe(hi_x as int) && geo_safe(hi_y as int),
    ensures
        r == segment_meets_box(a, b, lo_x as int, lo_y as int, hi_x as int, hi_y as int),
{
    let rect = geo::Rect::new(
        geo::Coord { x: lo_x as i128, y: lo_y as i128 },
        geo::Coord { x: hi_x as i128, y: hi_y as i128 },
    );
    let line = geo::Line::new(geo::Coord { x: a.x as i128, y: a.y as i128 }, geo::Coord { x: b.x as i128, y: b.y as i128 });
    rect.intersects(&line)
}

/// Relies on `geo::Intersects` of `Rect` with `Polygon`, whose result
/// depends on the coordinates alone.
#[verifier::external_body]
pub(crate) fn box_meets_polygon(p: &Polygon, lo_x: i64, lo_y: i64, hi_x: i64, hi_y: i64) -> (r: bool)
    requires
        lo_x <= hi_x,
        lo_y <= hi_y,
        polygon_geo_safe(p@),
        geo_safe(lo_x as int) && geo_safe(lo_y as int) && geo_safe(hi_x as int) && geo_safe(hi_y as int),
    ensures
        r == polygon_meets_box(p@, lo_x as int, lo_y as int, hi_x as int, hi_y as int),
{
    let ring = |r: &Vec<Coord>| geo::LineString::from(r.iter().map(|c| (c.x as i128, c.y as i128)).collect::<Vec<_>>());
    let poly = geo::Polygon::new(ring(&p.exterior), p.interiors.iter().map(ring).collect());
    let rect = geo::Rect::new(geo::Coord { x: lo_x as i128, y: lo_y as i128 }, geo::Coord { x: hi_x as i128, y: hi_y as i128 });
    rect.intersects(&poly)
}

} // verus!
