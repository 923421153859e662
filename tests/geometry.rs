use geobraille::{Coord, Geometry, GridGeom, Polygon};

fn c(x: i64, y: i64) -> Coord {
    Coord { x, y }
}

#[test]
fn points_and_strings() {
    let mp = Geometry::MultiPoint(vec![c(1, 2), c(3, 4)]);
    assert_eq!(
        GridGeom::vec_from_geom(mp, false),
        vec![GridGeom::Point(c(1, 2)), GridGeom::Point(c(3, 4))]
    );
    let ls = Geometry::LineString(vec![c(0, 0), c(1, 0), c(1, 1)]);
    assert_eq!(
        GridGeom::vec_from_geom(ls, true),
        vec![GridGeom::Line(c(0, 0), c(1, 0)), GridGeom::Line(c(1, 0), c(1, 1))]
    );
    let short = Geometry::LineString(vec![c(5, 5)]);
    assert_eq!(GridGeom::vec_from_geom(short, false), vec![]);
}

#[test]
fn closed_ring_is_not_closed_twice() {
    let ring = vec![c(0, 0), c(2, 0), c(2, 2), c(0, 0)];
    let poly = Polygon { exterior: ring, interiors: vec![vec![c(1, 1)]] };
    assert_eq!(GridGeom::vec_from_geom(Geometry::Polygon(poly), false).len(), 3);
}

#[test]
fn empty_polygon_yields_nothing() {
    let poly = Polygon { exterior: vec![], interiors: vec![] };
    assert_eq!(GridGeom::vec_from_geom(Geometry::Polygon(poly.clone()), false), vec![]);
    assert_eq!(GridGeom::vec_from_geom(Geometry::Polygon(poly), true), vec![]);
}

#[test]
fn collections_concatenate() {
    let tri = Polygon { exterior: vec![c(0, 0), c(1, 1), c(1, 0)], interiors: vec![] };
    let g = Geometry::GeometryCollection(vec![
        Geometry::Point(c(9, 9)),
        Geometry::MultiLineString(vec![vec![c(0, 0), c(0, 1)], vec![c(2, 2), c(3, 3), c(4, 4)]]),
        Geometry::GeometryCollection(vec![Geometry::MultiPolygon(vec![tri.clone(), tri.clone()])]),
        Geometry::Line(c(7, 7), c(8, 8)),
    ]);
    let outlines = GridGeom::vec_from_geom(
        Geometry::GeometryCollection(vec![Geometry::MultiPolygon(vec![tri.clone(), tri.clone()])]),
        false,
    );
    assert_eq!(outlines.len(), 6);
    let atoms = GridGeom::vec_from_geom(g, true);
    assert_eq!(
        atoms,
        vec![
            GridGeom::Point(c(9, 9)),
            GridGeom::Line(c(0, 0), c(0, 1)),
            GridGeom::Line(c(2, 2), c(3, 3)),
            GridGeom::Line(c(3, 3), c(4, 4)),
            GridGeom::Polygon(tri.clone()),
            GridGeom::Polygon(tri),
            GridGeom::Line(c(7, 7), c(8, 8)),
        ]
    );
}
