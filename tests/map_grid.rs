use geobraille::{Coord, Geometry, GridError, GridGeom, MapGrid, Polygon};

fn c(x: i64, y: i64) -> Coord {
    Coord { x, y }
}

fn frac(v: (i64, i64)) -> f64 {
    v.0 as f64 / v.1 as f64
}

fn sample_grid() -> MapGrid {
    MapGrid::new(
        4,
        4,
        vec![GridGeom::Line(c(0, 0), c(4, 0)), GridGeom::Point(c(0, 1))],
    )
    .unwrap()
}

#[test]
fn test_vec_from_geom() {
    let poly = Polygon { exterior: vec![c(0, 0), c(1, 1), c(1, 0)], interiors: vec![] };
    assert_eq!(
        GridGeom::vec_from_geom(Geometry::Polygon(poly.clone()), false),
        vec![
            GridGeom::Line(c(0, 0), c(1, 1)),
            GridGeom::Line(c(1, 1), c(1, 0)),
            GridGeom::Line(c(1, 0), c(0, 0)),
        ]
    );
    assert_eq!(
        GridGeom::vec_from_geom(Geometry::Polygon(poly.clone()), true),
        vec![GridGeom::Polygon(poly)]
    );
}

#[test]
fn new_clamps_aspect_ratio() {
    let line = GridGeom::Line(c(0, 0), c(5, 1));
    let grid = MapGrid::new(4, 4, vec![line]).unwrap();
    assert_eq!((grid.cols(), grid.rows()), (4, 4));
    let (w, h) = grid.cell_size();
    assert_eq!([frac(w), frac(h)], [1.25, 2.5]);
}

#[test]
fn query_cell_value_returns_value() {
    let grid = sample_grid();
    assert_eq!(grid.query_cell_value(0, 0), 0x36);
}

#[test]
fn min_max_points() {
    let grid = sample_grid();
    let q = grid.fit().dot_den as f64;
    let pt = |v: (i128, i128)| (v.0 as f64 / q, v.1 as f64 / q);
    let start = grid.cell_origin(0, 0);
    let (lo, hi) = grid.min_max_points(0, 0, start);
    assert_eq!((pt(lo), pt(hi)), ((0., 0.5), (0.5, 1.)));
    let (lo, hi) = grid.min_max_points(4, 1, start);
    assert_eq!((pt(lo), pt(hi)), ((0.5, -1.5), (1.0, -1.)));
}

#[test]
fn lines_have_requested_shape() {
    let grid = MapGrid::new(7, 3, vec![GridGeom::Line(c(0, 0), c(10, 10))]).unwrap();
    let lines = grid.lines();
    assert_eq!(lines.len(), 3);
    for line in &lines {
        assert_eq!(line.chars().count(), 7);
        for ch in line.chars() {
            assert!(('\u{2800}'..='\u{28FF}').contains(&ch));
        }
    }
}

#[test]
fn lines_match_cell_values() {
    let grid = sample_grid();
    let lines = grid.lines();
    let first: Vec<char> = lines[0].chars().collect();
    assert_eq!(first[0], '\u{2836}');
    for (r, line) in lines.iter().enumerate() {
        for (col, ch) in line.chars().enumerate() {
            let v = grid.query_cell_value(r as u16, col as u16);
            assert_eq!(ch as u32, 0x2800 + v);
        }
    }
}

#[test]
fn single_point_sets_one_dot() {
    for (w, h) in [(4u16, 4u16), (8, 3), (3, 8), (1, 1)] {
        let grid = MapGrid::new(w, h, vec![GridGeom::Point(c(17, -3))]).unwrap();
        let mut set = 0;
        let mut cells = 0;
        for r in 0..h {
            for col in 0..w {
                let v = grid.query_cell_value(r, col);
                if v != 0 {
                    cells += 1;
                    set += v.count_ones();
                }
            }
        }
        assert_eq!((cells, set), (1, 1));
    }
}

#[test]
fn single_point_lands_bottom_left_of_its_box() {
    let grid = MapGrid::new(4, 4, vec![GridGeom::Point(c(2, 2))]).unwrap();
    // Box 1 x 1 on a square terminal: the dot side is 1/8, the point sits on
    // the bottom edge of dot row 7, dot column 0: cell (1, 0), dot (3, 0).
    assert_eq!(grid.query_cell_value(1, 0), 0x40);
}

#[test]
fn wide_terminal_fits_by_height() {
    // Box 4 x 2 (aspect 2), terminal 10 x 2: the width follows the height,
    // colsF = 2 * 2 * 2 = 8, rowsF = 2; a cell is 0.5 x 1.
    let grid = MapGrid::new(10, 2, vec![GridGeom::Line(c(0, 0), c(4, 2))]).unwrap();
    let (w, h) = grid.cell_size();
    assert_eq!((frac(w), frac(h)), (0.5, 1.0));
    assert_eq!((grid.cols(), grid.rows()), (10, 2));
}

#[test]
fn wide_box_on_wide_terminal_fits_by_width() {
    // Box 10 x 1 (aspect 10), terminal 8 x 2 (aspect 4 <= 20): colsF = 8,
    // rowsF = 8 / 10 / 2 = 0.4; a cell is 1.25 x 2.5.
    let grid = MapGrid::new(8, 2, vec![GridGeom::Line(c(0, 0), c(10, 1))]).unwrap();
    let (w, h) = grid.cell_size();
    assert_eq!((frac(w), frac(h)), (1.25, 2.5));
}

#[test]
fn very_wide_terminal_fits_by_height() {
    // Box 10 x 1, terminal 50 x 1 (aspect 50 > 20): colsF = 1 * 10 * 2 = 20,
    // rowsF = 1; a cell is 0.5 x 1.
    let grid = MapGrid::new(50, 1, vec![GridGeom::Line(c(0, 0), c(10, 1))]).unwrap();
    let (w, h) = grid.cell_size();
    assert_eq!((frac(w), frac(h)), (0.5, 1.0));
}

#[test]
fn zero_size_is_refused() {
    let atoms = vec![GridGeom::Point(c(0, 0))];
    assert!(matches!(MapGrid::new(0, 4, atoms.clone()), Err(GridError::ZeroSize)));
    assert!(matches!(MapGrid::new(4, 0, atoms), Err(GridError::ZeroSize)));
}

#[test]
fn empty_geometry_is_refused() {
    assert!(matches!(MapGrid::new(4, 4, vec![]), Err(GridError::EmptyGeometry)));
}

#[test]
fn invalid_atoms_are_refused() {
    let far = vec![GridGeom::Point(c(1 << 40, 0))];
    assert!(matches!(MapGrid::new(4, 4, far), Err(GridError::InvalidAtom)));
    let hollow = vec![GridGeom::Polygon(Polygon { exterior: vec![], interiors: vec![] })];
    assert!(matches!(MapGrid::new(4, 4, hollow), Err(GridError::InvalidAtom)));
}

#[test]
fn polygon_area_fills_cells() {
    let square = Polygon {
        exterior: vec![c(0, 0), c(8, 0), c(8, 8), c(0, 8)],
        interiors: vec![],
    };
    let grid = MapGrid::new(4, 2, vec![GridGeom::Polygon(square.clone())]).unwrap();
    for r in 0..2 {
        for col in 0..4 {
            let v = grid.query_cell_value(r, col);
            if col < 2 {
                assert_eq!(v, 0xFF);
            }
        }
    }
    let outline = GridGeom::vec_from_geom(Geometry::Polygon(square), false);
    let grid = MapGrid::new(4, 2, outline).unwrap();
    // Cell (0, 0) has the top and left edges only: inner dots stay clear.
    assert_ne!(grid.query_cell_value(0, 0), 0xFF);
    assert_ne!(grid.query_cell_value(0, 0), 0);
}

#[test]
fn polygon_hole_is_respected() {
    let with_hole = Polygon {
        exterior: vec![c(0, 0), c(64, 0), c(64, 64), c(0, 64)],
        interiors: vec![vec![c(8, 8), c(56, 8), c(56, 56), c(8, 56)]],
    };
    let grid = MapGrid::new(8, 4, vec![GridGeom::Polygon(with_hole)]).unwrap();
    // Box 64 x 64 on 8 x 4: dots are 4 units; cell (1, 1) covers x in
    // [8, 16], y in [32, 48] from the top: inside the hole but touching its
    // left edge, so only the left column of dots is set.
    assert_eq!(grid.query_cell_value(1, 1), 0x01 | 0x02 | 0x04 | 0x40);
    // Cell (1, 2) lies wholly inside the hole.
    assert_eq!(grid.query_cell_value(1, 2), 0);
}

#[test]
fn diagonal_line_marks_its_cells() {
    let grid = MapGrid::new(2, 1, vec![GridGeom::Line(c(0, 0), c(4, 4))]).unwrap();
    let lines = grid.lines();
    assert_eq!(lines.len(), 1);
    assert!(lines[0].chars().all(|ch| ch != '\u{2800}'));
}
