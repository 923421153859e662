use geobraille::grid::{fit_grid, BBox};
use geobraille::{braille_cell_value, braille_char, cell_byte};

#[test]
fn dot_table() {
    let expected = [
        ((0, 0), 0x01),
        ((0, 1), 0x08),
        ((1, 0), 0x02),
        ((1, 1), 0x10),
        ((2, 0), 0x04),
        ((2, 1), 0x20),
        ((3, 0), 0x40),
        ((3, 1), 0x80),
    ];
    for ((r, c), v) in expected {
        assert_eq!(braille_cell_value(r, c), v);
    }
    assert_eq!(braille_cell_value(4, 0), 0);
    assert_eq!(braille_cell_value(0, 2), 0);
    assert_eq!(braille_cell_value(-1, 0), 0);
}

#[test]
fn blank_and_full_characters() {
    assert_eq!(braille_char(0), '\u{2800}');
    assert_eq!(braille_char(0xFF), '\u{28FF}');
    assert_eq!(braille_char(0x36), '\u{2836}');
    let all: u32 = (0..4).flat_map(|r| (0..2).map(move |c| braille_cell_value(r, c))).sum();
    assert_eq!(braille_char(all), '\u{28FF}');
}

#[test]
fn cell_byte_collects_dots() {
    assert_eq!(cell_byte([false; 8]), 0x00);
    assert_eq!(cell_byte([true; 8]), 0xFF);
    // Dots (0, 1), (1, 0), (1, 1): 0x08 | 0x02 | 0x10.
    assert_eq!(cell_byte([false, true, true, true, false, false, false, false]), 0x1A);
    assert_eq!(cell_byte([false, false, true, true, true, true, false, false]), 0x36);
}

#[test]
fn fit_grid_picks_dot_size() {
    let g = fit_grid(4, 4, BBox { min_x: 0, min_y: 0, max_x: 5, max_y: 1 });
    assert_eq!((g.rows, g.cols, g.dot_num, g.dot_den), (4, 4, 5, 8));
    let g = fit_grid(10, 2, BBox { min_x: -3, min_y: 7, max_x: 1, max_y: 9 });
    assert_eq!((g.min_x, g.max_y, g.dot_num, g.dot_den), (-3, 9, 2, 8));
    let flat = fit_grid(4, 4, BBox { min_x: 2, min_y: 5, max_x: 2, max_y: 5 });
    assert_eq!((flat.box_width, flat.box_height, flat.max_y), (1, 1, 6));
}
