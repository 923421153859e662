//! Braille previews of vector geometry.
//!
//! Geometry is flattened into atoms (points, segments, polygons), fitted to a
//! character grid whose aspect follows the data, and every character cell is
//! sampled as a 2 x 4 block of Braille dots.
use vstd::prelude::*;

pub mod braille;
pub mod contact;
pub mod extent;
pub mod format;
pub mod geometry;
pub mod grid;
pub mod index;
pub mod map_grid;

pub use braille::{braille_cell_value, braille_char, cell_byte};
pub use format::{get_file_format, FormatError, InputFormat};
pub use geometry::{Coord, Geometry, GridGeom, Polygon};
pub use map_grid::{GridError, MapGrid};

verus! {

} // verus!
