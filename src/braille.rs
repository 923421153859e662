//! The Braille dot table and the characters built from it.
use vstd::prelude::*;

verus! {

/// First code point of the Unicode Braille Patterns block.
pub const BRAILLE_BASE: u32 = 0x2800;

/// Bit of the dot at `row` (0..4, top to bottom) and `col` (0..2) of a cell;
/// zero for any other position.
pub open spec fn dot_bit(row: int, col: int) -> u32 {
    if row == 0 && col == 0 {
        0x01
    } else if row == 0 && col == 1 {
        0x08
    } else if row == 1 && col == 0 {
        0x02
    } else if row == 1 && col == 1 {
        0x10
    } else if row == 2 && col == 0 {
        0x04
    } else if row == 2 && col == 1 {
        0x20
    } else if row == 3 && col == 0 {
        0x40
    } else if row == 3 && col == 1 {
        0x80
    } else {
        0x00
    }
}

/// The cell byte whose bits are the dots for which `dot(row, col)` holds.
pub open spec fn cell_bits(dot: spec_fn(int, int) -> bool) -> int {
    (if dot(0, 0) { 0x01int } else { 0 }) + (if dot(0, 1) { 0x08int } else { 0 }) + (if dot(1, 0) {
        0x02int
    } else {
        0
    }) + (if dot(1, 1) { 0x10int } else { 0 }) + (if dot(2, 0) { 0x04int } else { 0 }) + (if dot(
        2,
        1,
    ) {
        0x20int
    } else {
        0
    }) + (if dot(3, 0) { 0x40int } else { 0 }) + (if dot(3, 1) { 0x80int } else { 0 })
}

/// Convert row/col coordinates of a dot to its Braille bit.
pub fn braille_cell_value(row: i32, col: i32) -> (r: u32)
    ensures
        r == dot_bit(row as int, col as int),
{
    match (row, col) {
        (0, 0) => 0x01,
        (0, 1) => 0x08,
        (1, 0) => 0x02,
        (1, 1) => 0x10,
        (2, 0) => 0x04,
        (2, 1) => 0x20,
        (3, 0) => 0x40,
        (3, 1) => 0x80,
        (_, _) => 0x00,
    }
}

/// The byte of a cell from its eight dots, the dot at `row` (0..4) and
/// `col` (0..2) being `dots[2 * row + col]`.
pub fn cell_byte(dots: [bool; 8]) -> (r: u32)
    ensures
        r == cell_bits(|row: int, col: int| dots@[2 * row + col]),
        r <= 0xFF,
{
    let mut v: u32 = 0;
    if dots[0] {
        v = v + braille_cell_value(0, 0);
    }
    if dots[1] {
        v = v + braille_cell_value(0, 1);
    }
    if dots[2] {
        v = v + braille_cell_value(1, 0);
    }
    if dots[3] {
        v = v + braille_cell_value(1, 1);
    }
    if dots[4] {
        v = v + braille_cell_value(2, 0);
    }
    if dots[5] {
        v = v + braille_cell_value(2, 1);
    }
    if dots[6] {
        v = v + braille_cell_value(3, 0);
    }
    if dots[7] {
        v = v + braille_cell_value(3, 1);
    }
    v
}

/// Relies on `char::from_u32`: `Some` exactly for Unicode scalar values,
/// holding the character with that code.
#[verifier::external_body]
fn char_from_code(code: u32) -> (r: Option<char>)
    ensures
        r is Some <==> (code < 0xD800 || (0xE000 <= code && code <= 0x10FFFF)),
        r matches Some(c) ==> c as u32 == code,
{
    char::from_u32(code)
}

/// The Braille character of a cell byte: code point `0x2800 + suffix`.
pub fn braille_char(suffix: u32) -> (c: char)
    requires
        suffix <= 0xFF,
    ensures
        c as u32 == BRAILLE_BASE + suffix,
{
    match char_from_code(BRAILLE_BASE + suffix) {
        Some(c) => c,
        None => ' ',
    }
}

/// A cell with no dot set is the blank pattern U+2800, a cell with every dot
/// set is the full pattern U+28FF, and every cell byte lies in `0..=0xFF`.
pub proof fn lemma_cell_code_range(dot: spec_fn(int, int) -> bool)
    ensures
        0 <= cell_bits(dot) <= 0xFF,
        (forall|r: int, c: int| !#[trigger] dot(r, c)) ==> BRAILLE_BASE + cell_bits(dot) == 0x2800,
        (forall|r: int, c: int| #[trigger] dot(r, c)) ==> BRAILLE_BASE + cell_bits(dot) == 0x28FF,
{
}

} // verus!
