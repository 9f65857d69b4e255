//! Boid sprites: painted block-cell silhouettes for each of eight headings,
//! a small one for prey and a larger one for the predator.

use crate::frame::{ScreenCell, ScreenFrame};
use crate::text::ESC;
use vstd::prelude::*;

verus! {

/// The part of a boid that a sprite cell belongs to; it picks the cell's
/// color.
#[derive(Debug, Clone, Copy, PartialEq, Eq, Structural)]
pub enum BoidSpriteTone {
    Tail,
    Body,
    Fin,
    Head,
}

/// The color row index of each tone.
pub open spec fn tone_index(tone: BoidSpriteTone) -> usize {
    match tone {
        BoidSpriteTone::Tail => 0,
        BoidSpriteTone::Body => 1,
        BoidSpriteTone::Fin => 2,
        BoidSpriteTone::Head => 3,
    }
}

/// The tone of a color row index; unknown indices are body cells.
pub open spec fn tone_of_index(index: usize) -> BoidSpriteTone {
    if index == 0 {
        BoidSpriteTone::Tail
    } else if index == 2 {
        BoidSpriteTone::Fin
    } else if index == 3 {
        BoidSpriteTone::Head
    } else {
        BoidSpriteTone::Body
    }
}

impl BoidSpriteTone {
    /// The color row index of this tone.
    pub fn as_index(self) -> (index: usize)
        ensures
            index == tone_index(self),
    {
        match self {
            BoidSpriteTone::Tail => 0,
            BoidSpriteTone::Body => 1,
            BoidSpriteTone::Fin => 2,
            BoidSpriteTone::Head => 3,
        }
    }

    /// The tone of a color row index; unknown indices are body cells.
    pub fn from_index(index: usize) -> (tone: Self)
        ensures
            tone == tone_of_index(index),
    {
        match index {
            0 => BoidSpriteTone::Tail,
            2 => BoidSpriteTone::Fin,
            3 => BoidSpriteTone::Head,
            _ => BoidSpriteTone::Body,
        }
    }
}

/// A tone survives the trip through its color row index.
pub proof fn lemma_tone_index_round_trip(tone: BoidSpriteTone)
    ensures
        tone_of_index(tone_index(tone)) == tone,
{
}

/// One cell of a sprite, at offset `(dx, dy)` from the sprite's origin.
#[derive(Debug, Clone, Copy, PartialEq, Eq)]
pub struct BoidSpriteCell {
    pub dx: usize,
    pub dy: usize,
    pub tone: BoidSpriteTone,
    pub glyph: char,
}

/// A sprite cell.
pub fn sprite_cell(dx: usize, dy: usize, tone: BoidSpriteTone, glyph: char) -> (cell: BoidSpriteCell)
    ensures
        cell == (BoidSpriteCell { dx, dy, tone, glyph }),
{
    BoidSpriteCell { dx, dy, tone, glyph }
}

/// The heading of a boid, in steps of 45 degrees, clockwise from east with
/// the y axis pointing down.
#[derive(Debug, Clone, Copy, PartialEq, Eq, Structural)]
pub enum BoidDirection {
    East,
    SouthEast,
    South,
    SouthWest,
    West,
    NorthWest,
    North,
    NorthEast,
}

/// The heading of an octant number, taken modulo eight (0 is east).
pub open spec fn direction_of_sector(sector: int) -> BoidDirection {
    let octant = sector % 8;
    if octant == 0 {
        BoidDirection::East
    } else if octant == 1 {
        BoidDirection::SouthEast
    } else if octant == 2 {
        BoidDirection::South
    } else if octant == 3 {
        BoidDirection::SouthWest
    } else if octant == 4 {
        BoidDirection::West
    } else if octant == 5 {
        BoidDirection::NorthWest
    } else if octant == 6 {
        BoidDirection::North
    } else {
        BoidDirection::NorthEast
    }
}

/// The heading of an octant number (the rounded angle of the velocity in
/// units of 45 degrees), which may be negative.
pub fn boid_direction_from_sector(sector: i32) -> (direction: BoidDirection)
    ensures
        direction == direction_of_sector(sector as int),
{
    let remainder = (sector as i64) % 8;
    let octant = if remainder < 0 { remainder + 8 } else { remainder };
    assert(octant == sector as int % 8);
    if octant == 0 {
        BoidDirection::East
    } else if octant == 1 {
        BoidDirection::SouthEast
    } else if octant == 2 {
        BoidDirection::South
    } else if octant == 3 {
        BoidDirection::SouthWest
    } else if octant == 4 {
        BoidDirection::West
    } else if octant == 5 {
        BoidDirection::NorthWest
    } else if octant == 6 {
        BoidDirection::North
    } else {
        BoidDirection::NorthEast
    }
}

/// The grid step of a heading, with the y axis pointing down: one column
/// right for east, one row down for south.
pub open spec fn direction_step(direction: BoidDirection) -> (int, int) {
    match direction {
        BoidDirection::East => (1, 0),
        BoidDirection::SouthEast => (1, 1),
        BoidDirection::South => (0, 1),
        BoidDirection::SouthWest => (-1, 1),
        BoidDirection::West => (-1, 0),
        BoidDirection::NorthWest => (-1, -1),
        BoidDirection::North => (0, -1),
        BoidDirection::NorthEast => (1, -1),
    }
}

/// Octants turn clockwise from east in steps of 45 degrees: octant 0 heads
/// right and octant 1 down-right; two octants on is a quarter turn
/// clockwise (with y down, `(x, y)` becomes `(-y, x)`); four octants on is
/// the opposite heading; and mirroring left to right maps octant `s` to
/// octant `4 - s`.
pub proof fn lemma_sectors_turn_clockwise(sector: int)
    ensures
        direction_step(direction_of_sector(0)) == (1int, 0int),
        direction_step(direction_of_sector(1)) == (1int, 1int),
        direction_step(direction_of_sector(sector + 2)) == (
            -direction_step(direction_of_sector(sector)).1,
            direction_step(direction_of_sector(sector)).0,
        ),
        direction_step(direction_of_sector(sector + 4)) == (
            -direction_step(direction_of_sector(sector)).0,
            -direction_step(direction_of_sector(sector)).1,
        ),
        direction_step(direction_of_sector(4 - sector)) == (
            -direction_step(direction_of_sector(sector)).0,
            direction_step(direction_of_sector(sector)).1,
        ),
        direction_of_sector(sector + 8) == direction_of_sector(sector),
{
    let o = sector % 8;
    assert((sector + 2) % 8 == (o + 2) % 8);
    assert((sector + 4) % 8 == (o + 4) % 8);
    assert((4 - sector) % 8 == (12 - o) % 8);
    assert((sector + 8) % 8 == o);
}

pub const BOID_BLOCK: char = '█';
pub const BOID_LEFT_HALF: char = '▌';
pub const BOID_RIGHT_HALF: char = '▐';
pub const BOID_UPPER_HALF: char = '▀';
pub const BOID_LOWER_HALF: char = '▄';
pub const BOID_TOP_LEFT: char = '▘';
pub const BOID_TOP_RIGHT: char = '▝';
pub const BOID_BOTTOM_LEFT: char = '▖';
pub const BOID_BOTTOM_RIGHT: char = '▗';

pub const TAIL: BoidSpriteTone = BoidSpriteTone::Tail;
pub const BODY: BoidSpriteTone = BoidSpriteTone::Body;
pub const FIN: BoidSpriteTone = BoidSpriteTone::Fin;
pub const HEAD: BoidSpriteTone = BoidSpriteTone::Head;

/// A sprite table entry: offset, tone and glyph.
pub type SpriteEntry = (usize, usize, BoidSpriteTone, char);

pub const PREY_EAST: [SpriteEntry; 13] = [
    (1, 0, TAIL, BOID_BOTTOM_RIGHT),
    (5, 0, FIN, BOID_LOWER_HALF),
    (0, 1, TAIL, BOID_UPPER_HALF),
    (1, 1, TAIL, BOID_RIGHT_HALF),
    (2, 1, BODY, BOID_UPPER_HALF),
    (3, 1, BODY, BOID_UPPER_HALF),
    (4, 1, BODY, BOID_UPPER_HALF),
    (5, 1, FIN, BOID_RIGHT_HALF),
    (6, 1, FIN, BOID_LEFT_HALF),
    (7, 1, BODY, BOID_UPPER_HALF),
    (8, 1, BODY, BOID_UPPER_HALF),
    (9, 1, HEAD, BOID_TOP_RIGHT),
    (1, 2, TAIL, BOID_TOP_RIGHT),
];

pub const PREY_SOUTH_EAST: [SpriteEntry; 7] = [
    (0, 0, TAIL, BOID_BOTTOM_RIGHT),
    (1, 0, TAIL, BOID_BOTTOM_LEFT),
    (0, 1, TAIL, BOID_RIGHT_HALF),
    (1, 1, BODY, BOID_BLOCK),
    (2, 1, BODY, BOID_LEFT_HALF),
    (1, 2, BODY, BOID_UPPER_HALF),
    (2, 2, HEAD, BOID_BOTTOM_RIGHT),
];

pub const PREY_SOUTH: [SpriteEntry; 7] = [
    (0, 0, TAIL, BOID_BOTTOM_RIGHT),
    (1, 0, TAIL, BOID_UPPER_HALF),
    (2, 0, TAIL, BOID_BOTTOM_LEFT),
    (0, 1, BODY, BOID_RIGHT_HALF),
    (1, 1, BODY, BOID_BLOCK),
    (2, 1, BODY, BOID_LEFT_HALF),
    (1, 2, HEAD, BOID_LOWER_HALF),
];

pub const PREY_SOUTH_WEST: [SpriteEntry; 7] = [
    (1, 0, TAIL, BOID_BOTTOM_RIGHT),
    (2, 0, TAIL, BOID_BOTTOM_LEFT),
    (0, 1, BODY, BOID_RIGHT_HALF),
    (1, 1, BODY, BOID_BLOCK),
    (2, 1, TAIL, BOID_LEFT_HALF),
    (0, 2, HEAD, BOID_BOTTOM_LEFT),
    (1, 2, BODY, BOID_UPPER_HALF),
];

pub const PREY_WEST: [SpriteEntry; 13] = [
    (4, 0, FIN, BOID_LOWER_HALF),
    (8, 0, TAIL, BOID_BOTTOM_LEFT),
    (0, 1, HEAD, BOID_TOP_LEFT),
    (1, 1, BODY, BOID_UPPER_HALF),
    (2, 1, BODY, BOID_UPPER_HALF),
    (3, 1, FIN, BOID_RIGHT_HALF),
    (4, 1, FIN, BOID_LEFT_HALF),
    (5, 1, BODY, BOID_UPPER_HALF),
    (6, 1, BODY, BOID_UPPER_HALF),
    (7, 1, BODY, BOID_UPPER_HALF),
    (8, 1, TAIL, BOID_LEFT_HALF),
    (9, 1, TAIL, BOID_UPPER_HALF),
    (8, 2, TAIL, BOID_TOP_LEFT),
];

pub const PREY_NORTH_WEST: [SpriteEntry; 7] = [
    (0, 0, HEAD, BOID_TOP_LEFT),
    (1, 0, BODY, BOID_LOWER_HALF),
    (0, 1, BODY, BOID_RIGHT_HALF),
    (1, 1, BODY, BOID_BLOCK),
    (2, 1, TAIL, BOID_LEFT_HALF),
    (1, 2, TAIL, BOID_TOP_RIGHT),
    (2, 2, TAIL, BOID_TOP_LEFT),
];

pub const PREY_NORTH: [SpriteEntry; 7] = [
    (1, 0, HEAD, BOID_UPPER_HALF),
    (0, 1, BODY, BOID_RIGHT_HALF),
    (1, 1, BODY, BOID_BLOCK),
    (2, 1, BODY, BOID_LEFT_HALF),
    (0, 2, TAIL, BOID_TOP_RIGHT),
    (1, 2, TAIL, BOID_LOWER_HALF),
    (2, 2, TAIL, BOID_TOP_LEFT),
];

pub const PREY_NORTH_EAST: [SpriteEntry; 7] = [
    (1, 0, BODY, BOID_LOWER_HALF),
    (2, 0, HEAD, BOID_TOP_RIGHT),
    (0, 1, TAIL, BOID_RIGHT_HALF),
    (1, 1, BODY, BOID_BLOCK),
    (2, 1, BODY, BOID_LEFT_HALF),
    (0, 2, TAIL, BOID_TOP_RIGHT),
    (1, 2, TAIL, BOID_TOP_LEFT),
];

pub const PREDATOR_EAST: [SpriteEntry; 32] = [
    (0, 0, TAIL, BOID_BOTTOM_RIGHT),
    (1, 0, TAIL, BOID_LOWER_HALF),
    (5, 0, BODY, BOID_LOWER_HALF),
    (6, 0, BODY, BOID_LOWER_HALF),
    (7, 0, BODY, BOID_LOWER_HALF),
    (8, 0, BODY, BOID_LOWER_HALF),
    (9, 0, BODY, BOID_LOWER_HALF),
    (10, 0, BODY, BOID_LOWER_HALF),
    (11, 0, HEAD, BOID_BOTTOM_RIGHT),
    (0, 1, TAIL, BOID_RIGHT_HALF),
    (1, 1, TAIL, BOID_BLOCK),
    (2, 1, TAIL, BOID_RIGHT_HALF),
    (3, 1, BODY, BOID_BLOCK),
    (4, 1, BODY, BOID_BLOCK),
    (5, 1, BODY, BOID_BLOCK),
    (6, 1, BODY, BOID_BLOCK),
    (7, 1, BODY, BOID_BLOCK),
    (8, 1, BODY, BOID_BLOCK),
    (9, 1, BODY, BOID_BLOCK),
    (10, 1, BODY, BOID_BLOCK),
    (11, 1, BODY, BOID_BLOCK),
    (12, 1, HEAD, BOID_BLOCK),
    (13, 1, HEAD, BOID_RIGHT_HALF),
    (0, 2, TAIL, BOID_TOP_RIGHT),
    (1, 2, TAIL, BOID_UPPER_HALF),
    (5, 2, BODY, BOID_UPPER_HALF),
    (6, 2, BODY, BOID_UPPER_HALF),
    (7, 2, BODY, BOID_UPPER_HALF),
    (8, 2, BODY, BOID_UPPER_HALF),
    (9, 2, BODY, BOID_UPPER_HALF),
    (10, 2, BODY, BOID_UPPER_HALF),
    (11, 2, HEAD, BOID_TOP_RIGHT),
];

pub const PREDATOR_SOUTH_EAST: [SpriteEntry; 14] = [
    (0, 0, TAIL, BOID_BOTTOM_RIGHT),
    (0, 1, TAIL, BOID_RIGHT_HALF),
    (1, 1, TAIL, BOID_LOWER_HALF),
    (1, 2, TAIL, BOID_RIGHT_HALF),
    (2, 2, BODY, BOID_BLOCK),
    (3, 2, BODY, BOID_LOWER_HALF),
    (2, 3, BODY, BOID_UPPER_HALF),
    (3, 3, BODY, BOID_BLOCK),
    (4, 3, BODY, BOID_LEFT_HALF),
    (3, 4, BODY, BOID_UPPER_HALF),
    (4, 4, BODY, BOID_BLOCK),
    (5, 4, BODY, BOID_LEFT_HALF),
    (4, 5, BODY, BOID_UPPER_HALF),
    (5, 5, HEAD, BOID_BOTTOM_RIGHT),
];

pub const PREDATOR_SOUTH: [SpriteEntry; 15] = [
    (1, 0, TAIL, BOID_BOTTOM_RIGHT),
    (2, 0, TAIL, BOID_UPPER_HALF),
    (3, 0, TAIL, BOID_BOTTOM_LEFT),
    (1, 1, BODY, BOID_LOWER_HALF),
    (2, 1, BODY, BOID_BLOCK),
    (3, 1, BODY, BOID_LOWER_HALF),
    (0, 2, TAIL, BOID_RIGHT_HALF),
    (1, 2, BODY, BOID_BLOCK),
    (2, 2, BODY, BOID_BLOCK),
    (3, 2, BODY, BOID_BLOCK),
    (4, 2, TAIL, BOID_LEFT_HALF),
    (1, 3, BODY, BOID_UPPER_HALF),
    (2, 3, BODY, BOID_BLOCK),
    (3, 3, BODY, BOID_UPPER_HALF),
    (2, 4, HEAD, BOID_LOWER_HALF),
];

pub const PREDATOR_SOUTH_WEST: [SpriteEntry; 14] = [
    (5, 0, TAIL, BOID_BOTTOM_LEFT),
    (4, 1, TAIL, BOID_LOWER_HALF),
    (5, 1, TAIL, BOID_LEFT_HALF),
    (2, 2, BODY, BOID_LOWER_HALF),
    (3, 2, BODY, BOID_BLOCK),
    (4, 2, TAIL, BOID_LEFT_HALF),
    (1, 3, BODY, BOID_RIGHT_HALF),
    (2, 3, BODY, BOID_BLOCK),
    (3, 3, BODY, BOID_UPPER_HALF),
    (0, 4, BODY, BOID_RIGHT_HALF),
    (1, 4, BODY, BOID_BLOCK),
    (2, 4, BODY, BOID_UPPER_HALF),
    (0, 5, HEAD, BOID_BOTTOM_LEFT),
    (1, 5, BODY, BOID_UPPER_HALF),
];

pub const PREDATOR_WEST: [SpriteEntry; 32] = [
    (2, 0, HEAD, BOID_BOTTOM_LEFT),
    (3, 0, BODY, BOID_LOWER_HALF),
    (4, 0, BODY, BOID_LOWER_HALF),
    (5, 0, BODY, BOID_LOWER_HALF),
    (6, 0, BODY, BOID_LOWER_HALF),
    (7, 0, BODY, BOID_LOWER_HALF),
    (8, 0, BODY, BOID_LOWER_HALF),
    (12, 0, TAIL, BOID_LOWER_HALF),
    (13, 0, TAIL, BOID_BOTTOM_LEFT),
    (0, 1, HEAD, BOID_LEFT_HALF),
    (1, 1, HEAD, BOID_BLOCK),
    (2, 1, BODY, BOID_BLOCK),
    (3, 1, BODY, BOID_BLOCK),
    (4, 1, BODY, BOID_BLOCK),
    (5, 1, BODY, BOID_BLOCK),
    (6, 1, BODY, BOID_BLOCK),
    (7, 1, BODY, BOID_BLOCK),
    (8, 1, BODY, BOID_BLOCK),
    (9, 1, BODY, BOID_BLOCK),
    (10, 1, BODY, BOID_BLOCK),
    (11, 1, TAIL, BOID_LEFT_HALF),
    (12, 1, TAIL, BOID_BLOCK),
    (13, 1, TAIL, BOID_LEFT_HALF),
    (2, 2, HEAD, BOID_TOP_LEFT),
    (3, 2, BODY, BOID_UPPER_HALF),
    (4, 2, BODY, BOID_UPPER_HALF),
    (5, 2, BODY, BOID_UPPER_HALF),
    (6, 2, BODY, BOID_UPPER_HALF),
    (7, 2, BODY, BOID_UPPER_HALF),
    (8, 2, BODY, BOID_UPPER_HALF),
    (12, 2, TAIL, BOID_UPPER_HALF),
    (13, 2, TAIL, BOID_TOP_LEFT),
];

pub const PREDATOR_NORTH_WEST: [SpriteEntry; 14] = [
    (0, 0, HEAD, BOID_TOP_LEFT),
    (1, 0, BODY, BOID_LOWER_HALF),
    (0, 1, BODY, BOID_RIGHT_HALF),
    (1, 1, BODY, BOID_BLOCK),
    (2, 1, BODY, BOID_LOWER_HALF),
    (1, 2, BODY, BOID_RIGHT_HALF),
    (2, 2, BODY, BOID_BLOCK),
    (3, 2, BODY, BOID_LOWER_HALF),
    (2, 3, BODY, BOID_UPPER_HALF),
    (3, 3, BODY, BOID_BLOCK),
    (4, 3, TAIL, BOID_LEFT_HALF),
    (4, 4, TAIL, BOID_UPPER_HALF),
    (5, 4, TAIL, BOID_LEFT_HALF),
    (5, 5, TAIL, BOID_TOP_LEFT),
];

pub const PREDATOR_NORTH: [SpriteEntry; 15] = [
    (2, 0, HEAD, BOID_UPPER_HALF),
    (1, 1, BODY, BOID_LOWER_HALF),
    (2, 1, BODY, BOID_BLOCK),
    (3, 1, BODY, BOID_LOWER_HALF),
    (0, 2, TAIL, BOID_RIGHT_HALF),
    (1, 2, BODY, BOID_BLOCK),
    (2, 2, BODY, BOID_BLOCK),
    (3, 2, BODY, BOID_BLOCK),
    (4, 2, TAIL, BOID_LEFT_HALF),
    (1, 3, BODY, BOID_UPPER_HALF),
    (2, 3, BODY, BOID_BLOCK),
    (3, 3, BODY, BOID_UPPER_HALF),
    (1, 4, TAIL, BOID_TOP_RIGHT),
    (2, 4, TAIL, BOID_LOWER_HALF),
    (3, 4, TAIL, BOID_TOP_LEFT),
];

pub const PREDATOR_NORTH_EAST: [SpriteEntry; 14] = [
    (4, 0, BODY, BOID_LOWER_HALF),
    (5, 0, HEAD, BOID_TOP_RIGHT),
    (3, 1, BODY, BOID_LOWER_HALF),
    (4, 1, BODY, BOID_BLOCK),
    (5, 1, BODY, BOID_LEFT_HALF),
    (2, 2, BODY, BOID_LOWER_HALF),
    (3, 2, BODY, BOID_BLOCK),
    (4, 2, BODY, BOID_LEFT_HALF),
    (1, 3, TAIL, BOID_RIGHT_HALF),
    (2, 3, BODY, BOID_BLOCK),
    (3, 3, BODY, BOID_UPPER_HALF),
    (0, 4, TAIL, BOID_RIGHT_HALF),
    (1, 4, TAIL, BOID_UPPER_HALF),
    (0, 5, TAIL, BOID_TOP_RIGHT),
];
/// The cells described by a sprite table.
pub open spec fn sprite_cells_spec(table: Seq<SpriteEntry>) -> Seq<BoidSpriteCell> {
    Seq::new(table.len(), |k: int| entry_cell(table[k]))
}

/// The cell of one sprite table entry.
pub open spec fn entry_cell(entry: SpriteEntry) -> BoidSpriteCell {
    BoidSpriteCell { dx: entry.0, dy: entry.1, tone: entry.2, glyph: entry.3 }
}

/// The prey sprite table of a heading.
pub open spec fn prey_sprite_table(direction: BoidDirection) -> Seq<SpriteEntry> {
    match direction {
        BoidDirection::East => PREY_EAST@,
        BoidDirection::SouthEast => PREY_SOUTH_EAST@,
        BoidDirection::South => PREY_SOUTH@,
        BoidDirection::SouthWest => PREY_SOUTH_WEST@,
        BoidDirection::West => PREY_WEST@,
        BoidDirection::NorthWest => PREY_NORTH_WEST@,
        BoidDirection::North => PREY_NORTH@,
        BoidDirection::NorthEast => PREY_NORTH_EAST@,
    }
}

/// The predator sprite table of a heading.
pub open spec fn predator_sprite_table(direction: BoidDirection) -> Seq<SpriteEntry> {
    match direction {
        BoidDirection::East => PREDATOR_EAST@,
        BoidDirection::SouthEast => PREDATOR_SOUTH_EAST@,
        BoidDirection::South => PREDATOR_SOUTH@,
        BoidDirection::SouthWest => PREDATOR_SOUTH_WEST@,
        BoidDirection::West => PREDATOR_WEST@,
        BoidDirection::NorthWest => PREDATOR_NORTH_WEST@,
        BoidDirection::North => PREDATOR_NORTH@,
        BoidDirection::NorthEast => PREDATOR_NORTH_EAST@,
    }
}

fn cells_from_table(table: &[SpriteEntry]) -> (cells: Vec<BoidSpriteCell>)
    ensures
        cells@ == sprite_cells_spec(table@),
{
    let mut cells: Vec<BoidSpriteCell> = Vec::new();
    let mut i: usize = 0;
    while i < table.len()
        invariant
            i <= table@.len(),
            cells@.len() == i,
            forall|k: int| 0 <= k < i ==> #[trigger] cells@[k] == entry_cell(table@[k]),
        decreases table@.len() - i,
    {
        let entry = table[i];
        cells.push(sprite_cell(entry.0, entry.1, entry.2, entry.3));
        i = i + 1;
    }
    assert(cells@ =~= sprite_cells_spec(table@));
    cells
}

/// The prey sprite of a heading.
pub fn prey_sprite_cells(direction: BoidDirection) -> (cells: Vec<BoidSpriteCell>)
    ensures
        cells@ == sprite_cells_spec(prey_sprite_table(direction)),
{
    match direction {
        BoidDirection::East => cells_from_table(&PREY_EAST),
        BoidDirection::SouthEast => cells_from_table(&PREY_SOUTH_EAST),
        BoidDirection::South => cells_from_table(&PREY_SOUTH),
        BoidDirection::SouthWest => cells_from_table(&PREY_SOUTH_WEST),
        BoidDirection::West => cells_from_table(&PREY_WEST),
        BoidDirection::NorthWest => cells_from_table(&PREY_NORTH_WEST),
        BoidDirection::North => cells_from_table(&PREY_NORTH),
        BoidDirection::NorthEast => cells_from_table(&PREY_NORTH_EAST),
    }
}

/// The predator sprite of a heading.
pub fn predator_sprite_cells(direction: BoidDirection) -> (cells: Vec<BoidSpriteCell>)
    ensures
        cells@ == sprite_cells_spec(predator_sprite_table(direction)),
{
    match direction {
        BoidDirection::East => cells_from_table(&PREDATOR_EAST),
        BoidDirection::SouthEast => cells_from_table(&PREDATOR_SOUTH_EAST),
        BoidDirection::South => cells_from_table(&PREDATOR_SOUTH),
        BoidDirection::SouthWest => cells_from_table(&PREDATOR_SOUTH_WEST),
        BoidDirection::West => cells_from_table(&PREDATOR_WEST),
        BoidDirection::NorthWest => cells_from_table(&PREDATOR_NORTH_WEST),
        BoidDirection::North => cells_from_table(&PREDATOR_NORTH),
        BoidDirection::NorthEast => cells_from_table(&PREDATOR_NORTH_EAST),
    }
}

/// A glyph flipped left to right.
pub open spec fn glyph_mirrored_columns(glyph: char) -> char {
    if glyph == BOID_LEFT_HALF {
        BOID_RIGHT_HALF
    } else if glyph == BOID_RIGHT_HALF {
        BOID_LEFT_HALF
    } else if glyph == BOID_TOP_LEFT {
        BOID_TOP_RIGHT
    } else if glyph == BOID_TOP_RIGHT {
        BOID_TOP_LEFT
    } else if glyph == BOID_BOTTOM_LEFT {
        BOID_BOTTOM_RIGHT
    } else if glyph == BOID_BOTTOM_RIGHT {
        BOID_BOTTOM_LEFT
    } else {
        glyph
    }
}

/// A glyph flipped top to bottom.
pub open spec fn glyph_mirrored_rows(glyph: char) -> char {
    if glyph == BOID_UPPER_HALF {
        BOID_LOWER_HALF
    } else if glyph == BOID_LOWER_HALF {
        BOID_UPPER_HALF
    } else if glyph == BOID_TOP_LEFT {
        BOID_BOTTOM_LEFT
    } else if glyph == BOID_BOTTOM_LEFT {
        BOID_TOP_LEFT
    } else if glyph == BOID_TOP_RIGHT {
        BOID_BOTTOM_RIGHT
    } else if glyph == BOID_BOTTOM_RIGHT {
        BOID_TOP_RIGHT
    } else {
        glyph
    }
}

/// A sprite flipped left to right within columns `0..=last_column`.
pub open spec fn mirrored_columns_seq(table: Seq<SpriteEntry>, last_column: usize) -> Seq<SpriteEntry> {
    Seq::new(
        table.len(),
        |k: int|
            (
                (last_column - table[k].0) as usize,
                table[k].1,
                table[k].2,
                glyph_mirrored_columns(table[k].3),
            ),
    )
}

/// A sprite flipped top to bottom within rows `0..=last_row`.
pub open spec fn mirrored_rows_seq(table: Seq<SpriteEntry>, last_row: usize) -> Seq<SpriteEntry> {
    Seq::new(
        table.len(),
        |k: int|
            (table[k].0, (last_row - table[k].1) as usize, table[k].2, glyph_mirrored_rows(table[k].3)),
    )
}

/// Whether entries `from..` of `a` are found in `b` at the positions that
/// `index` gives.
pub open spec fn matched_from(a: Seq<SpriteEntry>, b: Seq<SpriteEntry>, index: Seq<int>, from: int) -> bool
    decreases a.len() - from,
{
    if from < 0 || from >= a.len() {
        true
    } else {
        &&& from < index.len()
        &&& 0 <= index[from] < b.len()
        &&& a[from] == b[index[from]]
        &&& matched_from(a, b, index, from + 1)
    }
}

proof fn lemma_matched_from_contains(a: Seq<SpriteEntry>, b: Seq<SpriteEntry>, index: Seq<int>, from: int)
    requires
        0 <= from,
        matched_from(a, b, index, from),
    ensures
        forall|i: int| from <= i < a.len() ==> b.contains(#[trigger] a[i]),
    decreases a.len() - from,
{
    if from < a.len() {
        lemma_matched_from_contains(a, b, index, from + 1);
        assert(b[index[from]] == a[from]);
        assert forall|i: int| from <= i < a.len() implies b.contains(#[trigger] a[i]) by {
            if i == from {
                assert(b[index[from]] == a[i]);
            }
        }
    }
}

/// Two sprite tables with matching entries, each entry of either found in
/// the other at the given positions, hold the same set of entries.
pub proof fn lemma_same_entries(
    a: Seq<SpriteEntry>,
    b: Seq<SpriteEntry>,
    a_in_b: Seq<int>,
    b_in_a: Seq<int>,
)
    requires
        matched_from(a, b, a_in_b, 0),
        matched_from(b, a, b_in_a, 0),
    ensures
        a.to_set() == b.to_set(),
{
    lemma_matched_from_contains(a, b, a_in_b, 0);
    lemma_matched_from_contains(b, a, b_in_a, 0);
    assert forall|x: SpriteEntry| a.contains(x) <==> b.contains(x) by {
        if a.contains(x) {
            let i = choose|i: int| 0 <= i < a.len() && a[i] == x;
            assert(b.contains(a[i]));
        }
        if b.contains(x) {
            let j = choose|j: int| 0 <= j < b.len() && b[j] == x;
            assert(a.contains(b[j]));
        }
    }
    assert(a.to_set() =~= b.to_set());
}

/// The prey sprite heading west is the east one flipped left to right.
pub proof fn lemma_prey_west_mirrors_east()
    ensures
        PREY_WEST@.to_set() == mirrored_columns_seq(PREY_EAST@, 9).to_set(),
{
    reveal_with_fuel(matched_from, 33);
    lemma_same_entries(
        PREY_WEST@,
        mirrored_columns_seq(PREY_EAST@, 9),
        seq![1, 0, 11, 10, 9, 8, 7, 6, 5, 4, 3, 2, 12],
        seq![1, 0, 11, 10, 9, 8, 7, 6, 5, 4, 3, 2, 12],
    );
}

/// The prey sprite heading north-west is the north-east one flipped left to right.
pub proof fn lemma_prey_north_west_mirrors_north_east()
    ensures
        PREY_NORTH_WEST@.to_set() == mirrored_columns_seq(PREY_NORTH_EAST@, 2).to_set(),
{
    reveal_with_fuel(matched_from, 33);
    lemma_same_entries(
        PREY_NORTH_WEST@,
        mirrored_columns_seq(PREY_NORTH_EAST@, 2),
        seq![1, 0, 4, 3, 2, 6, 5],
        seq![1, 0, 4, 3, 2, 6, 5],
    );
}

/// The prey sprite heading south-east is the north-east one flipped top to bottom.
pub proof fn lemma_prey_south_east_mirrors_north_east()
    ensures
        PREY_SOUTH_EAST@.to_set() == mirrored_rows_seq(PREY_NORTH_EAST@, 2).to_set(),
{
    reveal_with_fuel(matched_from, 33);
    lemma_same_entries(
        PREY_SOUTH_EAST@,
        mirrored_rows_seq(PREY_NORTH_EAST@, 2),
        seq![5, 6, 2, 3, 4, 0, 1],
        seq![5, 6, 2, 3, 4, 0, 1],
    );
}

/// The prey sprite heading south-west is the north-west one flipped top to bottom.
pub proof fn lemma_prey_south_west_mirrors_north_west()
    ensures
        PREY_SOUTH_WEST@.to_set() == mirrored_rows_seq(PREY_NORTH_WEST@, 2).to_set(),
{
    reveal_with_fuel(matched_from, 33);
    lemma_same_entries(
        PREY_SOUTH_WEST@,
        mirrored_rows_seq(PREY_NORTH_WEST@, 2),
        seq![5, 6, 2, 3, 4, 0, 1],
        seq![5, 6, 2, 3, 4, 0, 1],
    );
}

/// The prey sprite heading south is the north one flipped top to bottom.
pub proof fn lemma_prey_south_mirrors_north()
    ensures
        PREY_SOUTH@.to_set() == mirrored_rows_seq(PREY_NORTH@, 2).to_set(),
{
    reveal_with_fuel(matched_from, 33);
    lemma_same_entries(
        PREY_SOUTH@,
        mirrored_rows_seq(PREY_NORTH@, 2),
        seq![4, 5, 6, 1, 2, 3, 0],
        seq![6, 3, 4, 5, 0, 1, 2],
    );
}

/// The predator sprite heading west is the east one flipped left to right.
pub proof fn lemma_predator_west_mirrors_east()
    ensures
        PREDATOR_WEST@.to_set() == mirrored_columns_seq(PREDATOR_EAST@, 13).to_set(),
{
    reveal_with_fuel(matched_from, 33);
    lemma_same_entries(
        PREDATOR_WEST@,
        mirrored_columns_seq(PREDATOR_EAST@, 13),
        seq![8, 7, 6, 5, 4, 3, 2, 1, 0, 22, 21, 20, 19, 18, 17, 16, 15, 14, 13, 12, 11, 10, 9, 31, 30, 29, 28, 27, 26, 25, 24, 23],
        seq![8, 7, 6, 5, 4, 3, 2, 1, 0, 22, 21, 20, 19, 18, 17, 16, 15, 14, 13, 12, 11, 10, 9, 31, 30, 29, 28, 27, 26, 25, 24, 23],
    );
}

/// The predator sprite heading north-west is the north-east one flipped left to right.
pub proof fn lemma_predator_north_west_mirrors_north_east()
    ensures
        PREDATOR_NORTH_WEST@.to_set() == mirrored_columns_seq(PREDATOR_NORTH_EAST@, 5).to_set(),
{
    reveal_with_fuel(matched_from, 33);
    lemma_same_entries(
        PREDATOR_NORTH_WEST@,
        mirrored_columns_seq(PREDATOR_NORTH_EAST@, 5),
        seq![1, 0, 4, 3, 2, 7, 6, 5, 10, 9, 8, 12, 11, 13],
        seq![1, 0, 4, 3, 2, 7, 6, 5, 10, 9, 8, 12, 11, 13],
    );
}

/// The predator sprite heading south-east is the north-east one flipped top to bottom.
pub proof fn lemma_predator_south_east_mirrors_north_east()
    ensures
        PREDATOR_SOUTH_EAST@.to_set() == mirrored_rows_seq(PREDATOR_NORTH_EAST@, 5).to_set(),
{
    reveal_with_fuel(matched_from, 33);
    lemma_same_entries(
        PREDATOR_SOUTH_EAST@,
        mirrored_rows_seq(PREDATOR_NORTH_EAST@, 5),
        seq![13, 11, 12, 8, 9, 10, 5, 6, 7, 2, 3, 4, 0, 1],
        seq![12, 13, 9, 10, 11, 6, 7, 8, 3, 4, 5, 1, 2, 0],
    );
}

/// The predator sprite heading south-west is the north-west one flipped top to bottom.
pub proof fn lemma_predator_south_west_mirrors_north_west()
    ensures
        PREDATOR_SOUTH_WEST@.to_set() == mirrored_rows_seq(PREDATOR_NORTH_WEST@, 5).to_set(),
{
    reveal_with_fuel(matched_from, 33);
    lemma_same_entries(
        PREDATOR_SOUTH_WEST@,
        mirrored_rows_seq(PREDATOR_NORTH_WEST@, 5),
        seq![13, 11, 12, 8, 9, 10, 5, 6, 7, 2, 3, 4, 0, 1],
        seq![12, 13, 9, 10, 11, 6, 7, 8, 3, 4, 5, 1, 2, 0],
    );
}

/// The predator sprite heading south is the north one flipped top to bottom.
pub proof fn lemma_predator_south_mirrors_north()
    ensures
        PREDATOR_SOUTH@.to_set() == mirrored_rows_seq(PREDATOR_NORTH@, 4).to_set(),
{
    reveal_with_fuel(matched_from, 33);
    lemma_same_entries(
        PREDATOR_SOUTH@,
        mirrored_rows_seq(PREDATOR_NORTH@, 4),
        seq![12, 13, 14, 9, 10, 11, 4, 5, 6, 7, 8, 1, 2, 3, 0],
        seq![14, 11, 12, 13, 6, 7, 8, 9, 10, 3, 4, 5, 0, 1, 2],
    );
}

/// Whether every entry of `table` from position `from` on lies within
/// columns `0..=last_column` and rows `0..=last_row`.
pub open spec fn within_from(table: Seq<SpriteEntry>, last_column: usize, last_row: usize, from: int) -> bool
    decreases table.len() - from,
{
    if from < 0 || from >= table.len() {
        true
    } else {
        table[from].0 <= last_column && table[from].1 <= last_row && within_from(
            table,
            last_column,
            last_row,
            from + 1,
        )
    }
}

proof fn lemma_within_from(table: Seq<SpriteEntry>, last_column: usize, last_row: usize, from: int)
    requires
        0 <= from,
        within_from(table, last_column, last_row, from),
    ensures
        forall|i: int| from <= i < table.len() ==> #[trigger] table[i].0 <= last_column && table[i].1 <= last_row,
    decreases table.len() - from,
{
    if from < table.len() {
        lemma_within_from(table, last_column, last_row, from + 1);
    }
}

/// The predator sprite has more cells than the prey sprite for every
/// heading, and for the north-east heading it is both wider and taller: the
/// prey fits in three columns and three rows, while the predator reaches a
/// sixth column and a sixth row.
pub proof fn lemma_predator_sprite_larger(direction: BoidDirection)
    ensures
        predator_sprite_table(direction).len() > prey_sprite_table(direction).len(),
        forall|i: int| 0 <= i < PREY_NORTH_EAST@.len() ==> #[trigger] PREY_NORTH_EAST@[i].0 <= 2
            && PREY_NORTH_EAST@[i].1 <= 2,
        PREDATOR_NORTH_EAST@[1].0 == 5,
        PREDATOR_NORTH_EAST@[13].1 == 5,
{
    reveal_with_fuel(within_from, 8);
    lemma_within_from(PREY_NORTH_EAST@, 2, 2, 0);
}


/// Whether no glyph of `table` from position `from` on is an escape
/// character.
pub open spec fn glyphs_visible_from(table: Seq<SpriteEntry>, from: int) -> bool
    decreases table.len() - from,
{
    if from < 0 || from >= table.len() {
        true
    } else {
        table[from].3 != ESC && glyphs_visible_from(table, from + 1)
    }
}

proof fn lemma_glyphs_visible_from(table: Seq<SpriteEntry>, from: int)
    requires
        0 <= from,
        glyphs_visible_from(table, from),
    ensures
        forall|i: int| from <= i < table.len() ==> (#[trigger] table[i]).3 != ESC,
    decreases table.len() - from,
{
    if from < table.len() {
        lemma_glyphs_visible_from(table, from + 1);
    }
}

/// No sprite draws an escape character: every glyph of every prey and
/// predator sprite is a block or quadrant character.
pub proof fn lemma_sprite_glyphs_visible(direction: BoidDirection)
    ensures
        forall|i: int| 0 <= i < prey_sprite_table(direction).len() ==> (#[trigger] prey_sprite_table(direction)[i]).3 != ESC,
        forall|i: int|
            0 <= i < predator_sprite_table(direction).len() ==> (#[trigger] predator_sprite_table(direction)[i]).3
                != ESC,
{
    reveal_with_fuel(glyphs_visible_from, 33);
    lemma_glyphs_visible_from(prey_sprite_table(direction), 0);
    lemma_glyphs_visible_from(predator_sprite_table(direction), 0);
}

} // verus!
