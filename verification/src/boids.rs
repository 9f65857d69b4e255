//! Boids styles: the two flocking variants, the roles and colors of their
//! creatures, the deterministic seeding arithmetic, and sprite painting.

use crate::boid_sprites::{
    entry_cell, lemma_sprite_glyphs_visible, predator_sprite_cells, predator_sprite_table,
    prey_sprite_cells, prey_sprite_table, sprite_cells_spec, tone_index, tone_of_index, BoidDirection,
    BoidSpriteCell, BoidSpriteTone,
};
use crate::frame::{
    frame_row, lemma_rendered_line_width, rendered_line, ScreenAnimationContext, ScreenCell, ScreenFrame,
};
use crate::terminal_control::{lemma_styled_glyph_width, styled, styled_glyph};
use crate::text::{str_equals, visible_width, ESC};
use vstd::arithmetic::div_mod::{lemma_add_mod_noop, lemma_mod_twice};
use vstd::prelude::*;

verus! {

/// The two boids styles: a flock hunted by a predator, or schools of three
/// species.
#[derive(Debug, Clone, Copy, PartialEq, Eq, Structural)]
pub enum BoidsVariant {
    Predator,
    Schools,
}

/// The variant that a style name selects: `boids` and `boids_predator` pick
/// the predator variant, `boids_schools` the schools variant.
pub open spec fn boids_variant_of_style(style: Seq<char>) -> Option<BoidsVariant> {
    if style == "boids"@ || style == "boids_predator"@ {
        Some(BoidsVariant::Predator)
    } else if style == "boids_schools"@ {
        Some(BoidsVariant::Schools)
    } else {
        None
    }
}

/// The canonical style name of a variant.
pub open spec fn canonical_boids_style(variant: BoidsVariant) -> Seq<char> {
    match variant {
        BoidsVariant::Predator => "boids_predator"@,
        BoidsVariant::Schools => "boids_schools"@,
    }
}

impl BoidsVariant {
    /// The variant that a style name selects, if any.
    pub fn from_style_name(style: &str) -> (variant: Option<Self>)
        ensures
            variant == boids_variant_of_style(style@),
    {
        if str_equals(style, "boids") || str_equals(style, "boids_predator") {
            Some(BoidsVariant::Predator)
        } else if str_equals(style, "boids_schools") {
            Some(BoidsVariant::Schools)
        } else {
            None
        }
    }

    /// The canonical style name of this variant.
    pub fn canonical_style_name(self) -> (name: &'static str)
        ensures
            name@ == canonical_boids_style(self),
    {
        match self {
            BoidsVariant::Predator => "boids_predator",
            BoidsVariant::Schools => "boids_schools",
        }
    }
}

/// Whether a style name selects a boids variant.
pub fn is_boids_style(style: &str) -> (is_boids: bool)
    ensures
        is_boids == (boids_variant_of_style(style@) is Some),
{
    BoidsVariant::from_style_name(style).is_some()
}

/// A variant's canonical name selects that variant again.
pub proof fn lemma_canonical_style_name_round_trip(variant: BoidsVariant)
    ensures
        boids_variant_of_style(canonical_boids_style(variant)) == Some(variant),
{
    reveal_strlit("boids");
    reveal_strlit("boids_predator");
    reveal_strlit("boids_schools");
    assert("boids"@.len() == 5);
    assert("boids_predator"@.len() == 14);
    assert("boids_schools"@.len() == 13);
    assert("boids_predator"@ != "boids_schools"@) by {
        assert("boids_predator"@[6] != "boids_schools"@[6]);
    }
}

// ---------------------------------------------------------------------------
// roles, species and colors
// ---------------------------------------------------------------------------

/// What a creature is: part of the flock, or the predator that hunts it.
#[derive(Debug, Clone, Copy, PartialEq, Eq, Structural)]
pub enum BoidRole {
    Flock,
    Predator,
}

/// The role of creature `index`: in the predator variant the first creature
/// is the predator; every other creature belongs to the flock.
pub fn boid_role(variant: BoidsVariant, index: usize) -> (role: BoidRole)
    ensures
        role == (if variant == BoidsVariant::Predator && index == 0 {
            BoidRole::Predator
        } else {
            BoidRole::Flock
        }),
{
    if variant == BoidsVariant::Predator && index == 0 {
        BoidRole::Predator
    } else {
        BoidRole::Flock
    }
}

/// The species of creature `index`: schools cycle through three species;
/// the predator variant has one.
pub fn boid_species(variant: BoidsVariant, index: usize) -> (species: usize)
    ensures
        species == (match variant {
            BoidsVariant::Schools => index % 3,
            BoidsVariant::Predator => 0,
        }),
{
    match variant {
        BoidsVariant::Schools => index % 3,
        BoidsVariant::Predator => 0,
    }
}

/// The palette column of a creature: 0 for a predator, 1 for the predator
/// variant's flock, and 2 plus the species for schools.
pub open spec fn boid_color_spec(role: BoidRole, species: usize, variant: BoidsVariant) -> usize {
    match role {
        BoidRole::Predator => 0,
        BoidRole::Flock => match variant {
            BoidsVariant::Predator => 1,
            BoidsVariant::Schools => (2 + species % 3) as usize,
        },
    }
}

/// The palette column of a creature.
pub fn boid_color_index(role: BoidRole, species: usize, variant: BoidsVariant) -> (color: usize)
    ensures
        color == boid_color_spec(role, species, variant),
{
    match (variant, role) {
        (BoidsVariant::Predator, BoidRole::Predator) => 0,
        (BoidsVariant::Predator, BoidRole::Flock) => 1,
        (_, BoidRole::Predator) => 0,
        (BoidsVariant::Schools, BoidRole::Flock) => 2 + species % 3,
    }
}

/// Predators and prey never share a palette column, and in schools
/// creatures of different species never do.
pub proof fn lemma_boid_colors_distinguish(variant: BoidsVariant, species: usize, other_species: usize)
    ensures
        boid_color_spec(BoidRole::Predator, species, variant) != boid_color_spec(
            BoidRole::Flock,
            other_species,
            variant,
        ),
        species % 3 != other_species % 3 ==> boid_color_spec(
            BoidRole::Flock,
            species,
            BoidsVariant::Schools,
        ) != boid_color_spec(BoidRole::Flock, other_species, BoidsVariant::Schools),
{
}

/// The sprite of a creature with the given role and heading.
pub fn boid_sprite_cells(role: BoidRole, direction: BoidDirection) -> (cells: Vec<BoidSpriteCell>)
    ensures
        cells@ == sprite_cells_spec(
            match role {
                BoidRole::Flock => prey_sprite_table(direction),
                BoidRole::Predator => predator_sprite_table(direction),
            },
        ),
{
    match role {
        BoidRole::Flock => prey_sprite_cells(direction),
        BoidRole::Predator => predator_sprite_cells(direction),
    }
}

/// Body palette: red, cyan, blue, magenta, green, yellow.
pub const BOID_BODY_COLORS: [u8; 6] = [9, 14, 12, 13, 10, 11];

/// Tail palette: the dark shades of the body palette.
pub const BOID_TAIL_COLORS: [u8; 6] = [1, 6, 4, 5, 2, 3];

/// Head palette: yellow, white, cyan, white, yellow, white.
pub const BOID_HEAD_COLORS: [u8; 6] = [11, 15, 14, 15, 11, 15];

/// Fins are dark blue for every creature.
pub const BOID_FIN_COLOR: u8 = 4;

/// The palette entry of a sprite cell: its tone picks the palette and the
/// creature's palette column (modulo six) the entry.
pub open spec fn boid_cell_color(index: usize, tone_index: usize) -> u8 {
    let column = (index % 6) as int;
    match tone_of_index(tone_index) {
        BoidSpriteTone::Tail => BOID_TAIL_COLORS@[column],
        BoidSpriteTone::Body => BOID_BODY_COLORS@[column],
        BoidSpriteTone::Fin => BOID_FIN_COLOR,
        BoidSpriteTone::Head => BOID_HEAD_COLORS@[column],
    }
}

/// A sprite cell's glyph in its creature's color.
pub fn colorize_boid_cell(index: usize, tone_index: usize, glyph: char) -> (out: String)
    ensures
        out@ == styled_glyph(glyph, boid_cell_color(index, tone_index)),
{
    let column = index % 6;
    let color = match BoidSpriteTone::from_index(tone_index) {
        BoidSpriteTone::Tail => BOID_TAIL_COLORS[column],
        BoidSpriteTone::Body => BOID_BODY_COLORS[column],
        BoidSpriteTone::Fin => BOID_FIN_COLOR,
        BoidSpriteTone::Head => BOID_HEAD_COLORS[column],
    };
    styled(glyph, color)
}

// ---------------------------------------------------------------------------
// grid and seeding
// ---------------------------------------------------------------------------

/// The boids grid is half as many columns as the drawing width (each grid
/// column is two terminal columns), at least one.
pub fn boids_grid_width(inner_width: usize) -> (width: usize)
    ensures
        width == if inner_width / 2 > 1 { inner_width / 2 } else { 1 },
{
    let half = inner_width / 2;
    if half > 1 { half } else { 1 }
}

/// The boids grid is as many rows as the screen, at least one.
pub fn boids_grid_height(resolved_height: usize) -> (height: usize)
    ensures
        height == if resolved_height > 1 { resolved_height } else { 1 },
{
    if resolved_height > 1 { resolved_height } else { 1 }
}

/// The number of creatures: one per 90 grid cells, between 8 and 32.
pub open spec fn boids_count_spec(grid_width: nat, grid_height: nat) -> nat {
    let area = if grid_width * grid_height > usize::MAX { usize::MAX as nat } else { grid_width * grid_height };
    let count = area / 90;
    if count < 8 {
        8
    } else if count > 32 {
        32
    } else {
        count
    }
}

/// The number of creatures for a grid.
pub fn boids_count(grid_width: usize, grid_height: usize) -> (count: usize)
    ensures
        count == boids_count_spec(grid_width as nat, grid_height as nat),
        8 <= count <= 32,
{
    let area = match grid_width.checked_mul(grid_height) {
        Some(area) => area,
        None => usize::MAX,
    };
    let count = area / 90;
    if count < 8 {
        8
    } else if count > 32 {
        32
    } else {
        count
    }
}

/// The modulus of `u64` arithmetic.
pub open spec fn u64_modulus() -> nat {
    0x1_0000_0000_0000_0000
}

/// The seed of a grid: width times 1103515245 plus height times 12345 plus
/// 0x5EED, modulo 2^64.
pub open spec fn boids_seed_spec(grid_width: nat, grid_height: nat) -> nat {
    (grid_width * 1_103_515_245 + grid_height * 12_345 + 0x5EED) % u64_modulus()
}

/// The seed of a grid, so the same grid always starts the same flock.
pub fn boids_initial_seed(grid_width: usize, grid_height: usize) -> (seed: u64)
    ensures
        seed == boids_seed_spec(grid_width as nat, grid_height as nat),
{
    let w = grid_width as u64;
    let h = grid_height as u64;
    let a = w.wrapping_mul(1_103_515_245);
    let b = h.wrapping_mul(12_345);
    let seed = a.wrapping_add(b).wrapping_add(0x5EED);
    proof {
        let m = u64_modulus() as int;
        let x = w as int * 1_103_515_245;
        let y = h as int * 12_345;
        assert(a as int == x % m);
        assert(b as int == y % m);
        lemma_add_mod_noop(x, y, m);
        let ab = a.wrapping_add(b);
        assert(ab as int == (a as int + b as int) % m);
        lemma_add_mod_noop(x + y, 0x5EED, m);
        lemma_mod_twice(x + y, m);
        assert(0x5EEDint % m == 0x5EED);
        assert(seed as int == (ab as int + 0x5EED) % m);
    }
    seed
}

/// One step of the seed generator: multiply by 6364136223846793005 and add
/// one, modulo 2^64.
pub open spec fn next_seed_spec(seed: nat) -> nat {
    (seed * 6_364_136_223_846_793_005 + 1) % u64_modulus()
}

/// Advances the seed generator by one step.
pub fn next_boids_seed(seed: u64) -> (next: u64)
    ensures
        next == next_seed_spec(seed as nat),
{
    let product = seed.wrapping_mul(6_364_136_223_846_793_005);
    let next = product.wrapping_add(1);
    proof {
        let m = u64_modulus() as int;
        let x = seed as int * 6_364_136_223_846_793_005;
        assert(product as int == x % m);
        lemma_add_mod_noop(x, 1, m);
        assert(1int % m == 1);
        assert(next as int == (product as int + 1) % m);
    }
    next
}

/// The 31 high bits of a seed that give a uniform value in `[0, 1)` once
/// divided by 2^31.
pub fn seed_unit_bits(seed: u64) -> (bits: u64)
    ensures
        bits == seed / 0x2_0000_0000,
        bits < 0x8000_0000,
{
    let bits = seed >> 33;
    assert(seed >> 33 == seed / 0x2_0000_0000) by (bit_vector);
    bits
}

// ---------------------------------------------------------------------------
// painting
// ---------------------------------------------------------------------------

/// The cells that painting `sprite` at grid position `(x, y)` sets: each
/// sprite cell lands at terminal column `2x + dx`, row `y + dy`.
pub open spec fn painted_cell(sprite_cell: BoidSpriteCell, color_x: usize) -> ScreenCell {
    ScreenCell { glyph: sprite_cell.glyph, color_x, color_y: tone_index(sprite_cell.tone) }
}

/// The frame cells after painting sprite cells `0..count` at origin
/// `(origin_x, y)`, in order; cells outside the frame are skipped.
pub open spec fn painted(
    cells: Seq<Option<ScreenCell>>,
    width: nat,
    height: nat,
    origin_x: nat,
    y: nat,
    sprite: Seq<BoidSpriteCell>,
    color_x: usize,
    count: nat,
) -> Seq<Option<ScreenCell>>
    decreases count,
{
    if count == 0 {
        cells
    } else {
        let before = painted(cells, width, height, origin_x, y, sprite, color_x, (count - 1) as nat);
        let cell = sprite[count - 1];
        let cx = origin_x + cell.dx;
        let cy = y + cell.dy;
        if cx < width && cy < height {
            before.update(cy * width + cx, Some(painted_cell(cell, color_x)))
        } else {
            before
        }
    }
}

/// Paints `sprite` with its origin at grid position `(x, y)` (terminal
/// column `2x`), in palette column `color_x`. `requires` leaves out
/// positions whose terminal coordinates overflow.
pub fn paint_boid_sprite(
    frame: &mut ScreenFrame,
    x: usize,
    y: usize,
    sprite: &Vec<BoidSpriteCell>,
    color_x: usize,
)
    requires
        old(frame).well_formed(),
        x * 2 <= usize::MAX,
        forall|i: int|
            0 <= i < sprite@.len() ==> x * 2 + (#[trigger] sprite@[i]).dx <= usize::MAX && y
                + sprite@[i].dy <= usize::MAX,
    ensures
        final(frame).well_formed(),
        final(frame)@.width == old(frame)@.width,
        final(frame)@.height == old(frame)@.height,
        final(frame)@.cells == painted(
            old(frame)@.cells,
            old(frame)@.width,
            old(frame)@.height,
            (x * 2) as nat,
            y as nat,
            sprite@,
            color_x,
            sprite@.len(),
        ),
{
    let ghost start = frame@;
    let origin_x = x * 2;
    let mut i: usize = 0;
    while i < sprite.len()
        invariant
            i <= sprite@.len(),
            origin_x == x * 2,
            frame.well_formed(),
            frame@.width == start.width,
            frame@.height == start.height,
            frame@.cells == painted(
                start.cells,
                start.width,
                start.height,
                origin_x as nat,
                y as nat,
                sprite@,
                color_x,
                i as nat,
            ),
            forall|k: int|
                0 <= k < sprite@.len() ==> x * 2 + (#[trigger] sprite@[k]).dx <= usize::MAX && y
                    + sprite@[k].dy <= usize::MAX,
        decreases sprite@.len() - i,
    {
        let cell = sprite[i];
        assert(sprite@[i as int] == cell);
        frame.set(
            origin_x + cell.dx,
            y + cell.dy,
            ScreenCell { glyph: cell.glyph, color_x, color_y: cell.tone.as_index() },
        );
        i = i + 1;
    }
}


// ---------------------------------------------------------------------------
// frames
// ---------------------------------------------------------------------------

/// Where a creature is drawn: its grid cell, role, heading and species.
#[derive(Debug, Clone, Copy, PartialEq, Eq)]
pub struct BoidPlacement {
    pub x: usize,
    pub y: usize,
    pub role: BoidRole,
    pub direction: BoidDirection,
    pub species: usize,
}

/// The sprite of a role and heading.
pub open spec fn boid_sprite_spec(role: BoidRole, direction: BoidDirection) -> Seq<BoidSpriteCell> {
    sprite_cells_spec(
        match role {
            BoidRole::Flock => prey_sprite_table(direction),
            BoidRole::Predator => predator_sprite_table(direction),
        },
    )
}

/// Whether a placement's sprite can be painted without its terminal
/// coordinates overflowing.
pub open spec fn placement_fits(p: BoidPlacement) -> bool {
    let sprite = boid_sprite_spec(p.role, p.direction);
    &&& p.x * 2 <= usize::MAX
    &&& forall|i: int|
        0 <= i < sprite.len() ==> p.x * 2 + (#[trigger] sprite[i]).dx <= usize::MAX && p.y + sprite[i].dy
            <= usize::MAX
}

/// The cells after painting, in order, the sprites of the first `count`
/// placements whose role is `role`.
pub open spec fn painted_pass(
    cells: Seq<Option<ScreenCell>>,
    width: nat,
    height: nat,
    placements: Seq<BoidPlacement>,
    role: BoidRole,
    variant: BoidsVariant,
    count: nat,
) -> Seq<Option<ScreenCell>>
    decreases count,
{
    if count == 0 {
        cells
    } else {
        let before = painted_pass(cells, width, height, placements, role, variant, (count - 1) as nat);
        let p = placements[count - 1];
        if p.role == role {
            let sprite = boid_sprite_spec(p.role, p.direction);
            painted(
                before,
                width,
                height,
                (p.x * 2) as nat,
                p.y as nat,
                sprite,
                boid_color_spec(p.role, p.species, variant),
                sprite.len(),
            )
        } else {
            before
        }
    }
}

/// The cells of a boids frame: on an empty grid, the flock is painted
/// first and the predators over it, each in placement order.
pub open spec fn boids_frame_cells(
    width: nat,
    height: nat,
    placements: Seq<BoidPlacement>,
    variant: BoidsVariant,
) -> Seq<Option<ScreenCell>> {
    let empty = Seq::new(width * height, |_i: int| None::<ScreenCell>);
    let flock = painted_pass(empty, width, height, placements, BoidRole::Flock, variant, placements.len());
    painted_pass(flock, width, height, placements, BoidRole::Predator, variant, placements.len())
}

/// A boids cell's glyph in its creature's color.
pub fn render_boid_cell(cell: ScreenCell) -> (out: String)
    ensures
        out@ == styled_glyph(cell.glyph, boid_cell_color(cell.color_x, cell.color_y)),
{
    colorize_boid_cell(cell.color_x, cell.color_y, cell.glyph)
}

fn paint_pass(frame: &mut ScreenFrame, variant: BoidsVariant, placements: &Vec<BoidPlacement>, role: BoidRole)
    requires
        old(frame).well_formed(),
        forall|i: int| 0 <= i < placements@.len() ==> placement_fits(#[trigger] placements@[i]),
    ensures
        final(frame).well_formed(),
        final(frame)@.width == old(frame)@.width,
        final(frame)@.height == old(frame)@.height,
        final(frame)@.cells == painted_pass(
            old(frame)@.cells,
            old(frame)@.width,
            old(frame)@.height,
            placements@,
            role,
            variant,
            placements@.len(),
        ),
{
    let ghost start = frame@;
    let mut i: usize = 0;
    while i < placements.len()
        invariant
            i <= placements@.len(),
            frame.well_formed(),
            frame@.width == start.width,
            frame@.height == start.height,
            frame@.cells == painted_pass(start.cells, start.width, start.height, placements@, role, variant, i as nat),
            forall|k: int| 0 <= k < placements@.len() ==> placement_fits(#[trigger] placements@[k]),
        decreases placements@.len() - i,
    {
        let p = placements[i];
        assert(placements@[i as int] == p);
        assert(placement_fits(p));
        if p.role == role {
            let sprite = boid_sprite_cells(p.role, p.direction);
            let color = boid_color_index(p.role, p.species, variant);
            paint_boid_sprite(frame, p.x, p.y, &sprite, color);
        }
        i = i + 1;
    }
}

/// The lines of a boids frame: creatures drawn on a grid as wide as the
/// drawing width and as tall as the screen (at least one row), the flock
/// first and the predators over it, every row rendered in color and
/// centered in the resolved width. `requires` leaves out grids whose cell
/// count overflows and placements whose coordinates overflow.
pub fn render_boids_frame(context: ScreenAnimationContext, variant: BoidsVariant, placements: &Vec<BoidPlacement>) -> (lines:
    Vec<String>)
    requires
        context.inner_width * (if context.resolved_height > 1 { context.resolved_height as nat } else { 1 })
            <= usize::MAX,
        forall|i: int| 0 <= i < placements@.len() ==> placement_fits(#[trigger] placements@[i]),
    ensures
        ({
            let width = context.inner_width as nat;
            let height = if context.resolved_height > 1 { context.resolved_height as nat } else { 1 };
            let cells = boids_frame_cells(width, height, placements@, variant);
            &&& lines@.len() == height
            &&& forall|y: int|
                0 <= y < height ==> rendered_line(
                    cells.subrange(y * width, y * width + width),
                    #[trigger] lines@[y]@,
                    context.resolved_width as nat,
                    render_boid_cell,
                )
        }),
{
    let grid_height = boids_grid_height(context.resolved_height);
    let mut frame = ScreenFrame::new(context.inner_width, grid_height);
    paint_pass(&mut frame, variant, placements, BoidRole::Flock);
    paint_pass(&mut frame, variant, placements, BoidRole::Predator);
    let ghost width = context.inner_width as nat;
    let ghost height = grid_height as nat;
    assert(frame@.cells == boids_frame_cells(width, height, placements@, variant));
    let lines = frame.render_lines(context.resolved_width, render_boid_cell);
    assert forall|y: int| 0 <= y < height implies rendered_line(
        boids_frame_cells(width, height, placements@, variant).subrange(y * width, y * width + width),
        #[trigger] lines@[y]@,
        context.resolved_width as nat,
        render_boid_cell,
    ) by {
        assert(y * width + width <= width * height) by (nonlinear_arith)
            requires
                0 <= y < height,
        ;
        assert(frame_row(frame@, y as nat) == frame@.cells.subrange(y * width, y * width + width));
    }
    lines
}


/// Whether sprite cell `c` of a sprite with its origin at terminal column
/// `ox`, row `y` lands on cell `index` of a `width` x `height` frame.
pub open spec fn lands_on(width: nat, height: nat, ox: nat, y: nat, c: BoidSpriteCell, index: int) -> bool {
    &&& ox + c.dx < width
    &&& y + c.dy < height
    &&& index == (y + c.dy) * width + (ox + c.dx)
}

/// Whether the sprite of placement `p` lands on cell `index`.
pub open spec fn placement_covers(width: nat, height: nat, p: BoidPlacement, index: int) -> bool {
    let sprite = boid_sprite_spec(p.role, p.direction);
    exists|k: int|
        0 <= k < sprite.len() && #[trigger] lands_on(width, height, (p.x * 2) as nat, p.y as nat, sprite[k], index)
}

/// Whether one of the first `count` cells of `sprite`, with its origin at
/// `(ox, y)`, lands on cell `index`.
pub open spec fn sprite_lands(
    width: nat,
    height: nat,
    ox: nat,
    y: nat,
    sprite: Seq<BoidSpriteCell>,
    count: nat,
    index: int,
) -> bool {
    exists|k: int| 0 <= k < count && #[trigger] lands_on(width, height, ox, y, sprite[k], index)
}

proof fn lemma_painted_cells(
    cells: Seq<Option<ScreenCell>>,
    width: nat,
    height: nat,
    ox: nat,
    y: nat,
    sprite: Seq<BoidSpriteCell>,
    color_x: usize,
    count: nat,
)
    requires
        cells.len() == width * height,
        count <= sprite.len(),
    ensures
        painted(cells, width, height, ox, y, sprite, color_x, count).len() == cells.len(),
        forall|index: int|
            0 <= index < cells.len() && #[trigger] sprite_lands(width, height, ox, y, sprite, count, index) ==> (
            painted(cells, width, height, ox, y, sprite, color_x, count)[index] matches Some(c) && c.color_x
                == color_x),
        forall|index: int|
            0 <= index < cells.len() && !#[trigger] sprite_lands(width, height, ox, y, sprite, count, index)
                ==> painted(cells, width, height, ox, y, sprite, color_x, count)[index] == cells[index],
    decreases count,
{
    if count > 0 {
        let n = (count - 1) as nat;
        lemma_painted_cells(cells, width, height, ox, y, sprite, color_x, n);
        let before = painted(cells, width, height, ox, y, sprite, color_x, n);
        let after = painted(cells, width, height, ox, y, sprite, color_x, count);
        let c = sprite[n as int];
        let cx = ox + c.dx;
        let cy = y + c.dy;
        if cx < width && cy < height {
            assert(cy * width + cx < width * height) by (nonlinear_arith)
                requires
                    cx < width,
                    cy < height,
            ;
            assert(after == before.update(cy * width + cx, Some(painted_cell(c, color_x))));
        } else {
            assert(after == before);
        }
        assert forall|index: int|
            0 <= index < cells.len() && #[trigger] sprite_lands(width, height, ox, y, sprite, count, index)
                implies (after[index] matches Some(pc) && pc.color_x == color_x) by {
            if !lands_on(width, height, ox, y, c, index) {
                let k = choose|k: int| 0 <= k < count && #[trigger] lands_on(width, height, ox, y, sprite[k], index);
                assert(k != n);
                assert(sprite_lands(width, height, ox, y, sprite, n, index));
            }
        }
        assert forall|index: int|
            0 <= index < cells.len() && !#[trigger] sprite_lands(width, height, ox, y, sprite, count, index)
                implies after[index] == cells[index] by {
            assert(!lands_on(width, height, ox, y, sprite[n as int], index));
            if sprite_lands(width, height, ox, y, sprite, n, index) {
                let k = choose|k: int| 0 <= k < n && #[trigger] lands_on(width, height, ox, y, sprite[k], index);
                assert(lands_on(width, height, ox, y, sprite[k], index));
            }
        }
    }
}

/// Whether a predator among the first `count` placements lands on cell
/// `index`.
pub open spec fn covered_by_predator(width: nat, height: nat, placements: Seq<BoidPlacement>, count: nat, index: int) -> bool {
    exists|j: int|
        0 <= j < count && placements[j].role == BoidRole::Predator && #[trigger] placement_covers(
            width,
            height,
            placements[j],
            index,
        )
}

proof fn lemma_predator_pass(
    cells: Seq<Option<ScreenCell>>,
    width: nat,
    height: nat,
    placements: Seq<BoidPlacement>,
    variant: BoidsVariant,
    count: nat,
)
    requires
        cells.len() == width * height,
        count <= placements.len(),
    ensures
        painted_pass(cells, width, height, placements, BoidRole::Predator, variant, count).len() == cells.len(),
        forall|index: int|
            0 <= index < cells.len() && #[trigger] covered_by_predator(width, height, placements, count, index)
                ==> (painted_pass(cells, width, height, placements, BoidRole::Predator, variant, count)[index] matches Some(
                c,
            ) && c.color_x == 0),
    decreases count,
{
    if count > 0 {
        let n = (count - 1) as nat;
        lemma_predator_pass(cells, width, height, placements, variant, n);
        let before = painted_pass(cells, width, height, placements, BoidRole::Predator, variant, n);
        let after = painted_pass(cells, width, height, placements, BoidRole::Predator, variant, count);
        let p = placements[n as int];
        let sprite = boid_sprite_spec(p.role, p.direction);
        let ox = (p.x * 2) as nat;
        if p.role == BoidRole::Predator {
            lemma_painted_cells(before, width, height, ox, p.y as nat, sprite, 0, sprite.len());
            assert(boid_color_spec(p.role, p.species, variant) == 0);
        }
        assert forall|index: int|
            0 <= index < cells.len() && #[trigger] covered_by_predator(width, height, placements, count, index)
                implies (after[index] matches Some(c) && c.color_x == 0) by {
            let j = choose|j: int|
                0 <= j < count && placements[j].role == BoidRole::Predator && #[trigger] placement_covers(
                    width,
                    height,
                    placements[j],
                    index,
                );
            if p.role == BoidRole::Predator && placement_covers(width, height, p, index) {
                let k = choose|k: int|
                    0 <= k < sprite.len() && #[trigger] lands_on(width, height, ox, p.y as nat, sprite[k], index);
                assert(sprite_lands(width, height, ox, p.y as nat, sprite, sprite.len(), index));
            } else {
                assert(j != n);
                assert(covered_by_predator(width, height, placements, n, index));
                if p.role == BoidRole::Predator {
                    if sprite_lands(width, height, ox, p.y as nat, sprite, sprite.len(), index) {
                        let k = choose|k: int|
                            0 <= k < sprite.len() && #[trigger] lands_on(width, height, ox, p.y as nat, sprite[k], index);
                        assert(placement_covers(width, height, p, index));
                    }
                }
            }
        }
    }
}

/// Predators are drawn over the flock: every frame cell that a predator's
/// sprite lands on shows a predator's cell (palette column 0), whatever the
/// flock around it.
pub proof fn lemma_predators_drawn_on_top(
    width: nat,
    height: nat,
    placements: Seq<BoidPlacement>,
    variant: BoidsVariant,
    index: int,
)
    requires
        0 <= index < width * height,
        covered_by_predator(width, height, placements, placements.len(), index),
    ensures
        (boids_frame_cells(width, height, placements, variant)[index] matches Some(cell) && cell.color_x == 0),
{
    let empty = Seq::new(width * height, |_i: int| None::<ScreenCell>);
    lemma_pass_visible(empty, width, height, placements, BoidRole::Flock, variant, placements.len());
    let flock = painted_pass(empty, width, height, placements, BoidRole::Flock, variant, placements.len());
    lemma_predator_pass(flock, width, height, placements, variant, placements.len());
}


/// Whether no painted cell holds an escape character.
pub open spec fn glyphs_visible(cells: Seq<Option<ScreenCell>>) -> bool {
    forall|i: int| 0 <= i < cells.len() && (#[trigger] cells[i]) is Some ==> cells[i]->0.glyph != ESC
}

proof fn lemma_painted_visible(
    cells: Seq<Option<ScreenCell>>,
    width: nat,
    height: nat,
    ox: nat,
    y: nat,
    sprite: Seq<BoidSpriteCell>,
    color_x: usize,
    count: nat,
)
    requires
        cells.len() == width * height,
        count <= sprite.len(),
        glyphs_visible(cells),
        forall|k: int| 0 <= k < sprite.len() ==> (#[trigger] sprite[k]).glyph != ESC,
    ensures
        glyphs_visible(painted(cells, width, height, ox, y, sprite, color_x, count)),
    decreases count,
{
    if count > 0 {
        let n = (count - 1) as nat;
        lemma_painted_visible(cells, width, height, ox, y, sprite, color_x, n);
        lemma_painted_cells(cells, width, height, ox, y, sprite, color_x, n);
        let before = painted(cells, width, height, ox, y, sprite, color_x, n);
        let after = painted(cells, width, height, ox, y, sprite, color_x, count);
        let c = sprite[n as int];
        if ox + c.dx < width && y + c.dy < height {
            let index = (y + c.dy) * width + (ox + c.dx);
            assert(index < width * height) by (nonlinear_arith)
                requires
                    ox + c.dx < width,
                    y + c.dy < height,
                    index == (y + c.dy) * width + (ox + c.dx),
            ;
            assert forall|i: int| 0 <= i < after.len() && (#[trigger] after[i]) is Some implies after[i]->0.glyph
                != ESC by {
                if i != index {
                    assert(after[i] == before[i]);
                }
            }
        }
    }
}

proof fn lemma_pass_visible(
    cells: Seq<Option<ScreenCell>>,
    width: nat,
    height: nat,
    placements: Seq<BoidPlacement>,
    role: BoidRole,
    variant: BoidsVariant,
    count: nat,
)
    requires
        cells.len() == width * height,
        count <= placements.len(),
        glyphs_visible(cells),
    ensures
        painted_pass(cells, width, height, placements, role, variant, count).len() == cells.len(),
        glyphs_visible(painted_pass(cells, width, height, placements, role, variant, count)),
    decreases count,
{
    if count > 0 {
        let n = (count - 1) as nat;
        lemma_pass_visible(cells, width, height, placements, role, variant, n);
        let before = painted_pass(cells, width, height, placements, role, variant, n);
        let p = placements[n as int];
        if p.role == role {
            let sprite = boid_sprite_spec(p.role, p.direction);
            lemma_sprite_glyphs_visible(p.direction);
            assert forall|k: int| 0 <= k < sprite.len() implies (#[trigger] sprite[k]).glyph != ESC by {
                match p.role {
                    BoidRole::Flock => assert(sprite[k] == entry_cell(prey_sprite_table(p.direction)[k])),
                    BoidRole::Predator => assert(sprite[k] == entry_cell(predator_sprite_table(p.direction)[k])),
                }
            }
            let color = boid_color_spec(p.role, p.species, variant);
            lemma_painted_cells(before, width, height, (p.x * 2) as nat, p.y as nat, sprite, color, sprite.len());
            lemma_painted_visible(before, width, height, (p.x * 2) as nat, p.y as nat, sprite, color, sprite.len());
        }
    }
}

/// Every line of a rendered boids frame shows exactly the drawing width in
/// columns, or the resolved width when that is wider: sprite colors take no
/// room and no sprite glyph is an escape character.
pub proof fn lemma_boids_lines_keep_width(
    width: nat,
    height: nat,
    placements: Seq<BoidPlacement>,
    variant: BoidsVariant,
    y: int,
    line: Seq<char>,
    resolved_width: nat,
)
    requires
        0 <= y < height,
        rendered_line(
            boids_frame_cells(width, height, placements, variant).subrange(y * width, y * width + width),
            line,
            resolved_width,
            render_boid_cell,
        ),
    ensures
        visible_width(line) == if width >= resolved_width {
            width
        } else {
            resolved_width
        },
{
    let empty = Seq::new(width * height, |_i: int| None::<ScreenCell>);
    lemma_pass_visible(empty, width, height, placements, BoidRole::Flock, variant, placements.len());
    let flock = painted_pass(empty, width, height, placements, BoidRole::Flock, variant, placements.len());
    lemma_pass_visible(flock, width, height, placements, BoidRole::Predator, variant, placements.len());
    let cells = boids_frame_cells(width, height, placements, variant);
    assert(y * width + width <= width * height) by (nonlinear_arith)
        requires
            0 <= y < height,
    ;
    let row = cells.subrange(y * width, y * width + width);
    assert forall|i: int, text: String, rest: Seq<char>|
        0 <= i < row.len() && row[i] is Some && #[trigger] render_boid_cell.ensures((row[i]->0,), text)
            implies #[trigger] visible_width(text@ + rest) == 1 + visible_width(rest) by {
        assert(row[i] == cells[y * width + i]);
        let cell = row[i]->0;
        lemma_styled_glyph_width(cell.glyph, boid_cell_color(cell.color_x, cell.color_y), rest);
    }
    lemma_rendered_line_width(row, line, resolved_width, render_boid_cell);
}

} // verus!
