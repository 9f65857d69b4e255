use std::collections::BTreeSet;

use yazelix_screen::boid_sprites::{
    boid_direction_from_sector, BoidDirection, BoidSpriteCell, BoidSpriteTone, BOID_BLOCK,
    BOID_BOTTOM_LEFT, BOID_BOTTOM_RIGHT, BOID_LEFT_HALF, BOID_LOWER_HALF, BOID_RIGHT_HALF,
    BOID_TOP_LEFT, BOID_TOP_RIGHT, BOID_UPPER_HALF,
};
use yazelix_screen::boids::{
    boid_color_index, boid_role, boid_species, boid_sprite_cells, boids_count, boids_grid_height,
    boids_grid_width, boids_initial_seed, colorize_boid_cell, next_boids_seed, paint_boid_sprite,
    render_boid_cell, render_boids_frame, seed_unit_bits, BoidPlacement, BoidRole,
};
use yazelix_screen::{is_boids_style, BoidsVariant, ScreenAnimationContext, ScreenCell, ScreenFrame};

const TAIL: BoidSpriteTone = BoidSpriteTone::Tail;
const BODY: BoidSpriteTone = BoidSpriteTone::Body;
const FIN: BoidSpriteTone = BoidSpriteTone::Fin;
const HEAD: BoidSpriteTone = BoidSpriteTone::Head;

const DIRECTIONS: [BoidDirection; 8] = [
    BoidDirection::East,
    BoidDirection::SouthEast,
    BoidDirection::South,
    BoidDirection::SouthWest,
    BoidDirection::West,
    BoidDirection::NorthWest,
    BoidDirection::North,
    BoidDirection::NorthEast,
];

fn tone_char(tone: BoidSpriteTone) -> char {
    match tone {
        BoidSpriteTone::Tail => 't',
        BoidSpriteTone::Body => 'b',
        BoidSpriteTone::Fin => 'f',
        BoidSpriteTone::Head => 'h',
    }
}

fn sprite_extent(cells: &[BoidSpriteCell]) -> (usize, usize) {
    let width = cells.iter().map(|cell| cell.dx).max().unwrap_or(0) + 1;
    let height = cells.iter().map(|cell| cell.dy).max().unwrap_or(0) + 1;
    (width, height)
}

fn column_has_no_full_blocks(cells: &[BoidSpriteCell], column: usize) -> bool {
    cells
        .iter()
        .filter(|cell| cell.dx == column)
        .all(|cell| cell.glyph != BOID_BLOCK)
}

fn tone_glyphs_in_row(cells: &[BoidSpriteCell], row: usize, tone: BoidSpriteTone) -> Vec<(usize, char)> {
    let mut row_cells = cells
        .iter()
        .filter(|cell| cell.dy == row && cell.tone == tone)
        .map(|cell| (cell.dx, cell.glyph))
        .collect::<Vec<_>>();
    row_cells.sort_by_key(|(dx, _)| *dx);
    row_cells
}

fn assert_tone_rows_mirror(cells: &[BoidSpriteCell], tone: BoidSpriteTone) {
    let (_, height) = sprite_extent(cells);
    let top = tone_glyphs_in_row(cells, 0, tone)
        .into_iter()
        .map(|(dx, glyph)| (dx, mirror_glyph_row(glyph)))
        .collect::<Vec<_>>();
    let bottom = tone_glyphs_in_row(cells, height - 1, tone);
    assert_eq!(top, bottom);
}

fn sprite_signature_for_cells(cells: &[BoidSpriteCell]) -> Vec<String> {
    let (width, height) = sprite_extent(cells);
    let mut rows = vec![vec!['.'; width]; height];
    for cell in cells {
        rows[cell.dy][cell.dx] = tone_char(cell.tone);
    }
    rows.into_iter().map(|row| row.into_iter().collect()).collect()
}

fn glyph_signature_for_cells(cells: &[BoidSpriteCell]) -> Vec<String> {
    let (width, height) = sprite_extent(cells);
    let mut rows = vec![vec!['.'; width]; height];
    for cell in cells {
        rows[cell.dy][cell.dx] = cell.glyph;
    }
    rows.into_iter().map(|row| row.into_iter().collect()).collect()
}

fn mirror_columns(rows: &[String]) -> Vec<String> {
    rows.iter().map(|row| row.chars().rev().collect()).collect()
}

fn mirror_rows(rows: &[String]) -> Vec<String> {
    rows.iter().rev().cloned().collect()
}

fn mirror_glyph_column(glyph: char) -> char {
    match glyph {
        BOID_LEFT_HALF => BOID_RIGHT_HALF,
        BOID_RIGHT_HALF => BOID_LEFT_HALF,
        BOID_TOP_LEFT => BOID_TOP_RIGHT,
        BOID_TOP_RIGHT => BOID_TOP_LEFT,
        BOID_BOTTOM_LEFT => BOID_BOTTOM_RIGHT,
        BOID_BOTTOM_RIGHT => BOID_BOTTOM_LEFT,
        _ => glyph,
    }
}

fn mirror_glyph_row(glyph: char) -> char {
    match glyph {
        BOID_UPPER_HALF => BOID_LOWER_HALF,
        BOID_LOWER_HALF => BOID_UPPER_HALF,
        BOID_TOP_LEFT => BOID_BOTTOM_LEFT,
        BOID_TOP_RIGHT => BOID_BOTTOM_RIGHT,
        BOID_BOTTOM_LEFT => BOID_TOP_LEFT,
        BOID_BOTTOM_RIGHT => BOID_TOP_RIGHT,
        _ => glyph,
    }
}

fn mirror_glyph_columns(rows: &[String]) -> Vec<String> {
    rows.iter()
        .map(|row| row.chars().rev().map(mirror_glyph_column).collect::<String>())
        .collect()
}

fn mirror_glyph_rows(rows: &[String]) -> Vec<String> {
    rows.iter()
        .rev()
        .map(|row| row.chars().map(mirror_glyph_row).collect())
        .collect()
}

fn sprite_signature(role: BoidRole, direction: BoidDirection) -> Vec<String> {
    sprite_signature_for_cells(&boid_sprite_cells(role, direction))
}

fn glyph_signature(role: BoidRole, direction: BoidDirection) -> Vec<String> {
    glyph_signature_for_cells(&boid_sprite_cells(role, direction))
}

fn is_boid_block_glyph(glyph: char) -> bool {
    matches!(
        glyph,
        BOID_BLOCK
            | BOID_LEFT_HALF
            | BOID_RIGHT_HALF
            | BOID_UPPER_HALF
            | BOID_LOWER_HALF
            | BOID_TOP_LEFT
            | BOID_TOP_RIGHT
            | BOID_BOTTOM_LEFT
            | BOID_BOTTOM_RIGHT
    )
}

#[test]
fn boids_style_names_resolve_to_variants() {
    assert_eq!(BoidsVariant::from_style_name("boids"), Some(BoidsVariant::Predator));
    assert_eq!(
        BoidsVariant::from_style_name("boids_predator"),
        Some(BoidsVariant::Predator)
    );
    assert_eq!(
        BoidsVariant::from_style_name("boids_schools"),
        Some(BoidsVariant::Schools)
    );
    assert_eq!(BoidsVariant::from_style_name("boids_flow"), None);
    assert_eq!(BoidsVariant::from_style_name("game_of_life_bloom"), None);
}

#[test]
fn boids_variant_colors_follow_roles_and_species() {
    // A predator, the first school (species 0), the second school (species 1)
    // and another prey of species 3.
    assert_ne!(
        boid_color_index(BoidRole::Predator, 0, BoidsVariant::Predator),
        boid_color_index(BoidRole::Flock, 0, BoidsVariant::Predator)
    );
    assert_eq!(
        boid_color_index(BoidRole::Flock, 0, BoidsVariant::Predator),
        boid_color_index(BoidRole::Flock, 3, BoidsVariant::Predator)
    );
    assert_ne!(
        boid_color_index(BoidRole::Flock, 0, BoidsVariant::Schools),
        boid_color_index(BoidRole::Flock, 1, BoidsVariant::Schools)
    );
}

#[test]
fn boid_visual_identity_is_stable_and_directional() {
    let prey_signatures = DIRECTIONS
        .into_iter()
        .map(|direction| sprite_signature(BoidRole::Flock, direction).join("\n"))
        .collect::<BTreeSet<_>>();
    let predator_signatures = DIRECTIONS
        .into_iter()
        .map(|direction| sprite_signature(BoidRole::Predator, direction).join("\n"))
        .collect::<BTreeSet<_>>();

    assert_eq!(prey_signatures.len(), 8);
    assert_eq!(predator_signatures.len(), 8);

    let prey_east = sprite_signature(BoidRole::Flock, BoidDirection::East);
    let prey_west = sprite_signature(BoidRole::Flock, BoidDirection::West);
    let prey_north = sprite_signature(BoidRole::Flock, BoidDirection::North);
    let prey_south = sprite_signature(BoidRole::Flock, BoidDirection::South);
    let prey_north_east = sprite_signature(BoidRole::Flock, BoidDirection::NorthEast);
    let prey_north_west = sprite_signature(BoidRole::Flock, BoidDirection::NorthWest);
    let prey_south_east = sprite_signature(BoidRole::Flock, BoidDirection::SouthEast);
    let prey_south_west = sprite_signature(BoidRole::Flock, BoidDirection::SouthWest);

    assert_eq!(prey_east, vec![".t...f....", "ttbbbffbbh", ".t........"]);
    let prey_east_cells = boid_sprite_cells(BoidRole::Flock, BoidDirection::East);
    assert!(prey_east_cells.iter().all(|cell| cell.glyph != BOID_BLOCK));
    assert!(prey_east_cells
        .iter()
        .filter(|cell| cell.tone == BODY)
        .all(|cell| matches!(cell.glyph, BOID_UPPER_HALF | BOID_LOWER_HALF)));
    let prey_east_fin_cells = prey_east_cells
        .iter()
        .filter(|cell| cell.tone == FIN)
        .map(|cell| (cell.dx, cell.dy, cell.glyph))
        .collect::<Vec<_>>();
    assert_eq!(
        prey_east_fin_cells,
        vec![
            (5, 0, BOID_LOWER_HALF),
            (5, 1, BOID_RIGHT_HALF),
            (6, 1, BOID_LEFT_HALF)
        ]
    );
    let prey_east_tail_cells = prey_east_cells
        .iter()
        .filter(|cell| cell.tone == TAIL)
        .map(|cell| (cell.dx, cell.dy, cell.glyph))
        .collect::<Vec<_>>();
    assert_eq!(
        prey_east_tail_cells,
        vec![
            (1, 0, BOID_BOTTOM_RIGHT),
            (0, 1, BOID_UPPER_HALF),
            (1, 1, BOID_RIGHT_HALF),
            (1, 2, BOID_TOP_RIGHT)
        ]
    );
    let prey_west_cells = boid_sprite_cells(BoidRole::Flock, BoidDirection::West);
    assert!(prey_west_cells.iter().all(|cell| cell.glyph != BOID_BLOCK));
    assert!(prey_west_cells
        .iter()
        .filter(|cell| cell.tone == BODY)
        .all(|cell| matches!(cell.glyph, BOID_UPPER_HALF | BOID_LOWER_HALF)));
    let prey_west_fin_cells = prey_west_cells
        .iter()
        .filter(|cell| cell.tone == FIN)
        .map(|cell| (cell.dx, cell.dy, cell.glyph))
        .collect::<Vec<_>>();
    assert_eq!(
        prey_west_fin_cells,
        vec![
            (4, 0, BOID_LOWER_HALF),
            (3, 1, BOID_RIGHT_HALF),
            (4, 1, BOID_LEFT_HALF)
        ]
    );
    let prey_west_tail_cells = prey_west_cells
        .iter()
        .filter(|cell| cell.tone == TAIL)
        .map(|cell| (cell.dx, cell.dy, cell.glyph))
        .collect::<Vec<_>>();
    assert_eq!(
        prey_west_tail_cells,
        vec![
            (8, 0, BOID_BOTTOM_LEFT),
            (8, 1, BOID_LEFT_HALF),
            (9, 1, BOID_UPPER_HALF),
            (8, 2, BOID_TOP_LEFT)
        ]
    );
    assert_eq!(prey_north_east, vec![".bh", "tbb", "tt."]);
    assert_eq!(prey_north_west, mirror_columns(&prey_north_east));
    assert_eq!(prey_south_east, mirror_rows(&prey_north_east));
    assert_eq!(prey_south_west, mirror_rows(&prey_north_west));
    assert_eq!(prey_west, mirror_columns(&prey_east));
    assert_eq!(prey_south, mirror_rows(&prey_north));

    let predator_east = sprite_signature(BoidRole::Predator, BoidDirection::East);
    let predator_west = sprite_signature(BoidRole::Predator, BoidDirection::West);
    let predator_north = sprite_signature(BoidRole::Predator, BoidDirection::North);
    let predator_south = sprite_signature(BoidRole::Predator, BoidDirection::South);
    let predator_north_east = sprite_signature(BoidRole::Predator, BoidDirection::NorthEast);
    let predator_north_west = sprite_signature(BoidRole::Predator, BoidDirection::NorthWest);
    let predator_south_east = sprite_signature(BoidRole::Predator, BoidDirection::SouthEast);
    let predator_south_west = sprite_signature(BoidRole::Predator, BoidDirection::SouthWest);

    assert_eq!(
        predator_east,
        vec!["tt...bbbbbbh..", "tttbbbbbbbbbhh", "tt...bbbbbbh..",]
    );
    assert_eq!(
        predator_north_east,
        vec!["....bh", "...bbb", "..bbb.", ".tbb..", "tt....", "t....."]
    );
    assert_eq!(predator_west, mirror_columns(&predator_east));
    assert_eq!(predator_south, mirror_rows(&predator_north));
    assert_eq!(predator_north_west, mirror_columns(&predator_north_east));
    assert_eq!(predator_south_east, mirror_rows(&predator_north_east));
    assert_eq!(predator_south_west, mirror_rows(&predator_north_west));

    for role in [BoidRole::Flock, BoidRole::Predator] {
        let east = glyph_signature(role, BoidDirection::East);
        let west = glyph_signature(role, BoidDirection::West);
        let north = glyph_signature(role, BoidDirection::North);
        let south = glyph_signature(role, BoidDirection::South);
        let north_east = glyph_signature(role, BoidDirection::NorthEast);
        let north_west = glyph_signature(role, BoidDirection::NorthWest);
        let south_east = glyph_signature(role, BoidDirection::SouthEast);
        let south_west = glyph_signature(role, BoidDirection::SouthWest);

        assert_eq!(west, mirror_glyph_columns(&east));
        assert_eq!(south, mirror_glyph_rows(&north));
        assert_eq!(north_west, mirror_glyph_columns(&north_east));
        assert_eq!(south_east, mirror_glyph_rows(&north_east));
        assert_eq!(south_west, mirror_glyph_rows(&north_west));

        for direction in DIRECTIONS {
            let cells = boid_sprite_cells(role, direction);
            assert!(cells.iter().all(|cell| is_boid_block_glyph(cell.glyph)));
            assert!(cells.iter().any(|cell| cell.glyph != BOID_BLOCK));
        }
    }

    for role in [BoidRole::Flock, BoidRole::Predator] {
        let east = boid_sprite_cells(role, BoidDirection::East);
        let west = boid_sprite_cells(role, BoidDirection::West);
        let (east_width, east_height) = sprite_extent(&east);
        let (west_width, west_height) = sprite_extent(&west);

        assert!(east_width >= east_height * 3);
        assert!(west_width >= west_height * 3);
        assert!(column_has_no_full_blocks(&east, 0));
        assert!(column_has_no_full_blocks(&east, east_width - 1));
        assert!(column_has_no_full_blocks(&west, 0));
        assert!(column_has_no_full_blocks(&west, west_width - 1));
        if role == BoidRole::Predator {
            assert_tone_rows_mirror(&east, TAIL);
            assert_tone_rows_mirror(&east, HEAD);
            assert_tone_rows_mirror(&west, TAIL);
            assert_tone_rows_mirror(&west, HEAD);
        }
    }
    assert!(predator_east[0].len() >= prey_east[0].len() + 4);
    assert_eq!(
        colorize_boid_cell(3, BODY.as_index(), BOID_BLOCK),
        colorize_boid_cell(3, BODY.as_index(), BOID_BLOCK)
    );
    assert_ne!(
        colorize_boid_cell(0, BODY.as_index(), BOID_BLOCK),
        colorize_boid_cell(1, BODY.as_index(), BOID_BLOCK)
    );
    assert_ne!(
        colorize_boid_cell(1, TAIL.as_index(), BOID_BLOCK),
        colorize_boid_cell(1, HEAD.as_index(), BOID_BLOCK)
    );
    assert_ne!(
        colorize_boid_cell(1, BODY.as_index(), BOID_BLOCK),
        colorize_boid_cell(1, FIN.as_index(), BOID_BLOCK)
    );
}

#[test]
fn predator_sprite_is_larger_than_prey_sprite() {
    let prey = boid_sprite_cells(BoidRole::Flock, BoidDirection::NorthEast);
    let predator = boid_sprite_cells(BoidRole::Predator, BoidDirection::NorthEast);
    let (prey_width, prey_height) = sprite_extent(&prey);
    let (predator_width, predator_height) = sprite_extent(&predator);

    assert!(predator.len() > prey.len());
    assert!(predator_width > prey_width);
    assert!(predator_height > prey_height);
    assert!(prey.iter().all(|cell| matches!(cell.tone, TAIL | BODY | FIN | HEAD)));
    assert!(predator
        .iter()
        .all(|cell| matches!(cell.tone, TAIL | BODY | FIN | HEAD)));
    assert_eq!(sprite_signature_for_cells(&prey), vec![".bh", "tbb", "tt."]);
    assert_eq!(
        sprite_signature_for_cells(&predator),
        vec!["....bh", "...bbb", "..bbb.", ".tbb..", "tt....", "t....."]
    );
}

#[test]
fn boids_style_aliases_and_canonical_names() {
    assert!(is_boids_style("boids"));
    assert!(is_boids_style("boids_schools"));
    assert!(!is_boids_style("Boids"));
    assert!(!is_boids_style(""));
    assert_eq!(BoidsVariant::Predator.canonical_style_name(), "boids_predator");
    assert_eq!(BoidsVariant::Schools.canonical_style_name(), "boids_schools");
    for variant in [BoidsVariant::Predator, BoidsVariant::Schools] {
        assert_eq!(
            BoidsVariant::from_style_name(variant.canonical_style_name()),
            Some(variant)
        );
    }
}

#[test]
fn boid_headings_follow_octants() {
    assert_eq!(boid_direction_from_sector(0), BoidDirection::East);
    assert_eq!(boid_direction_from_sector(1), BoidDirection::SouthEast);
    assert_eq!(boid_direction_from_sector(4), BoidDirection::West);
    assert_eq!(boid_direction_from_sector(-4), BoidDirection::West);
    assert_eq!(boid_direction_from_sector(-1), BoidDirection::NorthEast);
    assert_eq!(boid_direction_from_sector(-2), BoidDirection::North);
    assert_eq!(boid_direction_from_sector(8), BoidDirection::East);
    assert_eq!(boid_direction_from_sector(i32::MIN), BoidDirection::East);
}

#[test]
fn boid_roles_and_species() {
    assert_eq!(boid_role(BoidsVariant::Predator, 0), BoidRole::Predator);
    assert_eq!(boid_role(BoidsVariant::Predator, 1), BoidRole::Flock);
    assert_eq!(boid_role(BoidsVariant::Schools, 0), BoidRole::Flock);
    assert_eq!(boid_species(BoidsVariant::Schools, 5), 2);
    assert_eq!(boid_species(BoidsVariant::Predator, 5), 0);
    assert_eq!(boid_color_index(BoidRole::Predator, 4, BoidsVariant::Schools), 0);
    assert_eq!(boid_color_index(BoidRole::Flock, 4, BoidsVariant::Schools), 3);
}

#[test]
fn boids_grid_and_count_follow_the_screen() {
    assert_eq!(boids_grid_width(80), 40);
    assert_eq!(boids_grid_width(1), 1);
    assert_eq!(boids_grid_height(0), 1);
    assert_eq!(boids_grid_height(24), 24);
    assert_eq!(boids_count(40, 24), 10);
    assert_eq!(boids_count(2, 2), 8);
    assert_eq!(boids_count(1000, 1000), 32);
    assert_eq!(boids_count(usize::MAX, 2), 32);
}

#[test]
fn boids_seed_is_a_wrapping_linear_congruence() {
    assert_eq!(boids_initial_seed(0, 0), 0x5EED);
    assert_eq!(
        boids_initial_seed(40, 24),
        40 * 1_103_515_245 + 24 * 12_345 + 0x5EED
    );
    assert_eq!(next_boids_seed(0), 1);
    assert_eq!(
        next_boids_seed(1),
        6_364_136_223_846_793_005u64.wrapping_add(1)
    );
    assert_eq!(
        next_boids_seed(u64::MAX),
        u64::MAX.wrapping_mul(6_364_136_223_846_793_005).wrapping_add(1)
    );
    assert_eq!(seed_unit_bits(u64::MAX), (1u64 << 31) - 1);
    assert_eq!(seed_unit_bits(1u64 << 33), 1);
}

#[test]
fn boid_cell_colors_are_terminal_palette_escapes() {
    assert_eq!(
        colorize_boid_cell(0, BODY.as_index(), BOID_BLOCK),
        "\u{1b}[38;5;9m█\u{1b}[39m"
    );
    assert_eq!(
        colorize_boid_cell(7, TAIL.as_index(), BOID_BLOCK),
        "\u{1b}[38;5;6m█\u{1b}[39m"
    );
    assert_eq!(
        colorize_boid_cell(2, FIN.as_index(), BOID_LEFT_HALF),
        "\u{1b}[38;5;4m▌\u{1b}[39m"
    );
    assert_eq!(
        colorize_boid_cell(4, 99, BOID_BLOCK),
        colorize_boid_cell(4, BODY.as_index(), BOID_BLOCK)
    );
    assert_eq!(BoidSpriteTone::from_index(HEAD.as_index()), HEAD);
}

#[test]
fn painting_a_sprite_sets_its_cells_inside_the_frame() {
    let mut frame = ScreenFrame::new(6, 3);
    let sprite = boid_sprite_cells(BoidRole::Flock, BoidDirection::NorthEast);
    paint_boid_sprite(&mut frame, 2, 1, &sprite, 1);
    let lines = frame.render_lines(6, |cell: ScreenCell| format!("{}", cell.color_y));
    // The sprite starts at column 4, row 1; cells beyond the frame are dropped.
    assert_eq!(lines, vec!["      ", "     1", "    01"]);
}

#[test]
fn boids_frame_draws_predators_over_the_flock() {
    let area = ScreenAnimationContext {
        resolved_width: 12,
        resolved_height: 4,
        inner_width: 12,
        size_class: "test",
    };
    let predator = BoidPlacement {
        x: 1,
        y: 0,
        role: BoidRole::Predator,
        direction: BoidDirection::South,
        species: 0,
    };
    let prey = BoidPlacement {
        x: 1,
        y: 1,
        role: BoidRole::Flock,
        direction: BoidDirection::East,
        species: 0,
    };
    let lines = render_boids_frame(area, BoidsVariant::Predator, &vec![predator, prey]);

    let mut expected = ScreenFrame::new(12, 4);
    let prey_sprite = boid_sprite_cells(BoidRole::Flock, BoidDirection::East);
    paint_boid_sprite(&mut expected, 1, 1, &prey_sprite, 1);
    let predator_sprite = boid_sprite_cells(BoidRole::Predator, BoidDirection::South);
    paint_boid_sprite(&mut expected, 1, 0, &predator_sprite, 0);
    let expected_lines = expected.render_lines(12, render_boid_cell);
    assert_eq!(lines, expected_lines);
    assert_eq!(lines.len(), 4);
    for line in &lines {
        assert_eq!(yazelix_screen::visible_line_width(line), 12);
    }
    let wider = render_boids_frame(
        ScreenAnimationContext {
            resolved_width: 30,
            ..area
        },
        BoidsVariant::Schools,
        &vec![prey],
    );
    for line in &wider {
        assert_eq!(yazelix_screen::visible_line_width(line), 30);
    }

    let mut flock_on_top = ScreenFrame::new(12, 4);
    paint_boid_sprite(&mut flock_on_top, 1, 0, &predator_sprite, 0);
    paint_boid_sprite(&mut flock_on_top, 1, 1, &prey_sprite, 1);
    assert_ne!(lines, flock_on_top.render_lines(12, render_boid_cell));
}
