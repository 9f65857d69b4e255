use yazelix_screen::random::{index_from_nanos, system_random_index};
use yazelix_screen::{
    random_animation_slot_count, random_animation_styles, resolve_random_animation_style,
    BOIDS_RANDOM_STYLES, GAME_OF_LIFE_RANDOM_STYLES, KITTY_FRAME_SEQUENCE_STYLE, MANDELBROT_STYLE,
};

#[test]
fn random_animation_style_rotates_across_all_families() {
    let mut game_of_life_count = 0;
    let mut boids_count = 0;
    let mut mandelbrot_count = 0;
    let mut kitty_frame_count = 0;

    for index in 0..random_animation_slot_count() {
        match resolve_random_animation_style(Some(index)) {
            style if GAME_OF_LIFE_RANDOM_STYLES.contains(&style) => game_of_life_count += 1,
            style if BOIDS_RANDOM_STYLES.contains(&style) => boids_count += 1,
            MANDELBROT_STYLE => mandelbrot_count += 1,
            KITTY_FRAME_SEQUENCE_STYLE => kitty_frame_count += 1,
            other => panic!("unexpected random style {other}"),
        }
    }

    assert_eq!(game_of_life_count, 6);
    assert_eq!(boids_count, 6);
    assert_eq!(mandelbrot_count, 6);
    assert_eq!(kitty_frame_count, 6);
}

#[test]
fn random_pool_has_four_families_in_twenty_four_slots() {
    assert_eq!(random_animation_slot_count(), 24);
    assert_eq!(
        random_animation_styles(),
        vec![
            "game_of_life_gliders",
            "game_of_life_oscillators",
            "game_of_life_bloom",
            "boids_predator",
            "boids_schools",
            "mandelbrot",
            "magician",
        ]
    );
    assert_eq!(resolve_random_animation_style(Some(0)), "game_of_life_gliders");
    assert_eq!(resolve_random_animation_style(Some(1)), "boids_predator");
    assert_eq!(resolve_random_animation_style(Some(2)), "mandelbrot");
    assert_eq!(resolve_random_animation_style(Some(3)), "magician");
    assert_eq!(resolve_random_animation_style(Some(4)), "game_of_life_oscillators");
    assert_eq!(resolve_random_animation_style(Some(5)), "boids_schools");
    assert_eq!(resolve_random_animation_style(Some(8)), "game_of_life_bloom");
}

#[test]
fn random_choice_repeats_with_the_slot_count() {
    for index in 0..48 {
        assert_eq!(
            resolve_random_animation_style(Some(index)),
            resolve_random_animation_style(Some(index + 24))
        );
        assert_eq!(
            resolve_random_animation_style(Some(index)),
            resolve_random_animation_style(Some(index % 24))
        );
    }
    assert_eq!(
        resolve_random_animation_style(Some(usize::MAX)),
        resolve_random_animation_style(Some(usize::MAX % 24))
    );
}

#[test]
fn clock_choice_stays_in_the_pool() {
    let pool = random_animation_styles();
    for _ in 0..16 {
        assert!(pool.contains(&resolve_random_animation_style(None)));
    }
    assert!(system_random_index(24) < 24);
    assert_eq!(system_random_index(0), 0);
    assert_eq!(system_random_index(1), 0);
    assert!(system_random_index(usize::MAX) < 1_000_000_000);
    assert_eq!(index_from_nanos(123_456_789, 24), 123_456_789 % 24);
    assert_eq!(index_from_nanos(999_999_999, usize::MAX), 999_999_999);
    assert_eq!(index_from_nanos(17, 0), 0);
    assert_eq!(index_from_nanos(17, 1), 0);
}
