//! Terminal screen primitives: frames and their output, ANSI-aware text
//! layout, the random animation pool, boids and Mandelbrot frames, the
//! welcome card, Kitty graphics frame commands, and the decisions of the
//! `yzs` command and its display loops.

pub mod boid_sprites;
pub mod boids;
pub mod cell_style;
pub mod frame;
pub mod kitty_frames;
pub mod magician;
pub mod mandelbrot;
pub mod random;
pub mod screen_loop;
pub mod screen_runner;
pub mod terminal_control;
pub mod text;
pub mod welcome;

pub use boids::{is_boids_style, BoidsVariant};
pub use cell_style::{GameOfLifeCellStyle, GameOfLifeCellStyleParseError};
pub use frame::{ScreenAnimationContext, ScreenCell, ScreenFrame};
pub use kitty_frames::{
    kitty_delete_image_command, kitty_frame_layout, kitty_png_file_command, KittyFrameLayout,
    KittyFrameSequence,
};
pub use magician::{
    magician_frame_path, magician_frame_paths, magician_frame_sequence,
    magician_frame_sequence_with_edge_insets, MAGICIAN_ATTRIBUTION, MAGICIAN_EDGE_INSET_COLUMNS,
    MAGICIAN_EDGE_INSET_ROWS, MAGICIAN_FRAME_COUNT, MAGICIAN_FRAME_DELAY_MS,
    MAGICIAN_FRAME_DIR_NAME, MAGICIAN_GIF_NAME,
};
pub use mandelbrot::{mandelbrot_frame_delay, mandelbrot_max_iterations, MandelbrotAnimation};
pub use random::{
    random_animation_slot_count, random_animation_styles, resolve_random_animation_style,
    BOIDS_RANDOM_STYLES, GAME_OF_LIFE_RANDOM_STYLES, KITTY_FRAME_SEQUENCE_STYLE, MANDELBROT_STYLE,
};
pub use terminal_control::screen_frame_output;
pub use text::{center_frame_lines, center_text, visible_line_width};
