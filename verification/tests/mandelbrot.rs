use yazelix_screen::mandelbrot::{
    colorize_mandelbrot_cell, mandelbrot_iterations_with_zoom, render_sampled_mandelbrot_frame,
    MANDELBROT_MAX_ITERATIONS, MANDELBROT_MIN_ITERATIONS,
};
use yazelix_screen::{
    mandelbrot_frame_delay, mandelbrot_max_iterations, MandelbrotAnimation,
    ScreenAnimationContext, ScreenCell,
};

fn context(width: usize, height: usize) -> ScreenAnimationContext {
    ScreenAnimationContext {
        resolved_width: width,
        resolved_height: height,
        inner_width: width,
        size_class: "test",
    }
}

#[test]
fn mandelbrot_iteration_budget_is_bounded() {
    assert_eq!(mandelbrot_max_iterations(1, 1), 48);
    assert_eq!(mandelbrot_max_iterations(120, 40), 57);
    assert_eq!(mandelbrot_max_iterations(300, 120), 96);
    // Zoom depths 1, 1450 and 10^12 add 0, 504 and 1913 iterations (48 per
    // doubling of the zoom, rounded), as the renderer computes them.
    assert_eq!(
        mandelbrot_iterations_with_zoom(64, 20, 0),
        MANDELBROT_MIN_ITERATIONS
    );
    assert_eq!(mandelbrot_iterations_with_zoom(300, 120, 504), 600);
    assert_eq!(
        mandelbrot_iterations_with_zoom(300, 120, 1913),
        MANDELBROT_MAX_ITERATIONS
    );
}

#[test]
fn mandelbrot_budget_saturates_on_huge_frames() {
    assert_eq!(mandelbrot_max_iterations(usize::MAX, usize::MAX), 96);
    assert_eq!(mandelbrot_max_iterations(0, 0), 48);
    assert_eq!(
        mandelbrot_iterations_with_zoom(1, 1, usize::MAX),
        MANDELBROT_MAX_ITERATIONS
    );
    assert_eq!(mandelbrot_iterations_with_zoom(1, 1, 20), 68);
}

#[test]
fn mandelbrot_animation_advances_and_resets_on_resize() {
    let mut animation = MandelbrotAnimation::new(context(48, 16));
    assert_eq!(animation.frame_index(), 0);
    assert_eq!(animation.context(), context(48, 16));
    animation.advance_frame();
    animation.advance_frame();
    assert_eq!(animation.frame_index(), 2);
    animation.resize(context(20, 8));
    assert_eq!(animation.frame_index(), 0);
    assert_eq!(animation.context(), context(20, 8));
    assert_eq!(mandelbrot_frame_delay(), 55);
}

#[test]
fn mandelbrot_cell_colors_follow_intensity_and_zoom_band() {
    let cell = |color_x: usize, color_y: usize| ScreenCell {
        glyph: '█',
        color_x,
        color_y,
    };
    assert_eq!(colorize_mandelbrot_cell(cell(0, 1)), "\u{1b}[38;5;33m█\u{1b}[39m");
    assert_eq!(colorize_mandelbrot_cell(cell(1, 1)), "\u{1b}[38;5;129m█\u{1b}[39m");
    assert_eq!(colorize_mandelbrot_cell(cell(3, 2)), "\u{1b}[38;5;129m█\u{1b}[39m");
    assert_eq!(colorize_mandelbrot_cell(cell(4, 2)), "\u{1b}[38;5;201m█\u{1b}[39m");
    assert_eq!(colorize_mandelbrot_cell(cell(2, 4)), "\u{1b}[38;5;208m█\u{1b}[39m");
    assert_eq!(colorize_mandelbrot_cell(cell(0, 4)), "\u{1b}[38;5;201m█\u{1b}[39m");
    assert_eq!(colorize_mandelbrot_cell(cell(5, 6)), "\u{1b}[38;5;226m█\u{1b}[39m");
    assert_eq!(colorize_mandelbrot_cell(cell(0, 6)), "\u{1b}[38;5;208m█\u{1b}[39m");
}

#[test]
fn sampled_cells_render_row_by_row_in_palette() {
    let cell = ScreenCell {
        glyph: '*',
        color_x: 0,
        color_y: 0,
    };
    let cells = vec![Some(cell), None, None, Some(cell)];
    let area = ScreenAnimationContext {
        resolved_width: 4,
        resolved_height: 2,
        inner_width: 2,
        size_class: "test",
    };
    let lines = render_sampled_mandelbrot_frame(area, &cells);
    let painted = colorize_mandelbrot_cell(cell);
    assert_eq!(painted, "\u{1b}[38;5;33m*\u{1b}[39m");
    assert_eq!(lines, vec![format!(" {painted}  "), format!("  {painted} ")]);
    for line in &lines {
        assert_eq!(yazelix_screen::visible_line_width(line), 4);
    }

    let empty_area = ScreenAnimationContext {
        resolved_width: 3,
        resolved_height: 0,
        inner_width: 0,
        size_class: "test",
    };
    assert_eq!(render_sampled_mandelbrot_frame(empty_area, &vec![None]), vec!["   ".to_string()]);
}
