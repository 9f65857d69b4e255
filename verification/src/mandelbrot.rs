//! The Mandelbrot animation's state, iteration budget and cell colors. The
//! fractal sampling itself is floating-point work done by the caller.

use crate::frame::{
    frame_row, lemma_rendered_line_width, rendered_line, ScreenAnimationContext, ScreenCell, ScreenFrame,
};
use crate::terminal_control::{lemma_styled_glyph_width, styled, styled_glyph};
use crate::text::{visible_width, ESC};
use vstd::prelude::*;

verus! {

/// Frames in one dive cycle; frame indices repeat with this period.
pub const MANDELBROT_LOOP_FRAMES: usize = 120;

/// The least iteration budget of any frame.
pub const MANDELBROT_MIN_ITERATIONS: usize = 64;

/// The greatest iteration budget of any frame.
pub const MANDELBROT_MAX_ITERATIONS: usize = 1_800;

/// The delay between Mandelbrot frames, in milliseconds.
pub const MANDELBROT_FRAME_DELAY_MS: u64 = 55;

/// The Mandelbrot animation: the area it draws into and the index of the
/// frame it shows.
#[derive(Debug, Clone, PartialEq, Eq)]
pub struct MandelbrotAnimation {
    context: ScreenAnimationContext,
    frame_index: usize,
}

impl MandelbrotAnimation {
    /// The area this animation draws into.
    pub closed spec fn context_spec(&self) -> ScreenAnimationContext {
        self.context
    }

    /// The index of the frame this animation shows.
    pub closed spec fn frame_index_spec(&self) -> usize {
        self.frame_index
    }

    /// The animation at its first frame.
    pub fn new(context: ScreenAnimationContext) -> (animation: Self)
        ensures
            animation.context_spec() == context,
            animation.frame_index_spec() == 0,
    {
        MandelbrotAnimation { context, frame_index: 0 }
    }

    /// The area this animation draws into.
    pub fn context(&self) -> (context: ScreenAnimationContext)
        ensures
            context == self.context_spec(),
    {
        self.context
    }

    /// The index of the frame this animation shows.
    pub fn frame_index(&self) -> (index: usize)
        ensures
            index == self.frame_index_spec(),
    {
        self.frame_index
    }

    /// Moves to the next frame; the index wraps around at `usize::MAX`.
    pub fn advance_frame(&mut self)
        ensures
            final(self).context_spec() == old(self).context_spec(),
            final(self).frame_index_spec() == if old(self).frame_index_spec() == usize::MAX {
                0
            } else {
                (old(self).frame_index_spec() + 1) as usize
            },
    {
        self.frame_index = self.frame_index.wrapping_add(1);
    }

    /// Draws into a new area, starting the cycle over.
    pub fn resize(&mut self, context: ScreenAnimationContext)
        ensures
            final(self).context_spec() == context,
            final(self).frame_index_spec() == 0,
    {
        self.context = context;
        self.frame_index = 0;
    }
}

/// The delay between Mandelbrot frames, in milliseconds.
pub fn mandelbrot_frame_delay() -> (delay_ms: u64)
    ensures
        delay_ms == MANDELBROT_FRAME_DELAY_MS,
{
    MANDELBROT_FRAME_DELAY_MS
}

/// `value` limited to `low..=high`.
pub open spec fn clamp_nat(value: nat, low: nat, high: nat) -> nat {
    if value < low {
        low
    } else if value > high {
        high
    } else {
        value
    }
}

/// The iteration budget of the overview: 42 plus one per 320 cells, kept
/// between 48 and 96 (the cell count saturates at `usize::MAX`).
pub open spec fn mandelbrot_max_iterations_spec(width: nat, height: nat) -> nat {
    let cells = if width * height > usize::MAX { usize::MAX as nat } else { width * height };
    clamp_nat(42 + cells / 320, 48, 96)
}

/// The iteration budget of the overview for a `width` x `height` frame.
pub fn mandelbrot_max_iterations(width: usize, height: usize) -> (iterations: usize)
    ensures
        iterations == mandelbrot_max_iterations_spec(width as nat, height as nat),
        48 <= iterations <= 96,
{
    let cells = match width.checked_mul(height) {
        Some(cells) => cells,
        None => usize::MAX,
    };
    let budget = 42 + cells / 320;
    if budget < 48 {
        48
    } else if budget > 96 {
        96
    } else {
        budget
    }
}

/// The iteration budget of a zoomed view: the overview budget plus the
/// iterations that the zoom depth adds (saturating), kept between
/// `MANDELBROT_MIN_ITERATIONS` and `MANDELBROT_MAX_ITERATIONS`.
pub fn mandelbrot_iterations_with_zoom(width: usize, height: usize, zoom_iterations: usize) -> (iterations:
    usize)
    ensures
        iterations == clamp_nat(
            if mandelbrot_max_iterations_spec(width as nat, height as nat) + zoom_iterations > usize::MAX {
                usize::MAX as nat
            } else {
                mandelbrot_max_iterations_spec(width as nat, height as nat) + zoom_iterations as nat
            },
            MANDELBROT_MIN_ITERATIONS as nat,
            MANDELBROT_MAX_ITERATIONS as nat,
        ),
        MANDELBROT_MIN_ITERATIONS <= iterations <= MANDELBROT_MAX_ITERATIONS,
{
    let base = mandelbrot_max_iterations(width, height);
    let total = base.saturating_add(zoom_iterations);
    if total < MANDELBROT_MIN_ITERATIONS {
        MANDELBROT_MIN_ITERATIONS
    } else if total > MANDELBROT_MAX_ITERATIONS {
        MANDELBROT_MAX_ITERATIONS
    } else {
        total
    }
}

/// The palette entry of a Mandelbrot cell, from its intensity bucket
/// (`color_y`) and its zoom band (`color_x`, taken modulo three): faint
/// cells go from blue to purple, brighter ones through pink and orange to
/// yellow.
pub open spec fn mandelbrot_cell_color(color_x: usize, color_y: usize) -> u8 {
    let phase = color_x % 3;
    if color_y <= 1 {
        if phase == 0 { 33 } else { 129 }
    } else if color_y <= 3 {
        if phase == 0 { 129 } else { 201 }
    } else if color_y <= 5 {
        if phase == 2 { 208 } else { 201 }
    } else {
        if phase == 2 { 226 } else { 208 }
    }
}

/// A Mandelbrot cell's glyph in its palette color.
pub fn colorize_mandelbrot_cell(cell: ScreenCell) -> (out: String)
    ensures
        out@ == styled_glyph(cell.glyph, mandelbrot_cell_color(cell.color_x, cell.color_y)),
{
    let phase = cell.color_x % 3;
    let color: u8 = if cell.color_y <= 1 {
        if phase == 0 { 33 } else { 129 }
    } else if cell.color_y <= 3 {
        if phase == 0 { 129 } else { 201 }
    } else if cell.color_y <= 5 {
        if phase == 2 { 208 } else { 201 }
    } else {
        if phase == 2 { 226 } else { 208 }
    };
    styled(cell.glyph, color)
}


/// The columns and rows of a Mandelbrot frame: the inner width and the
/// height of its area, at least one each.
pub open spec fn mandelbrot_frame_size(context: ScreenAnimationContext) -> (nat, nat) {
    (
        if context.inner_width >= 1 { context.inner_width as nat } else { 1 },
        if context.resolved_height >= 1 { context.resolved_height as nat } else { 1 },
    )
}

/// The lines of a Mandelbrot frame from its sampled cells, given row by row
/// (`None` where nothing is drawn): each row rendered in the palette and
/// centered in the resolved width. `requires` leaves out cell counts that
/// do not match the frame or overflow `usize`.
pub fn render_sampled_mandelbrot_frame(context: ScreenAnimationContext, cells: &Vec<Option<ScreenCell>>) -> (lines:
    Vec<String>)
    requires
        mandelbrot_frame_size(context).0 * mandelbrot_frame_size(context).1 <= usize::MAX,
        cells@.len() == mandelbrot_frame_size(context).0 * mandelbrot_frame_size(context).1,
    ensures
        lines@.len() == mandelbrot_frame_size(context).1,
        forall|y: int|
            0 <= y < mandelbrot_frame_size(context).1 ==> rendered_line(
                cells@.subrange(
                    y * mandelbrot_frame_size(context).0,
                    y * mandelbrot_frame_size(context).0 + mandelbrot_frame_size(context).0,
                ),
                #[trigger] lines@[y]@,
                context.resolved_width as nat,
                colorize_mandelbrot_cell,
            ),
{
    let width = if context.inner_width >= 1 { context.inner_width } else { 1 };
    let height = if context.resolved_height >= 1 { context.resolved_height } else { 1 };
    let mut frame = ScreenFrame::new(width, height);
    let mut y: usize = 0;
    while y < height
        invariant
            cells@.len() == width * height,
            width * height <= usize::MAX,
            width >= 1,
            frame.well_formed(),
            frame@.width == width,
            frame@.height == height,
            y <= height,
            forall|i: int|
                0 <= i < width * height ==> #[trigger] frame@.cells[i] == if i < y * width {
                    cells@[i]
                } else {
                    None
                },
        decreases height - y,
    {
        assert(y * width + width <= width * height) by (nonlinear_arith)
            requires
                y < height,
        ;
        let mut x: usize = 0;
        while x < width
            invariant
                cells@.len() == width * height,
                width * height <= usize::MAX,
                frame.well_formed(),
                frame@.width == width,
                frame@.height == height,
                y < height,
                y * width + width <= width * height,
                x <= width,
                forall|i: int|
                    0 <= i < width * height ==> #[trigger] frame@.cells[i] == if i < y * width + x {
                        cells@[i]
                    } else {
                        None
                    },
            decreases width - x,
        {
            let index = y * width + x;
            let ghost before = frame@.cells;
            if let Some(cell) = cells[index] {
                frame.set(x, y, cell);
                assert(frame@.cells == before.update(index as int, Some(cell)));
            }
            assert forall|i: int| 0 <= i < width * height implies #[trigger] frame@.cells[i] == if i < y
                * width + x + 1 {
                cells@[i]
            } else {
                None
            } by {
                if i != index {
                    assert(frame@.cells[i] == before[i]);
                }
            }
            x = x + 1;
        }
        assert((y + 1) * width == y * width + width) by (nonlinear_arith);
        y = y + 1;
    }
    assert(y * width == width * height) by (nonlinear_arith)
        requires
            y == height,
    ;
    assert(frame@.cells =~= cells@);
    let lines = frame.render_lines(context.resolved_width, colorize_mandelbrot_cell);
    assert forall|y: int| 0 <= y < height implies rendered_line(
        cells@.subrange(y * width, y * width + width),
        #[trigger] lines@[y]@,
        context.resolved_width as nat,
        colorize_mandelbrot_cell,
    ) by {
        assert(y * width + width <= width * height) by (nonlinear_arith)
            requires
                0 <= y < height,
        ;
        assert(frame_row(frame@, y as nat) == cells@.subrange(y * width, y * width + width));
    }
    lines
}


/// Every line of a rendered Mandelbrot frame shows exactly as many columns
/// as its row has cells, or the resolved width when that is wider: colors
/// take no room, provided no sampled glyph is an escape character.
pub proof fn lemma_mandelbrot_lines_keep_width(row: Seq<Option<ScreenCell>>, line: Seq<char>, resolved_width: nat)
    requires
        rendered_line(row, line, resolved_width, colorize_mandelbrot_cell),
        forall|i: int| 0 <= i < row.len() && (#[trigger] row[i]) is Some ==> row[i]->0.glyph != ESC,
    ensures
        visible_width(line) == if row.len() >= resolved_width {
            row.len()
        } else {
            resolved_width
        },
{
    assert forall|i: int, text: String, rest: Seq<char>|
        0 <= i < row.len() && row[i] is Some && #[trigger] colorize_mandelbrot_cell.ensures((row[i]->0,), text)
            implies #[trigger] visible_width(text@ + rest) == 1 + visible_width(rest) by {
        let cell = row[i]->0;
        lemma_styled_glyph_width(cell.glyph, mandelbrot_cell_color(cell.color_x, cell.color_y), rest);
    }
    lemma_rendered_line_width(row, line, resolved_width, colorize_mandelbrot_cell);
}


/// The position of a palette entry on the Mandelbrot color ramp, from dark
/// to bright: blue 33, purple 129, pink 201, orange 208, yellow 226.
pub open spec fn ramp_step(color: u8) -> int {
    if color == 33 {
        0
    } else if color == 129 {
        1
    } else if color == 201 {
        2
    } else if color == 208 {
        3
    } else if color == 226 {
        4
    } else {
        -1
    }
}

/// The Mandelbrot palette walks one ramp: every cell color is on it, the
/// faintest cell of band 0 is blue and the brightest of band 2 yellow;
/// brighter buckets never take a darker color; in the faint buckets (0 to
/// 3) bands 1 and 2 share a color and band 0 is one step darker, while in
/// the bright buckets (4 and up) bands 0 and 1 share a color and band 2 is
/// one step brighter; each bucket pair (0-1, 2-3, 4-5) shares its colors,
/// as do all buckets from 6 on, and each pair differs from the one before;
/// and only the band modulo three matters. Together these fix every color.
pub proof fn lemma_mandelbrot_palette_ramp(color_x: usize, color_y: usize, other_y: usize)
    ensures
        0 <= ramp_step(mandelbrot_cell_color(color_x, color_y)) <= 4,
        mandelbrot_cell_color(0, 0) == 33,
        mandelbrot_cell_color(2, 6) == 226,
        color_y <= other_y ==> ramp_step(mandelbrot_cell_color(color_x, color_y)) <= ramp_step(
            mandelbrot_cell_color(color_x, other_y),
        ),
        color_y <= 3 ==> mandelbrot_cell_color(1, color_y) == mandelbrot_cell_color(2, color_y) && ramp_step(
            mandelbrot_cell_color(0, color_y),
        ) + 1 == ramp_step(mandelbrot_cell_color(1, color_y)),
        color_y >= 4 ==> mandelbrot_cell_color(0, color_y) == mandelbrot_cell_color(1, color_y) && ramp_step(
            mandelbrot_cell_color(0, color_y),
        ) + 1 == ramp_step(mandelbrot_cell_color(2, color_y)),
        color_y % 2 == 0 && color_y < 6 ==> mandelbrot_cell_color(color_x, color_y) == mandelbrot_cell_color(
            color_x,
            (color_y + 1) as usize,
        ),
        color_y >= 6 ==> mandelbrot_cell_color(color_x, color_y) == mandelbrot_cell_color(color_x, 6),
        mandelbrot_cell_color(color_x, color_y) == mandelbrot_cell_color(color_x % 3, color_y),
        mandelbrot_cell_color(0, 2) != mandelbrot_cell_color(0, 0) && mandelbrot_cell_color(0, 4)
            != mandelbrot_cell_color(0, 2) && mandelbrot_cell_color(0, 6) != mandelbrot_cell_color(0, 4),
{
}

} // verus!
