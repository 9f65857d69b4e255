//! Cell frames that animations paint into and render as centered lines.

use crate::text::{
    center_frame_lines, centered, escape_free, lemma_visible_width_plain, lemma_visible_width_plain_prefix,
    push_char, spaces, visible_width,
};
use vstd::prelude::*;

verus! {

/// One painted cell: the glyph and the two indices that pick its color.
#[derive(Debug, Clone, Copy, PartialEq, Eq)]
pub struct ScreenCell {
    pub glyph: char,
    pub color_x: usize,
    pub color_y: usize,
}

/// The size of the area that an animation draws into.
#[derive(Debug, Clone, Copy, PartialEq, Eq)]
pub struct ScreenAnimationContext {
    pub resolved_width: usize,
    pub resolved_height: usize,
    pub inner_width: usize,
    pub size_class: &'static str,
}

/// A `width` x `height` grid of optional cells, stored row by row.
#[derive(Debug, Clone, PartialEq, Eq)]
pub struct ScreenFrame {
    width: usize,
    height: usize,
    cells: Vec<Option<ScreenCell>>,
}

/// The abstract content of a frame.
pub struct ScreenFrameView {
    pub width: nat,
    pub height: nat,
    pub cells: Seq<Option<ScreenCell>>,
}

impl View for ScreenFrame {
    type V = ScreenFrameView;

    closed spec fn view(&self) -> ScreenFrameView {
        ScreenFrameView { width: self.width as nat, height: self.height as nat, cells: self.cells@ }
    }
}

/// The cells of row `y` of a frame.
pub open spec fn frame_row(frame: ScreenFrameView, y: nat) -> Seq<Option<ScreenCell>> {
    frame.cells.subrange((y * frame.width) as int, (y * frame.width + frame.width) as int)
}

/// Whether `pieces` is what `render_cell` gives for each painted cell of a
/// row, with `None` for the unpainted ones.
pub open spec fn rendered_pieces<F: Fn(ScreenCell) -> String>(
    cells: Seq<Option<ScreenCell>>,
    pieces: Seq<Option<String>>,
    render_cell: F,
) -> bool {
    &&& pieces.len() == cells.len()
    &&& forall|i: int|
        0 <= i < cells.len() ==> match #[trigger] cells[i] {
            Some(cell) => pieces[i] matches Some(text) && render_cell.ensures((cell,), text),
            None => pieces[i] is None,
        }
}

/// The text of a rendered row: each rendered piece, a space for each
/// unpainted cell.
pub open spec fn joined_pieces(pieces: Seq<Option<String>>) -> Seq<char>
    decreases pieces.len(),
{
    if pieces.len() == 0 {
        Seq::empty()
    } else {
        joined_pieces(pieces.drop_last()) + match pieces.last() {
            Some(text) => text@,
            None => seq![' '],
        }
    }
}

/// Whether `line` is a rendering of the cells `row`: the rendered pieces
/// joined and centered in `width` columns.
pub open spec fn rendered_line<F: Fn(ScreenCell) -> String>(
    row: Seq<Option<ScreenCell>>,
    line: Seq<char>,
    width: nat,
    render_cell: F,
) -> bool {
    exists|pieces: Seq<Option<String>>|
        rendered_pieces(row, pieces, render_cell) && line == centered(joined_pieces(pieces), width)
}

proof fn lemma_row_index(x: nat, y: nat, width: nat, height: nat)
    requires
        x < width,
        y < height,
    ensures
        y * width + x < width * height,
        y * width + width <= width * height,
{
    assert(y * width + width <= width * height) by (nonlinear_arith)
        requires
            y < height,
    ;
}

impl ScreenFrame {
    /// Every frame holds one cell for each column of each row.
    pub open spec fn well_formed(&self) -> bool {
        &&& self@.cells.len() == self@.width * self@.height
        &&& self@.width * self@.height <= usize::MAX
    }

    /// An empty frame of `width` x `height` cells; `requires` leaves out the
    /// sizes whose cell count overflows `usize`, which cannot be allocated.
    pub fn new(width: usize, height: usize) -> (frame: Self)
        requires
            width * height <= usize::MAX,
        ensures
            frame.well_formed(),
            frame@.width == width,
            frame@.height == height,
            frame@.cells == Seq::new((width * height) as nat, |_i: int| None::<ScreenCell>),
    {
        let count = width * height;
        let mut cells: Vec<Option<ScreenCell>> = Vec::new();
        let mut i: usize = 0;
        while i < count
            invariant
                i <= count,
                cells@ == Seq::new(i as nat, |_i: int| None::<ScreenCell>),
            decreases count - i,
        {
            cells.push(None);
            i = i + 1;
        }
        ScreenFrame { width, height, cells }
    }

    /// Paints `cell` at column `x` of row `y`; a position outside the frame
    /// leaves it unchanged.
    pub fn set(&mut self, x: usize, y: usize, cell: ScreenCell)
        requires
            old(self).well_formed(),
        ensures
            final(self).well_formed(),
            final(self)@.width == old(self)@.width,
            final(self)@.height == old(self)@.height,
            final(self)@.cells == if x < old(self)@.width && y < old(self)@.height {
                old(self)@.cells.update((y * old(self)@.width + x) as int, Some(cell))
            } else {
                old(self)@.cells
            },
    {
        if x >= self.width || y >= self.height {
            return;
        }
        proof {
            lemma_row_index(x as nat, y as nat, self.width as nat, self.height as nat);
        }
        let index = y * self.width + x;
        self.cells.set(index, Some(cell));
    }

    /// Renders each row into a line (a space for an unpainted cell, the text
    /// that `render_cell` gives for a painted one) and centers every line in
    /// `resolved_width` columns.
    pub fn render_lines<F>(&self, resolved_width: usize, render_cell: F) -> (lines: Vec<String>) where
        F: Fn(ScreenCell) -> String,

        requires
            self.well_formed(),
            forall|cell: ScreenCell| render_cell.requires((cell,)),
        ensures
            lines@.len() == self@.height,
            forall|y: int|
                0 <= y < self@.height ==> rendered_line(
                    frame_row(self@, y as nat),
                    #[trigger] lines@[y]@,
                    resolved_width as nat,
                    render_cell,
                ),
    {
        let width = self.width;
        let height = self.height;
        let mut raw: Vec<String> = Vec::new();
        let ghost mut all_pieces: Seq<Seq<Option<String>>> = Seq::empty();
        let mut y: usize = 0;
        while y < height
            invariant
                width == self@.width,
                height == self@.height,
                self.cells@.len() == width * height,
                width * height <= usize::MAX,
                forall|cell: ScreenCell| render_cell.requires((cell,)),
                y <= height,
                raw@.len() == y,
                all_pieces.len() == y,
                forall|k: int|
                    0 <= k < y ==> rendered_pieces(
                        frame_row(self@, k as nat),
                        #[trigger] all_pieces[k],
                        render_cell,
                    ) && raw@[k]@ == joined_pieces(all_pieces[k]),
            decreases height - y,
        {
            let mut line = String::new();
            let ghost mut pieces: Seq<Option<String>> = Seq::empty();
            let ghost row = frame_row(self@, y as nat);
            proof {
                if width > 0 {
                    lemma_row_index(0, y as nat, width as nat, height as nat);
                }
                assert(y * width + width <= width * height) by (nonlinear_arith)
                    requires
                        y < height,
                ;
            }
            let mut x: usize = 0;
            while x < width
                invariant
                    width == self@.width,
                    height == self@.height,
                    self.cells@.len() == width * height,
                    width * height <= usize::MAX,
                    y < height,
                    y * width + width <= width * height,
                    row == frame_row(self@, y as nat),
                    forall|cell: ScreenCell| render_cell.requires((cell,)),
                    x <= width,
                    pieces.len() == x,
                    rendered_pieces(row.take(x as int), pieces, render_cell),
                    line@ == joined_pieces(pieces),
                decreases width - x,
            {
                proof {
                    lemma_row_index(x as nat, y as nat, width as nat, height as nat);
                }
                let index = y * width + x;
                let ghost prev = pieces;
                assert(row[x as int] == self.cells@[index as int]);
                match self.cells[index] {
                    Some(cell) => {
                        let text = render_cell(cell);
                        line.append(text.as_str());
                        proof {
                            pieces = pieces.push(Some(text));
                        }
                    },
                    None => {
                        push_char(&mut line, ' ');
                        proof {
                            pieces = pieces.push(None);
                        }
                    },
                }
                proof {
                    assert(pieces.drop_last() == prev);
                }
                x = x + 1;
                proof {
                    assert forall|i: int| 0 <= i < x implies match #[trigger] row.take(
                        x as int,
                    )[i] {
                        Some(cell) => pieces[i] matches Some(text) && render_cell.ensures(
                            (cell,),
                            text,
                        ),
                        None => pieces[i] is None,
                    } by {
                        if i < x - 1 {
                            assert(row.take(x as int)[i] == row.take((x - 1) as int)[i]);
                        }
                    }
                }
            }
            assert(row.take(width as int) == row);
            raw.push(line);
            proof {
                all_pieces = all_pieces.push(pieces);
            }
            y = y + 1;
        }
        let lines = center_frame_lines(raw, resolved_width);
        assert forall|y: int| 0 <= y < self@.height implies rendered_line(
            frame_row(self@, y as nat),
            #[trigger] lines@[y]@,
            resolved_width as nat,
            render_cell,
        ) by {
            assert(rendered_pieces(frame_row(self@, y as nat), all_pieces[y], render_cell));
            assert(raw@[y]@ == joined_pieces(all_pieces[y]));
            assert(lines@[y]@ == centered(raw@[y]@, resolved_width as nat));
        }
        lines
    }
}


/// Whether every text that `render_cell` gives for a painted cell of `row`
/// shows as exactly one column, whatever follows it.
pub open spec fn renders_single_columns<F: Fn(ScreenCell) -> String>(
    row: Seq<Option<ScreenCell>>,
    render_cell: F,
) -> bool {
    forall|i: int, text: String, rest: Seq<char>|
        #![trigger render_cell.ensures((row[i]->0,), text), visible_width(text@ + rest)]
        0 <= i < row.len() && row[i] is Some && render_cell.ensures((row[i]->0,), text) ==> visible_width(
            text@ + rest,
        ) == 1 + visible_width(rest)
}

proof fn lemma_joined_width<F: Fn(ScreenCell) -> String>(
    row: Seq<Option<ScreenCell>>,
    pieces: Seq<Option<String>>,
    render_cell: F,
    rest: Seq<char>,
)
    requires
        rendered_pieces(row, pieces, render_cell),
        renders_single_columns(row, render_cell),
    ensures
        visible_width(joined_pieces(pieces) + rest) == pieces.len() + visible_width(rest),
    decreases pieces.len(),
{
    if pieces.len() > 0 {
        let n = pieces.len() - 1;
        let last_text = match pieces.last() {
            Some(text) => text@,
            None => seq![' '],
        };
        let front = row.drop_last();
        assert forall|i: int| 0 <= i < front.len() implies match #[trigger] front[i] {
            Some(cell) => pieces.drop_last()[i] matches Some(text) && render_cell.ensures((cell,), text),
            None => pieces.drop_last()[i] is None,
        } by {
            assert(front[i] == row[i]);
            match row[i] {
                Some(cell) => {},
                None => {},
            }
        }
        assert forall|i: int, text: String, more: Seq<char>|
            0 <= i < front.len() && front[i] is Some && #[trigger] render_cell.ensures((front[i]->0,), text)
                implies #[trigger] visible_width(text@ + more) == 1 + visible_width(more) by {
            assert(front[i] == row[i]);
        }
        lemma_joined_width(front, pieces.drop_last(), render_cell, last_text + rest);
        assert(joined_pieces(pieces) + rest == joined_pieces(pieces.drop_last()) + (last_text + rest));
        match row[n] {
            Some(cell) => {
                let text = pieces[n]->0;
                assert(render_cell.ensures((row[n]->0,), text));
                assert(visible_width(text@ + rest) == 1 + visible_width(rest));
            },
            None => {
                assert(escape_free(seq![' ']));
                lemma_visible_width_plain_prefix(seq![' '], rest);
            },
        }
    }
}

/// A rendered row shows exactly its own width in columns, or the width it
/// is centered in when that is wider, when every painted cell renders as a
/// single visible column.
pub proof fn lemma_rendered_line_width<F: Fn(ScreenCell) -> String>(
    row: Seq<Option<ScreenCell>>,
    line: Seq<char>,
    width: nat,
    render_cell: F,
)
    requires
        rendered_line(row, line, width, render_cell),
        renders_single_columns(row, render_cell),
    ensures
        visible_width(line) == if row.len() >= width {
            row.len()
        } else {
            width
        },
{
    let pieces = choose|pieces: Seq<Option<String>>|
        rendered_pieces(row, pieces, render_cell) && line == centered(joined_pieces(pieces), width);
    let joined = joined_pieces(pieces);
    lemma_joined_width(row, pieces, render_cell, Seq::empty());
    assert(joined + Seq::<char>::empty() == joined);
    assert(visible_width(Seq::<char>::empty()) == 0);
    if row.len() < width {
        let left = ((width - row.len()) as nat) / 2;
        let right = (width - row.len() - left) as nat;
        assert(escape_free(spaces(left)));
        assert(escape_free(spaces(right)));
        lemma_visible_width_plain(spaces(right));
        lemma_joined_width(row, pieces, render_cell, spaces(right));
        lemma_visible_width_plain_prefix(spaces(left), joined + spaces(right));
        assert(line == spaces(left) + (joined + spaces(right)));
    }
}


proof fn lemma_blank_pieces(pieces: Seq<Option<String>>)
    requires
        forall|i: int| 0 <= i < pieces.len() ==> (#[trigger] pieces[i]) is None,
    ensures
        joined_pieces(pieces) == spaces(pieces.len()),
    decreases pieces.len(),
{
    if pieces.len() > 0 {
        let front = pieces.drop_last();
        assert forall|i: int| 0 <= i < front.len() implies (#[trigger] front[i]) is None by {
            assert(front[i] == pieces[i]);
        }
        lemma_blank_pieces(front);
        assert(pieces.last() is None);
        assert(spaces(front.len()).push(' ') =~= spaces(pieces.len()));
        assert(joined_pieces(pieces) == spaces(front.len()) + seq![' ']);
        assert(spaces(front.len()) + seq![' '] =~= spaces(front.len()).push(' '));
    }
}

/// Cells that were never painted render as spaces, and the renderer is
/// given none of them: a row with no painted cell renders as that many
/// spaces, centered. So a fresh frame renders as blank lines of its width.
pub proof fn lemma_empty_row_renders_blank<F: Fn(ScreenCell) -> String>(
    row: Seq<Option<ScreenCell>>,
    line: Seq<char>,
    width: nat,
    render_cell: F,
)
    requires
        rendered_line(row, line, width, render_cell),
        forall|i: int| 0 <= i < row.len() ==> (#[trigger] row[i]) is None,
    ensures
        line == centered(spaces(row.len()), width),
        row.len() >= width ==> line == spaces(row.len()),
{
    let pieces = choose|pieces: Seq<Option<String>>|
        rendered_pieces(row, pieces, render_cell) && line == centered(joined_pieces(pieces), width);
    assert forall|i: int| 0 <= i < pieces.len() implies (#[trigger] pieces[i]) is None by {
        assert(row[i] is None);
    }
    lemma_blank_pieces(pieces);
    if row.len() >= width {
        assert(escape_free(spaces(row.len())));
        lemma_visible_width_plain(spaces(row.len()));
    }
}

} // verus!
