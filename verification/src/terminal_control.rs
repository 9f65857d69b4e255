//! ANSI control sequences written by crossterm, and the full-screen frame
//! output built from them.

use crate::text::{
    decimal, escape_free, is_ascii_alpha, is_digit_char, lemma_decimal_digits,
    lemma_visible_width_csi_prefix, lemma_visible_width_plain_prefix, push_char, visible_width,
    ESC,
};
use crossterm::Command;
use vstd::prelude::*;

verus! {

/// `SGR 38;5;n`: selects the 256-color palette entry `n` as foreground.
pub open spec fn foreground_sequence(color_index: u8) -> Seq<char> {
    seq![ESC, '[', '3', '8', ';', '5', ';'] + decimal(color_index as nat) + seq!['m']
}

/// `SGR 39`: resets the foreground color.
pub open spec fn foreground_reset_sequence() -> Seq<char> {
    seq![ESC, '[', '3', '9', 'm']
}

/// `CUP`: moves the cursor to a zero-based column and row (written one-based,
/// row first).
pub open spec fn move_to_sequence(column: nat, row: nat) -> Seq<char> {
    seq![ESC, '['] + decimal(row + 1) + seq![';'] + decimal(column + 1) + seq!['H']
}

/// What a clear command erases.
#[derive(Debug, Clone, Copy, PartialEq, Eq)]
pub enum ClearKind {
    /// The whole screen.
    All,
    /// The line that holds the cursor.
    CurrentLine,
}

/// `ED 2` (whole screen) or `EL 2` (current line).
pub open spec fn clear_sequence(kind: ClearKind) -> Seq<char> {
    match kind {
        ClearKind::All => seq![ESC, '[', '2', 'J'],
        ClearKind::CurrentLine => seq![ESC, '[', '2', 'K'],
    }
}

/// crossterm's `force_color_output(true)` followed by
/// `SetForegroundColor(Color::AnsiValue(color_index)).write_ansi`. With
/// color output forced on, crossterm writes `ESC [ 38;5;<index> m`; its
/// named colors (`Red`, `DarkBlue`, ...) write the same sequence with their
/// palette index, so the library names colors by that index.
#[verifier::external_body]
fn foreground_command(color_index: u8) -> (command: String)
    ensures
        command@ == foreground_sequence(color_index),
{
    crossterm::style::force_color_output(true);
    let mut command = String::new();
    let _ = crossterm::style::SetForegroundColor(crossterm::style::Color::AnsiValue(color_index)).write_ansi(
        &mut command,
    );
    command
}

/// crossterm's `force_color_output(true)` followed by
/// `SetForegroundColor(Color::Reset).write_ansi`, which writes `ESC [ 39 m`.
#[verifier::external_body]
fn foreground_reset_command() -> (command: String)
    ensures
        command@ == foreground_reset_sequence(),
{
    crossterm::style::force_color_output(true);
    let mut command = String::new();
    let _ = crossterm::style::SetForegroundColor(crossterm::style::Color::Reset).write_ansi(&mut command);
    command
}

/// crossterm's `MoveTo(column, row).write_ansi`, which writes
/// `ESC [ <row + 1> ; <column + 1> H`. crossterm adds one to each `u16`
/// coordinate, which overflows at `u16::MAX`; `requires` leaves that out.
#[verifier::external_body]
fn move_to_command(column: u16, row: u16) -> (command: String)
    requires
        column < u16::MAX,
        row < u16::MAX,
    ensures
        command@ == move_to_sequence(column as nat, row as nat),
{
    let mut command = String::new();
    let _ = crossterm::cursor::MoveTo(column, row).write_ansi(&mut command);
    command
}

/// crossterm's `Clear(ClearType::All)` or `Clear(ClearType::CurrentLine)`
/// `write_ansi`, which writes `ESC [ 2 J` or `ESC [ 2 K`.
#[verifier::external_body]
fn clear_command(kind: ClearKind) -> (command: String)
    ensures
        command@ == clear_sequence(kind),
{
    let clear_type = match kind {
        ClearKind::All => crossterm::terminal::ClearType::All,
        ClearKind::CurrentLine => crossterm::terminal::ClearType::CurrentLine,
    };
    let mut command = String::new();
    let _ = crossterm::terminal::Clear(clear_type).write_ansi(&mut command);
    command
}

/// `ESC [ ? <mode> <letter>`: a private mode switch.
pub open spec fn private_mode_sequence(mode: Seq<char>, letter: char) -> Seq<char> {
    seq![ESC, '[', '?'] + mode + seq![letter]
}

/// What a switch into or out of the terminal's screen modes writes.
#[derive(Debug, Clone, Copy, PartialEq, Eq)]
pub enum ScreenModeSwitch {
    EnterAlternateScreen,
    LeaveAlternateScreen,
    HideCursor,
    ShowCursor,
    DisableLineWrap,
    EnableLineWrap,
}

/// The sequence of a screen mode switch: modes 1049 (alternate screen), 25
/// (cursor) and 7 (line wrap), set with `h` and reset with `l`.
pub open spec fn screen_mode_sequence(switch: ScreenModeSwitch) -> Seq<char> {
    match switch {
        ScreenModeSwitch::EnterAlternateScreen => private_mode_sequence(seq!['1', '0', '4', '9'], 'h'),
        ScreenModeSwitch::LeaveAlternateScreen => private_mode_sequence(seq!['1', '0', '4', '9'], 'l'),
        ScreenModeSwitch::HideCursor => private_mode_sequence(seq!['2', '5'], 'l'),
        ScreenModeSwitch::ShowCursor => private_mode_sequence(seq!['2', '5'], 'h'),
        ScreenModeSwitch::DisableLineWrap => private_mode_sequence(seq!['7'], 'l'),
        ScreenModeSwitch::EnableLineWrap => private_mode_sequence(seq!['7'], 'h'),
    }
}

/// crossterm's `EnterAlternateScreen.write_ansi`, which writes
/// `ESC [ ? 1049 h`.
#[verifier::external_body]
fn enter_alternate_screen_command() -> (command: String)
    ensures
        command@ == screen_mode_sequence(ScreenModeSwitch::EnterAlternateScreen),
{
    let mut command = String::new();
    let _ = crossterm::terminal::EnterAlternateScreen.write_ansi(&mut command);
    command
}

/// crossterm's `LeaveAlternateScreen.write_ansi`, which writes
/// `ESC [ ? 1049 l`.
#[verifier::external_body]
fn leave_alternate_screen_command() -> (command: String)
    ensures
        command@ == screen_mode_sequence(ScreenModeSwitch::LeaveAlternateScreen),
{
    let mut command = String::new();
    let _ = crossterm::terminal::LeaveAlternateScreen.write_ansi(&mut command);
    command
}

/// crossterm's `cursor::Hide.write_ansi`, which writes `ESC [ ? 25 l`.
#[verifier::external_body]
fn hide_cursor_command() -> (command: String)
    ensures
        command@ == screen_mode_sequence(ScreenModeSwitch::HideCursor),
{
    let mut command = String::new();
    let _ = crossterm::cursor::Hide.write_ansi(&mut command);
    command
}

/// crossterm's `cursor::Show.write_ansi`, which writes `ESC [ ? 25 h`.
#[verifier::external_body]
fn show_cursor_command() -> (command: String)
    ensures
        command@ == screen_mode_sequence(ScreenModeSwitch::ShowCursor),
{
    let mut command = String::new();
    let _ = crossterm::cursor::Show.write_ansi(&mut command);
    command
}

/// crossterm's `DisableLineWrap.write_ansi`, which writes `ESC [ ? 7 l`.
#[verifier::external_body]
fn disable_line_wrap_command() -> (command: String)
    ensures
        command@ == screen_mode_sequence(ScreenModeSwitch::DisableLineWrap),
{
    let mut command = String::new();
    let _ = crossterm::terminal::DisableLineWrap.write_ansi(&mut command);
    command
}

/// crossterm's `EnableLineWrap.write_ansi`, which writes `ESC [ ? 7 h`.
#[verifier::external_body]
fn enable_line_wrap_command() -> (command: String)
    ensures
        command@ == screen_mode_sequence(ScreenModeSwitch::EnableLineWrap),
{
    let mut command = String::new();
    let _ = crossterm::terminal::EnableLineWrap.write_ansi(&mut command);
    command
}

/// Entering the screen mode: the alternate screen, no cursor, no line wrap,
/// then a cleared screen with the cursor home.
pub open spec fn enter_screen_mode_spec() -> Seq<char> {
    screen_mode_sequence(ScreenModeSwitch::EnterAlternateScreen) + screen_mode_sequence(
        ScreenModeSwitch::HideCursor,
    ) + screen_mode_sequence(ScreenModeSwitch::DisableLineWrap) + clear_sequence(ClearKind::All)
        + move_to_sequence(0, 0)
}

/// Leaving the screen mode: line wrap and cursor back, then the main screen.
pub open spec fn leave_screen_mode_spec() -> Seq<char> {
    screen_mode_sequence(ScreenModeSwitch::EnableLineWrap) + screen_mode_sequence(
        ScreenModeSwitch::ShowCursor,
    ) + screen_mode_sequence(ScreenModeSwitch::LeaveAlternateScreen)
}

/// The output that enters the screen mode the animations draw in.
pub fn enter_screen_mode_output() -> (out: String)
    ensures
        out@ == enter_screen_mode_spec(),
{
    let mut out = enter_alternate_screen_command();
    let hide = hide_cursor_command();
    out.append(hide.as_str());
    let no_wrap = disable_line_wrap_command();
    out.append(no_wrap.as_str());
    let clear = clear_command(ClearKind::All);
    out.append(clear.as_str());
    let home = move_to_command(0, 0);
    out.append(home.as_str());
    out
}

/// The output that leaves the screen mode and gives the terminal back.
pub fn leave_screen_mode_output() -> (out: String)
    ensures
        out@ == leave_screen_mode_spec(),
{
    let mut out = enable_line_wrap_command();
    let show = show_cursor_command();
    out.append(show.as_str());
    let leave = leave_alternate_screen_command();
    out.append(leave.as_str());
    out
}

/// `glyph` drawn in the foreground color of palette entry `color_index`,
/// followed by a foreground reset.
pub open spec fn styled_glyph(glyph: char, color_index: u8) -> Seq<char> {
    foreground_sequence(color_index) + seq![glyph] + foreground_reset_sequence()
}

/// Writes `glyph` in the foreground color of palette entry `color_index`.
pub fn styled(glyph: char, color_index: u8) -> (out: String)
    ensures
        out@ == styled_glyph(glyph, color_index),
{
    let mut out = foreground_command(color_index);
    push_char(&mut out, glyph);
    let reset = foreground_reset_command();
    out.append(reset.as_str());
    out
}

/// Moves the cursor home and clears the screen.
pub open spec fn clear_screen_output() -> Seq<char> {
    move_to_sequence(0, 0) + clear_sequence(ClearKind::All)
}

/// The sequence that moves the cursor home and clears the whole screen.
pub fn clear_screen_sequence() -> (out: String)
    ensures
        out@ == clear_screen_output(),
{
    let mut out = move_to_command(0, 0);
    let clear = clear_command(ClearKind::All);
    out.append(clear.as_str());
    out
}

/// One addressed row: cursor to the start of `row`, clear that line, then
/// the line's text.
pub open spec fn row_output(row: nat, line: Seq<char>) -> Seq<char> {
    move_to_sequence(0, row) + clear_sequence(ClearKind::CurrentLine) + line
}

/// The rows of `lines`, the first one addressed at `first_row`.
pub open spec fn rows_output(lines: Seq<Seq<char>>, first_row: nat) -> Seq<char>
    decreases lines.len(),
{
    if lines.len() == 0 {
        Seq::empty()
    } else {
        row_output(first_row, lines[0]) + rows_output(lines.drop_first(), first_row + 1)
    }
}

/// A whole frame: home and clear the screen, then every line addressed to
/// its own row, with no newline between rows.
pub open spec fn frame_output(lines: Seq<Seq<char>>) -> Seq<char> {
    clear_screen_output() + rows_output(lines, 0)
}

/// The output that draws `frame` on an alternate screen: each line is placed
/// by addressing its row, so a full-width line never wraps into the next.
/// crossterm writes row numbers one-based in a `u16`, which overflows for
/// row `u16::MAX`; `requires` leaves out frames that reach that row.
pub fn screen_frame_output(frame: &[String]) -> (out: String)
    requires
        frame@.len() <= u16::MAX,
    ensures
        out@ == frame_output(frame@.map_values(|line: String| line@)),
{
    let ghost lines = frame@.map_values(|line: String| line@);
    let mut out = clear_screen_sequence();
    let mut row: usize = 0;
    assert(lines.skip(0) == lines);
    while row < frame.len()
        invariant
            row <= frame@.len() <= u16::MAX,
            lines == frame@.map_values(|line: String| line@),
            out@ + rows_output(lines.skip(row as int), row as nat) == frame_output(lines),
        decreases frame@.len() - row,
    {
        let ghost before = out@;
        let ghost rest = lines.skip(row as int);
        assert(rest[0] == frame@[row as int]@);
        assert(rest.drop_first() == lines.skip(row + 1));
        let moved = move_to_command(0, row as u16);
        out.append(moved.as_str());
        let clear = clear_command(ClearKind::CurrentLine);
        out.append(clear.as_str());
        out.append(frame[row].as_str());
        assert(out@ == before + row_output(row as nat, rest[0]));
        row = row + 1;
    }
    assert(lines.skip(row as int) == Seq::<Seq<char>>::empty());
    assert(out@ + Seq::<char>::empty() == out@);
    out
}

// ---------------------------------------------------------------------------
// what a terminal shows of the output
// ---------------------------------------------------------------------------

/// The total number of characters of some lines.
pub open spec fn total_len(lines: Seq<Seq<char>>) -> nat
    decreases lines.len(),
{
    if lines.len() == 0 {
        0
    } else {
        lines[0].len() + total_len(lines.drop_first())
    }
}

proof fn lemma_decimal_body(n: nat)
    ensures
        forall|i: int| 0 <= i < decimal(n).len() ==> !is_ascii_alpha(#[trigger] decimal(n)[i]),
        forall|i: int| 0 <= i < decimal(n).len() ==> #[trigger] decimal(n)[i] != ESC,
{
    lemma_decimal_digits(n);
    assert forall|i: int| 0 <= i < decimal(n).len() implies !is_ascii_alpha(
        #[trigger] decimal(n)[i],
    ) by {
        assert(is_digit_char(decimal(n)[i]));
    }
}

/// A cursor movement shows nothing, whatever follows it.
proof fn lemma_move_to_invisible(column: nat, row: nat, rest: Seq<char>)
    ensures
        visible_width(move_to_sequence(column, row) + rest) == visible_width(rest),
{
    let body = decimal(row + 1) + seq![';'] + decimal(column + 1);
    lemma_decimal_body(row + 1);
    lemma_decimal_body(column + 1);
    assert forall|i: int| 0 <= i < body.len() implies !is_ascii_alpha(#[trigger] body[i]) by {
        if i < decimal(row + 1).len() {
            assert(body[i] == decimal(row + 1)[i]);
        } else if i == decimal(row + 1).len() {
            assert(body[i] == ';');
        } else {
            assert(body[i] == decimal(column + 1)[i - decimal(row + 1).len() - 1]);
        }
    }
    assert(move_to_sequence(column, row) + rest == seq![ESC, '['] + body + seq!['H'] + rest);
    lemma_visible_width_csi_prefix(body, 'H', rest);
}

/// A clear command shows nothing, whatever follows it.
proof fn lemma_clear_invisible(kind: ClearKind, rest: Seq<char>)
    ensures
        visible_width(clear_sequence(kind) + rest) == visible_width(rest),
{
    let body = seq!['2'];
    match kind {
        ClearKind::All => {
            assert(clear_sequence(kind) + rest == seq![ESC, '['] + body + seq!['J'] + rest);
            lemma_visible_width_csi_prefix(body, 'J', rest);
        },
        ClearKind::CurrentLine => {
            assert(clear_sequence(kind) + rest == seq![ESC, '['] + body + seq!['K'] + rest);
            lemma_visible_width_csi_prefix(body, 'K', rest);
        },
    }
}

proof fn lemma_rows_visible(lines: Seq<Seq<char>>, first_row: nat)
    requires
        forall|i: int| 0 <= i < lines.len() ==> escape_free(#[trigger] lines[i]),
    ensures
        visible_width(rows_output(lines, first_row)) == total_len(lines),
    decreases lines.len(),
{
    if lines.len() == 0 {
        assert(visible_width(Seq::<char>::empty()) == 0);
    } else {
        let rest = rows_output(lines.drop_first(), first_row + 1);
        assert forall|i: int| 0 <= i < lines.drop_first().len() implies escape_free(
            #[trigger] lines.drop_first()[i],
        ) by {
            assert(lines.drop_first()[i] == lines[i + 1]);
        }
        lemma_rows_visible(lines.drop_first(), first_row + 1);
        assert(escape_free(lines[0]));
        lemma_visible_width_plain_prefix(lines[0], rest);
        lemma_clear_invisible(ClearKind::CurrentLine, lines[0] + rest);
        lemma_move_to_invisible(0, first_row, clear_sequence(ClearKind::CurrentLine) + (lines[0] + rest));
        assert(rows_output(lines, first_row) == move_to_sequence(0, first_row) + (clear_sequence(
            ClearKind::CurrentLine,
        ) + (lines[0] + rest)));
    }
}

/// A frame output shows exactly the characters of its lines: the cursor and
/// clear commands around them count nothing, so lines without escape
/// characters show their full length and nothing else.
pub proof fn lemma_frame_output_shows_lines(lines: Seq<Seq<char>>)
    requires
        forall|i: int| 0 <= i < lines.len() ==> escape_free(#[trigger] lines[i]),
    ensures
        visible_width(frame_output(lines)) == total_len(lines),
{
    lemma_rows_visible(lines, 0);
    let rest = rows_output(lines, 0);
    lemma_clear_invisible(ClearKind::All, rest);
    lemma_move_to_invisible(0, 0, clear_sequence(ClearKind::All) + rest);
    assert(frame_output(lines) == move_to_sequence(0, 0) + (clear_sequence(ClearKind::All) + rest));
}

proof fn lemma_decimal_no_newline(n: nat)
    ensures
        !decimal(n).contains('\n'),
{
    lemma_decimal_digits(n);
    if decimal(n).contains('\n') {
        let i = choose|i: int| 0 <= i < decimal(n).len() && decimal(n)[i] == '\n';
        assert(is_digit_char(decimal(n)[i]));
    }
}

proof fn lemma_rows_no_newline(lines: Seq<Seq<char>>, first_row: nat)
    requires
        forall|i: int| 0 <= i < lines.len() ==> !(#[trigger] lines[i]).contains('\n'),
    ensures
        !rows_output(lines, first_row).contains('\n'),
    decreases lines.len(),
{
    if lines.len() > 0 {
        assert forall|i: int| 0 <= i < lines.drop_first().len() implies !(
        #[trigger] lines.drop_first()[i]).contains('\n') by {
            assert(lines.drop_first()[i] == lines[i + 1]);
        }
        lemma_rows_no_newline(lines.drop_first(), first_row + 1);
        lemma_decimal_no_newline(first_row + 1);
        lemma_decimal_no_newline(1);
        let out = rows_output(lines, first_row);
        let rest = rows_output(lines.drop_first(), first_row + 1);
        let row_part = decimal(first_row + 1);
        let column_part = decimal(1);
        assert(!lines[0].contains('\n'));
        if out.contains('\n') {
            let i = choose|i: int| 0 <= i < out.len() && out[i] == '\n';
            let move_len: int = 2 + row_part.len() as int + 1 + column_part.len() as int + 1;
            let clear_len: int = 4;
            if i < 2 {
            } else if i < 2 + row_part.len() {
                assert(out[i] == row_part[i - 2]);
            } else if i == 2 + row_part.len() {
            } else if i < 3 + row_part.len() + column_part.len() {
                assert(out[i] == column_part[i - 3 - row_part.len()]);
            } else if i < move_len + clear_len {
            } else if i < move_len + clear_len + lines[0].len() {
                assert(out[i] == lines[0][i - move_len - clear_len]);
            } else {
                assert(out[i] == rest[i - move_len - clear_len - lines[0].len()]);
            }
        }
    }
}

/// A frame output holds no newline when its lines hold none: rows are
/// reached by cursor addressing only.
pub proof fn lemma_frame_output_no_newline(lines: Seq<Seq<char>>)
    requires
        forall|i: int| 0 <= i < lines.len() ==> !(#[trigger] lines[i]).contains('\n'),
    ensures
        !frame_output(lines).contains('\n'),
{
    lemma_rows_no_newline(lines, 0);
    lemma_decimal_no_newline(1);
    let out = frame_output(lines);
    let rest = rows_output(lines, 0);
    if out.contains('\n') {
        let i = choose|i: int| 0 <= i < out.len() && out[i] == '\n';
        if i == 2 {
            assert(out[i] == decimal(1)[0]);
        } else if i == 4 {
            assert(out[i] == decimal(1)[0]);
        } else if i >= 10 {
            assert(out[i] == rest[i - 10]);
        }
    }
}

/// A styled glyph shows as exactly one character.
pub proof fn lemma_styled_glyph_width(glyph: char, color_index: u8, rest: Seq<char>)
    requires
        glyph != ESC,
    ensures
        visible_width(styled_glyph(glyph, color_index) + rest) == 1 + visible_width(rest),
{
    let body = seq!['3', '8', ';', '5', ';'] + decimal(color_index as nat);
    lemma_decimal_body(color_index as nat);
    assert forall|i: int| 0 <= i < body.len() implies !is_ascii_alpha(#[trigger] body[i]) by {
        if i >= 5 {
            assert(body[i] == decimal(color_index as nat)[i - 5]);
        }
    }
    let tail = seq![glyph] + foreground_reset_sequence() + rest;
    assert(styled_glyph(glyph, color_index) + rest == seq![ESC, '['] + body + seq!['m'] + tail);
    lemma_visible_width_csi_prefix(body, 'm', tail);
    let reset_body = seq!['3', '9'];
    assert(foreground_reset_sequence() + rest == seq![ESC, '['] + reset_body + seq!['m'] + rest);
    lemma_visible_width_csi_prefix(reset_body, 'm', rest);
    assert(escape_free(seq![glyph]));
    lemma_visible_width_plain_prefix(seq![glyph], foreground_reset_sequence() + rest);
    assert(tail == seq![glyph] + (foreground_reset_sequence() + rest));
}


/// A screen mode switch shows nothing, whatever follows it.
proof fn lemma_screen_mode_invisible(switch: ScreenModeSwitch, rest: Seq<char>)
    ensures
        visible_width(screen_mode_sequence(switch) + rest) == visible_width(rest),
{
    let (mode, letter) = match switch {
        ScreenModeSwitch::EnterAlternateScreen => (seq!['1', '0', '4', '9'], 'h'),
        ScreenModeSwitch::LeaveAlternateScreen => (seq!['1', '0', '4', '9'], 'l'),
        ScreenModeSwitch::HideCursor => (seq!['2', '5'], 'l'),
        ScreenModeSwitch::ShowCursor => (seq!['2', '5'], 'h'),
        ScreenModeSwitch::DisableLineWrap => (seq!['7'], 'l'),
        ScreenModeSwitch::EnableLineWrap => (seq!['7'], 'h'),
    };
    let body = seq!['?'] + mode;
    assert forall|i: int| 0 <= i < body.len() implies !is_ascii_alpha(#[trigger] body[i]) by {
        if i > 0 {
            assert(body[i] == mode[i - 1]);
        }
    }
    assert(screen_mode_sequence(switch) + rest == seq![ESC, '['] + body + seq![letter] + rest);
    lemma_visible_width_csi_prefix(body, letter, rest);
}

/// Entering and leaving the screen mode write control sequences only: a
/// terminal shows none of their characters.
pub proof fn lemma_screen_mode_outputs_invisible()
    ensures
        visible_width(enter_screen_mode_spec()) == 0,
        visible_width(leave_screen_mode_spec()) == 0,
{
    let empty = Seq::<char>::empty();
    assert(visible_width(empty) == 0);
    let home = move_to_sequence(0, 0);
    lemma_move_to_invisible(0, 0, empty);
    assert(home + empty == home);
    let clear = clear_sequence(ClearKind::All);
    lemma_clear_invisible(ClearKind::All, home);
    let no_wrap = screen_mode_sequence(ScreenModeSwitch::DisableLineWrap);
    lemma_screen_mode_invisible(ScreenModeSwitch::DisableLineWrap, clear + home);
    let hide = screen_mode_sequence(ScreenModeSwitch::HideCursor);
    lemma_screen_mode_invisible(ScreenModeSwitch::HideCursor, no_wrap + (clear + home));
    lemma_screen_mode_invisible(
        ScreenModeSwitch::EnterAlternateScreen,
        hide + (no_wrap + (clear + home)),
    );
    assert(enter_screen_mode_spec() == screen_mode_sequence(ScreenModeSwitch::EnterAlternateScreen) + (
    hide + (no_wrap + (clear + home))));

    let leave = screen_mode_sequence(ScreenModeSwitch::LeaveAlternateScreen);
    lemma_screen_mode_invisible(ScreenModeSwitch::LeaveAlternateScreen, empty);
    assert(leave + empty == leave);
    let show = screen_mode_sequence(ScreenModeSwitch::ShowCursor);
    lemma_screen_mode_invisible(ScreenModeSwitch::ShowCursor, leave);
    lemma_screen_mode_invisible(ScreenModeSwitch::EnableLineWrap, show + leave);
    assert(leave_screen_mode_spec() == screen_mode_sequence(ScreenModeSwitch::EnableLineWrap) + (show
        + leave));
}

} // verus!
