use yazelix_screen::terminal_control::{
    clear_screen_sequence, enter_screen_mode_output, leave_screen_mode_output, styled,
};
use yazelix_screen::text::{terminal_height_from, terminal_width_from};
use yazelix_screen::{
    center_frame_lines, center_text, screen_frame_output, visible_line_width, ScreenCell,
    ScreenFrame,
};

#[test]
fn screen_frame_output_addresses_rows_without_newlines() {
    let output = screen_frame_output(&["aaaaaaaa".to_string(), "bbbbbbbb".to_string()]);
    assert!(!output.contains('\n'));
    assert!(output.contains("aaaaaaaa"));
    assert!(output.contains("bbbbbbbb"));
    assert_eq!(visible_line_width(&output), "aaaaaaaabbbbbbbb".len());
}

#[test]
fn screen_frame_output_is_home_clear_then_addressed_rows() {
    let output = screen_frame_output(&["ab".to_string(), "c".to_string()]);
    assert_eq!(
        output,
        "\u{1b}[1;1H\u{1b}[2J\u{1b}[1;1H\u{1b}[2Kab\u{1b}[2;1H\u{1b}[2Kc"
    );
    assert_eq!(screen_frame_output(&[]), "\u{1b}[1;1H\u{1b}[2J");
    assert_eq!(clear_screen_sequence(), "\u{1b}[1;1H\u{1b}[2J");
}

#[test]
fn visible_width_skips_control_sequences() {
    assert_eq!(visible_line_width(""), 0);
    assert_eq!(visible_line_width("plain"), 5);
    assert_eq!(visible_line_width("\u{1b}[31mred\u{1b}[0m"), 3);
    assert_eq!(visible_line_width("█▀▄"), 3);
    // An escape that does not start a control sequence is counted.
    assert_eq!(visible_line_width("\u{1b}x"), 2);
    // An unterminated control sequence hides the rest of the line.
    assert_eq!(visible_line_width("ab\u{1b}[12;3"), 2);
    assert_eq!(visible_line_width(&styled('█', 208)), 1);
}

#[test]
fn center_text_splits_spare_columns() {
    assert_eq!(center_text("abc", 8), "  abc   ");
    assert_eq!(center_text("abc", 3), "abc");
    assert_eq!(center_text("abcdef", 3), "abcdef");
    assert_eq!(center_text("", 2), "  ");
    assert_eq!(center_text("\u{1b}[32mok\u{1b}[0m", 4), " \u{1b}[32mok\u{1b}[0m ");
    assert_eq!(
        center_frame_lines(vec!["a".to_string(), "bb".to_string()], 4),
        vec![" a  ".to_string(), " bb ".to_string()]
    );
}

#[test]
fn frame_cells_render_centered_rows() {
    let mut frame = ScreenFrame::new(3, 2);
    frame.set(
        1,
        0,
        ScreenCell {
            glyph: 'x',
            color_x: 0,
            color_y: 0,
        },
    );
    frame.set(
        2,
        1,
        ScreenCell {
            glyph: 'y',
            color_x: 0,
            color_y: 0,
        },
    );
    // Out of range positions are ignored.
    frame.set(
        3,
        0,
        ScreenCell {
            glyph: 'z',
            color_x: 0,
            color_y: 0,
        },
    );
    frame.set(
        0,
        2,
        ScreenCell {
            glyph: 'z',
            color_x: 0,
            color_y: 0,
        },
    );
    let lines = frame.render_lines(5, |cell: ScreenCell| cell.glyph.to_string());
    assert_eq!(lines, vec!["  x  ".to_string(), "   y ".to_string()]);
    let empty = ScreenFrame::new(0, 2);
    assert_eq!(
        empty.render_lines(2, |cell: ScreenCell| cell.glyph.to_string()),
        vec!["  ".to_string(), "  ".to_string()]
    );
}

#[test]
fn styled_glyph_uses_palette_escape_and_reset() {
    assert_eq!(styled('x', 33), "\u{1b}[38;5;33mx\u{1b}[39m");
}

#[test]
fn terminal_size_prefers_positive_override_then_terminal_then_fallback() {
    assert_eq!(terminal_width_from(Some(" 132 "), Some((100, 40))), 132);
    assert_eq!(terminal_width_from(Some("0"), Some((100, 40))), 100);
    assert_eq!(terminal_width_from(Some("wide"), Some((100, 40))), 100);
    assert_eq!(terminal_width_from(Some("-5"), None), 80);
    assert_eq!(terminal_width_from(None, None), 80);
    assert_eq!(terminal_height_from(Some("50"), Some((100, 40))), 50);
    assert_eq!(terminal_height_from(None, Some((100, 40))), 40);
    assert_eq!(terminal_height_from(Some(""), None), 24);
}

#[test]
fn screen_mode_switches_write_private_mode_sequences() {
    assert_eq!(
        enter_screen_mode_output(),
        "\u{1b}[?1049h\u{1b}[?25l\u{1b}[?7l\u{1b}[2J\u{1b}[1;1H"
    );
    assert_eq!(
        leave_screen_mode_output(),
        "\u{1b}[?7h\u{1b}[?25h\u{1b}[?1049l"
    );
    assert_eq!(visible_line_width(&enter_screen_mode_output()), 0);
    assert_eq!(visible_line_width(&leave_screen_mode_output()), 0);
}

#[test]
fn fresh_frames_render_blank_without_calling_the_renderer() {
    let frame = ScreenFrame::new(5, 2);
    let lines = frame.render_lines(5, |_cell: ScreenCell| -> String {
        panic!("no cell is painted")
    });
    assert_eq!(lines, vec!["     ".to_string(); 2]);
    let wide = frame.render_lines(9, |_cell: ScreenCell| -> String { panic!("no cell is painted") });
    assert_eq!(wide, vec!["  ".to_string() + "     " + "  "; 2]);
}
