use yazelix_screen::kitty_frames::{
    base64_encode_bytes, kitty_cleanup_output, kitty_playback_next_frame, kitty_playback_result,
    kitty_png_frame_output, KittyFrameError,
};
use yazelix_screen::{
    kitty_delete_image_command, kitty_frame_layout, kitty_png_file_command, KittyFrameLayout,
    KittyFrameSequence,
};

#[test]
fn kitty_frame_layout_preserves_edge_inset() {
    assert_eq!(
        kitty_frame_layout(120, 40, 8, 8),
        KittyFrameLayout {
            columns: 46,
            rows: 23,
            top_padding: 8,
            left_padding: 37,
        }
    );
}

#[test]
fn kitty_commands_use_file_payload_z_index_and_full_cleanup() {
    let command = kitty_png_file_command(123, 80, 40, "/tmp/frame.png");
    assert!(command.starts_with("\u{1b}_Ga=T,f=100,t=f,i=123,p=1,c=80,r=40,C=1,z=-1,q=2;"));
    assert!(command.contains("L3RtcC9mcmFtZS5wbmc="));
    assert!(command.ends_with("\u{1b}\\"));

    let delete_command = kitty_delete_image_command(123);
    assert!(delete_command.contains("\u{1b}_Ga=d,d=i,i=123,p=1,q=2;\u{1b}\\"));
    assert!(delete_command.contains("\u{1b}_Ga=d,d=I,i=123,q=2;\u{1b}\\"));
}

#[test]
fn kitty_layout_handles_tiny_and_huge_terminals() {
    assert_eq!(
        kitty_frame_layout(0, 0, 0, 0),
        KittyFrameLayout {
            columns: 1,
            rows: 1,
            top_padding: 0,
            left_padding: 0,
        }
    );
    assert_eq!(
        kitty_frame_layout(10, 100, 0, 0),
        KittyFrameLayout {
            columns: 10,
            rows: 5,
            top_padding: 47,
            left_padding: 0,
        }
    );
    assert_eq!(
        kitty_frame_layout(80, 24, 100, 100),
        KittyFrameLayout {
            columns: 1,
            rows: 1,
            top_padding: 11,
            left_padding: 39,
        }
    );
    let huge = kitty_frame_layout(usize::MAX, usize::MAX, usize::MAX, 0);
    assert_eq!(huge.rows, 1);
    assert_eq!(huge.columns, 1);
}

#[test]
fn base64_matches_the_standard_alphabet_and_padding() {
    assert_eq!(base64_encode_bytes(b""), "");
    assert_eq!(base64_encode_bytes(b"f"), "Zg==");
    assert_eq!(base64_encode_bytes(b"fo"), "Zm8=");
    assert_eq!(base64_encode_bytes(b"foo"), "Zm9v");
    assert_eq!(base64_encode_bytes(b"foobar"), "Zm9vYmFy");
    assert_eq!(base64_encode_bytes(&[0xff, 0xfe, 0xfd]), "//79");
    assert_eq!(base64_encode_bytes("/tmp/frame.png".as_bytes()), "L3RtcC9mcmFtZS5wbmc=");
}

#[test]
fn kitty_commands_are_exact() {
    assert_eq!(
        kitty_png_file_command(7, 4, 2, "a"),
        "\u{1b}_Ga=T,f=100,t=f,i=7,p=1,c=4,r=2,C=1,z=-1,q=2;YQ==\u{1b}\\"
    );
    assert_eq!(
        kitty_delete_image_command(0),
        "\u{1b}_Ga=d,d=i,i=0,p=1,q=2;\u{1b}\\\u{1b}_Ga=d,d=I,i=0,q=2;\u{1b}\\"
    );
    assert_eq!(
        kitty_cleanup_output(5),
        format!("{}\u{1b}[1;1H\u{1b}[2J", kitty_delete_image_command(5))
    );
}

fn sequence(paths: Vec<String>, attribution: Option<String>) -> KittyFrameSequence {
    KittyFrameSequence {
        frame_paths: paths,
        frame_delay_ms: 90,
        image_id: 9,
        attribution,
        edge_inset_columns: 0,
        edge_inset_rows: 0,
    }
}

#[test]
fn kitty_frame_output_places_the_selected_frame() {
    let frames = sequence(vec!["a".to_string(), "b".to_string()], Some("hi".to_string()));
    let output = kitty_png_frame_output(&frames, 6, 4, 3).unwrap();
    let layout = kitty_frame_layout(6, 4, 0, 0);
    assert_eq!(layout.rows, 3);
    assert_eq!(layout.columns, 6);
    let expected = format!(
        "\u{1b}[1;1H\u{1b}[2J{}{}{}\n\n\n  hi  \n",
        "\n".repeat(layout.top_padding),
        " ".repeat(layout.left_padding),
        kitty_png_file_command(9, 6, 3, "b")
    );
    assert_eq!(output, expected);

    let silent = sequence(vec!["a".to_string()], None);
    assert!(kitty_png_frame_output(&silent, 6, 4, 5).unwrap().ends_with("\u{1b}\\\n\n\n"));

    let empty = sequence(Vec::new(), None);
    assert_eq!(
        kitty_png_frame_output(&empty, 80, 24, 0),
        Err(KittyFrameError::NoFramePaths)
    );
    let empty_with_huge_inset = KittyFrameSequence {
        edge_inset_rows: usize::MAX,
        ..sequence(Vec::new(), None)
    };
    assert_eq!(
        kitty_png_frame_output(&empty_with_huge_inset, 80, 24, 0),
        Err(KittyFrameError::NoFramePaths)
    );
}

#[test]
fn kitty_playback_stops_on_key_or_elapsed_duration() {
    assert_eq!(kitty_playback_next_frame(0, false, 0, None, 90), Some(1));
    assert_eq!(kitty_playback_next_frame(4, true, 0, None, 90), None);
    assert_eq!(kitty_playback_next_frame(usize::MAX, true, 0, None, 90), None);
    assert_eq!(kitty_playback_next_frame(4, false, 999, Some(1000), 90), Some(5));
    assert_eq!(kitty_playback_next_frame(4, false, 1000, Some(1000), 90), None);
    // The requested duration never cuts playback below one frame delay.
    assert_eq!(kitty_playback_next_frame(0, false, 50, Some(10), 90), Some(1));
    assert_eq!(kitty_playback_next_frame(0, false, 90, Some(10), 90), None);

    let ok: Result<(), &str> = Ok(());
    assert_eq!(kitty_playback_result(Err("play"), Err("cleanup")), Err("play"));
    assert_eq!(kitty_playback_result(ok, Err("cleanup")), Err("cleanup"));
    assert_eq!(kitty_playback_result::<&str>(Ok(()), Ok(())), Ok(()));
}

fn decode_base64(text: &str) -> Vec<u8> {
    const TABLE: &str = "ABCDEFGHIJKLMNOPQRSTUVWXYZabcdefghijklmnopqrstuvwxyz0123456789+/";
    let symbols: Vec<char> = text.chars().collect();
    let mut bytes = Vec::new();
    for group in symbols.chunks(4) {
        let value = |ch: char| TABLE.find(ch).map(|v| v as u32).unwrap_or(0);
        let packed = (value(group[0]) << 18) | (value(group[1]) << 12) | (value(group[2]) << 6) | value(group[3]);
        bytes.push((packed >> 16) as u8);
        if group[2] != '=' {
            bytes.push((packed >> 8) as u8);
        }
        if group[3] != '=' {
            bytes.push(packed as u8);
        }
    }
    bytes
}

#[test]
fn base64_pads_exactly_and_decodes_back() {
    let source: Vec<u8> = (0u8..=255).rev().collect();
    for n in 0..10 {
        let bytes = &source[..n];
        let encoded = base64_encode_bytes(bytes);
        assert_eq!(encoded.len(), 4 * ((n + 2) / 3));
        let padding = (3 - n % 3) % 3;
        assert!(encoded.ends_with(&"=".repeat(padding)));
        assert_eq!(encoded.matches('=').count(), padding);
        assert_eq!(decode_base64(&encoded), bytes);
    }
    assert_eq!(decode_base64(&base64_encode_bytes(&source)), source);
}
