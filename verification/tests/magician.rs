use yazelix_screen::magician::{
    bundled_magician_asset_path, default_magician_frame_dir, default_magician_gif_path,
    imagemagick_failure_message, is_generated_magician_frame, magician_frame_output_pattern, join_path, magician_cache_frame_dir, plan_magician_frame_dir,
    source_magician_asset_path, MagicianFrameDirPlan,
};
use yazelix_screen::{
    magician_frame_path, magician_frame_sequence, magician_frame_sequence_with_edge_insets,
    MAGICIAN_EDGE_INSET_COLUMNS, MAGICIAN_EDGE_INSET_ROWS, MAGICIAN_FRAME_COUNT,
    MAGICIAN_FRAME_DELAY_MS, MAGICIAN_FRAME_DIR_NAME, MAGICIAN_GIF_NAME,
};

#[test]
fn magician_frame_sequence_uses_owned_asset_contract() {
    let frame_dir = "/frames";
    let sequence = magician_frame_sequence(frame_dir, 77, Some("credit".to_string()));

    assert_eq!(sequence.frame_paths.len(), MAGICIAN_FRAME_COUNT);
    assert_eq!(sequence.frame_paths[0], "/frames/frame_000.png");
    assert_eq!(
        sequence.frame_paths[MAGICIAN_FRAME_COUNT - 1],
        "/frames/frame_197.png"
    );
    assert_eq!(
        magician_frame_path(frame_dir, MAGICIAN_FRAME_COUNT),
        sequence.frame_paths[0]
    );
    assert_eq!(sequence.frame_delay_ms, MAGICIAN_FRAME_DELAY_MS);
    assert_eq!(sequence.image_id, 77);
    assert_eq!(sequence.attribution.as_deref(), Some("credit"));
    assert_eq!(sequence.edge_inset_columns, MAGICIAN_EDGE_INSET_COLUMNS);
    assert_eq!(sequence.edge_inset_rows, MAGICIAN_EDGE_INSET_ROWS);
}

#[test]
fn magician_frame_sequence_accepts_consumer_owned_edge_insets() {
    let frame_dir = "/runtime/magician";
    let sequence =
        magician_frame_sequence_with_edge_insets(frame_dir, 77, Some("credit".to_string()), 12, 14);

    assert_eq!(sequence.edge_inset_columns, 12);
    assert_eq!(sequence.edge_inset_rows, 14);
}

#[test]
fn magician_frame_names_are_zero_padded_and_wrap() {
    assert_eq!(magician_frame_path("/f", 7), "/f/frame_007.png");
    assert_eq!(magician_frame_path("/f/", 42), "/f/frame_042.png");
    assert_eq!(magician_frame_path("", 199), "frame_001.png");
    assert_eq!(magician_frame_path("rel", usize::MAX), format!("rel/frame_{:03}.png", usize::MAX % 198));
    assert_eq!(MAGICIAN_FRAME_DELAY_MS, 90);
}

#[test]
fn asset_paths_join_components() {
    assert_eq!(join_path("a", "b"), "a/b");
    assert_eq!(join_path("a/", "b"), "a/b");
    assert_eq!(join_path("", "b"), "b");
    assert_eq!(
        source_magician_asset_path("/src", MAGICIAN_GIF_NAME),
        "/src/assets/third_party/ascii_magician_1mposter.gif"
    );
    assert_eq!(
        bundled_magician_asset_path("/nix/store/x", MAGICIAN_FRAME_DIR_NAME),
        "/nix/store/x/share/yazelix_screen/ascii_magician_1mposter_frames"
    );
}

#[test]
fn cache_dir_prefers_xdg_then_home() {
    assert_eq!(
        magician_cache_frame_dir(Some("/xdg"), Some("/home/u")),
        Some("/xdg/yazelix_screen/ascii_magician_1mposter_frames".to_string())
    );
    assert_eq!(
        magician_cache_frame_dir(Some(""), Some("/home/u")),
        Some("/home/u/.cache/yazelix_screen/ascii_magician_1mposter_frames".to_string())
    );
    assert_eq!(
        magician_cache_frame_dir(None, Some("/home/u")),
        Some("/home/u/.cache/yazelix_screen/ascii_magician_1mposter_frames".to_string())
    );
    assert_eq!(magician_cache_frame_dir(None, Some("")), None);
    assert_eq!(magician_cache_frame_dir(None, None), None);
}

#[test]
fn missing_frames_are_named_in_order() {
    let all_present = vec![true; MAGICIAN_FRAME_COUNT];
    assert_eq!(
        yazelix_screen::magician::require_magician_frame_assets("/frames", &all_present),
        Ok(())
    );
    assert!(yazelix_screen::magician::magician_frame_assets_available(
        "/frames",
        &all_present
    ));

    let mut gaps = vec![true; MAGICIAN_FRAME_COUNT];
    gaps[12] = false;
    gaps[40] = false;
    assert_eq!(
        yazelix_screen::magician::require_magician_frame_assets("/frames", &gaps),
        Err("Missing magician GIF frame asset: /frames/frame_012.png".to_string())
    );
    assert!(!yazelix_screen::magician::magician_frame_assets_available(
        "/frames", &gaps
    ));

    let short = vec![true; 5];
    assert_eq!(
        yazelix_screen::magician::require_magician_frame_assets("/frames/", &short),
        Err("Missing magician GIF frame asset: /frames/frame_005.png".to_string())
    );
}

#[test]
fn frame_dir_prefers_bundled_then_source_then_cache() {
    let bundled = Some(("/pkg".to_string(), true));
    let source = ("/src".to_string(), true);
    let cache = Some(("/cache".to_string(), true));
    assert_eq!(
        default_magician_frame_dir(bundled.clone(), source.clone(), cache.clone()),
        Some("/pkg".to_string())
    );
    assert_eq!(
        default_magician_frame_dir(Some(("/pkg".to_string(), false)), source.clone(), cache.clone()),
        Some("/src".to_string())
    );
    assert_eq!(
        default_magician_frame_dir(None, ("/src".to_string(), false), cache.clone()),
        Some("/cache".to_string())
    );
    assert_eq!(
        default_magician_frame_dir(None, ("/src".to_string(), false), Some(("/cache".to_string(), false))),
        None
    );
    assert_eq!(default_magician_frame_dir(None, ("/src".to_string(), false), None), None);
}

#[test]
fn gif_path_prefers_bundled_then_source() {
    assert_eq!(
        default_magician_gif_path(Some(("/pkg.gif".to_string(), true)), ("/src.gif".to_string(), true)),
        Some("/pkg.gif".to_string())
    );
    assert_eq!(
        default_magician_gif_path(Some(("/pkg.gif".to_string(), false)), ("/src.gif".to_string(), true)),
        Some("/src.gif".to_string())
    );
    assert_eq!(
        default_magician_gif_path(None, ("/src.gif".to_string(), false)),
        None
    );
}

#[test]
fn frame_dir_plan_uses_found_frames_or_generates_into_cache() {
    assert_eq!(
        plan_magician_frame_dir(Some("/frames".to_string()), None, None),
        Ok(MagicianFrameDirPlan::Ready("/frames".to_string()))
    );
    assert_eq!(
        plan_magician_frame_dir(None, Some("/a.gif".to_string()), Some("/cache".to_string())),
        Ok(MagicianFrameDirPlan::Generate {
            gif_path: "/a.gif".to_string(),
            frame_dir: "/cache".to_string(),
        })
    );
    assert_eq!(
        plan_magician_frame_dir(None, None, Some("/cache".to_string())),
        Err(format!("Missing magician source GIF asset: {MAGICIAN_GIF_NAME}"))
    );
    assert_eq!(
        plan_magician_frame_dir(None, Some("/a.gif".to_string()), None),
        Err(
            "Could not resolve a cache directory for magician PNG frames; set XDG_CACHE_HOME or HOME"
                .to_string()
        )
    );
}

#[test]
fn generated_frames_are_recognized_by_name_and_extension() {
    assert!(is_generated_magician_frame("frame_000.png"));
    assert!(is_generated_magician_frame("frame_197.PNG"));
    assert!(is_generated_magician_frame("frame_.pNg"));
    assert!(is_generated_magician_frame("frame_a.b.png"));
    assert!(!is_generated_magician_frame("frame_000.png.bak"));
    assert!(!is_generated_magician_frame("frame_000.jpg"));
    assert!(!is_generated_magician_frame("Frame_000.png"));
    assert!(!is_generated_magician_frame("cover.png"));
    assert!(!is_generated_magician_frame("frame_png"));
    assert!(!is_generated_magician_frame("frame_"));
}

#[test]
fn generation_names_its_pattern_and_failures() {
    assert_eq!(magician_frame_output_pattern("/cache/frames"), "/cache/frames/frame_%03d.png");
    assert_eq!(magician_frame_output_pattern("/cache/frames/"), "/cache/frames/frame_%03d.png");
    assert_eq!(
        imagemagick_failure_message("/a.gif", "  no decode delegate\n"),
        "ImageMagick failed to generate magician PNG frames from /a.gif: no decode delegate"
    );
}
