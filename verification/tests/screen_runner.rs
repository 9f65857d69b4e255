use yazelix_screen::screen_runner::{
    frame_delay, full_screen_context, parse_screen_args, plan_screen_cli, random_screen_style,
    resolve_style, screen_help_lines, AnimationStyle, ScreenCliPlan, ScreenStyle,
    SCREEN_RANDOM_STYLES,
};
use yazelix_screen::welcome::{
    center_vertically, colorize_body, colorize_logo, logo_frames, size_class, static_card,
};
use yazelix_screen::{BoidsVariant, GameOfLifeCellStyle};

fn strip_ansi(text: &str) -> String {
    let mut out = String::new();
    let mut chars = text.chars().peekable();
    while let Some(ch) = chars.next() {
        if ch == '\x1b' && chars.peek() == Some(&'[') {
            chars.next();
            for inner in chars.by_ref() {
                if inner.is_ascii_alphabetic() {
                    break;
                }
            }
        } else {
            out.push(ch);
        }
    }
    out
}

fn args(values: &[&str]) -> Vec<String> {
    values.iter().map(|value| value.to_string()).collect()
}

#[test]
fn random_pool_includes_static_and_screen_styles() {
    for expected in [
        "static",
        "logo",
        "boids",
        "boids_predator",
        "boids_schools",
        "mandelbrot",
        "game_of_life_gliders",
        "game_of_life_oscillators",
        "game_of_life_bloom",
    ] {
        assert!(SCREEN_RANDOM_STYLES.contains(&expected));
        assert!(resolve_style(expected, None, "yzs").is_ok());
    }
}

#[test]
fn parse_args_accepts_style_cell_style_and_duration() {
    let parsed = parse_screen_args(
        vec![
            "game_of_life_gliders".to_string(),
            "--cell-style".to_string(),
            "dotted".to_string(),
            "--duration-seconds".to_string(),
            "3".to_string(),
        ],
        "yzs",
    )
    .unwrap();

    assert_eq!(parsed.style, "game_of_life_gliders");
    assert_eq!(parsed.cell_style, GameOfLifeCellStyle::Dotted);
    assert_eq!(parsed.duration_seconds, Some(3));
    assert!(!parsed.help);
}

#[test]
fn static_card_uses_yazelix_welcome_copy_without_extra_prompt() {
    let frame = strip_ansi(&static_card(140).join("\n"));
    assert!(frame.contains("YAZELIX"));
    assert!(frame.contains("your reproducible, declarative terminal IDE"));
    assert!(frame.contains("welcome to yazelix"));
    assert!(!frame.contains("just"));
}

#[test]
fn random_style_skips_magician() {
    for index in 0..SCREEN_RANDOM_STYLES.len() * 2 {
        assert_ne!(random_screen_style(Some(index)), "magician");
    }
    assert!(!SCREEN_RANDOM_STYLES.contains(&"magician"));
}

#[test]
fn parse_args_defaults_and_errors() {
    let parsed = parse_screen_args(Vec::new(), "yzs").unwrap();
    assert_eq!(parsed.style, "random");
    assert_eq!(parsed.cell_style, GameOfLifeCellStyle::FullBlock);
    assert_eq!(parsed.duration_seconds, None);
    assert!(!parsed.help);

    assert!(parse_screen_args(args(&["help"]), "yzs").unwrap().help);
    assert!(parse_screen_args(args(&["mandelbrot", "-h"]), "yzs").unwrap().help);
    assert_eq!(
        parse_screen_args(args(&["--cell-style"]), "yzs"),
        Err("missing value after --cell-style".to_string())
    );
    assert_eq!(
        parse_screen_args(args(&["--cell-style", " Squares "]), "yzs"),
        Err("invalid --cell-style value `squares`. Expected full_block or dotted".to_string())
    );
    assert_eq!(
        parse_screen_args(args(&["--cell-style", " FULL_BLOCK "]), "yzs")
            .unwrap()
            .cell_style,
        GameOfLifeCellStyle::FullBlock
    );
    assert_eq!(
        parse_screen_args(args(&["--duration-seconds"]), "yzs"),
        Err("missing value after --duration-seconds".to_string())
    );
    assert_eq!(
        parse_screen_args(args(&["--duration-seconds", "soon"]), "yzs"),
        Err("invalid --duration-seconds value `soon`. Expected positive integer".to_string())
    );
    assert_eq!(
        parse_screen_args(args(&["--duration-seconds", "0"]), "yzs"),
        Err("invalid --duration-seconds value `0`. Expected positive integer".to_string())
    );
    assert_eq!(
        parse_screen_args(args(&["--duration-seconds", " 12 "]), "yzs")
            .unwrap()
            .duration_seconds,
        Some(12)
    );
    assert_eq!(
        parse_screen_args(args(&["boids", "mandelbrot"]), "yzx screen"),
        Err("unexpected argument `mandelbrot`. Try `yzx screen --help`".to_string())
    );
}

#[test]
fn style_names_resolve_after_normalizing() {
    assert_eq!(resolve_style(" STATIC ", None, "yzs"), Ok(ScreenStyle::Static));
    assert_eq!(resolve_style("logo", None, "yzs"), Ok(ScreenStyle::Logo));
    assert_eq!(
        resolve_style("Boids", None, "yzs"),
        Ok(ScreenStyle::Animation(AnimationStyle::Boids(BoidsVariant::Predator)))
    );
    assert_eq!(
        resolve_style("game_of_life_bloom", None, "yzs"),
        Ok(ScreenStyle::Animation(AnimationStyle::GameOfLife("game_of_life_bloom")))
    );
    assert_eq!(
        resolve_style("random", Some(5), "yzs"),
        Ok(ScreenStyle::Animation(AnimationStyle::Mandelbrot))
    );
    assert_eq!(resolve_style("random", Some(9), "yzs"), Ok(ScreenStyle::Static));
    assert!(resolve_style("random", None, "yzs").is_ok());
    assert_eq!(
        resolve_style("magician", None, "yzs"),
        Err("unsupported screen style `magician`. Try `yzs --help`".to_string())
    );
}

#[test]
fn cli_plan_shows_help_or_runs_a_style() {
    assert_eq!(plan_screen_cli(args(&["--help"]), "yzs"), Ok(ScreenCliPlan::ShowHelp));
    assert_eq!(
        plan_screen_cli(args(&["boids_schools", "--duration-seconds", "2"]), "yzs"),
        Ok(ScreenCliPlan::Run {
            style: ScreenStyle::Animation(AnimationStyle::Boids(BoidsVariant::Schools)),
            cell_style: GameOfLifeCellStyle::FullBlock,
            duration_seconds: Some(2),
        })
    );
    assert!(plan_screen_cli(args(&["nope"]), "yzs").is_err());
    assert!(plan_screen_cli(Vec::new(), "yzs").is_ok());
}

#[test]
fn contexts_and_delays_follow_styles() {
    let context = full_screen_context(80, 24);
    assert_eq!(context.inner_width, 80);
    assert_eq!(context.resolved_height, 24);
    assert_eq!(context.size_class, "wide");
    assert_eq!(size_class(43), "narrow");
    assert_eq!(size_class(44), "medium");
    assert_eq!(size_class(72), "wide");
    assert_eq!(size_class(120), "hero");
    assert_eq!(frame_delay(AnimationStyle::Boids(BoidsVariant::Predator)), 70);
    assert_eq!(frame_delay(AnimationStyle::Mandelbrot), 55);
    assert_eq!(frame_delay(AnimationStyle::GameOfLife("game_of_life_gliders")), 160);
}

#[test]
fn welcome_card_colors_and_layout() {
    assert_eq!(
        colorize_logo("a b"),
        "\u{1b}[31ma\u{1b}[0m \u{1b}[33mb\u{1b}[0m"
    );
    assert_eq!(
        colorize_body("your reproducible IDE"),
        "\u{1b}[32myour \u{1b}[0m\u{1b}[34mreproducible\u{1b}[0m\u{1b}[32m IDE\u{1b}[0m"
    );
    assert_eq!(colorize_body("plain"), "\u{1b}[32mplain\u{1b}[0m");
    let narrow = static_card(30);
    assert_eq!(narrow.len(), 6);
    let visible = strip_ansi(&narrow[0]);
    assert_eq!(visible.chars().count(), 30);
    assert!(visible.contains("╭──────────────────────╮"));
    assert!(strip_ansi(&narrow[2]).contains("yazi zellij helix       "));
    let frames = logo_frames(140, 20);
    assert_eq!(frames.len(), 3);
    assert!(strip_ansi(&frames[0].join("\n")).contains("YZS"));
    assert!(!strip_ansi(&frames[0].join("\n")).contains("shines over SSH"));
    assert!(strip_ansi(&frames[2].join("\n")).contains("shines over SSH"));
    assert_eq!(frames[2].len(), 5 + 9);
    assert_eq!(
        center_vertically(vec!["x".to_string()], 5),
        vec!["".to_string(), "".to_string(), "x".to_string()]
    );
}

#[test]
fn help_lists_every_style() {
    let lines = screen_help_lines("yzs");
    assert_eq!(lines.len(), 20);
    assert_eq!(
        lines[3],
        "  yzs [STYLE] [--cell-style full_block|dotted] [--duration-seconds N]"
    );
    assert_eq!(lines[6], "  static");
    assert_eq!(lines[15], "  random");
}

#[test]
fn welcome_card_lines_share_one_width() {
    for (width, expected) in [(30, 30), (40, 40), (50, 50), (80, 80), (140, 140), (10, 24), (20, 24), (60, 60)] {
        for line in static_card(width) {
            assert_eq!(yazelix_screen::visible_line_width(&line), expected, "width {width}");
        }
        for frame in logo_frames(width, 30) {
            for line in frame.iter().filter(|line| !line.is_empty()) {
                assert_eq!(yazelix_screen::visible_line_width(line), expected, "width {width}");
            }
        }
    }
}

#[test]
fn random_always_resolves_to_the_pool() {
    for index in 0..SCREEN_RANDOM_STYLES.len() * 2 {
        let picked = resolve_style(" Random ", Some(index), "yzs");
        let named = resolve_style(SCREEN_RANDOM_STYLES[index % SCREEN_RANDOM_STYLES.len()], None, "yzs");
        assert!(picked.is_ok());
        assert_eq!(picked, named);
    }
    for _ in 0..8 {
        assert!(resolve_style("random", None, "yzs").is_ok());
        assert!(plan_screen_cli(Vec::new(), "yzs").is_ok());
    }
    assert_eq!(
        resolve_style("  Boids\t", None, "yzs"),
        Ok(ScreenStyle::Animation(AnimationStyle::Boids(BoidsVariant::Predator)))
    );
    assert_eq!(resolve_style("\u{3000}logo\u{a0}", None, "yzs"), Ok(ScreenStyle::Logo));
}

#[test]
fn body_coloring_only_recolors() {
    for line in [
        "your reproducible, declarative terminal IDE",
        "zero-conflict keybindings between helix and zellij helix",
        "shines over SSH",
        "no accents here",
        "",
    ] {
        assert_eq!(strip_ansi(&colorize_body(line)), line);
        assert_eq!(strip_ansi(&colorize_logo(line)), line);
    }
}
