//! The `yzs` command's decisions: argument parsing, style resolution, the
//! random screen pool, animation contexts and frame delays.

use crate::boids::{boids_variant_of_style, BoidsVariant};
use crate::cell_style::{cell_style_of_name, normalized_cell_style, GameOfLifeCellStyle};
use crate::frame::ScreenAnimationContext;
use crate::mandelbrot::{mandelbrot_frame_delay, MANDELBROT_FRAME_DELAY_MS};
use crate::random::{
    clock_subsec_nanos, GAME_OF_LIFE_RANDOM_STYLES, KITTY_FRAME_SEQUENCE_STYLE, MANDELBROT_STYLE,
};
use crate::text::{
    ascii_lower, lemma_trimmed_unchanged, parse_u64, parsed_u64, str_equals, to_ascii_lowercase, trim_text, trimmed,
};
use crate::welcome::{size_class, size_class_spec};
use vstd::prelude::*;

verus! {

pub const STATIC_STYLE: &'static str = "static";

pub const LOGO_STYLE: &'static str = "logo";

/// Every style that the command accepts by name, which is also the pool of
/// its random choice.
pub const SCREEN_RANDOM_STYLES: [&'static str; 9] = [
    STATIC_STYLE,
    LOGO_STYLE,
    "boids",
    "boids_predator",
    "boids_schools",
    MANDELBROT_STYLE,
    "game_of_life_gliders",
    "game_of_life_oscillators",
    "game_of_life_bloom",
];

/// What the command shows.
#[derive(Debug, Clone, Copy, PartialEq, Eq)]
pub enum ScreenStyle {
    Static,
    Logo,
    Animation(AnimationStyle),
}

/// Which animation the command runs.
#[derive(Debug, Clone, Copy, PartialEq, Eq)]
pub enum AnimationStyle {
    Boids(BoidsVariant),
    GameOfLife(&'static str),
    Mandelbrot,
}

/// The parsed command line.
#[derive(Debug, Clone, PartialEq, Eq)]
pub struct ScreenArgs {
    pub style: String,
    pub cell_style: GameOfLifeCellStyle,
    pub duration_seconds: Option<u64>,
    pub help: bool,
}

// ---------------------------------------------------------------------------
// argument parsing
// ---------------------------------------------------------------------------

/// What the arguments seen so far have set.
pub struct ParseState {
    pub help: bool,
    pub style: Option<Seq<char>>,
    pub cell_style: GameOfLifeCellStyle,
    pub duration_seconds: Option<u64>,
}

/// The outcome of parsing arguments `i..` from `state`: flags may come in any
/// order; `-h`, `--help` and `help` ask for help; `--cell-style` and
/// `--duration-seconds` take the next argument as their value (a cell style
/// name, a positive whole number of seconds); the first other argument is
/// the style and a second one is an error.
pub open spec fn parse_from(args: Seq<Seq<char>>, i: nat, state: ParseState, command_name: Seq<char>) -> Result<
    ParseState,
    Seq<char>,
>
    decreases args.len() - i,
{
    if i >= args.len() {
        Ok(state)
    } else {
        let arg = args[i as int];
        if arg == "-h"@ || arg == "--help"@ || arg == "help"@ {
            parse_from(args, i + 1, ParseState { help: true, ..state }, command_name)
        } else if arg == "--cell-style"@ {
            if i + 1 >= args.len() {
                Err("missing value after --cell-style"@)
            } else {
                let raw = args[(i + 1) as int];
                match cell_style_of_name(normalized_cell_style(raw)) {
                    Some(cell_style) => parse_from(
                        args,
                        i + 2,
                        ParseState { cell_style, ..state },
                        command_name,
                    ),
                    None => Err(
                        "invalid --cell-style value `"@ + normalized_cell_style(raw)
                            + "`. Expected full_block or dotted"@,
                    ),
                }
            }
        } else if arg == "--duration-seconds"@ {
            if i + 1 >= args.len() {
                Err("missing value after --duration-seconds"@)
            } else {
                let raw = args[(i + 1) as int];
                match parsed_u64(trimmed(raw)) {
                    None => Err(
                        "invalid --duration-seconds value `"@ + raw + "`. Expected positive integer"@,
                    ),
                    Some(seconds) => if seconds == 0 {
                        Err("invalid --duration-seconds value `0`. Expected positive integer"@)
                    } else {
                        parse_from(
                            args,
                            i + 2,
                            ParseState { duration_seconds: Some(seconds), ..state },
                            command_name,
                        )
                    },
                }
            }
        } else if state.style is None {
            parse_from(args, i + 1, ParseState { style: Some(arg), ..state }, command_name)
        } else {
            Err("unexpected argument `"@ + arg + "`. Try `"@ + command_name + " --help`"@)
        }
    }
}

/// The state before any argument: no help, no style, full-block cells and
/// no duration.
pub open spec fn initial_parse_state() -> ParseState {
    ParseState {
        help: false,
        style: None,
        cell_style: GameOfLifeCellStyle::FullBlock,
        duration_seconds: None,
    }
}

/// The style named on the command line, `random` when none was.
pub open spec fn style_or_random(style: Option<Seq<char>>) -> Seq<char> {
    match style {
        Some(style) => style,
        None => "random"@,
    }
}

/// Whether `parsed` is what a finished parse state gives: the style
/// defaults to `random`.
pub open spec fn args_match_state(parsed: ScreenArgs, state: ParseState) -> bool {
    &&& parsed.style@ == style_or_random(state.style)
    &&& parsed.cell_style == state.cell_style
    &&& parsed.duration_seconds == state.duration_seconds
    &&& parsed.help == state.help
}

/// Parses the command line of the `yzs` command.
pub fn parse_screen_args(args: Vec<String>, command_name: &str) -> (parsed: Result<ScreenArgs, String>)
    ensures
        match parse_from(args@.map_values(|a: String| a@), 0, initial_parse_state(), command_name@) {
            Ok(state) => parsed matches Ok(p) && args_match_state(p, state),
            Err(message) => parsed matches Err(m) && m@ == message,
        },
{
    let ghost views = args@.map_values(|a: String| a@);
    let mut help = false;
    let mut style: Option<String> = None;
    let mut cell_style = GameOfLifeCellStyle::FullBlock;
    let mut duration_seconds: Option<u64> = None;
    let n = args.len();
    let mut i: usize = 0;
    while i < n
        invariant
            n == args@.len(),
            views == args@.map_values(|a: String| a@),
            i <= n,
            parse_from(
                views,
                i as nat,
                ParseState {
                    help,
                    style: match style {
                        Some(s) => Some(s@),
                        None => None,
                    },
                    cell_style,
                    duration_seconds,
                },
                command_name@,
            ) == parse_from(views, 0, initial_parse_state(), command_name@),
        decreases n - i,
    {
        let arg = args[i].as_str();
        assert(views[i as int] == arg@);
        if str_equals(arg, "-h") || str_equals(arg, "--help") || str_equals(arg, "help") {
            help = true;
            i = i + 1;
        } else if str_equals(arg, "--cell-style") {
            if i + 1 >= n {
                return Err("missing value after --cell-style".to_owned());
            }
            let raw = args[i + 1].as_str();
            assert(views[i + 1] == raw@);
            match GameOfLifeCellStyle::parse(raw) {
                Ok(parsed) => {
                    cell_style = parsed;
                    i = i + 2;
                },
                Err(error) => {
                    let mut message = "invalid --cell-style value `".to_owned();
                    message.append(error.normalized());
                    message.append("`. Expected full_block or dotted");
                    return Err(message);
                },
            }
        } else if str_equals(arg, "--duration-seconds") {
            if i + 1 >= n {
                return Err("missing value after --duration-seconds".to_owned());
            }
            let raw = args[i + 1].as_str();
            assert(views[i + 1] == raw@);
            let trimmed_raw = trim_text(raw);
            match parse_u64(trimmed_raw.as_str()) {
                None => {
                    let mut message = "invalid --duration-seconds value `".to_owned();
                    message.append(raw);
                    message.append("`. Expected positive integer");
                    return Err(message);
                },
                Some(seconds) => {
                    if seconds == 0 {
                        return Err(
                            "invalid --duration-seconds value `0`. Expected positive integer".to_owned(),
                        );
                    }
                    duration_seconds = Some(seconds);
                    i = i + 2;
                },
            }
        } else if style.is_none() {
            style = Some(arg.to_owned());
            i = i + 1;
        } else {
            let mut message = "unexpected argument `".to_owned();
            message.append(arg);
            message.append("`. Try `");
            message.append(command_name);
            message.append(" --help`");
            return Err(message);
        }
    }
    let style = match style {
        Some(style) => style,
        None => "random".to_owned(),
    };
    Ok(ScreenArgs { style, cell_style, duration_seconds, help })
}

// ---------------------------------------------------------------------------
// styles
// ---------------------------------------------------------------------------

/// The style that a normalized name selects, if any: `static`, `logo`, a
/// boids name, `mandelbrot`, or one of the Game of Life styles.
pub open spec fn named_style(normalized: Seq<char>) -> Option<ScreenStyle> {
    if normalized == STATIC_STYLE@ {
        Some(ScreenStyle::Static)
    } else if normalized == LOGO_STYLE@ {
        Some(ScreenStyle::Logo)
    } else if boids_variant_of_style(normalized) is Some {
        Some(ScreenStyle::Animation(AnimationStyle::Boids(boids_variant_of_style(normalized)->0)))
    } else if normalized == MANDELBROT_STYLE@ {
        Some(ScreenStyle::Animation(AnimationStyle::Mandelbrot))
    } else if normalized == GAME_OF_LIFE_RANDOM_STYLES@[0]@ {
        Some(ScreenStyle::Animation(AnimationStyle::GameOfLife(GAME_OF_LIFE_RANDOM_STYLES@[0])))
    } else if normalized == GAME_OF_LIFE_RANDOM_STYLES@[1]@ {
        Some(ScreenStyle::Animation(AnimationStyle::GameOfLife(GAME_OF_LIFE_RANDOM_STYLES@[1])))
    } else if normalized == GAME_OF_LIFE_RANDOM_STYLES@[2]@ {
        Some(ScreenStyle::Animation(AnimationStyle::GameOfLife(GAME_OF_LIFE_RANDOM_STYLES@[2])))
    } else {
        None
    }
}

/// A style name normalized: trimmed and ASCII-lowercased.
pub open spec fn normalized_style(raw: Seq<char>) -> Seq<char> {
    ascii_lower(trimmed(raw))
}

/// The outcome of resolving a normalized name that is not `random`.
pub open spec fn resolve_named_spec(normalized: Seq<char>, command_name: Seq<char>) -> Result<
    ScreenStyle,
    Seq<char>,
> {
    match named_style(normalized) {
        Some(style) => Ok(style),
        None => Err(
            "unsupported screen style `"@ + normalized + "`. Try `"@ + command_name + " --help`"@,
        ),
    }
}

/// The outcome of resolving a style name; `random` resolves the style that
/// the random pick names.
pub open spec fn resolve_style_spec(raw: Seq<char>, random_pick: Seq<char>, command_name: Seq<char>) -> Result<
    ScreenStyle,
    Seq<char>,
> {
    let normalized = normalized_style(raw);
    if normalized == "random"@ {
        resolve_named_spec(normalized_style(random_pick), command_name)
    } else {
        resolve_named_spec(normalized, command_name)
    }
}

fn resolve_named_style(normalized: &str, command_name: &str) -> (resolved: Result<ScreenStyle, String>)
    ensures
        match resolve_named_spec(normalized@, command_name@) {
            Ok(style) => resolved == Ok::<ScreenStyle, String>(style),
            Err(message) => resolved matches Err(m) && m@ == message,
        },
{
    if str_equals(normalized, STATIC_STYLE) {
        return Ok(ScreenStyle::Static);
    }
    if str_equals(normalized, LOGO_STYLE) {
        return Ok(ScreenStyle::Logo);
    }
    if let Some(variant) = BoidsVariant::from_style_name(normalized) {
        return Ok(ScreenStyle::Animation(AnimationStyle::Boids(variant)));
    }
    if str_equals(normalized, MANDELBROT_STYLE) {
        return Ok(ScreenStyle::Animation(AnimationStyle::Mandelbrot));
    }
    let mut k: usize = 0;
    while k < GAME_OF_LIFE_RANDOM_STYLES.len()
        invariant
            k <= 3,
            forall|j: int| 0 <= j < k ==> normalized@ != GAME_OF_LIFE_RANDOM_STYLES@[j]@,
            normalized@ != STATIC_STYLE@,
            normalized@ != LOGO_STYLE@,
            boids_variant_of_style(normalized@) is None,
            normalized@ != MANDELBROT_STYLE@,
        decreases 3 - k,
    {
        let candidate = GAME_OF_LIFE_RANDOM_STYLES[k];
        if str_equals(candidate, normalized) {
            return Ok(ScreenStyle::Animation(AnimationStyle::GameOfLife(candidate)));
        }
        k = k + 1;
    }
    let mut message = "unsupported screen style `".to_owned();
    message.append(normalized);
    message.append("`. Try `");
    message.append(command_name);
    message.append(" --help`");
    Err(message)
}

/// The style that a random index picks from the screen pool, modulo its
/// size.
pub open spec fn random_screen_style_spec(index: nat) -> Seq<char> {
    SCREEN_RANDOM_STYLES@[(index % 9) as int]@
}

/// Every style of the screen pool is a style the command runs, and the
/// image-backed magician style is not among them.
pub proof fn lemma_screen_pool_styles_resolve(k: int)
    requires
        0 <= k < 9,
    ensures
        named_style(SCREEN_RANDOM_STYLES@[k]@) is Some,
        SCREEN_RANDOM_STYLES@[k]@ != KITTY_FRAME_SEQUENCE_STYLE@,
{
    reveal_strlit("static");
    reveal_strlit("logo");
    reveal_strlit("boids");
    reveal_strlit("boids_predator");
    reveal_strlit("boids_schools");
    reveal_strlit("mandelbrot");
    reveal_strlit("game_of_life_gliders");
    reveal_strlit("game_of_life_oscillators");
    reveal_strlit("game_of_life_bloom");
    reveal_strlit("magician");

    let name = SCREEN_RANDOM_STYLES@[k]@;
    if k == 0 {
        assert(name == STATIC_STYLE@);
    } else if k == 1 {
        assert(name == LOGO_STYLE@);
        assert(name.len() != STATIC_STYLE@.len());
    } else if k <= 4 {
        assert(name.len() != STATIC_STYLE@.len() || name[0] != STATIC_STYLE@[0]);
        assert(name.len() != LOGO_STYLE@.len() || name[0] != LOGO_STYLE@[0]);
        assert(boids_variant_of_style(name) is Some);
    } else if k == 5 {
        assert(name.len() != STATIC_STYLE@.len());
        assert(name.len() != LOGO_STYLE@.len());
        assert(name.len() != "boids"@.len());
        assert(name.len() != "boids_predator"@.len());
        assert(name.len() != "boids_schools"@.len());
    } else {
        assert(name.len() != STATIC_STYLE@.len());
        assert(name.len() != LOGO_STYLE@.len());
        assert(name.len() != "boids"@.len());
        assert(name.len() != "boids_predator"@.len());
        assert(name.len() != "boids_schools"@.len());
        assert(name.len() != MANDELBROT_STYLE@.len());
        assert(name == GAME_OF_LIFE_RANDOM_STYLES@[k - 6]@);
        if k >= 7 {
            assert(name.len() != GAME_OF_LIFE_RANDOM_STYLES@[0]@.len());
        }
        if k == 8 {
            assert(name.len() != GAME_OF_LIFE_RANDOM_STYLES@[1]@.len());
        }
    }
    assert(name.len() != KITTY_FRAME_SEQUENCE_STYLE@.len() || name[0] != KITTY_FRAME_SEQUENCE_STYLE@[0]);
}

proof fn lemma_lowercase_name(name: Seq<char>)
    requires
        name.len() > 0,
        forall|i: int| 0 <= i < name.len() ==> ('a' <= #[trigger] name[i] && name[i] <= 'z') || name[i] == '_',
    ensures
        normalized_style(name) == name,
{
    lemma_trimmed_unchanged(name);
    assert(ascii_lower(name) =~= name);
}

/// The names of the screen pool are already normalized: trimming and
/// ASCII-lowercasing leave them as they are.
pub proof fn lemma_screen_pool_names_normalized(k: int)
    requires
        0 <= k < 9,
    ensures
        normalized_style(SCREEN_RANDOM_STYLES@[k]@) == SCREEN_RANDOM_STYLES@[k]@,
{
    reveal_strlit("static");
    reveal_strlit("logo");
    reveal_strlit("boids");
    reveal_strlit("boids_predator");
    reveal_strlit("boids_schools");
    reveal_strlit("mandelbrot");
    reveal_strlit("game_of_life_gliders");
    reveal_strlit("game_of_life_oscillators");
    reveal_strlit("game_of_life_bloom");
    lemma_lowercase_name(SCREEN_RANDOM_STYLES@[k]@);
}

/// `random` always resolves to a style of the screen pool: the one that the
/// pick names, which is never an error.
pub proof fn lemma_random_resolves_in_pool(raw: Seq<char>, k: int, command_name: Seq<char>)
    requires
        0 <= k < 9,
        normalized_style(raw) == "random"@,
    ensures
        resolve_style_spec(raw, SCREEN_RANDOM_STYLES@[k]@, command_name) == Ok::<ScreenStyle, Seq<char>>(
            named_style(SCREEN_RANDOM_STYLES@[k]@)->0,
        ),
        named_style(SCREEN_RANDOM_STYLES@[k]@) is Some,
{
    lemma_screen_pool_names_normalized(k);
    lemma_screen_pool_styles_resolve(k);
}

/// A name that selects a Game of Life animation selects the one of that
/// name, and every Game of Life name of the pool selects its own animation.
pub proof fn lemma_game_of_life_keeps_its_name(name: Seq<char>, k: int)
    ensures
        named_style(name) matches Some(ScreenStyle::Animation(AnimationStyle::GameOfLife(selected)))
            ==> selected@ == name,
        0 <= k < 3 ==> (named_style(GAME_OF_LIFE_RANDOM_STYLES@[k]@) matches Some(
            ScreenStyle::Animation(AnimationStyle::GameOfLife(selected)),
        ) && selected@ == GAME_OF_LIFE_RANDOM_STYLES@[k]@),
{
    if 0 <= k < 3 {
        lemma_screen_pool_styles_resolve(k + 6);
        assert(SCREEN_RANDOM_STYLES@[k + 6]@ == GAME_OF_LIFE_RANDOM_STYLES@[k]@) by {
            reveal_strlit("game_of_life_gliders");
            reveal_strlit("game_of_life_oscillators");
            reveal_strlit("game_of_life_bloom");
        }
        reveal_strlit("static");
        reveal_strlit("logo");
        reveal_strlit("mandelbrot");
        reveal_strlit("boids");
        reveal_strlit("boids_predator");
        reveal_strlit("boids_schools");
        reveal_strlit("game_of_life_gliders");
        reveal_strlit("game_of_life_oscillators");
        reveal_strlit("game_of_life_bloom");
        let n = GAME_OF_LIFE_RANDOM_STYLES@[k]@;
        assert(n.len() != STATIC_STYLE@.len());
        assert(n.len() != LOGO_STYLE@.len());
        assert(n.len() != MANDELBROT_STYLE@.len());
        assert(boids_variant_of_style(n) is None) by {
            assert(n.len() != "boids"@.len());
            assert(n.len() != "boids_predator"@.len());
            assert(n.len() != "boids_schools"@.len());
        }
        if k >= 1 {
            assert(n.len() != GAME_OF_LIFE_RANDOM_STYLES@[0]@.len());
        }
        if k == 2 {
            assert(n.len() != GAME_OF_LIFE_RANDOM_STYLES@[1]@.len());
        }
    }
}

/// A style of the screen pool: the given index modulo the pool size, or one
/// picked by the clock.
pub fn random_screen_style(random_index: Option<usize>) -> (style: &'static str)
    ensures
        random_index matches Some(index) ==> style@ == random_screen_style_spec(index as nat),
        exists|k: int| 0 <= k < 9 && style@ == #[trigger] SCREEN_RANDOM_STYLES@[k]@,
{
    let index = match random_index {
        Some(index) => index,
        None => clock_subsec_nanos() as usize,
    };
    let style = SCREEN_RANDOM_STYLES[index % SCREEN_RANDOM_STYLES.len()];
    assert(style@ == SCREEN_RANDOM_STYLES@[(index % 9) as int]@);
    style
}

/// Resolves a style name: trimmed and ASCII-lowercased, `random` picks from
/// the screen pool (by `random_index`, else by the clock), then the name
/// must be a known style.
pub fn resolve_style(raw: &str, random_index: Option<usize>, command_name: &str) -> (resolved: Result<
    ScreenStyle,
    String,
>)
    ensures
        exists|k: int|
            0 <= k < 9 && (random_index matches Some(index) ==> k == index as int % 9) && (
            match #[trigger] resolve_style_spec(raw@, SCREEN_RANDOM_STYLES@[k]@, command_name@) {
                Ok(style) => resolved == Ok::<ScreenStyle, String>(style),
                Err(message) => resolved matches Err(m) && m@ == message,
            }),
        normalized_style(raw@) == "random"@ ==> resolved is Ok,
{
    let trimmed_raw = trim_text(raw);
    let normalized = to_ascii_lowercase(trimmed_raw.as_str());
    if str_equals(normalized.as_str(), "random") {
        let pick = random_screen_style(random_index);
        let ghost k: int = match random_index {
            Some(index) => index as int % 9,
            None => choose|k: int| 0 <= k < 9 && pick@ == #[trigger] SCREEN_RANDOM_STYLES@[k]@,
        };
        let trimmed_pick = trim_text(pick);
        let normalized_pick = to_ascii_lowercase(trimmed_pick.as_str());
        let resolved = resolve_named_style(normalized_pick.as_str(), command_name);
        proof {
            assert(pick@ == SCREEN_RANDOM_STYLES@[k]@);
            lemma_random_resolves_in_pool(raw@, k, command_name@);
            assert(resolve_style_spec(raw@, SCREEN_RANDOM_STYLES@[k]@, command_name@) == resolve_named_spec(
                normalized_pick@,
                command_name@,
            ));
        }
        resolved
    } else {
        let resolved = resolve_named_style(normalized.as_str(), command_name);
        let ghost k: int = match random_index {
            Some(index) => index as int % 9,
            None => 0,
        };
        assert(resolve_style_spec(raw@, SCREEN_RANDOM_STYLES@[k]@, command_name@) == resolve_named_spec(
            normalized@,
            command_name@,
        ));
        resolved
    }
}

// ---------------------------------------------------------------------------
// contexts and delays
// ---------------------------------------------------------------------------

/// The context of an animation that uses the whole screen.
pub fn full_screen_context(width: usize, height: usize) -> (context: ScreenAnimationContext)
    ensures
        context.resolved_width == width,
        context.resolved_height == height,
        context.inner_width == width,
        context.size_class@ == size_class_spec(width as nat),
{
    ScreenAnimationContext {
        resolved_width: width,
        resolved_height: height,
        inner_width: width,
        size_class: size_class(width),
    }
}

/// The delay between frames of an animation style, in milliseconds: 70 for
/// boids, the Mandelbrot delay, 160 for Game of Life.
pub fn frame_delay(style: AnimationStyle) -> (delay_ms: u64)
    ensures
        delay_ms == match style {
            AnimationStyle::Boids(_) => 70,
            AnimationStyle::Mandelbrot => MANDELBROT_FRAME_DELAY_MS,
            AnimationStyle::GameOfLife(_) => 160,
        },
{
    match style {
        AnimationStyle::Boids(_) => 70,
        AnimationStyle::Mandelbrot => mandelbrot_frame_delay(),
        AnimationStyle::GameOfLife(_) => 160,
    }
}

/// What the command does after parsing its arguments.
#[derive(Debug, Clone, PartialEq, Eq)]
pub enum ScreenCliPlan {
    /// Print the help text.
    ShowHelp,
    /// Run a style with a cell style and an optional duration in seconds.
    Run { style: ScreenStyle, cell_style: GameOfLifeCellStyle, duration_seconds: Option<u64> },
}

/// The command's plan: parse the arguments, show help when asked, else
/// resolve the style (a random pick by the clock for `random`). Errors are
/// the parser's or the resolver's messages.
pub fn plan_screen_cli(args: Vec<String>, command_name: &str) -> (plan: Result<ScreenCliPlan, String>)
    ensures
        match parse_from(args@.map_values(|a: String| a@), 0, initial_parse_state(), command_name@) {
            Err(message) => plan matches Err(m) && m@ == message,
            Ok(state) => if state.help {
                plan == Ok::<ScreenCliPlan, String>(ScreenCliPlan::ShowHelp)
            } else {
                &&& (normalized_style(style_or_random(state.style)) == "random"@ ==> plan is Ok)
                &&& exists|k: int|
                    0 <= k < 9 && match #[trigger] resolve_style_spec(
                        style_or_random(state.style),
                        SCREEN_RANDOM_STYLES@[k]@,
                        command_name@,
                    ) {
                        Ok(style) => plan == Ok::<ScreenCliPlan, String>(
                            ScreenCliPlan::Run {
                                style,
                                cell_style: state.cell_style,
                                duration_seconds: state.duration_seconds,
                            },
                        ),
                        Err(message) => plan matches Err(m) && m@ == message,
                    }
            },
        },
{
    let parsed = parse_screen_args(args, command_name);
    match parsed {
        Err(message) => Err(message),
        Ok(parsed) => {
            if parsed.help {
                return Ok(ScreenCliPlan::ShowHelp);
            }
            match resolve_style(parsed.style.as_str(), None, command_name) {
                Ok(style) => Ok(
                    ScreenCliPlan::Run {
                        style,
                        cell_style: parsed.cell_style,
                        duration_seconds: parsed.duration_seconds,
                    },
                ),
                Err(message) => Err(message),
            }
        },
    }
}

/// The help text of the command, line by line.
pub fn screen_help_lines(command_name: &str) -> (lines: Vec<String>)
    ensures
        lines@.len() == 20,
        lines@[0]@ == "Show Yazelix terminal screen animations"@,
        lines@[1]@ == Seq::<char>::empty(),
        lines@[2]@ == "Usage:"@,
        lines@[3]@ == "  "@ + command_name@ + " [STYLE] [--cell-style full_block|dotted] [--duration-seconds N]"@,
        lines@[4]@ == Seq::<char>::empty(),
        lines@[5]@ == "Styles:"@,
        forall|k: int| 0 <= k < 9 ==> #[trigger] lines@[6 + k]@ == "  "@ + SCREEN_RANDOM_STYLES@[k]@,
        lines@[15]@ == "  random"@,
        lines@[16]@ == Seq::<char>::empty(),
        lines@[17]@ == "Notes:"@,
        lines@[18]@ == "  Runs outside Zellij and outside a Yazelix session"@,
        lines@[19]@ == "  Press any key to exit"@,
{
    let mut lines: Vec<String> = Vec::new();
    lines.push("Show Yazelix terminal screen animations".to_owned());
    lines.push(String::new());
    lines.push("Usage:".to_owned());
    let mut usage = "  ".to_owned();
    usage.append(command_name);
    usage.append(" [STYLE] [--cell-style full_block|dotted] [--duration-seconds N]");
    lines.push(usage);
    lines.push(String::new());
    lines.push("Styles:".to_owned());
    let mut k: usize = 0;
    while k < SCREEN_RANDOM_STYLES.len()
        invariant
            k <= 9,
            lines@.len() == 6 + k,
            lines@[0]@ == "Show Yazelix terminal screen animations"@,
            lines@[1]@ == Seq::<char>::empty(),
            lines@[2]@ == "Usage:"@,
            lines@[3]@ == "  "@ + command_name@ + " [STYLE] [--cell-style full_block|dotted] [--duration-seconds N]"@,
            lines@[4]@ == Seq::<char>::empty(),
            lines@[5]@ == "Styles:"@,
            forall|j: int| 0 <= j < k ==> #[trigger] lines@[6 + j]@ == "  "@ + SCREEN_RANDOM_STYLES@[j]@,
        decreases 9 - k,
    {
        let mut line = "  ".to_owned();
        line.append(SCREEN_RANDOM_STYLES[k]);
        lines.push(line);
        k = k + 1;
    }
    lines.push("  random".to_owned());
    lines.push(String::new());
    lines.push("Notes:".to_owned());
    lines.push("  Runs outside Zellij and outside a Yazelix session".to_owned());
    lines.push("  Press any key to exit".to_owned());
    lines
}

} // verus!
