//! The welcome card: a bordered, colored title and feature list sized to the
//! terminal width, and the frames of its logo reveal.

use crate::text::{
    center_frame_lines, center_text, centered, escape_free, is_ascii_alpha, lemma_visible_width_csi_prefix,
    lemma_shown_csi_prefix, lemma_shown_plain_prefix, lemma_visible_width_is_shown_len, lemma_visible_width_plain,
    lemma_visible_width_plain_prefix, push_char, push_repeated, repeated, shown, spaces, visible_width, ESC,
};
use vstd::prelude::*;

verus! {

// ---------------------------------------------------------------------------
// size classes
// ---------------------------------------------------------------------------

/// The size class of a terminal width: `narrow` below 44 columns, `medium`
/// below 72, `wide` below 120, and `hero` from there on.
pub open spec fn size_class_spec(width: nat) -> Seq<char> {
    if width < 44 {
        "narrow"@
    } else if width < 72 {
        "medium"@
    } else if width < 120 {
        "wide"@
    } else {
        "hero"@
    }
}

/// The size class of a terminal width.
pub fn size_class(width: usize) -> (class: &'static str)
    ensures
        class@ == size_class_spec(width as nat),
{
    if width < 44 {
        "narrow"
    } else if width < 72 {
        "medium"
    } else if width < 120 {
        "wide"
    } else {
        "hero"
    }
}

// ---------------------------------------------------------------------------
// ANSI colors
// ---------------------------------------------------------------------------

/// `text` wrapped in the SGR sequence `code`, then a full reset.
pub open spec fn ansi_spec(code: Seq<char>, text: Seq<char>) -> Seq<char> {
    seq![ESC, '['] + code + seq!['m'] + text + seq![ESC, '[', '0', 'm']
}

/// `text` in the SGR style `code`, followed by a reset.
pub fn ansi(code: &str, text: &str) -> (out: String)
    ensures
        out@ == ansi_spec(code@, text@),
{
    let mut out = String::new();
    push_char(&mut out, ESC);
    push_char(&mut out, '[');
    out.append(code);
    push_char(&mut out, 'm');
    out.append(text);
    push_char(&mut out, ESC);
    push_char(&mut out, '[');
    push_char(&mut out, '0');
    push_char(&mut out, 'm');
    out
}

/// `text` in green.
pub fn green(text: &str) -> (out: String)
    ensures
        out@ == ansi_spec("32"@, text@),
{
    ansi("32", text)
}

/// `text` in blue.
pub fn blue(text: &str) -> (out: String)
    ensures
        out@ == ansi_spec("34"@, text@),
{
    ansi("34", text)
}

/// `text` in yellow.
pub fn yellow(text: &str) -> (out: String)
    ensures
        out@ == ansi_spec("33"@, text@),
{
    ansi("33", text)
}

/// `text` in magenta.
pub fn magenta(text: &str) -> (out: String)
    ensures
        out@ == ansi_spec("35"@, text@),
{
    ansi("35", text)
}

/// `text` dimmed.
pub fn dim(text: &str) -> (out: String)
    ensures
        out@ == ansi_spec("2"@, text@),
{
    ansi("2", text)
}

/// The colors that the logo letters cycle through: red, green, yellow,
/// blue, magenta.
pub const LOGO_COLORS: [&'static str; 5] = ["31", "32", "33", "34", "35"];

/// One logo character at position `index`: a space stays plain; any other
/// character takes the color of its position.
pub open spec fn logo_piece(index: nat, ch: char) -> Seq<char> {
    if ch == ' ' {
        seq![' ']
    } else {
        ansi_spec(LOGO_COLORS@[(index % 5) as int]@, seq![ch])
    }
}

/// The logo coloring of `text`, character by character.
pub open spec fn logo_colored(text: Seq<char>) -> Seq<char>
    decreases text.len(),
{
    if text.len() == 0 {
        Seq::empty()
    } else {
        logo_colored(text.drop_last()) + logo_piece((text.len() - 1) as nat, text.last())
    }
}

/// Colors `text` as the logo: letters cycle through the logo colors by
/// position, spaces stay plain.
pub fn colorize_logo(text: &str) -> (out: String)
    ensures
        out@ == logo_colored(text@),
{
    let chars = crate::text::chars_of(text);
    let mut out = String::new();
    let mut i: usize = 0;
    while i < chars.len()
        invariant
            chars@ == text@,
            i <= chars@.len(),
            out@ == logo_colored(chars@.take(i as int)),
        decreases chars@.len() - i,
    {
        let ch = chars[i];
        if ch == ' ' {
            push_char(&mut out, ' ');
        } else {
            let mut letter = String::new();
            push_char(&mut letter, ch);
            let piece = ansi(LOGO_COLORS[i % 5], letter.as_str());
            out.append(piece.as_str());
        }
        assert(chars@.take(i + 1).drop_last() == chars@.take(i as int));
        i = i + 1;
    }
    assert(chars@.take(i as int) == chars@);
    out
}

// ---------------------------------------------------------------------------
// body accents
// ---------------------------------------------------------------------------

/// The words that the feature list highlights, looked for in this order.
pub const BODY_ACCENTS: [&'static str; 8] = [
    "reproducible",
    "declarative",
    "helix",
    "zellij",
    "terminals",
    "shells",
    "packs",
    "SSH",
];

/// The first position at or after `from` where `pattern` occurs in `text`.
pub open spec fn find_from(text: Seq<char>, pattern: Seq<char>, from: nat) -> Option<nat>
    decreases text.len() + 1 - from,
{
    if from > text.len() || from + pattern.len() > text.len() {
        None
    } else if text.subrange(from as int, (from + pattern.len()) as int) == pattern {
        Some(from)
    } else {
        find_from(text, pattern, from + 1)
    }
}

/// The first position where `pattern` occurs in `text`, as `str::find`
/// reports it (counted in characters).
pub open spec fn find_spec(text: Seq<char>, pattern: Seq<char>) -> Option<nat> {
    find_from(text, pattern, 0)
}

/// The first position where `pattern` occurs in `text`.
pub fn find_text(text: &Vec<char>, pattern: &Vec<char>) -> (found: Option<usize>)
    ensures
        match found {
            Some(p) => find_spec(text@, pattern@) == Some(p as nat),
            None => find_spec(text@, pattern@) is None,
        },
{
    let n = text.len();
    let m = pattern.len();
    let mut p: usize = 0;
    while m <= n && p <= n - m
        invariant
            n == text@.len(),
            m == pattern@.len(),
            find_from(text@, pattern@, p as nat) == find_spec(text@, pattern@),
        decreases n - p,
    {
        let mut j: usize = 0;
        while j < m && text[p + j] == pattern[j]
            invariant
                n == text@.len(),
                m == pattern@.len(),
                p + m <= n,
                j <= m,
                forall|k: int| 0 <= k < j ==> text@[p + k] == pattern@[k],
            decreases m - j,
        {
            j = j + 1;
        }
        if j == m {
            assert(text@.subrange(p as int, (p + m) as int) =~= pattern@);
            return Some(p);
        }
        assert(text@.subrange(p as int, (p + m) as int)[j as int] != pattern@[j as int]);
        p = p + 1;
    }
    None
}

/// The feature-list coloring of `remaining`, looking for accents `k..`: the
/// first occurrence of each accent is blue, and the text before it (after
/// the previous accent) green; an accent that is missing is skipped; the
/// rest is green.
pub open spec fn body_colored_from(remaining: Seq<char>, k: nat) -> Seq<char>
    decreases BODY_ACCENTS@.len() - k,
{
    if k >= BODY_ACCENTS@.len() {
        ansi_spec("32"@, remaining)
    } else {
        let accent = BODY_ACCENTS@[k as int]@;
        match find_spec(remaining, accent) {
            Some(index) => ansi_spec("32"@, remaining.take(index as int)) + ansi_spec("34"@, accent)
                + body_colored_from(remaining.skip((index + accent.len()) as int), k + 1),
            None => body_colored_from(remaining, k + 1),
        }
    }
}

proof fn lemma_find_from_bounds(text: Seq<char>, pattern: Seq<char>, from: nat)
    ensures
        find_from(text, pattern, from) matches Some(i) ==> i + pattern.len() <= text.len() && text.subrange(
            i as int,
            (i + pattern.len()) as int,
        ) == pattern,
    decreases text.len() + 1 - from,
{
    if from <= text.len() && from + pattern.len() <= text.len() && text.subrange(from as int, (from + pattern.len()) as int)
        != pattern {
        lemma_find_from_bounds(text, pattern, from + 1);
    }
}

/// Colors a feature-list line: its accent words blue, the rest green.
pub fn colorize_body(text: &str) -> (out: String)
    ensures
        out@ == body_colored_from(text@, 0),
{
    let mut remaining = crate::text::chars_of(text);
    let mut out = String::new();
    let mut k: usize = 0;
    while k < BODY_ACCENTS.len()
        invariant
            k <= BODY_ACCENTS@.len(),
            out@ + body_colored_from(remaining@, k as nat) == body_colored_from(text@, 0),
        decreases BODY_ACCENTS@.len() - k,
    {
        let accent = BODY_ACCENTS[k];
        let accent_chars = crate::text::chars_of(accent);
        let ghost before = out@;
        let ghost rest = remaining@;
        match find_text(&remaining, &accent_chars) {
            Some(index) => {
                proof {
                    lemma_find_from_bounds(rest, accent@, 0);
                    assert(accent_chars@ == accent@);
                    assert(find_from(rest, accent@, 0) == Some(index as nat));
                    assert(index + accent_chars@.len() <= remaining@.len());
                }
                let remaining_len = remaining.len();
                let skip_to = index + accent_chars.len();
                let mut head: Vec<char> = Vec::new();
                let mut i: usize = 0;
                while i < index
                    invariant
                        i <= index <= remaining@.len(),
                        head@ == remaining@.take(i as int),
                    decreases index - i,
                {
                    head.push(remaining[i]);
                    i = i + 1;
                }
                let mut head_text = String::new();
                crate::text::push_chars(&mut head_text, &head);
                let head_green = green(head_text.as_str());
                out.append(head_green.as_str());
                let accent_blue = blue(accent);
                out.append(accent_blue.as_str());
                let mut tail: Vec<char> = Vec::new();
                let mut j: usize = skip_to;
                let start = j;
                while j < remaining_len
                    invariant
                        remaining_len == remaining@.len(),
                        start <= j <= remaining@.len(),
                        tail@ == remaining@.subrange(start as int, j as int),
                    decreases remaining@.len() - j,
                {
                    tail.push(remaining[j]);
                    j = j + 1;
                }
                assert(tail@ == rest.skip((index + accent@.len()) as int));
                assert(out@ == before + ansi_spec("32"@, rest.take(index as int)) + ansi_spec(
                    "34"@,
                    accent@,
                ));
                remaining = tail;
            },
            None => {},
        }
        k = k + 1;
    }
    let mut rest_text = String::new();
    crate::text::push_chars(&mut rest_text, &remaining);
    let rest_green = green(rest_text.as_str());
    out.append(rest_green.as_str());
    out
}

// ---------------------------------------------------------------------------
// the card
// ---------------------------------------------------------------------------

/// The copy of a welcome card for one size class: the width inside the
/// border, whether the feature lines are centered, and the feature lines.
#[derive(Debug, Clone, Copy)]
pub struct WelcomeSpec {
    pub inner_width: usize,
    pub center_body: bool,
    pub body: &'static [&'static str],
}

pub const NARROW_WELCOME_BODY: [&'static str; 2] = ["yazi zellij helix", "one shell. one flow."];

pub const MEDIUM_WELCOME_BODY: [&'static str; 3] = [
    "your reproducible terminal IDE",
    "zero-conflict helix/zellij keys",
    "top terminals, shells, and packs",
];

pub const WIDE_WELCOME_BODY: [&'static str; 4] = [
    "your reproducible, declarative terminal IDE",
    "zero-conflict keybindings between helix and zellij",
    "supports all top terminals and shells",
    "curated program packs (all configurable)",
];

pub const HERO_WELCOME_BODY: [&'static str; 5] = [
    "your reproducible, declarative terminal IDE",
    "zero-conflict keybindings between helix and zellij",
    "supports all top terminals and shells",
    "curated program packs (all configurable)",
    "shines over SSH",
];

/// The welcome copy for a terminal width: narrow and medium cards are 22
/// and 34 columns inside with left-aligned lines; wide and hero cards are 58
/// columns inside with centered lines, the hero card adding one feature.
pub open spec fn welcome_spec_for(width: nat) -> (nat, bool, Seq<&'static str>) {
    if width < 44 {
        (22, false, NARROW_WELCOME_BODY@)
    } else if width < 72 {
        (34, false, MEDIUM_WELCOME_BODY@)
    } else if width < 120 {
        (58, true, WIDE_WELCOME_BODY@)
    } else {
        (58, true, HERO_WELCOME_BODY@)
    }
}

impl WelcomeSpec {
    /// The welcome copy for a terminal width.
    pub fn for_width(width: usize) -> (spec: Self)
        ensures
            (spec.inner_width as nat, spec.center_body, spec.body@) == welcome_spec_for(width as nat),
    {
        if width < 44 {
            WelcomeSpec { inner_width: 22, center_body: false, body: &NARROW_WELCOME_BODY }
        } else if width < 72 {
            WelcomeSpec { inner_width: 34, center_body: false, body: &MEDIUM_WELCOME_BODY }
        } else if width < 120 {
            WelcomeSpec { inner_width: 58, center_body: true, body: &WIDE_WELCOME_BODY }
        } else {
            WelcomeSpec { inner_width: 58, center_body: true, body: &HERO_WELCOME_BODY }
        }
    }
}

/// `text` padded on the right with spaces to `width` characters, as
/// `format!("{:<width$}")` writes it.
pub open spec fn left_justified(text: Seq<char>, width: nat) -> Seq<char> {
    if text.len() >= width {
        text
    } else {
        text + spaces((width - text.len()) as nat)
    }
}

/// A border line: the corners around `inner` horizontal rules.
pub open spec fn border_spec(left: char, inner: nat, right: char) -> Seq<char> {
    seq![left] + repeated('─', inner) + seq![right]
}

/// One feature line of a card: centered or left-aligned in the content
/// width, colored when it is among the first `body_count`, otherwise a
/// dimmed blank line of the same width.
pub open spec fn body_line_spec(
    body: Seq<char>,
    index: nat,
    body_count: nat,
    center_body: bool,
    content_width: nat,
) -> Seq<char> {
    let line = if center_body {
        centered(body, content_width)
    } else {
        left_justified(body, content_width)
    };
    if index < body_count {
        body_colored_from(line, 0)
    } else {
        ansi_spec("2"@, spaces(content_width))
    }
}

/// The lines of a welcome card before centering: the magenta top border,
/// the title (the full `YAZELIX` logo in color, or a dimmed `YZS`), the
/// feature lines, the yellow greeting and the magenta bottom border.
pub open spec fn card_lines_spec(
    inner_width: nat,
    center_body: bool,
    body: Seq<&'static str>,
    body_count: nat,
    full_title: bool,
) -> Seq<Seq<char>> {
    let content_width = inner_width + 2;
    seq![
        ansi_spec("35"@, border_spec('╭', inner_width, '╮')),
        if full_title {
            logo_colored(centered("YAZELIX"@, content_width))
        } else {
            ansi_spec("2"@, centered("YZS"@, content_width))
        },
    ] + Seq::new(
        body.len(),
        |i: int| body_line_spec(body[i]@, i as nat, body_count, center_body, content_width),
    ) + seq![
        ansi_spec("33"@, centered("welcome to yazelix"@, content_width)),
        ansi_spec("35"@, border_spec('╰', inner_width, '╯')),
    ]
}

fn border_line(left: char, inner: usize, right: char) -> (out: String)
    ensures
        out@ == border_spec(left, inner as nat, right),
{
    let mut line = String::new();
    push_char(&mut line, left);
    push_repeated(&mut line, '─', inner);
    push_char(&mut line, right);
    line
}

/// The lines of a welcome card, each centered in `width` columns. The
/// first `body_count` feature lines are shown; `full_title` picks the full
/// logo over the short title. `requires` leaves out inner widths whose
/// content width overflows.
pub fn static_card_lines(spec: WelcomeSpec, body_count: usize, full_title: bool, width: usize) -> (lines:
    Vec<String>)
    requires
        spec.inner_width + 2 <= usize::MAX,
    ensures
        lines@.len() == spec.body@.len() + 4,
        forall|i: int|
            0 <= i < lines@.len() ==> #[trigger] lines@[i]@ == centered(
                card_lines_spec(
                    spec.inner_width as nat,
                    spec.center_body,
                    spec.body@,
                    body_count as nat,
                    full_title,
                )[i],
                width as nat,
            ),
{
    let content_width = spec.inner_width + 2;
    let ghost expected = card_lines_spec(
        spec.inner_width as nat,
        spec.center_body,
        spec.body@,
        body_count as nat,
        full_title,
    );
    let mut lines: Vec<String> = Vec::new();
    let top = border_line('╭', spec.inner_width, '╮');
    lines.push(magenta(top.as_str()));
    if full_title {
        let title = center_text("YAZELIX", content_width);
        lines.push(colorize_logo(title.as_str()));
    } else {
        let title = center_text("YZS", content_width);
        lines.push(dim(title.as_str()));
    }
    let mut index: usize = 0;
    while index < spec.body.len()
        invariant
            content_width == spec.inner_width + 2,
            index <= spec.body@.len(),
            lines@.len() == index + 2,
            expected == card_lines_spec(
                spec.inner_width as nat,
                spec.center_body,
                spec.body@,
                body_count as nat,
                full_title,
            ),
            forall|k: int| 0 <= k < index + 2 ==> #[trigger] lines@[k]@ == expected[k],
        decreases spec.body@.len() - index,
    {
        let body = spec.body[index];
        let line = if spec.center_body {
            center_text(body, content_width)
        } else {
            let mut padded = body.to_owned();
            let len = body.unicode_len();
            if len < content_width {
                push_repeated(&mut padded, ' ', content_width - len);
            }
            padded
        };
        if index < body_count {
            lines.push(colorize_body(line.as_str()));
        } else {
            let blank = crate::text::repeat_char(' ', content_width);
            lines.push(dim(blank.as_str()));
        }
        assert(expected[index + 2] == body_line_spec(
            spec.body@[index as int]@,
            index as nat,
            body_count as nat,
            spec.center_body,
            content_width as nat,
        ));
        index = index + 1;
    }
    let greeting = center_text("welcome to yazelix", content_width);
    lines.push(yellow(greeting.as_str()));
    let bottom = border_line('╰', spec.inner_width, '╯');
    lines.push(magenta(bottom.as_str()));
    center_frame_lines(lines, width)
}

/// The full welcome card for a terminal width, centered in it.
pub fn static_card(width: usize) -> (lines: Vec<String>)
    ensures
        ({
            let (inner, center_body, body) = welcome_spec_for(width as nat);
            &&& lines@.len() == body.len() + 4
            &&& forall|i: int|
                0 <= i < lines@.len() ==> #[trigger] lines@[i]@ == centered(
                    card_lines_spec(inner, center_body, body, body.len(), true)[i],
                    width as nat,
                )
        }),
{
    let spec = WelcomeSpec::for_width(width);
    static_card_lines(spec, spec.body.len(), true, width)
}

/// The texts of some strings.
pub open spec fn views_of(lines: Seq<String>) -> Seq<Seq<char>> {
    lines.map_values(|s: String| s@)
}

/// `lines` preceded by enough empty lines to center them vertically in
/// `height` rows (half the spare rows, rounded down).
pub open spec fn centered_vertically(lines: Seq<Seq<char>>, height: nat) -> Seq<Seq<char>> {
    let top = (if height > lines.len() { (height - lines.len()) as nat } else { 0 }) / 2;
    Seq::new(top, |_i: int| Seq::<char>::empty()) + lines
}

/// `lines` centered vertically in `height` rows.
pub fn center_vertically(lines: Vec<String>, height: usize) -> (out: Vec<String>)
    ensures
        views_of(out@) == centered_vertically(views_of(lines@), height as nat),
{
    let top = height.saturating_sub(lines.len()) / 2;
    let mut out: Vec<String> = Vec::new();
    let mut i: usize = 0;
    while i < top
        invariant
            i <= top,
            out@.len() == i,
            forall|k: int| 0 <= k < i ==> #[trigger] out@[k]@ == Seq::<char>::empty(),
        decreases top - i,
    {
        out.push(String::new());
        i = i + 1;
    }
    let mut j: usize = 0;
    while j < lines.len()
        invariant
            j <= lines@.len(),
            out@.len() == top + j,
            forall|k: int| 0 <= k < top ==> #[trigger] out@[k]@ == Seq::<char>::empty(),
            forall|k: int| 0 <= k < j ==> #[trigger] out@[top + k]@ == lines@[k]@,
        decreases lines@.len() - j,
    {
        out.push(lines[j].clone());
        j = j + 1;
    }
    let ghost expected = centered_vertically(views_of(lines@), height as nat);
    assert forall|k: int| 0 <= k < out@.len() implies #[trigger] views_of(out@)[k] == expected[k] by {
        if k >= top {
            assert(out@[top + (k - top)]@ == lines@[k - top]@);
        }
    }
    assert(views_of(out@) =~= expected);
    out
}

/// The lines of a card for a terminal width, each centered in it.
pub open spec fn centered_card(width: nat, body_count: nat, full_title: bool) -> Seq<Seq<char>> {
    let (inner, center_body, body) = welcome_spec_for(width);
    card_lines_spec(inner, center_body, body, body_count, full_title).map_values(
        |line: Seq<char>| centered(line, width),
    )
}

/// The three frames of the logo reveal, each centered vertically: the
/// short title alone, the full logo with the first feature, and the full
/// card.
pub fn logo_frames(width: usize, height: usize) -> (frames: Vec<Vec<String>>)
    ensures
        frames@.len() == 3,
        views_of(frames@[0]@) == centered_vertically(centered_card(width as nat, 0, false), height as nat),
        views_of(frames@[1]@) == centered_vertically(centered_card(width as nat, 1, true), height as nat),
        views_of(frames@[2]@) == centered_vertically(
            centered_card(width as nat, welcome_spec_for(width as nat).2.len(), true),
            height as nat,
        ),
{
    let spec = WelcomeSpec::for_width(width);
    let full = static_card_lines(spec, spec.body.len(), true, width);
    let title = static_card_lines(spec, 0, false, width);
    let first = static_card_lines(spec, 1, true, width);
    assert(views_of(full@) =~= centered_card(width as nat, spec.body@.len(), true));
    assert(views_of(title@) =~= centered_card(width as nat, 0, false));
    assert(views_of(first@) =~= centered_card(width as nat, 1, true));
    let mut frames: Vec<Vec<String>> = Vec::new();
    frames.push(center_vertically(title, height));
    frames.push(center_vertically(first, height));
    frames.push(center_vertically(full, height));
    frames
}


// ---------------------------------------------------------------------------
// the card's shape
// ---------------------------------------------------------------------------

/// Whether a text holds decimal digits only, as SGR codes do.
pub open spec fn digits_only(code: Seq<char>) -> bool {
    forall|i: int| 0 <= i < code.len() ==> crate::text::is_digit_char(#[trigger] code[i])
}

/// Styled plain text shows exactly its own characters: the SGR sequence and
/// the reset around it take no room.
proof fn lemma_ansi_width(code: Seq<char>, text: Seq<char>, rest: Seq<char>)
    requires
        digits_only(code),
        escape_free(text),
    ensures
        visible_width(ansi_spec(code, text) + rest) == text.len() + visible_width(rest),
{
    let reset = seq![ESC, '[', '0', 'm'];
    assert(reset + rest == seq![ESC, '['] + seq!['0'] + seq!['m'] + rest);
    lemma_visible_width_csi_prefix(seq!['0'], 'm', rest);
    lemma_visible_width_plain_prefix(text, reset + rest);
    assert forall|i: int| 0 <= i < code.len() implies !is_ascii_alpha(#[trigger] code[i]) by {
        assert(crate::text::is_digit_char(code[i]));
    }
    lemma_visible_width_csi_prefix(code, 'm', text + (reset + rest));
    assert(ansi_spec(code, text) + rest == seq![ESC, '['] + code + seq!['m'] + (text + (reset + rest)));
}

proof fn lemma_logo_colors_digits(k: int)
    requires
        0 <= k < 5,
    ensures
        digits_only(LOGO_COLORS@[k]@),
{
    reveal_strlit("31");
    reveal_strlit("32");
    reveal_strlit("33");
    reveal_strlit("34");
    reveal_strlit("35");
}

/// The logo coloring of plain text shows exactly its characters.
proof fn lemma_logo_width(text: Seq<char>, rest: Seq<char>)
    requires
        escape_free(text),
    ensures
        visible_width(logo_colored(text) + rest) == text.len() + visible_width(rest),
    decreases text.len(),
{
    if text.len() > 0 {
        let n = (text.len() - 1) as nat;
        let last = text.last();
        let piece = logo_piece(n, last);
        assert(last == text[n as int]);
        if last == ' ' {
            assert(escape_free(seq![' ']));
            lemma_visible_width_plain_prefix(seq![' '], rest);
        } else {
            lemma_logo_colors_digits((n % 5) as int);
            assert(escape_free(seq![last]));
            lemma_ansi_width(LOGO_COLORS@[(n % 5) as int]@, seq![last], rest);
        }
        let front = text.drop_last();
        assert(escape_free(front)) by {
            assert forall|i: int| 0 <= i < front.len() implies front[i] != ESC by {
                assert(front[i] == text[i]);
            }
        }
        lemma_logo_width(front, piece + rest);
        assert(logo_colored(text) + rest == logo_colored(front) + (piece + rest));
    }
}

proof fn lemma_body_codes_digits()
    ensures
        digits_only("32"@),
        digits_only("34"@),
        digits_only("33"@),
        digits_only("35"@),
        digits_only("2"@),
{
    reveal_strlit("32");
    reveal_strlit("34");
    reveal_strlit("33");
    reveal_strlit("35");
    reveal_strlit("2");
}

/// The feature-list coloring of plain text shows exactly its characters.
proof fn lemma_body_width(text: Seq<char>, k: nat, rest: Seq<char>)
    requires
        escape_free(text),
    ensures
        visible_width(body_colored_from(text, k) + rest) == text.len() + visible_width(rest),
    decreases BODY_ACCENTS@.len() - k,
{
    lemma_body_codes_digits();
    if k >= BODY_ACCENTS@.len() {
        lemma_ansi_width("32"@, text, rest);
    } else {
        let accent = BODY_ACCENTS@[k as int]@;
        match find_spec(text, accent) {
            Some(index) => {
                lemma_find_from_bounds(text, accent, 0);
                let end = (index + accent.len()) as int;
                let head = text.take(index as int);
                let tail = text.skip(end);
                assert(escape_free(head)) by {
                    assert forall|i: int| 0 <= i < head.len() implies head[i] != ESC by {
                        assert(head[i] == text[i]);
                    }
                }
                assert(escape_free(tail)) by {
                    assert forall|i: int| 0 <= i < tail.len() implies tail[i] != ESC by {
                        assert(tail[i] == text[end + i]);
                    }
                }
                assert(escape_free(accent)) by {
                    assert forall|i: int| 0 <= i < accent.len() implies accent[i] != ESC by {
                        assert(accent[i] == text.subrange(index as int, end)[i]);
                        assert(accent[i] == text[index + i]);
                    }
                }
                let after = body_colored_from(tail, k + 1) + rest;
                lemma_body_width(tail, k + 1, rest);
                lemma_ansi_width("34"@, accent, after);
                lemma_ansi_width("32"@, head, ansi_spec("34"@, accent) + after);
                assert(body_colored_from(text, k) + rest == ansi_spec("32"@, head) + (ansi_spec("34"@, accent)
                    + after));
            },
            None => {
                lemma_body_width(text, k + 1, rest);
            },
        }
    }
}

/// Plain text no wider than `width`, centered in it, is plain text exactly
/// `width` wide.
proof fn lemma_centered_plain(text: Seq<char>, width: nat)
    requires
        escape_free(text),
        text.len() <= width,
    ensures
        centered(text, width).len() == width,
        escape_free(centered(text, width)),
{
    lemma_visible_width_plain(text);
    let out = centered(text, width);
    if text.len() < width {
        let left = ((width - text.len()) as nat) / 2;
        assert forall|i: int| 0 <= i < out.len() implies out[i] != ESC by {
            if i < left {
                assert(out[i] == ' ');
            } else if i < left + text.len() {
                assert(out[i] == text[i - left]);
            } else {
                assert(out[i] == ' ');
            }
        }
    }
}

/// Plain text no wider than `width`, padded on the right to it, is plain
/// text exactly `width` wide.
proof fn lemma_left_justified_plain(text: Seq<char>, width: nat)
    requires
        escape_free(text),
        text.len() <= width,
    ensures
        left_justified(text, width).len() == width,
        escape_free(left_justified(text, width)),
{
    let out = left_justified(text, width);
    assert forall|i: int| 0 <= i < out.len() implies out[i] != ESC by {
        if i < text.len() {
            assert(out[i] == text[i]);
        } else {
            assert(out[i] == ' ');
        }
    }
}

/// A welcome card is a rectangle: when its inner width leaves room for the
/// greeting and its feature lines are plain text that fits, every line of
/// the card shows exactly the content width (the inner width plus the two
/// border columns), whatever follows it.
pub proof fn lemma_card_lines_keep_width(
    inner_width: nat,
    center_body: bool,
    body: Seq<&'static str>,
    body_count: nat,
    full_title: bool,
    i: int,
    rest: Seq<char>,
)
    requires
        inner_width + 2 >= 18,
        forall|k: int| 0 <= k < body.len() ==> escape_free((#[trigger] body[k])@) && body[k]@.len() <= inner_width + 2,
        0 <= i < body.len() + 4,
    ensures
        visible_width(card_lines_spec(inner_width, center_body, body, body_count, full_title)[i] + rest)
            == inner_width + 2 + visible_width(rest),
{
    reveal_strlit("YAZELIX");
    reveal_strlit("YZS");
    reveal_strlit("welcome to yazelix");
    lemma_body_codes_digits();
    let content_width = inner_width + 2;
    let lines = card_lines_spec(inner_width, center_body, body, body_count, full_title);
    let n = body.len() as int;
    if i == 0 || i == n + 3 {
        let border = if i == 0 {
            border_spec('╭', inner_width, '╮')
        } else {
            border_spec('╰', inner_width, '╯')
        };
        assert(escape_free(border)) by {
            assert forall|j: int| 0 <= j < border.len() implies border[j] != ESC by {
                if 0 < j < border.len() - 1 {
                    assert(border[j] == '─');
                }
            }
        }
        lemma_ansi_width("35"@, border, rest);
    } else if i == 1 {
        if full_title {
            assert(escape_free("YAZELIX"@));
            lemma_centered_plain("YAZELIX"@, content_width);
            lemma_logo_width(centered("YAZELIX"@, content_width), rest);
        } else {
            assert(escape_free("YZS"@));
            lemma_centered_plain("YZS"@, content_width);
            lemma_ansi_width("2"@, centered("YZS"@, content_width), rest);
        }
    } else if i == n + 2 {
        assert(escape_free("welcome to yazelix"@));
        lemma_centered_plain("welcome to yazelix"@, content_width);
        lemma_ansi_width("33"@, centered("welcome to yazelix"@, content_width), rest);
    } else {
        let k = i - 2;
        let text = body[k]@;
        assert(lines[i] == body_line_spec(text, k as nat, body_count, center_body, content_width));
        if (k as nat) < body_count {
            let line = if center_body {
                lemma_centered_plain(text, content_width);
                centered(text, content_width)
            } else {
                lemma_left_justified_plain(text, content_width);
                left_justified(text, content_width)
            };
            lemma_body_width(line, 0, rest);
        } else {
            assert(escape_free(spaces(content_width)));
            lemma_ansi_width("2"@, spaces(content_width), rest);
        }
    }
}


proof fn lemma_plain_copy(text: &'static str, limit: nat)
    requires
        forall|j: int| 0 <= j < text@.len() ==> (#[trigger] text@[j]) != ESC,
        text@.len() <= limit,
    ensures
        escape_free(text@) && text@.len() <= limit,
{
}

/// The welcome copy of every size class fits its card: the content width
/// leaves room for the greeting, and every feature line is plain text no
/// wider than the content width.
proof fn lemma_welcome_copy_fits(width: nat)
    ensures
        ({
            let (inner, center_body, body) = welcome_spec_for(width);
            &&& inner + 2 >= 18
            &&& forall|k: int|
                0 <= k < body.len() ==> escape_free((#[trigger] body[k])@) && body[k]@.len() <= inner + 2
        }),
{
    reveal_strlit("yazi zellij helix");
    reveal_strlit("one shell. one flow.");
    reveal_strlit("your reproducible terminal IDE");
    reveal_strlit("zero-conflict helix/zellij keys");
    reveal_strlit("top terminals, shells, and packs");
    reveal_strlit("your reproducible, declarative terminal IDE");
    reveal_strlit("zero-conflict keybindings between helix and zellij");
    reveal_strlit("supports all top terminals and shells");
    reveal_strlit("curated program packs (all configurable)");
    reveal_strlit("shines over SSH");
    let (inner, center_body, body) = welcome_spec_for(width);
    assert forall|k: int| 0 <= k < body.len() implies escape_free((#[trigger] body[k])@) && body[k]@.len() <= inner
        + 2 by {
        lemma_plain_copy(body[k], inner + 2);
    }
}

/// Every line of the welcome card, centered in a terminal, shows the same
/// width: the card's content width, or the terminal's width when that is
/// wider. The card stays a rectangle at every size class and stage of the
/// logo reveal.
pub proof fn lemma_centered_card_keeps_width(width: nat, body_count: nat, full_title: bool, i: int)
    requires
        0 <= i < centered_card(width, body_count, full_title).len(),
    ensures
        visible_width(centered_card(width, body_count, full_title)[i]) == if welcome_spec_for(width).0 + 2
            >= width {
            welcome_spec_for(width).0 + 2
        } else {
            width
        },
{
    let (inner, center_body, body) = welcome_spec_for(width);
    let content_width = inner + 2;
    lemma_welcome_copy_fits(width);
    let lines = card_lines_spec(inner, center_body, body, body_count, full_title);
    let line = lines[i];
    lemma_card_lines_keep_width(inner, center_body, body, body_count, full_title, i, Seq::empty());
    assert(line + Seq::<char>::empty() == line);
    assert(visible_width(Seq::<char>::empty()) == 0);
    assert(centered_card(width, body_count, full_title)[i] == centered(line, width));
    if content_width < width {
        let left = ((width - content_width) as nat) / 2;
        let right = (width - content_width - left) as nat;
        assert(escape_free(spaces(left)));
        assert(escape_free(spaces(right)));
        lemma_visible_width_plain(spaces(right));
        lemma_card_lines_keep_width(inner, center_body, body, body_count, full_title, i, spaces(right));
        lemma_visible_width_plain_prefix(spaces(left), line + spaces(right));
        assert(centered(line, width) == spaces(left) + (line + spaces(right)));
    }
}


// ---------------------------------------------------------------------------
// colors only recolor
// ---------------------------------------------------------------------------

/// Styled plain text shows exactly that text, whatever follows it.
proof fn lemma_ansi_shown(code: Seq<char>, text: Seq<char>, rest: Seq<char>)
    requires
        digits_only(code),
        escape_free(text),
    ensures
        shown(ansi_spec(code, text) + rest) == text + shown(rest),
{
    let reset = seq![ESC, '[', '0', 'm'];
    assert(reset + rest == seq![ESC, '['] + seq!['0'] + seq!['m'] + rest);
    lemma_shown_csi_prefix(seq!['0'], 'm', rest);
    lemma_shown_plain_prefix(text, reset + rest);
    assert forall|i: int| 0 <= i < code.len() implies !is_ascii_alpha(#[trigger] code[i]) by {
        assert(crate::text::is_digit_char(code[i]));
    }
    lemma_shown_csi_prefix(code, 'm', text + (reset + rest));
    assert(ansi_spec(code, text) + rest == seq![ESC, '['] + code + seq!['m'] + (text + (reset + rest)));
}

proof fn lemma_logo_shown(text: Seq<char>, rest: Seq<char>)
    requires
        escape_free(text),
    ensures
        shown(logo_colored(text) + rest) == text + shown(rest),
    decreases text.len(),
{
    if text.len() > 0 {
        let n = (text.len() - 1) as nat;
        let last = text.last();
        let piece = logo_piece(n, last);
        assert(last == text[n as int]);
        if last == ' ' {
            assert(escape_free(seq![' ']));
            lemma_shown_plain_prefix(seq![' '], rest);
        } else {
            lemma_logo_colors_digits((n % 5) as int);
            assert(escape_free(seq![last]));
            lemma_ansi_shown(LOGO_COLORS@[(n % 5) as int]@, seq![last], rest);
        }
        let front = text.drop_last();
        assert(escape_free(front)) by {
            assert forall|i: int| 0 <= i < front.len() implies front[i] != ESC by {
                assert(front[i] == text[i]);
            }
        }
        lemma_logo_shown(front, piece + rest);
        assert(logo_colored(text) + rest == logo_colored(front) + (piece + rest));
        assert(front + (seq![last] + shown(rest)) =~= text + shown(rest));
    }
}

proof fn lemma_body_shown(text: Seq<char>, k: nat, rest: Seq<char>)
    requires
        escape_free(text),
    ensures
        shown(body_colored_from(text, k) + rest) == text + shown(rest),
    decreases BODY_ACCENTS@.len() - k,
{
    lemma_body_codes_digits();
    if k >= BODY_ACCENTS@.len() {
        lemma_ansi_shown("32"@, text, rest);
    } else {
        let accent = BODY_ACCENTS@[k as int]@;
        match find_spec(text, accent) {
            Some(index) => {
                lemma_find_from_bounds(text, accent, 0);
                let end = (index + accent.len()) as int;
                let head = text.take(index as int);
                let tail = text.skip(end);
                assert(escape_free(head)) by {
                    assert forall|i: int| 0 <= i < head.len() implies head[i] != ESC by {
                        assert(head[i] == text[i]);
                    }
                }
                assert(escape_free(tail)) by {
                    assert forall|i: int| 0 <= i < tail.len() implies tail[i] != ESC by {
                        assert(tail[i] == text[end + i]);
                    }
                }
                assert(escape_free(accent)) by {
                    assert forall|i: int| 0 <= i < accent.len() implies accent[i] != ESC by {
                        assert(accent[i] == text.subrange(index as int, end)[i]);
                        assert(accent[i] == text[index + i]);
                    }
                }
                let after = body_colored_from(tail, k + 1) + rest;
                lemma_body_shown(tail, k + 1, rest);
                lemma_ansi_shown("34"@, accent, after);
                lemma_ansi_shown("32"@, head, ansi_spec("34"@, accent) + after);
                assert(body_colored_from(text, k) + rest == ansi_spec("32"@, head) + (ansi_spec("34"@, accent)
                    + after));
                assert(head + (accent + (tail + shown(rest))) =~= text + shown(rest));
            },
            None => {
                lemma_body_shown(text, k + 1, rest);
            },
        }
    }
}

/// Coloring a feature line only recolors it: a terminal shows exactly the
/// line's text, with no accent word dropped, repeated or moved, so it is as
/// wide as the text.
pub proof fn lemma_body_colors_only(text: Seq<char>)
    requires
        escape_free(text),
    ensures
        shown(body_colored_from(text, 0)) == text,
        visible_width(body_colored_from(text, 0)) == text.len(),
{
    lemma_body_shown(text, 0, Seq::empty());
    assert(body_colored_from(text, 0) + Seq::<char>::empty() == body_colored_from(text, 0));
    assert(shown(Seq::<char>::empty()) =~= Seq::<char>::empty());
    assert(text + Seq::<char>::empty() == text);
    lemma_visible_width_is_shown_len(body_colored_from(text, 0));
}

/// Coloring the logo only recolors it: a terminal shows exactly its text.
pub proof fn lemma_logo_colors_only(text: Seq<char>)
    requires
        escape_free(text),
    ensures
        shown(logo_colored(text)) == text,
        visible_width(logo_colored(text)) == text.len(),
{
    lemma_logo_shown(text, Seq::empty());
    assert(logo_colored(text) + Seq::<char>::empty() == logo_colored(text));
    assert(shown(Seq::<char>::empty()) =~= Seq::<char>::empty());
    assert(text + Seq::<char>::empty() == text);
    lemma_visible_width_is_shown_len(logo_colored(text));
}


/// A feature line aligned in the content width: centered, or padded on the
/// right.
pub open spec fn aligned_feature(text: Seq<char>, center_body: bool, content_width: nat) -> Seq<char> {
    if center_body {
        centered(text, content_width)
    } else {
        left_justified(text, content_width)
    }
}

/// A card built with `body_count` shows exactly its first `body_count`
/// feature lines: each of those shows its text aligned in the content width,
/// and every later feature row shows nothing but blanks. So the title frame
/// of the logo reveal (`body_count` 0) shows no feature text at all.
pub proof fn lemma_card_shows_first_features(
    inner_width: nat,
    center_body: bool,
    body: Seq<&'static str>,
    body_count: nat,
    full_title: bool,
    k: int,
)
    requires
        forall|j: int| 0 <= j < body.len() ==> escape_free((#[trigger] body[j])@) && body[j]@.len() <= inner_width + 2,
        0 <= k < body.len(),
    ensures
        k >= body_count ==> shown(card_lines_spec(inner_width, center_body, body, body_count, full_title)[k + 2])
            == spaces(inner_width + 2),
        k < body_count ==> shown(card_lines_spec(inner_width, center_body, body, body_count, full_title)[k + 2])
            == aligned_feature(body[k]@, center_body, inner_width + 2),
{
    lemma_body_codes_digits();
    let content_width = inner_width + 2;
    let lines = card_lines_spec(inner_width, center_body, body, body_count, full_title);
    let text = body[k]@;
    assert(lines[k + 2] == body_line_spec(text, k as nat, body_count, center_body, content_width));
    assert(shown(Seq::<char>::empty()) =~= Seq::<char>::empty());
    if (k as nat) < body_count {
        let line = aligned_feature(text, center_body, content_width);
        if center_body {
            lemma_centered_plain(text, content_width);
        } else {
            lemma_left_justified_plain(text, content_width);
        }
        lemma_body_colors_only(line);
    } else {
        assert(escape_free(spaces(content_width)));
        lemma_ansi_shown("2"@, spaces(content_width), Seq::empty());
        assert(ansi_spec("2"@, spaces(content_width)) + Seq::<char>::empty() == ansi_spec(
            "2"@,
            spaces(content_width),
        ));
        assert(spaces(content_width) + Seq::<char>::empty() == spaces(content_width));
    }
}

} // verus!
