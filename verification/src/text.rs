//! Text primitives shared by the renderers: character access, decimal
//! formatting, ANSI-aware visible widths and horizontal centering.

use vstd::prelude::*;

verus! {

/// The escape character that starts every ANSI control sequence.
pub const ESC: char = '\u{1b}';

/// Decimal digit characters, indexed by their value.
pub const DIGITS: [char; 10] = ['0', '1', '2', '3', '4', '5', '6', '7', '8', '9'];

// ---------------------------------------------------------------------------
// std string operations that vstd does not specify
// ---------------------------------------------------------------------------

/// `String::push`: appends one character to the end of the string.
#[verifier::external_body]
pub(crate) fn push_char(text: &mut String, ch: char)
    ensures
        final(text)@ == old(text)@.push(ch),
{
    text.push(ch);
}

/// `PartialEq` for `str`: two string slices are equal exactly when they hold
/// the same characters.
#[verifier::external_body]
pub(crate) fn str_equals(left: &str, right: &str) -> (equal: bool)
    ensures
        equal == (left@ == right@),
{
    left == right
}

/// Whether a character has the Unicode `White_Space` property, which
/// `char::is_whitespace` tests: tab to carriage return, space, next line,
/// no-break space, ogham space mark, the spaces from en quad to hair space,
/// the line and paragraph separators, narrow no-break space, medium
/// mathematical space and ideographic space.
pub open spec fn is_white_space(ch: char) -> bool {
    ||| ('\u{9}' <= ch && ch <= '\u{d}')
    ||| ch == ' '
    ||| ch == '\u{85}'
    ||| ch == '\u{a0}'
    ||| ch == '\u{1680}'
    ||| ('\u{2000}' <= ch && ch <= '\u{200a}')
    ||| ch == '\u{2028}'
    ||| ch == '\u{2029}'
    ||| ch == '\u{202f}'
    ||| ch == '\u{205f}'
    ||| ch == '\u{3000}'
}

/// A text without its leading white space.
pub open spec fn trimmed_start(text: Seq<char>) -> Seq<char>
    decreases text.len(),
{
    if text.len() > 0 && is_white_space(text[0]) {
        trimmed_start(text.drop_first())
    } else {
        text
    }
}

/// A text without its trailing white space.
pub open spec fn trimmed_end(text: Seq<char>) -> Seq<char>
    decreases text.len(),
{
    if text.len() > 0 && is_white_space(text.last()) {
        trimmed_end(text.drop_last())
    } else {
        text
    }
}

/// What `str::trim` leaves of a text: the text without its leading and
/// trailing white space.
pub open spec fn trimmed(text: Seq<char>) -> Seq<char> {
    trimmed_end(trimmed_start(text))
}

/// A text that neither starts nor ends with white space is left as it is.
pub proof fn lemma_trimmed_unchanged(text: Seq<char>)
    requires
        text.len() > 0 ==> !is_white_space(text[0]) && !is_white_space(text.last()),
    ensures
        trimmed(text) == text,
{
}

/// `str::trim`, whose documentation removes leading and trailing
/// characters with the `White_Space` property.
#[verifier::external_body]
pub(crate) fn trim_text(text: &str) -> (out: String)
    ensures
        out@ == trimmed(text@),
{
    text.trim().to_string()
}

/// ASCII lowercase of one character; every other character is kept.
pub open spec fn ascii_lower_char(ch: char) -> char {
    if 'A' <= ch && ch <= 'Z' {
        ((ch as u32) + 32) as char
    } else {
        ch
    }
}

/// ASCII lowercase of a text.
pub open spec fn ascii_lower(text: Seq<char>) -> Seq<char> {
    text.map_values(|ch: char| ascii_lower_char(ch))
}

/// `str::to_ascii_lowercase`: maps 'A'..='Z' to 'a'..='z' and leaves every
/// other character unchanged, as its documentation states.
#[verifier::external_body]
pub(crate) fn to_ascii_lowercase(text: &str) -> (out: String)
    ensures
        out@ == ascii_lower(text@),
{
    text.to_ascii_lowercase()
}

/// Whether a character is an ASCII decimal digit.
pub open spec fn is_digit_char(ch: char) -> bool {
    '0' <= ch && ch <= '9'
}

/// The value of a run of decimal digits, most significant first.
pub open spec fn digits_value(digits: Seq<char>) -> nat
    decreases digits.len(),
{
    if digits.len() == 0 {
        0
    } else {
        digits_value(digits.drop_last()) * 10 + ((digits.last() as u32) - 48) as nat
    }
}

/// What `u64::from_str` accepts: an optional `+` followed by at least one
/// decimal digit and nothing else, whose value fits in a `u64`.
pub open spec fn parsed_u64(text: Seq<char>) -> Option<u64> {
    let digits = if text.len() > 0 && text[0] == '+' {
        text.drop_first()
    } else {
        text
    };
    if digits.len() > 0 && (forall|i: int| 0 <= i < digits.len() ==> is_digit_char(#[trigger] digits[i]))
        && digits_value(digits) <= u64::MAX {
        Some(digits_value(digits) as u64)
    } else {
        None
    }
}

/// `u64::from_str`, whose accepted syntax is documented as an optional sign
/// followed by digits only, with overflow reported as an error.
#[verifier::external_body]
pub(crate) fn parse_u64(text: &str) -> (parsed: Option<u64>)
    ensures
        parsed == parsed_u64(text@),
{
    text.parse::<u64>().ok()
}

// ---------------------------------------------------------------------------
// characters and building blocks
// ---------------------------------------------------------------------------

/// A positive dimension given in an environment variable: its trimmed value
/// parsed as a `usize`, ignored when it does not parse or is zero.
pub open spec fn dimension_override(value: Seq<char>) -> Option<usize> {
    match parsed_u64(trimmed(value)) {
        Some(n) => if 0 < n && n <= usize::MAX {
            Some(n as usize)
        } else {
            None
        },
        None => None,
    }
}

/// The terminal dimension that an environment variable's value asks for, if
/// any (a positive whole number, surrounding white space allowed).
pub fn parse_dimension_override(value: Option<&str>) -> (dimension: Option<usize>)
    ensures
        dimension == match value {
            Some(v) => dimension_override(v@),
            None => None,
        },
{
    match value {
        None => None,
        Some(raw) => {
            let trimmed_raw = trim_text(raw);
            match parse_u64(trimmed_raw.as_str()) {
                Some(n) => if 0 < n && n <= usize::MAX as u64 {
                    Some(n as usize)
                } else {
                    None
                },
                None => None,
            }
        },
    }
}

/// The width assumed when neither the environment nor the terminal gives one.
pub const FALLBACK_TERMINAL_WIDTH: usize = 80;

/// The height assumed when neither the environment nor the terminal gives one.
pub const FALLBACK_TERMINAL_HEIGHT: usize = 24;

/// A terminal dimension: the one an environment value asks for, else the
/// one the terminal reports, else the fallback.
pub open spec fn terminal_dimension(override_value: Option<Seq<char>>, reported: Option<u16>, fallback: usize) -> usize {
    match override_value {
        Some(v) if dimension_override(v) is Some => dimension_override(v)->0,
        _ => match reported {
            Some(r) => r as usize,
            None => fallback,
        },
    }
}

/// The text of an optional string slice.
pub open spec fn opt_view(value: Option<&str>) -> Option<Seq<char>> {
    match value {
        Some(v) => Some(v@),
        None => None,
    }
}

fn resolve_terminal_dimension(override_value: Option<&str>, reported: Option<u16>, fallback: usize) -> (dimension:
    usize)
    ensures
        dimension == terminal_dimension(opt_view(override_value), reported, fallback),
{
    match parse_dimension_override(override_value) {
        Some(dimension) => dimension,
        None => match reported {
            Some(r) => r as usize,
            None => fallback,
        },
    }
}

/// The terminal width: `YAZELIX_WELCOME_WIDTH`'s value when it names a
/// positive width, else the width the terminal reports (`(columns, rows)`),
/// else 80.
pub fn terminal_width_from(width_override: Option<&str>, terminal_size: Option<(u16, u16)>) -> (width: usize)
    ensures
        width == terminal_dimension(
            opt_view(width_override),
            match terminal_size {
                Some(size) => Some(size.0),
                None => None,
            },
            FALLBACK_TERMINAL_WIDTH,
        ),
{
    let reported = match terminal_size {
        Some(size) => Some(size.0),
        None => None,
    };
    resolve_terminal_dimension(width_override, reported, FALLBACK_TERMINAL_WIDTH)
}

/// The terminal height: `YAZELIX_WELCOME_HEIGHT`'s value when it names a
/// positive height, else the height the terminal reports (`(columns, rows)`),
/// else 24.
pub fn terminal_height_from(height_override: Option<&str>, terminal_size: Option<(u16, u16)>) -> (height: usize)
    ensures
        height == terminal_dimension(
            opt_view(height_override),
            match terminal_size {
                Some(size) => Some(size.1),
                None => None,
            },
            FALLBACK_TERMINAL_HEIGHT,
        ),
{
    let reported = match terminal_size {
        Some(size) => Some(size.1),
        None => None,
    };
    resolve_terminal_dimension(height_override, reported, FALLBACK_TERMINAL_HEIGHT)
}

/// The characters of a string slice, in order.
pub fn chars_of(text: &str) -> (chars: Vec<char>)
    ensures
        chars@ == text@,
{
    let mut chars: Vec<char> = Vec::new();
    for ch in it: text.chars()
        invariant
            chars@ == it.seq().take(it.index() as int),
    {
        chars.push(ch);
    }
    chars
}

/// Appends every character of `chars` to `out`.
pub fn push_chars(out: &mut String, chars: &Vec<char>)
    ensures
        final(out)@ == old(out)@ + chars@,
{
    let ghost start = out@;
    let mut i: usize = 0;
    while i < chars.len()
        invariant
            i <= chars.len(),
            out@ == start + chars@.take(i as int),
        decreases chars.len() - i,
    {
        push_char(out, chars[i]);
        i = i + 1;
        assert(chars@.take(i as int) == chars@.take((i - 1) as int).push(chars@[i - 1]));
    }
    assert(chars@.take(chars.len() as int) == chars@);
}

/// A run of `count` copies of `ch`.
pub open spec fn repeated(ch: char, count: nat) -> Seq<char> {
    Seq::new(count, |_i: int| ch)
}

/// A run of `count` spaces.
pub open spec fn spaces(count: nat) -> Seq<char> {
    repeated(' ', count)
}

/// Appends `count` copies of `ch` to `out`.
pub fn push_repeated(out: &mut String, ch: char, count: usize)
    ensures
        final(out)@ == old(out)@ + repeated(ch, count as nat),
{
    let ghost start = out@;
    let mut i: usize = 0;
    while i < count
        invariant
            i <= count,
            out@ == start + repeated(ch, i as nat),
        decreases count - i,
    {
        push_char(out, ch);
        i = i + 1;
        assert(repeated(ch, i as nat) == repeated(ch, (i - 1) as nat).push(ch));
    }
}

/// A string made of `count` copies of `ch`.
pub fn repeat_char(ch: char, count: usize) -> (out: String)
    ensures
        out@ == repeated(ch, count as nat),
{
    let mut out = String::new();
    push_repeated(&mut out, ch, count);
    assert(out@ == Seq::<char>::empty() + repeated(ch, count as nat));
    out
}

// ---------------------------------------------------------------------------
// decimal formatting
// ---------------------------------------------------------------------------

/// The character of one decimal digit.
pub open spec fn digit_char(digit: nat) -> char {
    DIGITS@[digit as int]
}

/// The decimal representation of a natural number, without sign or padding,
/// as `Display` writes it for unsigned integers.
pub open spec fn decimal(n: nat) -> Seq<char>
    decreases n,
{
    if n < 10 {
        seq![digit_char(n)]
    } else {
        decimal(n / 10).push(digit_char(n % 10))
    }
}

/// Every character of a decimal representation is a digit and none is an
/// escape character; its length is at least one.
pub proof fn lemma_decimal_digits(n: nat)
    ensures
        decimal(n).len() >= 1,
        forall|i: int| 0 <= i < decimal(n).len() ==> is_digit_char(#[trigger] decimal(n)[i]),
    decreases n,
{
    if n >= 10 {
        lemma_decimal_digits(n / 10);
        let d = decimal(n / 10);
        assert forall|i: int| 0 <= i < decimal(n).len() implies is_digit_char(
            #[trigger] decimal(n)[i],
        ) by {
            if i < d.len() {
                assert(decimal(n)[i] == d[i]);
            }
        }
    }
}

/// Appends the decimal representation of `n` to `out`.
pub fn push_decimal(out: &mut String, n: u64)
    ensures
        final(out)@ == old(out)@ + decimal(n as nat),
    decreases n,
{
    if n >= 10 {
        push_decimal(out, n / 10);
    }
    push_char(out, DIGITS[(n % 10) as usize]);
    if n < 10 {
        assert(decimal(n as nat) == seq![digit_char(n as nat)]);
    } else {
        assert(decimal(n as nat) == decimal((n / 10) as nat).push(digit_char((n % 10) as nat)));
    }
}

/// Appends `n` written with at least `width` digits, padded with leading
/// zeros, as `format!("{:0width$}")` writes it.
pub open spec fn zero_padded(n: nat, width: nat) -> Seq<char> {
    let digits = decimal(n);
    if digits.len() >= width {
        digits
    } else {
        repeated('0', (width - digits.len()) as nat) + digits
    }
}

/// Appends `n` zero-padded to `width` digits.
pub fn push_zero_padded(out: &mut String, n: u64, width: usize)
    ensures
        final(out)@ == old(out)@ + zero_padded(n as nat, width as nat),
{
    let mut digits = String::new();
    push_decimal(&mut digits, n);
    assert(digits@ == decimal(n as nat));
    let len = digits.as_str().unicode_len();
    let ghost start = out@;
    if len < width {
        push_repeated(out, '0', width - len);
    }
    out.append(digits.as_str());
    assert(out@ == start + zero_padded(n as nat, width as nat));
}

// ---------------------------------------------------------------------------
// visible width of text holding ANSI control sequences
// ---------------------------------------------------------------------------

/// `char::is_ascii_alphabetic`.
pub open spec fn is_ascii_alpha(ch: char) -> bool {
    ('A' <= ch && ch <= 'Z') || ('a' <= ch && ch <= 'z')
}

/// What is left after the body of a control sequence: everything up to and
/// including the first ASCII letter is dropped; with no letter, nothing is
/// left.
pub open spec fn after_csi_body(s: Seq<char>) -> Seq<char>
    decreases s.len(),
{
    if s.len() == 0 {
        s
    } else if is_ascii_alpha(s[0]) {
        s.drop_first()
    } else {
        after_csi_body(s.drop_first())
    }
}

/// Skipping a control sequence body never makes the text longer.
pub proof fn lemma_after_csi_body_len(s: Seq<char>)
    ensures
        after_csi_body(s).len() <= s.len(),
    decreases s.len(),
{
    if s.len() > 0 && !is_ascii_alpha(s[0]) {
        lemma_after_csi_body_len(s.drop_first());
    }
}

/// The number of characters of `s` that a terminal shows: every character
/// counts one, except that `ESC [` starts a control sequence that runs up to
/// and including the next ASCII letter and counts nothing.
pub open spec fn visible_width(s: Seq<char>) -> nat
    decreases s.len(),
{
    if s.len() == 0 {
        0
    } else if s[0] == ESC && s.len() >= 2 && s[1] == '[' {
        proof {
            lemma_after_csi_body_len(s.skip(2));
        }
        visible_width(after_csi_body(s.skip(2)))
    } else {
        1 + visible_width(s.drop_first())
    }
}

/// The characters of `s` that a terminal shows: every character, except the
/// control sequences that `ESC [` starts, up to and including the next ASCII
/// letter.
pub open spec fn shown(s: Seq<char>) -> Seq<char>
    decreases s.len(),
{
    if s.len() == 0 {
        Seq::empty()
    } else if s[0] == ESC && s.len() >= 2 && s[1] == '[' {
        proof {
            lemma_after_csi_body_len(s.skip(2));
        }
        shown(after_csi_body(s.skip(2)))
    } else {
        seq![s[0]] + shown(s.drop_first())
    }
}

/// The visible width of a text is the number of characters it shows.
pub proof fn lemma_visible_width_is_shown_len(s: Seq<char>)
    ensures
        visible_width(s) == shown(s).len(),
    decreases s.len(),
{
    if s.len() > 0 {
        if s[0] == ESC && s.len() >= 2 && s[1] == '[' {
            lemma_after_csi_body_len(s.skip(2));
            lemma_visible_width_is_shown_len(after_csi_body(s.skip(2)));
        } else {
            lemma_visible_width_is_shown_len(s.drop_first());
        }
    }
}

/// Text without escape characters is shown as it is, whatever follows it.
pub proof fn lemma_shown_plain_prefix(plain: Seq<char>, rest: Seq<char>)
    requires
        escape_free(plain),
    ensures
        shown(plain + rest) == plain + shown(rest),
    decreases plain.len(),
{
    if plain.len() > 0 {
        assert((plain + rest)[0] == plain[0]);
        assert((plain + rest).drop_first() == plain.drop_first() + rest);
        lemma_shown_plain_prefix(plain.drop_first(), rest);
        assert(plain =~= seq![plain[0]] + plain.drop_first());
    } else {
        assert(plain + rest == rest);
    }
}

/// A control sequence `ESC [ body letter`, whose body holds no ASCII letter,
/// is not shown, whatever follows it.
pub proof fn lemma_shown_csi_prefix(body: Seq<char>, last: char, rest: Seq<char>)
    requires
        forall|i: int| 0 <= i < body.len() ==> !is_ascii_alpha(#[trigger] body[i]),
        is_ascii_alpha(last),
    ensures
        shown(seq![ESC, '['] + body + seq![last] + rest) == shown(rest),
{
    let s = seq![ESC, '['] + body + seq![last] + rest;
    assert(s[0] == ESC);
    assert(s[1] == '[');
    assert(s.skip(2) == body + seq![last] + rest);
    lemma_after_csi_body_skips(body, last, rest);
}

/// The number of newlines in a text.
pub open spec fn newline_count(s: Seq<char>) -> nat
    decreases s.len(),
{
    if s.len() == 0 {
        0
    } else {
        newline_count(s.drop_last()) + if s.last() == '\n' {
            1nat
        } else {
            0nat
        }
    }
}

/// The text after the last newline: what the cursor has written on the
/// current line.
pub open spec fn last_line(s: Seq<char>) -> Seq<char>
    decreases s.len(),
{
    if s.len() == 0 {
        Seq::empty()
    } else if s.last() == '\n' {
        Seq::empty()
    } else {
        last_line(s.drop_last()).push(s.last())
    }
}

/// Newlines of joined texts add up.
pub proof fn lemma_newline_count_concat(a: Seq<char>, b: Seq<char>)
    ensures
        newline_count(a + b) == newline_count(a) + newline_count(b),
    decreases b.len(),
{
    if b.len() == 0 {
        assert(a + b == a);
    } else {
        lemma_newline_count_concat(a, b.drop_last());
        assert((a + b).drop_last() == a + b.drop_last());
        assert((a + b).last() == b.last());
    }
}

/// A run of `count` copies of `ch` holds `count` newlines when `ch` is one
/// and none otherwise.
pub proof fn lemma_newline_count_repeated(ch: char, count: nat)
    ensures
        newline_count(repeated(ch, count)) == if ch == '\n' {
            count
        } else {
            0
        },
    decreases count,
{
    if count > 0 {
        lemma_newline_count_repeated(ch, (count - 1) as nat);
        assert(repeated(ch, count).drop_last() == repeated(ch, (count - 1) as nat));
    }
}

/// After some newlines, spaces written on the new line are all of it.
pub proof fn lemma_last_line_after_newlines(newlines: nat, count: nat)
    ensures
        last_line(repeated('\n', newlines) + spaces(count)) == if newlines > 0 || count > 0 {
            spaces(count)
        } else {
            Seq::<char>::empty()
        },
    decreases count,
{
    let s = repeated('\n', newlines) + spaces(count);
    if count == 0 {
        assert(s == repeated('\n', newlines));
        assert(spaces(0) =~= Seq::<char>::empty());
        if newlines > 0 {
            assert(s.last() == '\n');
        }
    } else {
        lemma_last_line_after_newlines(newlines, (count - 1) as nat);
        assert(s.drop_last() == repeated('\n', newlines) + spaces((count - 1) as nat));
        assert(s.last() == ' ');
        assert(spaces((count - 1) as nat).push(' ') =~= spaces(count));
    }
}

/// Whether a text holds no escape character.
pub open spec fn escape_free(s: Seq<char>) -> bool {
    forall|i: int| 0 <= i < s.len() ==> s[i] != ESC
}

/// Text without escape characters shows every character, whatever follows it.
pub proof fn lemma_visible_width_plain_prefix(plain: Seq<char>, rest: Seq<char>)
    requires
        escape_free(plain),
    ensures
        visible_width(plain + rest) == plain.len() + visible_width(rest),
    decreases plain.len(),
{
    if plain.len() > 0 {
        assert((plain + rest)[0] == plain[0]);
        assert((plain + rest).drop_first() == plain.drop_first() + rest);
        lemma_visible_width_plain_prefix(plain.drop_first(), rest);
    } else {
        assert(plain + rest == rest);
    }
}

/// A control sequence `ESC [ body letter`, whose body holds no ASCII letter,
/// shows nothing, whatever follows it.
pub proof fn lemma_visible_width_csi_prefix(body: Seq<char>, last: char, rest: Seq<char>)
    requires
        forall|i: int| 0 <= i < body.len() ==> !is_ascii_alpha(#[trigger] body[i]),
        is_ascii_alpha(last),
    ensures
        visible_width(seq![ESC, '['] + body + seq![last] + rest) == visible_width(rest),
{
    let s = seq![ESC, '['] + body + seq![last] + rest;
    assert(s[0] == ESC);
    assert(s[1] == '[');
    assert(s.skip(2) == body + seq![last] + rest);
    lemma_after_csi_body_skips(body, last, rest);
}

/// Skipping a control sequence body stops right after its final letter.
pub proof fn lemma_after_csi_body_skips(body: Seq<char>, last: char, rest: Seq<char>)
    requires
        forall|i: int| 0 <= i < body.len() ==> !is_ascii_alpha(#[trigger] body[i]),
        is_ascii_alpha(last),
    ensures
        after_csi_body(body + seq![last] + rest) == rest,
    decreases body.len(),
{
    let s = body + seq![last] + rest;
    if body.len() == 0 {
        assert(s[0] == last);
        assert(s.drop_first() == rest);
    } else {
        assert(s[0] == body[0]);
        assert(s.drop_first() == body.drop_first() + seq![last] + rest);
        assert forall|i: int| 0 <= i < body.drop_first().len() implies !is_ascii_alpha(
            #[trigger] body.drop_first()[i],
        ) by {
            assert(body.drop_first()[i] == body[i + 1]);
        }
        lemma_after_csi_body_skips(body.drop_first(), last, rest);
    }
}

/// The number of characters that a terminal shows of `line`: ANSI control
/// sequences that start with `ESC [` are not counted.
pub fn visible_line_width(line: &str) -> (count: usize)
    ensures
        count == visible_width(line@),
{
    let chars = chars_of(line);
    let n = chars.len();
    let mut count: usize = 0;
    let mut i: usize = 0;
    assert(chars@.skip(0) == chars@);
    while i < n
        invariant
            n == chars@.len(),
            chars@ == line@,
            i <= n,
            count <= i,
            count + visible_width(chars@.skip(i as int)) == visible_width(line@),
        decreases n - i,
    {
        let ghost rest = chars@.skip(i as int);
        if chars[i] == ESC && i + 1 < n && chars[i + 1] == '[' {
            assert(rest[0] == ESC && rest[1] == '[');
            assert(rest.skip(2) == chars@.skip(i + 2));
            let mut j: usize = i + 2;
            while j < n && !(('A' <= chars[j] && chars[j] <= 'Z') || ('a' <= chars[j] && chars[j] <= 'z'))
                invariant
                    n == chars@.len(),
                    i + 2 <= j <= n,
                    after_csi_body(chars@.skip(j as int)) == after_csi_body(chars@.skip(i + 2)),
                decreases n - j,
            {
                assert(chars@.skip(j as int).drop_first() == chars@.skip(j + 1));
                j = j + 1;
            }
            if j < n {
                assert(chars@.skip(j as int).drop_first() == chars@.skip(j + 1));
                i = j + 1;
            } else {
                assert(chars@.skip(j as int).len() == 0);
                i = n;
            }
        } else {
            assert(rest.drop_first() == chars@.skip(i + 1));
            count = count + 1;
            i = i + 1;
        }
    }
    count
}

/// Text without escape characters shows all its characters.
pub proof fn lemma_visible_width_plain(plain: Seq<char>)
    requires
        escape_free(plain),
    ensures
        visible_width(plain) == plain.len(),
{
    lemma_visible_width_plain_prefix(plain, Seq::empty());
    assert(plain + Seq::<char>::empty() == plain);
}

// ---------------------------------------------------------------------------
// centering
// ---------------------------------------------------------------------------

/// `text` centered in `width` columns by visible width: text at least as
/// wide is kept as it is; otherwise the missing columns are split into
/// spaces on both sides, the right side taking the odd one.
pub open spec fn centered(text: Seq<char>, width: nat) -> Seq<char> {
    let shown = visible_width(text);
    if shown >= width {
        text
    } else {
        let left = ((width - shown) as nat) / 2;
        let right = (width - shown - left) as nat;
        spaces(left) + text + spaces(right)
    }
}

/// Centered text without escape characters fills exactly the wider of its
/// own length and the requested width.
pub proof fn lemma_centered_width(text: Seq<char>, width: nat)
    requires
        escape_free(text),
    ensures
        visible_width(centered(text, width)) == if text.len() >= width {
            text.len()
        } else {
            width
        },
{
    lemma_visible_width_plain(text);
    let out = centered(text, width);
    if text.len() < width {
        let left = ((width - text.len()) as nat) / 2;
        let right = (width - text.len() - left) as nat;
        assert(escape_free(out)) by {
            assert forall|i: int| 0 <= i < out.len() implies out[i] != ESC by {
                if i < left {
                    assert(out[i] == ' ');
                } else if i < left + text.len() {
                    assert(out[i] == text[i - left]);
                } else {
                    assert(out[i] == ' ');
                }
            }
        }
        lemma_visible_width_plain(out);
    }
}

/// Centers `text` in `width` columns, measuring it by its visible width.
pub fn center_text(text: &str, width: usize) -> (out: String)
    ensures
        out@ == centered(text@, width as nat),
{
    let visible = visible_line_width(text);
    if visible >= width {
        return text.to_owned();
    }
    let left = (width - visible) / 2;
    let right = width - visible - left;
    let mut out = String::new();
    push_repeated(&mut out, ' ', left);
    out.append(text);
    push_repeated(&mut out, ' ', right);
    assert(out@ == spaces(left as nat) + text@ + spaces(right as nat));
    out
}

/// Every line centered in `width` columns.
pub fn center_frame_lines(lines: Vec<String>, width: usize) -> (out: Vec<String>)
    ensures
        out@.len() == lines@.len(),
        forall|i: int| 0 <= i < lines@.len() ==> #[trigger] out@[i]@ == centered(lines@[i]@, width as nat),
{
    let mut out: Vec<String> = Vec::new();
    let mut i: usize = 0;
    while i < lines.len()
        invariant
            i <= lines@.len(),
            out@.len() == i,
            forall|k: int| 0 <= k < i ==> #[trigger] out@[k]@ == centered(lines@[k]@, width as nat),
        decreases lines@.len() - i,
    {
        out.push(center_text(lines[i].as_str(), width));
        i = i + 1;
    }
    out
}

} // verus!
