//! Kitty graphics protocol frames: image placement layout, the file-backed
//! PNG and deletion commands, and the screen output of one frame.

use crate::terminal_control::{clear_screen_output, clear_screen_sequence};
use crate::text::{
    center_text, centered, decimal, last_line, lemma_last_line_after_newlines, lemma_newline_count_concat,
    lemma_newline_count_repeated, newline_count, push_char, push_decimal, push_repeated, repeated, spaces,
};
use vstd::arithmetic::div_mod::lemma_fundamental_div_mod_converse;
use vstd::prelude::*;

verus! {

/// Where a Kitty image is placed: its size in cells and the padding above and
/// to its left.
#[derive(Debug, Clone, PartialEq, Eq)]
pub struct KittyFrameLayout {
    pub columns: usize,
    pub rows: usize,
    pub top_padding: usize,
    pub left_padding: usize,
}

/// A sequence of PNG frames shown one after another, with the delay between
/// frames in milliseconds.
#[derive(Debug, Clone, PartialEq, Eq)]
pub struct KittyFrameSequence {
    pub frame_paths: Vec<String>,
    pub frame_delay_ms: u64,
    pub image_id: u32,
    pub attribution: Option<String>,
    pub edge_inset_columns: usize,
    pub edge_inset_rows: usize,
}

/// Why a Kitty frame cannot be drawn.
#[derive(Debug, Clone, Copy, PartialEq, Eq)]
pub enum KittyFrameError {
    /// The sequence has no frame path.
    NoFramePaths,
}

// ---------------------------------------------------------------------------
// layout
// ---------------------------------------------------------------------------

/// `a - b`, or zero when `b` is larger.
pub open spec fn sat_sub(a: nat, b: nat) -> nat {
    if a > b {
        (a - b) as nat
    } else {
        0
    }
}

pub open spec fn min_nat(a: nat, b: nat) -> nat {
    if a <= b {
        a
    } else {
        b
    }
}

pub open spec fn max_nat(a: nat, b: nat) -> nat {
    if a >= b {
        a
    } else {
        b
    }
}

/// The layout of a Kitty image in a `width` x `height` terminal, kept
/// `edge_inset_columns` and `edge_inset_rows` away from the edges (with one
/// row left for the attribution line): the image is twice as many columns
/// as rows, as large as fits, at least one cell, and centered.
pub open spec fn kitty_layout_spec(
    width: nat,
    height: nat,
    edge_inset_columns: nat,
    edge_inset_rows: nat,
) -> KittyFrameLayout {
    let available_rows = max_nat(sat_sub(height, edge_inset_rows * 2 + 1), 1);
    let available_columns = max_nat(sat_sub(width, min_nat(edge_inset_columns * 2, usize::MAX as nat)), 1);
    let rows = max_nat(min_nat(available_rows, max_nat(available_columns, 2) / 2), 1);
    let columns = min_nat(min_nat(rows * 2, usize::MAX as nat), available_columns);
    KittyFrameLayout {
        columns: columns as usize,
        rows: rows as usize,
        top_padding: (sat_sub(height, rows + 1) / 2) as usize,
        left_padding: (sat_sub(width, columns) / 2) as usize,
    }
}

/// `value.saturating_mul(2)`: twice `value`, or `usize::MAX` when that
/// overflows.
fn saturating_double(value: usize) -> (doubled: usize)
    ensures
        doubled == min_nat(value as nat * 2, usize::MAX as nat),
{
    if value > usize::MAX / 2 {
        usize::MAX
    } else {
        value * 2
    }
}

/// The layout of a Kitty image in a `width` x `height` terminal. `requires`
/// leaves out a row inset whose doubled value plus one overflows, on which
/// the computation panics.
pub fn kitty_frame_layout(
    width: usize,
    height: usize,
    edge_inset_columns: usize,
    edge_inset_rows: usize,
) -> (layout: KittyFrameLayout)
    requires
        edge_inset_rows * 2 + 1 <= usize::MAX,
    ensures
        layout == kitty_layout_spec(
            width as nat,
            height as nat,
            edge_inset_columns as nat,
            edge_inset_rows as nat,
        ),
{
    let available_rows = height.saturating_sub(saturating_double(edge_inset_rows) + 1);
    let available_rows = if available_rows > 1 { available_rows } else { 1 };
    let available_columns = width.saturating_sub(saturating_double(edge_inset_columns));
    let available_columns = if available_columns > 1 { available_columns } else { 1 };
    let wide = if available_columns > 2 { available_columns } else { 2 };
    let fitted = if available_rows < wide / 2 { available_rows } else { wide / 2 };
    let rows = if fitted > 1 { fitted } else { 1 };
    let doubled = saturating_double(rows);
    let columns = if doubled < available_columns { doubled } else { available_columns };
    let top_padding = height.saturating_sub(rows + 1) / 2;
    let left_padding = width.saturating_sub(columns) / 2;
    KittyFrameLayout { columns, rows, top_padding, left_padding }
}

/// When the terminal has room for the insets (and the attribution row), the
/// image stays at least the insets away from every edge, is at least one
/// cell, and is never more than twice as wide as it is tall.
pub proof fn lemma_kitty_layout_stays_inset(
    width: nat,
    height: nat,
    edge_inset_columns: nat,
    edge_inset_rows: nat,
)
    requires
        width <= usize::MAX,
        height <= usize::MAX,
        width >= edge_inset_columns * 2 + 1,
        height >= edge_inset_rows * 2 + 2,
    ensures
        ({
            let layout = kitty_layout_spec(width, height, edge_inset_columns, edge_inset_rows);
            &&& layout.rows >= 1
            &&& layout.columns >= 1
            &&& layout.columns <= layout.rows * 2
            &&& layout.left_padding >= edge_inset_columns
            &&& layout.left_padding + layout.columns + edge_inset_columns <= width
            &&& layout.top_padding >= edge_inset_rows
            &&& layout.top_padding + layout.rows + 1 + edge_inset_rows <= height
        }),
{
}

// ---------------------------------------------------------------------------
// base64
// ---------------------------------------------------------------------------

/// The standard base64 alphabet.
pub const BASE64_TABLE: [char; 64] = [
    'A', 'B', 'C', 'D', 'E', 'F', 'G', 'H', 'I', 'J', 'K', 'L', 'M', 'N', 'O', 'P', 'Q', 'R',
    'S', 'T', 'U', 'V', 'W', 'X', 'Y', 'Z', 'a', 'b', 'c', 'd', 'e', 'f', 'g', 'h', 'i', 'j',
    'k', 'l', 'm', 'n', 'o', 'p', 'q', 'r', 's', 't', 'u', 'v', 'w', 'x', 'y', 'z', '0', '1',
    '2', '3', '4', '5', '6', '7', '8', '9', '+', '/',
];

/// The base64 symbol for a six-bit value.
pub open spec fn base64_symbol(value: nat) -> char {
    BASE64_TABLE@[(value % 64) as int]
}

/// The base64 encoding of one group of one to three bytes: the bytes form a
/// 24-bit number (missing bytes are zero), written as four six-bit symbols,
/// with `=` in place of the symbols that only padding bits fill.
pub open spec fn base64_group(group: Seq<u8>) -> Seq<char> {
    let first = group[0] as nat;
    let second = if group.len() > 1 { group[1] as nat } else { 0 };
    let third = if group.len() > 2 { group[2] as nat } else { 0 };
    let packed = first * 65536 + second * 256 + third;
    seq![
        base64_symbol(packed / 262144),
        base64_symbol(packed / 4096),
        if group.len() > 1 { base64_symbol(packed / 64) } else { '=' },
        if group.len() > 2 { base64_symbol(packed) } else { '=' },
    ]
}

/// Standard padded base64 of `bytes`, three bytes at a time.
pub open spec fn base64(bytes: Seq<u8>) -> Seq<char>
    decreases bytes.len(),
{
    if bytes.len() == 0 {
        Seq::empty()
    } else if bytes.len() <= 3 {
        base64_group(bytes)
    } else {
        base64_group(bytes.take(3)) + base64(bytes.skip(3))
    }
}

proof fn lemma_packed_bits(first: u8, second: u8, third: u8)
    by (bit_vector)
    ensures
        ((first as u32) << 16) | ((second as u32) << 8) | (third as u32) == (first as u32) * 65536
            + (second as u32) * 256 + (third as u32),
        ((((first as u32) << 16) | ((second as u32) << 8) | (third as u32)) >> 18) & 0x3f == (((
        first as u32) << 16) | ((second as u32) << 8) | (third as u32)) / 262144 % 64,
        ((((first as u32) << 16) | ((second as u32) << 8) | (third as u32)) >> 12) & 0x3f == (((
        first as u32) << 16) | ((second as u32) << 8) | (third as u32)) / 4096 % 64,
        ((((first as u32) << 16) | ((second as u32) << 8) | (third as u32)) >> 6) & 0x3f == (((
        first as u32) << 16) | ((second as u32) << 8) | (third as u32)) / 64 % 64,
        (((first as u32) << 16) | ((second as u32) << 8) | (third as u32)) & 0x3f == (((first as u32)
            << 16) | ((second as u32) << 8) | (third as u32)) % 64,
{
}

/// Appends the base64 symbols of one group: `count` (one to three) bytes,
/// of which `first`, `second` and `third` are the present ones or zero.
fn push_base64_group(encoded: &mut String, first: u8, second: u8, third: u8, count: usize)
    requires
        1 <= count,
        count <= 1 ==> second == 0,
        count <= 2 ==> third == 0,
    ensures
        final(encoded)@ == old(encoded)@ + base64_group(
            if count >= 3 {
                seq![first, second, third]
            } else if count == 2 {
                seq![first, second]
            } else {
                seq![first]
            },
        ),
{
    let packed = ((first as u32) << 16) | ((second as u32) << 8) | (third as u32);
    proof {
        lemma_packed_bits(first, second, third);
    }
    let ghost value = first as nat * 65536 + second as nat * 256 + third as nat;
    assert(packed == value);
    push_char(encoded, BASE64_TABLE[((packed >> 18) & 0x3f) as usize]);
    push_char(encoded, BASE64_TABLE[((packed >> 12) & 0x3f) as usize]);
    if count > 1 {
        push_char(encoded, BASE64_TABLE[((packed >> 6) & 0x3f) as usize]);
    } else {
        push_char(encoded, '=');
    }
    if count > 2 {
        push_char(encoded, BASE64_TABLE[(packed & 0x3f) as usize]);
    } else {
        push_char(encoded, '=');
    }
}

/// Standard padded base64 of `bytes`.
pub fn base64_encode_bytes(bytes: &[u8]) -> (encoded: String)
    ensures
        encoded@ == base64(bytes@),
{
    let n = bytes.len();
    let mut encoded = String::new();
    let mut i: usize = 0;
    assert(bytes@.skip(0) == bytes@);
    while i < n
        invariant
            n == bytes@.len(),
            i <= n,
            encoded@ + base64(bytes@.skip(i as int)) == base64(bytes@),
        decreases n - i,
    {
        let ghost before = encoded@;
        let ghost rest = bytes@.skip(i as int);
        let remaining = n - i;
        let first = bytes[i];
        let second = if remaining > 1 { bytes[i + 1] } else { 0 };
        let third = if remaining > 2 { bytes[i + 2] } else { 0 };
        push_base64_group(&mut encoded, first, second, third, remaining);
        if remaining <= 3 {
            assert(rest =~= if remaining >= 3 {
                seq![first, second, third]
            } else if remaining == 2 {
                seq![first, second]
            } else {
                seq![first]
            });
            i = n;
            assert(bytes@.skip(i as int) == Seq::<u8>::empty());
        } else {
            assert(rest.take(3) =~= seq![first, second, third]);
            assert(rest.skip(3) == bytes@.skip(i + 3));
            i = i + 3;
        }
    }
    assert(encoded@ + Seq::<char>::empty() == encoded@);
    encoded
}

/// Every three bytes (and a final partial group) become four symbols.
pub proof fn lemma_base64_length(bytes: Seq<u8>)
    ensures
        base64(bytes).len() == 4 * ((bytes.len() + 2) / 3),
    decreases bytes.len(),
{
    if bytes.len() > 3 {
        lemma_base64_length(bytes.skip(3));
    }
}

/// The six-bit value of a base64 symbol: its position in the alphabet.
pub open spec fn base64_value(ch: char) -> nat {
    let code = ch as u32 as int;
    if 'A' <= ch && ch <= 'Z' {
        (code - 65) as nat
    } else if 'a' <= ch && ch <= 'z' {
        (code - 97 + 26) as nat
    } else if '0' <= ch && ch <= '9' {
        (code - 48 + 52) as nat
    } else if ch == '+' {
        62
    } else {
        63
    }
}

/// Whether every symbol of the alphabet from position `v` on decodes back to
/// its position and is not the padding character.
pub open spec fn symbols_decode_from(v: int) -> bool
    decreases 64 - v,
{
    if v < 0 || v >= 64 {
        true
    } else {
        base64_value(BASE64_TABLE@[v]) == v && BASE64_TABLE@[v] != '=' && symbols_decode_from(v + 1)
    }
}

proof fn lemma_symbols_decode_from(v: int)
    requires
        0 <= v,
        symbols_decode_from(v),
    ensures
        forall|w: int| v <= w < 64 ==> base64_value(#[trigger] BASE64_TABLE@[w]) == w && BASE64_TABLE@[w] != '=',
    decreases 64 - v,
{
    if v < 64 {
        lemma_symbols_decode_from(v + 1);
    }
}

/// Each symbol names its own six-bit value, and none is the padding `=`.
pub proof fn lemma_base64_symbols(value: nat)
    ensures
        base64_value(base64_symbol(value)) == value % 64,
        base64_symbol(value) != '=',
{
    reveal_with_fuel(symbols_decode_from, 65);
    lemma_symbols_decode_from(0);
    assert(base64_symbol(value) == BASE64_TABLE@[(value % 64) as int]);
}

proof fn lemma_group_digits(a: int, b: int, c: int)
    requires
        0 <= a < 256,
        0 <= b < 256,
        0 <= c < 256,
    ensures
        ((a * 65536 + b * 256 + c) / 262144) % 64 * 262144 + ((a * 65536 + b * 256 + c) / 4096) % 64 * 4096 + ((a
            * 65536 + b * 256 + c) / 64) % 64 * 64 + (a * 65536 + b * 256 + c) % 64 == a * 65536 + b * 256 + c,
        (a * 65536 + b * 256 + c) / 65536 == a,
        ((a * 65536 + b * 256 + c) / 256) % 256 == b,
        (a * 65536 + b * 256 + c) % 256 == c,
        (a * 65536 + b * 256) % 64 == 0,
        (a * 65536) % 4096 == 0,
        ((a * 65536) / 64) % 64 == 0,
{
    let p = a * 65536 + b * 256 + c;
    lemma_fundamental_div_mod_converse(a, 4, a / 4, a % 4);
    lemma_fundamental_div_mod_converse(b, 16, b / 16, b % 16);
    lemma_fundamental_div_mod_converse(c, 64, c / 64, c % 64);
    let d0 = a / 4;
    let d1 = (a % 4) * 16 + b / 16;
    let d2 = (b % 16) * 4 + c / 64;
    let d3 = c % 64;
    assert(0 <= d0 < 64 && 0 <= d1 < 64 && 0 <= d2 < 64 && 0 <= d3 < 64);
    assert(p == d0 * 262144 + d1 * 4096 + d2 * 64 + d3);
    lemma_fundamental_div_mod_converse(p, 262144, d0, d1 * 4096 + d2 * 64 + d3);
    lemma_fundamental_div_mod_converse(d0, 64, 0, d0);
    lemma_fundamental_div_mod_converse(p, 4096, d0 * 64 + d1, d2 * 64 + d3);
    lemma_fundamental_div_mod_converse(d0 * 64 + d1, 64, d0, d1);
    lemma_fundamental_div_mod_converse(p, 64, d0 * 4096 + d1 * 64 + d2, d3);
    lemma_fundamental_div_mod_converse(d0 * 4096 + d1 * 64 + d2, 64, d0 * 64 + d1, d2);
    lemma_fundamental_div_mod_converse(p, 65536, a, b * 256 + c);
    lemma_fundamental_div_mod_converse(p, 256, a * 256 + b, c);
    lemma_fundamental_div_mod_converse(a * 256 + b, 256, a, b);
    lemma_fundamental_div_mod_converse(a * 65536 + b * 256, 64, a * 1024 + b * 4, 0);
    lemma_fundamental_div_mod_converse(a * 65536, 4096, a * 16, 0);
    lemma_fundamental_div_mod_converse(a * 65536, 64, a * 1024, 0);
    lemma_fundamental_div_mod_converse(a * 1024, 64, a * 16, 0);
}

/// The bytes of one four-symbol group: the symbols' six-bit values form a
/// 24-bit number (padding counts zero) whose bytes are read back; a group
/// with one `=` holds two bytes, with two `=` one byte.
pub open spec fn base64_decode_group(group: Seq<char>) -> Seq<u8> {
    let packed = base64_value(group[0]) * 262144 + base64_value(group[1]) * 4096 + (if group[2] == '=' {
        0
    } else {
        base64_value(group[2]) * 64
    }) + (if group[3] == '=' {
        0
    } else {
        base64_value(group[3])
    });
    let bytes = seq![(packed / 65536) as u8, ((packed / 256) % 256) as u8, (packed % 256) as u8];
    if group[2] == '=' {
        bytes.take(1)
    } else if group[3] == '=' {
        bytes.take(2)
    } else {
        bytes
    }
}

/// Standard base64 decoding, four symbols at a time.
pub open spec fn base64_decode(text: Seq<char>) -> Seq<u8>
    decreases text.len(),
{
    if text.len() < 4 {
        Seq::empty()
    } else {
        base64_decode_group(text.take(4)) + base64_decode(text.skip(4))
    }
}

proof fn lemma_group_round_trip(group: Seq<u8>)
    requires
        1 <= group.len() <= 3,
    ensures
        base64_group(group).len() == 4,
        base64_decode_group(base64_group(group)) == group,
        forall|i: int| 0 <= i < 4 ==> (#[trigger] base64_group(group)[i] == '=' <==> i >= group.len() + 1),
{
    let a = group[0] as int;
    let b = if group.len() > 1 { group[1] as int } else { 0 };
    let c = if group.len() > 2 { group[2] as int } else { 0 };
    let packed = a * 65536 + b * 256 + c;
    lemma_group_digits(a, b, c);
    lemma_base64_symbols((packed / 262144) as nat);
    lemma_base64_symbols((packed / 4096) as nat);
    lemma_base64_symbols((packed / 64) as nat);
    lemma_base64_symbols(packed as nat);
    let encoded = base64_group(group);
    let decoded = base64_decode_group(encoded);
    if group.len() == 1 {
        assert(decoded =~= group);
    } else if group.len() == 2 {
        assert(decoded =~= group);
    } else {
        assert(decoded =~= group);
    }
}

/// The number of `=` that pad the base64 of `n` bytes.
pub open spec fn base64_padding(n: nat) -> nat {
    ((3 - n % 3) % 3) as nat
}

/// Base64 is standard and reversible: decoding the encoding of any bytes
/// gives them back, and the encoding ends with exactly `base64_padding`
/// padding characters, with no `=` anywhere else.
#[verifier::spinoff_prover]
#[verifier::rlimit(30)]
pub proof fn lemma_base64_round_trip(bytes: Seq<u8>)
    ensures
        base64_decode(base64(bytes)) == bytes,
        forall|i: int|
            0 <= i < base64(bytes).len() ==> (#[trigger] base64(bytes)[i] == '=' <==> i >= base64(bytes).len()
                - base64_padding(bytes.len())),
    decreases bytes.len(),
{
    lemma_base64_length(bytes);
    let encoded = base64(bytes);
    if bytes.len() == 0 {
        assert(base64_decode(encoded) =~= bytes);
    } else if bytes.len() <= 3 {
        lemma_group_round_trip(bytes);
        assert(encoded.take(4) =~= encoded);
        assert(encoded.skip(4) =~= Seq::<char>::empty());
        assert(base64_decode(encoded.skip(4)) =~= Seq::<u8>::empty());
        assert(base64_decode(encoded) =~= bytes);
    } else {
        let head = bytes.take(3);
        let tail = bytes.skip(3);
        lemma_group_round_trip(head);
        lemma_base64_round_trip(tail);
        let first = base64_group(head);
        assert(encoded == first + base64(tail));
        assert(encoded.take(4) =~= first);
        assert(encoded.skip(4) =~= base64(tail));
        assert(head + tail =~= bytes);
        assert(base64_padding(bytes.len()) == base64_padding(tail.len()));
        assert forall|i: int| 0 <= i < encoded.len() implies (#[trigger] encoded[i] == '=' <==> i >= encoded.len()
            - base64_padding(bytes.len())) by {
            if i < 4 {
                assert(encoded[i] == first[i]);
            } else {
                assert(encoded[i] == base64(tail)[i - 4]);
            }
        }
    }
}

// ---------------------------------------------------------------------------
// commands
// ---------------------------------------------------------------------------

/// The Kitty command that shows the PNG file at `path` as image `image_id`,
/// placement 1, scaled to `columns` x `rows` cells, without moving the
/// cursor, below the text layer, with replies suppressed; the payload is
/// the base64 of the path's UTF-8 bytes.
pub open spec fn kitty_png_file_command_spec(
    image_id: u32,
    columns: nat,
    rows: nat,
    path: Seq<u8>,
) -> Seq<char> {
    "\u{1b}_Ga=T,f=100,t=f,i="@ + decimal(image_id as nat) + ",p=1,c="@ + decimal(columns) + ",r="@
        + decimal(rows) + ",C=1,z=-1,q=2;"@ + base64(path) + "\u{1b}\\"@
}

/// The Kitty command that shows the PNG file at `path`.
pub fn kitty_png_file_command(image_id: u32, columns: usize, rows: usize, path: &str) -> (command: String)
    ensures
        command@ == kitty_png_file_command_spec(image_id, columns as nat, rows as nat, vstd::utf8::encode_utf8(path@)),
{
    let payload = base64_encode_bytes(path.as_bytes());
    let mut command = String::new();
    command.append("\u{1b}_Ga=T,f=100,t=f,i=");
    push_decimal(&mut command, image_id as u64);
    command.append(",p=1,c=");
    push_decimal(&mut command, columns as u64);
    command.append(",r=");
    push_decimal(&mut command, rows as u64);
    command.append(",C=1,z=-1,q=2;");
    command.append(payload.as_str());
    command.append("\u{1b}\\");
    command
}

/// The Kitty commands that delete placement 1 of image `image_id`, then the
/// image itself with all its placements.
pub open spec fn kitty_delete_image_command_spec(image_id: u32) -> Seq<char> {
    "\u{1b}_Ga=d,d=i,i="@ + decimal(image_id as nat) + ",p=1,q=2;\u{1b}\\"@ + "\u{1b}_Ga=d,d=I,i="@
        + decimal(image_id as nat) + ",q=2;\u{1b}\\"@
}

/// The Kitty commands that delete image `image_id`.
pub fn kitty_delete_image_command(image_id: u32) -> (command: String)
    ensures
        command@ == kitty_delete_image_command_spec(image_id),
{
    let mut command = String::new();
    command.append("\u{1b}_Ga=d,d=i,i=");
    push_decimal(&mut command, image_id as u64);
    command.append(",p=1,q=2;\u{1b}\\");
    command.append("\u{1b}_Ga=d,d=I,i=");
    push_decimal(&mut command, image_id as u64);
    command.append(",q=2;\u{1b}\\");
    command
}

/// The output that removes image `image_id` and clears the screen.
pub fn kitty_cleanup_output(image_id: u32) -> (out: String)
    ensures
        out@ == kitty_delete_image_command_spec(image_id) + clear_screen_output(),
{
    let mut out = kitty_delete_image_command(image_id);
    let clear = clear_screen_sequence();
    out.append(clear.as_str());
    out
}

// ---------------------------------------------------------------------------
// drawing one frame
// ---------------------------------------------------------------------------

/// The output that draws, as one frame, the PNG file whose path has the
/// UTF-8 bytes `path_bytes`: clear the screen, skip the layout's top
/// padding with newlines, indent by its left padding, place the image, move
/// below it with one newline per image row, then the attribution centered
/// on its own line when there is one.
pub open spec fn kitty_png_frame_output_spec(
    image_id: u32,
    attribution: Option<Seq<char>>,
    edge_inset_columns: nat,
    edge_inset_rows: nat,
    width: nat,
    height: nat,
    path_bytes: Seq<u8>,
) -> Seq<char> {
    let layout = kitty_layout_spec(width, height, edge_inset_columns, edge_inset_rows);
    clear_screen_output() + repeated('\n', layout.top_padding as nat) + spaces(layout.left_padding as nat)
        + kitty_png_file_command_spec(image_id, layout.columns as nat, layout.rows as nat, path_bytes)
        + repeated('\n', layout.rows as nat) + match attribution {
        Some(text) => centered(text, width).push('\n'),
        None => Seq::empty(),
    }
}

/// The output that draws one frame of `sequence` in a `width` x `height`
/// terminal, or `NoFramePaths` for a sequence without frames. `requires`
/// leaves out, for a sequence with frames, a row inset on which the layout
/// computation panics.
pub fn kitty_png_frame_output(
    sequence: &KittyFrameSequence,
    width: usize,
    height: usize,
    frame_index: usize,
) -> (out: Result<String, KittyFrameError>)
    requires
        sequence.frame_paths@.len() == 0 || sequence.edge_inset_rows * 2 + 1 <= usize::MAX,
    ensures
        sequence.frame_paths@.len() == 0 <==> out is Err,
        out matches Err(error) ==> error == KittyFrameError::NoFramePaths,
        out matches Ok(text) ==> {
            let path = sequence.frame_paths@[(frame_index as nat % sequence.frame_paths@.len()) as int];
            text@ == kitty_png_frame_output_spec(
                sequence.image_id,
                match sequence.attribution {
                    Some(a) => Some(a@),
                    None => None,
                },
                sequence.edge_inset_columns as nat,
                sequence.edge_inset_rows as nat,
                width as nat,
                height as nat,
                vstd::utf8::encode_utf8(path@),
            )
        },
{
    let count = sequence.frame_paths.len();
    if count == 0 {
        return Err(KittyFrameError::NoFramePaths);
    }
    let layout = kitty_frame_layout(
        width,
        height,
        sequence.edge_inset_columns,
        sequence.edge_inset_rows,
    );
    let frame_path = &sequence.frame_paths[frame_index % count];
    let mut out = clear_screen_sequence();
    push_repeated(&mut out, '\n', layout.top_padding);
    push_repeated(&mut out, ' ', layout.left_padding);
    let command = kitty_png_file_command(
        sequence.image_id,
        layout.columns,
        layout.rows,
        frame_path.as_str(),
    );
    out.append(command.as_str());
    push_repeated(&mut out, '\n', layout.rows);
    match &sequence.attribution {
        Some(attribution) => {
            let line = center_text(attribution.as_str(), width);
            out.append(line.as_str());
            push_char(&mut out, '\n');
        },
        None => {},
    }
    Ok(out)
}

// ---------------------------------------------------------------------------
// playback decisions
// ---------------------------------------------------------------------------

/// After a frame has been shown and the input polled: `None` to stop (a key
/// was pressed, or the requested duration, at least one frame delay, has
/// elapsed), otherwise the index of the next frame. `requires` leaves out
/// the last index when no key was pressed, whose increment overflows.
pub fn kitty_playback_next_frame(
    frame_index: usize,
    key_pressed: bool,
    elapsed_ms: u128,
    duration_ms: Option<u64>,
    frame_delay_ms: u64,
) -> (next: Option<usize>)
    requires
        key_pressed || frame_index < usize::MAX,
    ensures
        next == if key_pressed {
            None::<usize>
        } else if duration_ms matches Some(d) && elapsed_ms >= max_nat(d as nat, frame_delay_ms as nat) {
            None::<usize>
        } else {
            Some((frame_index + 1) as usize)
        },
{
    if key_pressed {
        return None;
    }
    let next = frame_index + 1;
    match duration_ms {
        Some(duration) => {
            let limit = if duration > frame_delay_ms { duration } else { frame_delay_ms };
            if elapsed_ms >= limit as u128 {
                None
            } else {
                Some(next)
            }
        },
        None => Some(next),
    }
}

/// The result of a playback: its own error first, then the cleanup's error,
/// otherwise success.
pub fn kitty_playback_result<E>(play: Result<(), E>, cleanup: Result<(), E>) -> (result: Result<(), E>)
    ensures
        result == match play {
            Err(error) => Err(error),
            Ok(()) => cleanup,
        },
{
    match play {
        Err(error) => Err(error),
        Ok(()) => cleanup,
    }
}


/// Whether `out` is the cleared screen, then `before`, then `command`, then
/// `after`.
pub open spec fn output_around(out: Seq<char>, before: Seq<char>, command: Seq<char>, after: Seq<char>) -> bool {
    out == clear_screen_output() + before + command + after
}

/// A frame places its image by the layout's padding: after the cleared
/// screen, exactly `top_padding` newlines come before the image command,
/// and the current line holds exactly `left_padding` spaces when the command
/// starts; after the command, one newline per image row moves below it.
pub proof fn lemma_kitty_frame_places_image(
    image_id: u32,
    attribution: Option<Seq<char>>,
    edge_inset_columns: nat,
    edge_inset_rows: nat,
    width: nat,
    height: nat,
    path_bytes: Seq<u8>,
)
    ensures
        ({
            let layout = kitty_layout_spec(width, height, edge_inset_columns, edge_inset_rows);
            let out = kitty_png_frame_output_spec(
                image_id,
                attribution,
                edge_inset_columns,
                edge_inset_rows,
                width,
                height,
                path_bytes,
            );
            let command = kitty_png_file_command_spec(image_id, layout.columns as nat, layout.rows as nat, path_bytes);
            exists|before: Seq<char>, after: Seq<char>|
                #[trigger] output_around(out, before, command, after) && newline_count(before)
                    == layout.top_padding && last_line(before) == spaces(layout.left_padding as nat) && after.len()
                    >= layout.rows && newline_count(after.take(layout.rows as int)) == layout.rows
        }),
{
    let layout = kitty_layout_spec(width, height, edge_inset_columns, edge_inset_rows);
    let out = kitty_png_frame_output_spec(
        image_id,
        attribution,
        edge_inset_columns,
        edge_inset_rows,
        width,
        height,
        path_bytes,
    );
    let command = kitty_png_file_command_spec(image_id, layout.columns as nat, layout.rows as nat, path_bytes);
    let top = layout.top_padding as nat;
    let left = layout.left_padding as nat;
    let rows = layout.rows as nat;
    let before = repeated('\n', top) + spaces(left);
    let tail = match attribution {
        Some(text) => centered(text, width).push('\n'),
        None => Seq::empty(),
    };
    let after = repeated('\n', rows) + tail;
    assert(out =~= clear_screen_output() + before + command + after);
    assert(output_around(out, before, command, after));
    lemma_newline_count_concat(repeated('\n', top), spaces(left));
    lemma_newline_count_repeated('\n', top);
    lemma_newline_count_repeated(' ', left);
    lemma_last_line_after_newlines(top, left);
    if top == 0 && left == 0 {
        assert(spaces(left) =~= Seq::<char>::empty());
    }
    assert(after.take(rows as int) == repeated('\n', rows));
    lemma_newline_count_repeated('\n', rows);
}

} // verus!
