//! The magician animation's asset contract: frame file names, frame
//! sequences and the places where its assets live. Paths are held as text.

use crate::kitty_frames::KittyFrameSequence;
use crate::text::{ascii_lower, ascii_lower_char, chars_of, push_zero_padded, trim_text, trimmed, zero_padded};
use vstd::prelude::*;

verus! {

pub const MAGICIAN_ATTRIBUTION: &'static str = "ascii magician GIF by 1mposter";

pub const MAGICIAN_FRAME_COUNT: usize = 198;

/// The delay between magician frames, in milliseconds.
pub const MAGICIAN_FRAME_DELAY_MS: u64 = 90;

pub const MAGICIAN_FRAME_DIR_NAME: &'static str = "ascii_magician_1mposter_frames";

pub const MAGICIAN_GIF_NAME: &'static str = "ascii_magician_1mposter.gif";

pub const MAGICIAN_EDGE_INSET_COLUMNS: usize = 8;

pub const MAGICIAN_EDGE_INSET_ROWS: usize = 8;

/// `dir` joined with the relative component `name`: a separator `/` is put
/// between them unless `dir` is empty or already ends with one.
pub open spec fn joined_path(dir: Seq<char>, name: Seq<char>) -> Seq<char> {
    if dir.len() == 0 {
        name
    } else if dir.last() == '/' {
        dir + name
    } else {
        dir + seq!['/'] + name
    }
}

/// Joins the relative component `name` onto `dir`.
pub fn join_path(dir: &str, name: &str) -> (joined: String)
    ensures
        joined@ == joined_path(dir@, name@),
{
    let mut joined = dir.to_owned();
    let len = dir.unicode_len();
    if len > 0 && dir.get_char(len - 1) != '/' {
        crate::text::push_char(&mut joined, '/');
    }
    joined.append(name);
    joined
}

/// The file name of magician frame `frame_index`, taken modulo the frame
/// count: `frame_` and the index in three digits, then `.png`.
pub open spec fn magician_frame_name(frame_index: nat) -> Seq<char> {
    "frame_"@ + zero_padded(frame_index % MAGICIAN_FRAME_COUNT as nat, 3) + ".png"@
}

/// Frame names repeat with the frame count, so every index names one of the
/// frames and index `MAGICIAN_FRAME_COUNT` names the first again.
pub proof fn lemma_magician_frame_names_wrap(frame_index: nat, rounds: nat)
    ensures
        magician_frame_name(frame_index + rounds * (MAGICIAN_FRAME_COUNT as nat)) == magician_frame_name(frame_index),
        magician_frame_name(frame_index) == magician_frame_name(frame_index % MAGICIAN_FRAME_COUNT as nat),
{
    vstd::arithmetic::div_mod::lemma_mod_multiples_vanish(rounds as int, frame_index as int, 198);
    assert(frame_index + rounds * 198 == 198 * rounds + frame_index) by (nonlinear_arith);
    vstd::arithmetic::div_mod::lemma_mod_twice(frame_index as int, 198);
}

/// The path of magician frame `frame_index` in `frame_dir`; indices wrap
/// around the frame count.
pub fn magician_frame_path(frame_dir: &str, frame_index: usize) -> (path: String)
    ensures
        path@ == joined_path(frame_dir@, magician_frame_name(frame_index as nat)),
{
    let mut name = String::new();
    name.append("frame_");
    push_zero_padded(&mut name, (frame_index % MAGICIAN_FRAME_COUNT) as u64, 3);
    name.append(".png");
    join_path(frame_dir, name.as_str())
}

/// The paths of all magician frames in `frame_dir`, in order.
pub fn magician_frame_paths(frame_dir: &str) -> (paths: Vec<String>)
    ensures
        paths@.len() == MAGICIAN_FRAME_COUNT,
        forall|i: int|
            0 <= i < MAGICIAN_FRAME_COUNT ==> #[trigger] paths@[i]@ == joined_path(
                frame_dir@,
                magician_frame_name(i as nat),
            ),
{
    let mut paths: Vec<String> = Vec::new();
    let mut i: usize = 0;
    while i < MAGICIAN_FRAME_COUNT
        invariant
            i <= MAGICIAN_FRAME_COUNT,
            paths@.len() == i,
            forall|k: int|
                0 <= k < i ==> #[trigger] paths@[k]@ == joined_path(frame_dir@, magician_frame_name(k as nat)),
        decreases MAGICIAN_FRAME_COUNT - i,
    {
        paths.push(magician_frame_path(frame_dir, i));
        i = i + 1;
    }
    paths
}

/// Whether `sequence` is the magician sequence for `frame_dir`: all its
/// frames in order, the magician frame delay, and the given image id,
/// attribution and insets.
pub open spec fn is_magician_sequence(
    sequence: KittyFrameSequence,
    frame_dir: Seq<char>,
    image_id: u32,
    attribution: Option<String>,
    edge_inset_columns: usize,
    edge_inset_rows: usize,
) -> bool {
    &&& sequence.frame_paths@.len() == MAGICIAN_FRAME_COUNT
    &&& forall|i: int|
        0 <= i < MAGICIAN_FRAME_COUNT ==> #[trigger] sequence.frame_paths@[i]@ == joined_path(
            frame_dir,
            magician_frame_name(i as nat),
        )
    &&& sequence.frame_delay_ms == MAGICIAN_FRAME_DELAY_MS
    &&& sequence.image_id == image_id
    &&& sequence.attribution == attribution
    &&& sequence.edge_inset_columns == edge_inset_columns
    &&& sequence.edge_inset_rows == edge_inset_rows
}

/// The magician frame sequence of `frame_dir`, with the standalone edge
/// insets.
pub fn magician_frame_sequence(frame_dir: &str, image_id: u32, attribution: Option<String>) -> (sequence:
    KittyFrameSequence)
    ensures
        is_magician_sequence(
            sequence,
            frame_dir@,
            image_id,
            attribution,
            MAGICIAN_EDGE_INSET_COLUMNS,
            MAGICIAN_EDGE_INSET_ROWS,
        ),
{
    magician_frame_sequence_with_edge_insets(
        frame_dir,
        image_id,
        attribution,
        MAGICIAN_EDGE_INSET_COLUMNS,
        MAGICIAN_EDGE_INSET_ROWS,
    )
}

/// The magician frame sequence of `frame_dir`, with edge insets chosen by the
/// caller.
pub fn magician_frame_sequence_with_edge_insets(
    frame_dir: &str,
    image_id: u32,
    attribution: Option<String>,
    edge_inset_columns: usize,
    edge_inset_rows: usize,
) -> (sequence: KittyFrameSequence)
    ensures
        is_magician_sequence(
            sequence,
            frame_dir@,
            image_id,
            attribution,
            edge_inset_columns,
            edge_inset_rows,
        ),
{
    KittyFrameSequence {
        frame_paths: magician_frame_paths(frame_dir),
        frame_delay_ms: MAGICIAN_FRAME_DELAY_MS,
        image_id,
        attribution,
        edge_inset_columns,
        edge_inset_rows,
    }
}

/// An asset of the source tree: `<manifest_dir>/assets/third_party/<name>`.
pub fn source_magician_asset_path(manifest_dir: &str, name: &str) -> (path: String)
    ensures
        path@ == joined_path(joined_path(joined_path(manifest_dir@, "assets"@), "third_party"@), name@),
{
    let assets = join_path(manifest_dir, "assets");
    let third_party = join_path(assets.as_str(), "third_party");
    join_path(third_party.as_str(), name)
}

/// An asset installed with the package: `<package_root>/share/yazelix_screen/<name>`.
pub fn bundled_magician_asset_path(package_root: &str, name: &str) -> (path: String)
    ensures
        path@ == joined_path(joined_path(joined_path(package_root@, "share"@), "yazelix_screen"@), name@),
{
    let share = join_path(package_root, "share");
    let package = join_path(share.as_str(), "yazelix_screen");
    join_path(package.as_str(), name)
}

/// The cache directory for generated magician frames: under
/// `XDG_CACHE_HOME` when it is set and not empty, else under `HOME/.cache`
/// when `HOME` is set and not empty, in `yazelix_screen/<frame dir name>`.
pub open spec fn magician_cache_frame_dir_spec(
    xdg_cache_home: Option<Seq<char>>,
    home: Option<Seq<char>>,
) -> Option<Seq<char>> {
    let cache_root = if xdg_cache_home is Some && xdg_cache_home->0.len() > 0 {
        xdg_cache_home
    } else if home is Some && home->0.len() > 0 {
        Some(joined_path(home->0, ".cache"@))
    } else {
        None
    };
    match cache_root {
        Some(root) => Some(joined_path(joined_path(root, "yazelix_screen"@), MAGICIAN_FRAME_DIR_NAME@)),
        None => None,
    }
}

/// The cache directory for generated magician frames, from the values of the
/// `XDG_CACHE_HOME` and `HOME` environment variables.
pub fn magician_cache_frame_dir(xdg_cache_home: Option<&str>, home: Option<&str>) -> (dir: Option<String>)
    ensures
        match dir {
            Some(d) => magician_cache_frame_dir_spec(
                match xdg_cache_home {
                    Some(x) => Some(x@),
                    None => None,
                },
                match home {
                    Some(h) => Some(h@),
                    None => None,
                },
            ) == Some(d@),
            None => magician_cache_frame_dir_spec(
                match xdg_cache_home {
                    Some(x) => Some(x@),
                    None => None,
                },
                match home {
                    Some(h) => Some(h@),
                    None => None,
                },
            ) is None,
        },
{
    let cache_root = match xdg_cache_home {
        Some(xdg) if !xdg.is_empty() => Some(xdg.to_owned()),
        _ => match home {
            Some(h) if !h.is_empty() => Some(join_path(h, ".cache")),
            _ => None,
        },
    };
    match cache_root {
        Some(root) => {
            let package = join_path(root.as_str(), "yazelix_screen");
            Some(join_path(package.as_str(), MAGICIAN_FRAME_DIR_NAME))
        },
        None => None,
    }
}


// ---------------------------------------------------------------------------
// finding the assets on disk
// ---------------------------------------------------------------------------

/// Whether frame `i` is on disk, by the flags gathered for the frame paths
/// in order; a frame without a flag counts as missing.
pub open spec fn frame_present(present: Seq<bool>, i: int) -> bool {
    0 <= i < present.len() && present[i]
}

/// The error that names a missing frame.
pub open spec fn missing_frame_message(frame_dir: Seq<char>, k: nat) -> Seq<char> {
    "Missing magician GIF frame asset: "@ + joined_path(frame_dir, magician_frame_name(k))
}

/// Checks that every magician frame of `frame_dir` is on disk, given for
/// each frame path (in the order of `magician_frame_paths`) whether a file
/// is there. The error names the first missing frame.
pub fn require_magician_frame_assets(frame_dir: &str, frame_present_flags: &[bool]) -> (checked: Result<
    (),
    String,
>)
    ensures
        checked is Ok <==> forall|i: int|
            0 <= i < MAGICIAN_FRAME_COUNT ==> #[trigger] frame_present(frame_present_flags@, i),
        checked matches Err(message) ==> exists|k: nat|
            k < MAGICIAN_FRAME_COUNT && !frame_present(frame_present_flags@, k as int) && (forall|j: int|
                0 <= j < k ==> #[trigger] frame_present(frame_present_flags@, j)) && message@
                == missing_frame_message(frame_dir@, k),
{
    let mut i: usize = 0;
    while i < MAGICIAN_FRAME_COUNT
        invariant
            i <= MAGICIAN_FRAME_COUNT,
            forall|j: int| 0 <= j < i ==> #[trigger] frame_present(frame_present_flags@, j),
        decreases MAGICIAN_FRAME_COUNT - i,
    {
        if i >= frame_present_flags.len() || !frame_present_flags[i] {
            let path = magician_frame_path(frame_dir, i);
            let mut message = "Missing magician GIF frame asset: ".to_owned();
            message.append(path.as_str());
            assert(!frame_present(frame_present_flags@, i as int));
            return Err(message);
        }
        i = i + 1;
    }
    Ok(())
}

/// Whether every magician frame of `frame_dir` is on disk, given the flags
/// gathered for its frame paths in order.
pub fn magician_frame_assets_available(frame_dir: &str, frame_present_flags: &[bool]) -> (available: bool)
    ensures
        available == forall|i: int|
            0 <= i < MAGICIAN_FRAME_COUNT ==> #[trigger] frame_present(frame_present_flags@, i),
{
    require_magician_frame_assets(frame_dir, frame_present_flags).is_ok()
}

/// A place where an asset may be, and whether it is usable there.
pub open spec fn candidate_view(candidate: Option<(String, bool)>) -> Option<(Seq<char>, bool)> {
    match candidate {
        Some((path, ready)) => Some((path@, ready)),
        None => None,
    }
}

/// The first usable place among `candidates`, in order.
pub open spec fn first_ready(candidates: Seq<Option<(Seq<char>, bool)>>) -> Option<Seq<char>>
    decreases candidates.len(),
{
    if candidates.len() == 0 {
        None
    } else {
        match candidates[0] {
            Some(candidate) => if candidate.1 {
                Some(candidate.0)
            } else {
                first_ready(candidates.drop_first())
            },
            None => first_ready(candidates.drop_first()),
        }
    }
}

fn first_ready_of_two(first: Option<(String, bool)>, second: Option<(String, bool)>) -> (found: Option<String>)
    ensures
        match first_ready(seq![candidate_view(first), candidate_view(second)]) {
            Some(path) => found matches Some(p) && p@ == path,
            None => found is None,
        },
{
    let ghost candidates = seq![candidate_view(first), candidate_view(second)];
    assert(candidates[0] == candidate_view(first));
    assert(candidates.drop_first() == seq![candidate_view(second)]);
    assert(seq![candidate_view(second)][0] == candidate_view(second));
    assert(seq![candidate_view(second)].drop_first() =~= Seq::<Option<(Seq<char>, bool)>>::empty());
    proof {
        reveal_with_fuel(first_ready, 3);
    }
    if let Some((path, ready)) = first {
        if ready {
            return Some(path);
        }
    }
    match second {
        Some((path, ready)) => if ready {
            Some(path)
        } else {
            None
        },
        None => None,
    }
}

/// The directory of the magician frames to play: the one installed with the
/// package, else the source tree's, else the cache's, whichever first holds
/// every frame. Each place comes with whether all its frames are there; the
/// package and the cache may have no place at all.
pub fn default_magician_frame_dir(
    bundled: Option<(String, bool)>,
    source: (String, bool),
    cache: Option<(String, bool)>,
) -> (frame_dir: Option<String>)
    ensures
        match first_ready(seq![candidate_view(bundled), candidate_view(Some(source)), candidate_view(cache)]) {
            Some(path) => frame_dir matches Some(d) && d@ == path,
            None => frame_dir is None,
        },
{
    let ghost candidates = seq![candidate_view(bundled), candidate_view(Some(source)), candidate_view(cache)];
    assert(candidates[0] == candidate_view(bundled));
    assert(candidates.drop_first() == seq![candidate_view(Some(source)), candidate_view(cache)]);
    if let Some((path, ready)) = bundled {
        if ready {
            return Some(path);
        }
    }
    first_ready_of_two(Some(source), cache)
}

/// The magician GIF to generate frames from: the one installed with the
/// package, else the source tree's, whichever is a file.
pub fn default_magician_gif_path(bundled: Option<(String, bool)>, source: (String, bool)) -> (gif_path: Option<
    String,
>)
    ensures
        match first_ready(seq![candidate_view(bundled), candidate_view(Some(source))]) {
            Some(path) => gif_path matches Some(g) && g@ == path,
            None => gif_path is None,
        },
{
    first_ready_of_two(bundled, Some(source))
}

/// How the magician frames are made available.
#[derive(Debug, Clone, PartialEq, Eq)]
pub enum MagicianFrameDirPlan {
    /// The frames are already in this directory.
    Ready(String),
    /// Frames must be generated from the GIF into the cache directory.
    Generate { gif_path: String, frame_dir: String },
}

/// The error when no source GIF is found.
pub open spec fn missing_gif_message() -> Seq<char> {
    "Missing magician source GIF asset: "@ + MAGICIAN_GIF_NAME@
}

/// The error when no cache directory can be named.
pub open spec fn missing_cache_message() -> Seq<char> {
    "Could not resolve a cache directory for magician PNG frames; set XDG_CACHE_HOME or HOME"@
}

/// What `ensure_default_magician_frame_dir` does: use the frames found;
/// else generate them from the GIF found into the cache directory; an error
/// when either of those is missing, the GIF first.
pub fn plan_magician_frame_dir(
    found_frame_dir: Option<String>,
    gif_path: Option<String>,
    cache_frame_dir: Option<String>,
) -> (plan: Result<MagicianFrameDirPlan, String>)
    ensures
        match (found_frame_dir, gif_path, cache_frame_dir) {
            (Some(dir), _, _) => plan == Ok::<MagicianFrameDirPlan, String>(MagicianFrameDirPlan::Ready(dir)),
            (None, None, _) => plan matches Err(m) && m@ == missing_gif_message(),
            (None, Some(_), None) => plan matches Err(m) && m@ == missing_cache_message(),
            (None, Some(gif), Some(dir)) => plan == Ok::<MagicianFrameDirPlan, String>(
                MagicianFrameDirPlan::Generate { gif_path: gif, frame_dir: dir },
            ),
        },
{
    if let Some(dir) = found_frame_dir {
        return Ok(MagicianFrameDirPlan::Ready(dir));
    }
    let gif = match gif_path {
        Some(gif) => gif,
        None => {
            let mut message = "Missing magician source GIF asset: ".to_owned();
            message.append(MAGICIAN_GIF_NAME);
            return Err(message);
        },
    };
    match cache_frame_dir {
        Some(dir) => Ok(MagicianFrameDirPlan::Generate { gif_path: gif, frame_dir: dir }),
        None => Err(
            "Could not resolve a cache directory for magician PNG frames; set XDG_CACHE_HOME or HOME".to_owned(),
        ),
    }
}

/// Whether a file name is one of the generated frames that regeneration
/// clears first: it starts with `frame_` and its extension (after the last
/// dot) is `png` in any ASCII case.
pub open spec fn generated_frame_name(name: Seq<char>) -> bool {
    &&& name.len() >= 6
    &&& name.subrange(0, 6) == seq!['f', 'r', 'a', 'm', 'e', '_']
    &&& name[name.len() - 4] == '.'
    &&& ascii_lower(name.subrange(name.len() - 3, name.len() as int)) == seq!['p', 'n', 'g']
}

/// Whether a directory entry named `file_name` is a generated magician frame.
pub fn is_generated_magician_frame(file_name: &str) -> (generated: bool)
    ensures
        generated == generated_frame_name(file_name@),
{
    let chars = chars_of(file_name);
    let n = chars.len();
    if n < 6 {
        return false;
    }
    if !(chars[0] == 'f' && chars[1] == 'r' && chars[2] == 'a' && chars[3] == 'm' && chars[4] == 'e'
        && chars[5] == '_') {
        assert(chars@.subrange(0, 6)[0] == chars@[0]);
        assert(chars@.subrange(0, 6)[1] == chars@[1]);
        assert(chars@.subrange(0, 6)[2] == chars@[2]);
        assert(chars@.subrange(0, 6)[3] == chars@[3]);
        assert(chars@.subrange(0, 6)[4] == chars@[4]);
        assert(chars@.subrange(0, 6)[5] == chars@[5]);
        return false;
    }
    assert(chars@.subrange(0, 6) =~= seq!['f', 'r', 'a', 'm', 'e', '_']);
    if chars[n - 4] != '.' {
        return false;
    }
    let p = chars[n - 3];
    let e = chars[n - 2];
    let g = chars[n - 1];
    let ghost ext = ascii_lower(chars@.subrange(n - 3, n as int));
    assert(ext[0] == ascii_lower_char(p));
    assert(ext[1] == ascii_lower_char(e));
    assert(ext[2] == ascii_lower_char(g));
    let result = (p == 'p' || p == 'P') && (e == 'n' || e == 'N') && (g == 'g' || g == 'G');
    if result {
        assert(ext =~= seq!['p', 'n', 'g']);
    } else {
        assert(ext != seq!['p', 'n', 'g']) by {
            if ext == seq!['p', 'n', 'g'] {
                assert(ext[0] == 'p');
                assert(ext[1] == 'n');
                assert(ext[2] == 'g');
            }
        }
    }
    result
}


/// The file name pattern that ImageMagick numbers generated frames by.
pub const MAGICIAN_FRAME_PATTERN: &'static str = "frame_%03d.png";

/// The output pattern for generating frames into `frame_dir`.
pub fn magician_frame_output_pattern(frame_dir: &str) -> (pattern: String)
    ensures
        pattern@ == joined_path(frame_dir@, MAGICIAN_FRAME_PATTERN@),
{
    join_path(frame_dir, MAGICIAN_FRAME_PATTERN)
}

/// The error when ImageMagick's `magick` cannot be started.
pub const IMAGEMAGICK_MISSING_MESSAGE: &'static str =
    "ImageMagick `magick` was not found on PATH; install ImageMagick or pass --kitty-frame-dir";

/// The error when ImageMagick fails: it names the GIF and what ImageMagick
/// reported on its error stream, trimmed.
pub fn imagemagick_failure_message(gif_path: &str, stderr: &str) -> (message: String)
    ensures
        message@ == "ImageMagick failed to generate magician PNG frames from "@ + gif_path@ + ": "@
            + trimmed(stderr@),
{
    let mut message = "ImageMagick failed to generate magician PNG frames from ".to_owned();
    message.append(gif_path);
    message.append(": ");
    let reported = trim_text(stderr);
    message.append(reported.as_str());
    message
}

} // verus!
