//! How animation cells are drawn, and how a cell style is named on the
//! command line.

use crate::text::{ascii_lower, str_equals, to_ascii_lowercase, trim_text, trimmed};
use vstd::prelude::*;

verus! {

/// How animation cells are drawn.
#[derive(Debug, Clone, Copy, PartialEq, Eq, Structural)]
pub enum GameOfLifeCellStyle {
    FullBlock,
    Dotted,
}

/// A cell style name that is not known, in its normalized form.
#[derive(Debug, Clone, PartialEq, Eq)]
pub struct GameOfLifeCellStyleParseError {
    normalized: String,
}

impl GameOfLifeCellStyleParseError {
    /// The normalized form of the rejected name.
    pub closed spec fn normalized_spec(&self) -> Seq<char> {
        self.normalized@
    }

    /// The normalized form of the rejected name.
    pub fn normalized(&self) -> (name: &str)
        ensures
            name@ == self.normalized_spec(),
    {
        self.normalized.as_str()
    }
}

/// The normalized form of a cell style name: trimmed and ASCII-lowercased.
pub open spec fn normalized_cell_style(raw: Seq<char>) -> Seq<char> {
    ascii_lower(trimmed(raw))
}

/// The cell style that a normalized name selects: `full_block` or `dotted`.
pub open spec fn cell_style_of_name(normalized: Seq<char>) -> Option<GameOfLifeCellStyle> {
    if normalized == "full_block"@ {
        Some(GameOfLifeCellStyle::FullBlock)
    } else if normalized == "dotted"@ {
        Some(GameOfLifeCellStyle::Dotted)
    } else {
        None
    }
}

impl GameOfLifeCellStyle {
    /// The cell style named by `raw` after trimming and ASCII-lowercasing, or
    /// the normalized name when it names none.
    pub fn parse(raw: &str) -> (parsed: Result<Self, GameOfLifeCellStyleParseError>)
        ensures
            match parsed {
                Ok(style) => cell_style_of_name(normalized_cell_style(raw@)) == Some(style),
                Err(error) => cell_style_of_name(normalized_cell_style(raw@)) is None
                    && error.normalized_spec() == normalized_cell_style(raw@),
            },
    {
        let trimmed_raw = trim_text(raw);
        let normalized = to_ascii_lowercase(trimmed_raw.as_str());
        if str_equals(normalized.as_str(), "full_block") {
            Ok(GameOfLifeCellStyle::FullBlock)
        } else if str_equals(normalized.as_str(), "dotted") {
            Ok(GameOfLifeCellStyle::Dotted)
        } else {
            Err(GameOfLifeCellStyleParseError { normalized })
        }
    }
}

} // verus!
