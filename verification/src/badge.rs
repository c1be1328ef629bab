//! The text side of the user badges drawn next to remote cursors.

use crate::text::{chars_of, string_from_chars};
use vstd::prelude::*;
use vstd::string::StringExecFns;

verus! {

/// Errors of rendering a user badge.
#[derive(Debug)]
pub enum SvgRenderError {
    /// The badge's SVG could not be parsed; carries the parser's text.
    SvgParseError(String),
    PixmapCreationError,
    /// The PNG could not be encoded; carries the encoder's text.
    PngSaveError(String),
}

impl SvgRenderError {
    /// The text of the error.
    pub open spec fn spec_message(&self) -> Seq<char> {
        match self {
            SvgRenderError::SvgParseError(d) => "Failed to parse SVG: "@ + d@,
            SvgRenderError::PixmapCreationError => "Failed to create pixmap"@,
            SvgRenderError::PngSaveError(d) => "Failed to save PNG: "@ + d@,
        }
    }

    /// The text of the error.
    pub fn message(&self) -> (r: String)
        ensures
            r@ == self.spec_message(),
    {
        match self {
            SvgRenderError::SvgParseError(d) => String::from_str("Failed to parse SVG: ").concat(
                d.as_str(),
            ),
            SvgRenderError::PixmapCreationError => String::from_str("Failed to create pixmap"),
            SvgRenderError::PngSaveError(d) => String::from_str("Failed to save PNG: ").concat(
                d.as_str(),
            ),
        }
    }
}

/// How many characters of a name a badge keeps when the name is too wide.
pub const BADGE_NAME_KEPT_CHARS: usize = 17;

/// A name cut for a badge that is too wide: its first characters, then `...`.
pub open spec fn spec_clipped_badge_name(name: Seq<char>) -> Seq<char> {
    (if name.len() <= BADGE_NAME_KEPT_CHARS {
        name
    } else {
        name.take(BADGE_NAME_KEPT_CHARS as int)
    }) + "..."@
}

/// The name shown on a badge that is too wide for the whole name.
pub fn clipped_badge_name(name: &str) -> (r: String)
    ensures
        r@ == spec_clipped_badge_name(name@),
{
    let chars = chars_of(name);
    let mut kept: Vec<char> = Vec::new();
    let mut i: usize = 0;
    while i < chars.len() && i < BADGE_NAME_KEPT_CHARS
        invariant
            i <= chars@.len(),
            i <= BADGE_NAME_KEPT_CHARS,
            kept@ == chars@.take(i as int),
        decreases chars@.len() - i,
    {
        kept.push(chars[i]);
        i += 1;
        assert(kept@ =~= chars@.take(i as int));
    }
    proof {
        if chars@.len() <= BADGE_NAME_KEPT_CHARS {
            assert(chars@.take(i as int) =~= chars@);
        }
    }
    string_from_chars(kept.as_slice()).concat("...")
}

/// A clipped badge name is the name's first 17 characters, or all of it
/// when shorter, followed by `...`.
pub proof fn law_clipped_badge_name(name: Seq<char>)
    ensures
        spec_clipped_badge_name(name).len() == (if name.len() <= 17 {
            name.len()
        } else {
            17
        }) + 3,
        spec_clipped_badge_name(name).take(if name.len() <= 17 {
            name.len() as int
        } else {
            17
        }) == name.take(if name.len() <= 17 {
            name.len() as int
        } else {
            17
        }),
        spec_clipped_badge_name(name).skip(spec_clipped_badge_name(name).len() - 3) == seq!['.', '.', '.'],
{
    reveal_strlit("...");
    let r = spec_clipped_badge_name(name);
    let n: int = if name.len() <= 17 {
        name.len() as int
    } else {
        17
    };
    assert(r.take(n) =~= name.take(n));
    assert(r.skip(r.len() - 3) =~= seq!['.', '.', '.']);
}

} // verus!
