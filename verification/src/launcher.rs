//! The launcher: one tile per installed kernel.

use vstd::prelude::*;
use crate::text::{lowercase, str_eq, to_lowercase};

verus! {

/// The glyph shown on a kernel's tile, by (lowercased) language.
pub open spec fn glyph_for(language: Seq<char>) -> Seq<char> {
    if language == "python"@ {
        "🐍"@
    } else if language == "julia"@ {
        "🟣"@
    } else if language == "mojo"@ {
        "🔥"@
    } else if language == "rust"@ {
        "🦀"@
    } else if language == "r"@ {
        "📊"@
    } else {
        "⚙️"@
    }
}

/// The glyph for an already lowercased language.
pub fn glyph_for_lowercase(l: &str) -> (res: &'static str)
    ensures
        res@ == glyph_for(l@),
{
    if str_eq(l, "python") {
        "🐍"
    } else if str_eq(l, "julia") {
        "🟣"
    } else if str_eq(l, "mojo") {
        "🔥"
    } else if str_eq(l, "rust") {
        "🦀"
    } else if str_eq(l, "r") {
        "📊"
    } else {
        "⚙️"
    }
}

/// The glyph of a kernel's tile.
pub fn kernel_glyph(language: &str) -> (res: &'static str)
    ensures
        res@ == glyph_for(lowercase(language@)),
{
    let lower = to_lowercase(language);
    glyph_for_lowercase(lower.as_str())
}

/// A tile's label: the kernel's display name, or its name when the
/// display name is empty.
pub fn tile_label(display_name: &str, kernel_name: &str) -> (res: String)
    ensures
        res@ == if display_name@.len() == 0 { kernel_name@ } else { display_name@ },
{
    if display_name.is_empty() {
        kernel_name.to_owned()
    } else {
        display_name.to_owned()
    }
}

} // verus!
