//! Decoder and three-way merge engine for a line-oriented, chapter-versioned
//! role-playing-game save-file format.
//!
//! A save file is an ordered sequence of text lines, one scalar value per
//! line; the schema is selected by an externally supplied chapter number.
//! The library decodes such a line sequence into a typed [`savefile::SaveData`]
//! record and reconciles two divergent save states against an optional common
//! ancestor, producing an ordered sequence of per-line merge outcomes that
//! re-serializes into a loadable save file.

pub mod driver;
pub mod errors;
pub mod gamedata;
pub mod iter;
pub mod floatval;
pub mod merging;
pub mod save_parser;
pub mod serialize;
pub mod savefile;
pub mod numtext;

use vstd::prelude::*;

verus! {

/// Greeting used by the command-line front ends to identify the library.
pub fn message() -> (r: &'static str)
    ensures
        r@ == "Hello deltakit!"@,
{
    "Hello deltakit!"
}

} // verus!
