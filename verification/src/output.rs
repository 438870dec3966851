//! How a new archive takes the place of the one before.
//!
//! The archive is written to a partial file beside the output file. Only a
//! compile that reaches its end moves the partial file over the output, so
//! that a compile which breaks off leaves the previous archive as it was.

use vstd::prelude::*;
use vstd::string::*;

verus! {

/// What the name of the partial file adds to the name of the output file.
pub const PARTIAL_SUFFIX: &'static str = ".part";

/// The path of the partial file for the output file at `out_file`.
pub fn partial_path(out_file: &str) -> (path: String)
    ensures
        path@ == out_file@ + PARTIAL_SUFFIX@,
{
    out_file.to_owned().concat(PARTIAL_SUFFIX)
}

/// What becomes of the partial file.
#[derive(Clone, Copy, Debug, PartialEq, Eq, Structural)]
pub enum Settlement {
    /// It is moved over the output file.
    Replace,
    /// It is removed, and the output file stays as it was.
    Discard,
}

/// Decides what becomes of the partial file. A compile that reached its end
/// replaces the output, also where files failed validation: the archive then
/// holds every file that passed. A compile that broke off is discarded.
pub fn settle(reached_end: bool) -> (s: Settlement)
    ensures
        s == if reached_end {
            Settlement::Replace
        } else {
            Settlement::Discard
        },
{
    if reached_end {
        Settlement::Replace
    } else {
        Settlement::Discard
    }
}

} // verus!
