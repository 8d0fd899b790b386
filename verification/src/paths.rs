//! Paths of manifests and image archives.
//!
//! A path is carried as the operating system has it, since it need not be
//! text. The library looks at a path only to show it.

use std::path::PathBuf;
use vstd::prelude::*;

verus! {

/// A path of the operating system.
#[verifier::external_type_specification]
#[verifier::external_body]
pub struct ExPathBuf(PathBuf);

/// The text as which a path is shown. What is no text in the path is shown by
/// replacements.
pub uninterp spec fn path_text(path: PathBuf) -> Seq<char>;

/// Calls `Path::display` and takes what it prints, which depends on the path
/// alone. Nothing is claimed of how the text looks.
#[verifier::external_body]
pub(crate) fn show_path(path: &PathBuf) -> (text: String)
    ensures
        text@ == path_text(*path),
{
    path.display().to_string()
}

/// Calls `PathBuf::clone`: the copy is the same path.
#[verifier::external_body]
pub(crate) fn clone_path(path: &PathBuf) -> (copy: PathBuf)
    ensures
        copy == *path,
{
    path.clone()
}

} // verus!
