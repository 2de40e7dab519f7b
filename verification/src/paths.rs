//! The parts of a file path that the standard library picks out.
use vstd::prelude::*;

use crate::colors::opt_string_view;

verus! {

/// The extension `std::path::Path::extension` finds in `p`, as text.
pub uninterp spec fn path_extension(p: Seq<char>) -> Option<Seq<char>>;

/// The stem `std::path::Path::file_stem` finds in `p`, as text.
pub uninterp spec fn path_file_stem(p: Seq<char>) -> Option<Seq<char>>;

/// Calls `Path::extension` on `path`. The result is the named function
/// `path_extension` of the path; the rule for where an extension starts is
/// the standard library's and is not restated here.
#[verifier::external_body]
pub(crate) fn extension_of(path: &str) -> (r: Option<String>)
    ensures
        opt_string_view(r) == path_extension(path@),
{
    std::path::Path::new(path).extension().and_then(|e| e.to_str()).map(|e| e.to_string())
}

/// Calls `Path::file_stem` on `path`: the file name without its extension,
/// named `path_file_stem` of the path.
#[verifier::external_body]
pub(crate) fn file_stem_of(path: &str) -> (r: Option<String>)
    ensures
        opt_string_view(r) == path_file_stem(path@),
{
    std::path::Path::new(path).file_stem().and_then(|e| e.to_str()).map(|e| e.to_string())
}

} // verus!
