//! Path text handled the way `std::path::Path` handles it.
//!
//! Paths travel through the library as `String`s. Each operation below is one
//! call of the matching `std::path` method; what that method returns is
//! named by a spec function of the same path text.

use vstd::prelude::*;
use std::path::Path;

verus! {

/// What `Path::join` gives for `base` joined with `part`.
pub uninterp spec fn spec_path_join(base: Seq<char>, part: Seq<char>) -> Seq<char>;

/// What `Path::file_stem` gives for a path, if anything.
pub uninterp spec fn spec_file_stem(path: Seq<char>) -> Option<Seq<char>>;

/// What `Path::extension` gives for a path, if anything.
pub uninterp spec fn spec_extension(path: Seq<char>) -> Option<Seq<char>>;

/// What `Path::strip_prefix` gives for `path` with `base` taken off, if it can.
pub uninterp spec fn spec_strip_prefix(path: Seq<char>, base: Seq<char>) -> Option<Seq<char>>;

/// What `Path::with_extension("")` gives: the path with its extension removed.
pub uninterp spec fn spec_without_extension(path: Seq<char>) -> Seq<char>;

/// `Path::join`: the path `part` adjoined to `base`. The contract names the
/// result and does not describe how separators are placed.
#[verifier::external_body]
pub(crate) fn path_join(base: &str, part: &str) -> (r: String)
    ensures
        r@ == spec_path_join(base@, part@),
{
    Path::new(base).join(part).to_string_lossy().into_owned()
}

/// `Path::file_stem`: the final component without its last extension.
/// The path comes from UTF-8 text, so the lossy conversion
/// keeps every character.
#[verifier::external_body]
pub(crate) fn path_file_stem(path: &str) -> (r: Option<String>)
    ensures
        r is Some <==> spec_file_stem(path@) is Some,
        r matches Some(s) ==> spec_file_stem(path@) == Some(s@),
{
    Path::new(path).file_stem().map(|s| s.to_string_lossy().into_owned())
}

/// `Path::extension`: the extension of the final component.
#[verifier::external_body]
pub(crate) fn path_extension(path: &str) -> (r: Option<String>)
    ensures
        r is Some <==> spec_extension(path@) is Some,
        r matches Some(s) ==> spec_extension(path@) == Some(s@),
{
    Path::new(path).extension().map(|s| s.to_string_lossy().into_owned())
}

/// `Path::strip_prefix`: `path` relative to `base`, when `base` is a prefix of
/// it component by component.
#[verifier::external_body]
pub(crate) fn path_strip_prefix(path: &str, base: &str) -> (r: Option<String>)
    ensures
        r is Some <==> spec_strip_prefix(path@, base@) is Some,
        r matches Some(s) ==> spec_strip_prefix(path@, base@) == Some(s@),
{
    Path::new(path).strip_prefix(base).ok().map(|p| p.to_string_lossy().into_owned())
}

/// `Path::with_extension("")`: the path with the extension of its final
/// component removed.
#[verifier::external_body]
pub(crate) fn path_without_extension(path: &str) -> (r: String)
    ensures
        r@ == spec_without_extension(path@),
{
    Path::new(path).with_extension("").to_string_lossy().into_owned()
}

/// The location of a source file inside an input directory: the source path
/// made relative to `input_path`, without its extension. `None` when the
/// source does not lie under `input_path`.
pub fn relative_location(source_path: &str, input_path: &str) -> (r: Option<String>)
    ensures
        r is Some <==> spec_strip_prefix(source_path@, input_path@) is Some,
        r matches Some(l) ==> l@ == spec_without_extension(
            spec_strip_prefix(source_path@, input_path@)->0,
        ),
{
    match path_strip_prefix(source_path, input_path) {
        Some(rel) => Some(path_without_extension(rel.as_str())),
        None => None,
    }
}

} // verus!
