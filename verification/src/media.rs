//! Media types of files.

use vstd::prelude::*;
use crate::path::file_name;

verus! {

/// The media type that is guessed for a file from its path.
pub uninterp spec fn guessed_type(path: Seq<char>) -> Seq<char>;

/// Whether the file that a path names has no extension: it has no name, or no dot stands
/// in its name behind the first character.
pub open spec fn extensionless(path: Seq<char>) -> bool {
    match file_name(path) {
        None => true,
        Some(name) => forall|i: int| 0 < i < name.len() ==> #[trigger] name[i] != '.',
    }
}

/// `mime_guess::from_path` with `first_or_octet_stream`: the media type that the extension
/// of the path suggests. It depends on the path alone. Where there is no extension, it is
/// `application/octet-stream`.
#[verifier::external_body]
pub(crate) fn guess_type(path: &str) -> (r: String)
    ensures
        r@ == guessed_type(path@),
        extensionless(path@) ==> r@ == "application/octet-stream"@,
{
    mime_guess::from_path(path).first_or_octet_stream().to_string()
}

} // verus!
