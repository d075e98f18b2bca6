//! What the platform knows of file paths.

use vstd::prelude::*;

verus! {

/// The text that the standard library's `Debug` gives for a path: the path
/// in double quotes, with the characters that cannot stand there escaped.
pub uninterp spec fn path_debug_text(path: Seq<char>) -> Seq<char>;

/// Calls `std::path::absolute` and hands back the absolute form of `path`
/// where there is one that is valid Unicode.
///
/// The result depends on the directory the process runs in, so nothing is
/// claimed of it but what the function documents of every call: an empty
/// path cannot be made absolute.
#[verifier::external_body]
pub(crate) fn absolute_path(path: &String) -> (resolved: Option<String>)
    ensures
        path@.len() == 0 ==> resolved is None,
{
    match std::path::absolute(path) {
        Ok(absolute) => match absolute.to_str() {
            Some(text) => Some(String::from(text)),
            None => None,
        },
        Err(_) => None,
    }
}

/// Formats `path` as a `std::path::Path` with `{:?}`.
///
/// The contract only gives that text its name, [`path_debug_text`]: what it
/// holds is the standard library's business.
#[verifier::external_body]
pub(crate) fn path_debug_string(path: &String) -> (text: String)
    ensures
        text@ == path_debug_text(path@),
{
    format!("{:?}", std::path::Path::new(path))
}

} // verus!
