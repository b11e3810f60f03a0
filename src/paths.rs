//! Paths of the installation's files, and the names derived from them.
use vstd::prelude::*;

use crate::text::concat2;

verus! {

/// The final component of `path` under the platform's path rules; `None`
/// for a root, an empty path, or one that ends in `..`.
pub uninterp spec fn path_file_name(path: Seq<char>) -> Option<Seq<char>>;

/// `path` with its final component replaced by `name`.
pub uninterp spec fn path_with_file_name(path: Seq<char>, name: Seq<char>) -> Seq<char>;

/// Relies on std::path::Path::file_name: the final component of the path.
#[verifier::external_body]
fn file_name_of(path: &str) -> (r: Option<String>)
    ensures
        r.deep_view() == path_file_name(path@),
{
    std::path::Path::new(path).file_name().map(|n| n.to_string_lossy().into_owned())
}

/// Relies on std::path::Path::with_file_name: the path with its final
/// component replaced.
#[verifier::external_body]
fn with_file_name(path: &str, name: &str) -> (r: String)
    ensures
        r@ == path_with_file_name(path@, name@),
{
    std::path::Path::new(path).with_file_name(name).to_string_lossy().into_owned()
}

pub open spec fn spec_display_name(path: Seq<char>) -> Seq<char> {
    match path_file_name(path) {
        Some(n) => n,
        None => path,
    }
}

/// The file name of `path`, or the whole path where it has none.
pub fn display_name(path: &str) -> (r: String)
    ensures
        r@ == spec_display_name(path@),
{
    match file_name_of(path) {
        Some(n) => n,
        None => path.to_owned(),
    }
}

pub open spec fn spec_bak_path(path: Seq<char>) -> Seq<char> {
    match path_file_name(path) {
        Some(n) => path_with_file_name(path, n + ".bak"@),
        None => path,
    }
}

/// The backup path of `path`: `.bak` appended to its file name, beside it.
/// A path without a file name is returned unchanged.
pub fn bak_path(path: &str) -> (r: String)
    ensures
        r@ == spec_bak_path(path@),
{
    match file_name_of(path) {
        Some(n) => {
            let name = concat2(n.as_str(), ".bak");
            with_file_name(path, name.as_str())
        },
        None => path.to_owned(),
    }
}

/// Resolved paths of the installation; each is absent where not found.
#[derive(Debug, Default)]
pub struct CursorPaths {
    pub cursor_app: Option<String>,
    pub cli_agent_dir: Option<String>,
    pub cli_index: Option<String>,
    pub ide_main: Option<String>,
    /// The extension host bootstrap script.
    pub ehp: Option<String>,
    pub product_json: Option<String>,
}

} // verus!
