//! Paths as text: the home shorthand and the joining of paths. The path
//! arithmetic is that of `std::path`, behind wrappers whose results are named.

use crate::error::DotmanError;
use std::path::Path;
use vstd::prelude::*;

verus! {

/// The shorthand that stands for the home directory at the start of a path.
pub const HOME_SHORTHAND: &'static str = "~";

/// The text of `Path::new(base).join(rel)`.
pub uninterp spec fn path_joined(base: Seq<char>, rel: Seq<char>) -> Seq<char>;

/// The text of `Path::new(path).strip_prefix(prefix)`, where the components of
/// `prefix` are the first components of `path`.
pub uninterp spec fn path_without_prefix(path: Seq<char>, prefix: Seq<char>) -> Option<Seq<char>>;

/// The text of `Path::new(path).file_name()`, where the path has a final component.
pub uninterp spec fn path_file_name(path: Seq<char>) -> Option<Seq<char>>;

/// `Path::join` of std. Both arguments are text, so the joined path is text too;
/// the contract only names it.
#[verifier::external_body]
pub(crate) fn join(base: &str, rel: &str) -> (r: String)
    ensures
        r@ == path_joined(base@, rel@),
{
    Path::new(base).join(rel).to_string_lossy().into_owned()
}

/// `Path::strip_prefix` of std: the rest of the path behind the prefix, where
/// the components of the prefix are the first components of the path.
#[verifier::external_body]
pub(crate) fn strip_prefix(path: &str, prefix: &str) -> (r: Option<String>)
    ensures
        path_without_prefix(path@, prefix@) == match r {
            Some(rest) => Some(rest@),
            None => None,
        },
{
    Path::new(path).strip_prefix(prefix).ok().map(|rest| rest.to_string_lossy().into_owned())
}

/// `Path::file_name` of std: the final component, if the path has one.
#[verifier::external_body]
pub(crate) fn file_name(path: &str) -> (r: Option<String>)
    ensures
        path_file_name(path@) == match r {
            Some(name) => Some(name@),
            None => None,
        },
{
    Path::new(path).file_name().map(|name| name.to_string_lossy().into_owned())
}

/// `home::home_dir`, which asks the environment and the operating system. A home
/// directory that is not text counts as none. Nothing is promised of the answer.
#[verifier::external_body]
fn home_dir() -> (r: Option<String>)
{
    home::home_dir().and_then(|dir| dir.into_os_string().into_string().ok())
}

/// The user's home directory, as the environment and the operating system give
/// it. Which directory that is, and whether there is one, is theirs to say;
/// `home_or_unavailable` says what is made of their answer.
pub fn get_home_dir() -> (r: Result<String, DotmanError>)
    ensures
        r matches Err(e) ==> e == DotmanError::HomeDirectoryUnavailable,
{
    home_or_unavailable(home_dir())
}

/// What is made of the answer to the question for the home directory: the
/// directory that was found, and a failure where none was.
pub fn home_or_unavailable(found: Option<String>) -> (r: Result<String, DotmanError>)
    ensures
        match r {
            Ok(dir) => found matches Some(given) && dir@ == given@,
            Err(e) => found is None && e == DotmanError::HomeDirectoryUnavailable,
        },
{
    match found {
        Some(dir) => Ok(dir),
        None => Err(DotmanError::HomeDirectoryUnavailable),
    }
}

/// What `resolve_path` returns for a path, given the home directory if there is one.
pub open spec fn resolved(path: Seq<char>, home: Option<Seq<char>>) -> Result<Seq<char>, DotmanError> {
    match path_without_prefix(path, HOME_SHORTHAND@) {
        Some(rest) => match home {
            Some(dir) => Ok(path_joined(dir, rest)),
            None => Err(DotmanError::HomeDirectoryUnavailable),
        },
        None => Ok(path),
    }
}

/// Expands the home shorthand: a path whose first component is the shorthand
/// becomes the rest of it joined onto the home directory, and needs one. Any
/// other path comes back unchanged, a relative one too.
pub fn resolve_path(path: &str, home: Option<&str>) -> (r: Result<String, DotmanError>)
    ensures
        resolved(path@, match home { Some(dir) => Some(dir@), None => None }) == match r {
            Ok(full) => Ok(full@),
            Err(e) => Err(e),
        },
{
    match strip_prefix(path, HOME_SHORTHAND) {
        Some(rest) => match home {
            Some(dir) => Ok(join(dir, rest.as_str())),
            None => Err(DotmanError::HomeDirectoryUnavailable),
        },
        None => Ok(path.to_owned()),
    }
}

} // verus!
