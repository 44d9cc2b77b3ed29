//! Checks on the paths that a run reads and writes, decided from what the
//! file system says of them.

use crate::errors::{BigError, Result};
use crate::paths::{parent, parent_of, quoted, quoted_path};
use crate::text::{chain, chain3};
use vstd::prelude::*;

verus! {

/// What the file system holds at a path.
#[derive(Debug, Clone, Copy, PartialEq, Eq, Structural)]
pub enum PathKind {
    /// Nothing.
    Missing,
    /// A regular file.
    File,
    /// A directory.
    Directory,
    /// Something else.
    Other,
}

/// What is left to do for a directory that must exist.
#[derive(Debug, Clone, Copy, PartialEq, Eq, Structural)]
pub enum DirectoryAction {
    /// It is there.
    Keep,
    /// Create it, with the directories above it.
    Create,
}

/// Whether `r` refuses `path` with `reason` put before the quoted path.
pub open spec fn is_refusal(r: BigError, reason: Seq<char>, path: Seq<char>) -> bool {
    r matches BigError::ValidationError(d) && d@ == reason + quoted_path(path)
}

/// Accepts `path` where a regular file stands.
pub fn validate_file_exists(path: &str, kind: PathKind) -> (r: Result<()>)
    ensures
        match kind {
            PathKind::File => r is Ok,
            PathKind::Missing => r matches Err(BigError::PathNotFoundError(p)) && p@ == path@,
            _ => r matches Err(e) && is_refusal(e, "Path is not a file: "@, path@),
        },
{
    match kind {
        PathKind::Missing => Err(BigError::PathNotFoundError(path.to_owned())),
        PathKind::File => Ok(()),
        _ => Err(
            BigError::ValidationError(chain("Path is not a file: ", quoted(path).as_str())),
        ),
    }
}

/// Accepts `path` where a directory stands.
pub fn validate_directory_exists(path: &str, kind: PathKind) -> (r: Result<()>)
    ensures
        match kind {
            PathKind::Directory => r is Ok,
            PathKind::Missing => r matches Err(BigError::PathNotFoundError(p)) && p@ == path@,
            _ => r matches Err(e) && is_refusal(e, "Path is not a directory: "@, path@),
        },
{
    match kind {
        PathKind::Missing => Err(BigError::PathNotFoundError(path.to_owned())),
        PathKind::Directory => Ok(()),
        _ => Err(
            BigError::ValidationError(chain("Path is not a directory: ", quoted(path).as_str())),
        ),
    }
}

/// Decides what a directory that must exist needs: nothing where it
/// stands, creation where nothing stands; anything else in its place is
/// refused.
pub fn ensure_directory_exists(path: &str, kind: PathKind) -> (r: Result<DirectoryAction>)
    ensures
        match kind {
            PathKind::Directory => r == Ok::<DirectoryAction, BigError>(DirectoryAction::Keep),
            PathKind::Missing => r == Ok::<DirectoryAction, BigError>(DirectoryAction::Create),
            _ => r matches Err(e) && is_refusal(
                e,
                "Path exists but is not a directory: "@,
                path@,
            ),
        },
{
    match kind {
        PathKind::Missing => Ok(DirectoryAction::Create),
        PathKind::Directory => Ok(DirectoryAction::Keep),
        _ => Err(
            BigError::ValidationError(
                chain("Path exists but is not a directory: ", quoted(path).as_str()),
            ),
        ),
    }
}

/// Decides what the directory that holds `file_path` needs. `parent_kind`
/// is what stands at that directory. The result names the directory to
/// create, if any; a path without a parent needs nothing.
pub fn ensure_parent_directory_exists(file_path: &str, parent_kind: PathKind) -> (r: Result<
    Option<String>,
>)
    ensures
        match parent_of(file_path@) {
            None => r matches Ok(None),
            Some(dir) => match parent_kind {
                PathKind::Directory => r matches Ok(None),
                PathKind::Missing => r matches Ok(Some(d)) && d@ == dir,
                _ => r matches Err(e) && is_refusal(
                    e,
                    "Path exists but is not a directory: "@,
                    dir,
                ),
            },
        },
{
    match parent(file_path) {
        None => Ok(None),
        Some(dir) => match ensure_directory_exists(dir.as_str(), parent_kind) {
            Err(e) => Err(e),
            Ok(DirectoryAction::Keep) => Ok(None),
            Ok(DirectoryAction::Create) => Ok(Some(dir)),
        },
    }
}

/// The name of the file that is created, and removed again, to find out
/// whether a directory can be written to. `id` makes the name unique.
pub fn write_probe_name(id: &str) -> (r: String)
    ensures
        r@ == "test_write_"@ + id@ + ".tmp"@,
{
    chain3("test_write_", id, ".tmp")
}

/// The refusal of a directory in which no file could be created; `cause`
/// describes why.
pub fn not_writable(path: &str, cause: &str) -> (e: BigError)
    ensures
        e matches BigError::ValidationError(d) && d@ == "Directory is not writable: "@
            + quoted_path(path@) + " - "@ + cause@,
{
    let shown = quoted(path);
    let head = chain3("Directory is not writable: ", shown.as_str(), " - ");
    BigError::ValidationError(chain(head.as_str(), cause))
}

/// The refusal of a path that has no canonical form; `cause` describes why.
pub fn no_absolute_path(path: &str, cause: &str) -> (e: BigError)
    ensures
        e matches BigError::ValidationError(d) && d@ == "Failed to get absolute path for "@
            + quoted_path(path@) + ": "@ + cause@,
{
    let shown = quoted(path);
    let head = chain3("Failed to get absolute path for ", shown.as_str(), ": ");
    BigError::ValidationError(chain(head.as_str(), cause))
}

} // verus!
