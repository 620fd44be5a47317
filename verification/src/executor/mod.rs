//! Carrying out one event: what has to be asked of the remote space and of the
//! disk, which events the work will cause and must be ignored when they come
//! back, and how the state changes.
//!
//! Each executor prepares a plan from the state; the caller performs the
//! remote and disk work the plan names, hands back what came of it, and gets
//! the next step and, in the end, the state modifications.

use vstd::prelude::*;
use crate::types::{ContentId, ContentType};
use crate::state::{MemoryState, StateError, content_path};
use crate::content::joined_names;
use crate::sync::remote::SyncError;
use crate::path::{join, spec_join};

pub mod disk;
pub mod remote;

verus! {

/// Failure reported by the remote space.
#[derive(Debug)]
pub enum TracimError {
    /// A content with that name already exists under that parent.
    ContentAlreadyExist,
    /// The content is deleted or archived.
    ContentDeletedOrArchived,
    /// The content does not exist.
    ContentNotFound,
    /// Any other failure.
    Other(String),
}

/// Failure to carry out an event.
#[derive(Debug)]
pub enum ExecutorError {
    /// The state could not answer.
    State(StateError),
    /// A remote content could not be read.
    Sync(SyncError),
    /// The remote space refused.
    Tracim(TracimError),
    /// The parent (second) of a content (first) is not known.
    MissingParent(ContentId, ContentId),
    /// No known content has this path.
    UnknownPath(String),
    /// This content is not known.
    UnknownContent(ContentId),
    /// This path has no file name.
    NoFileName(String),
    /// The remote space said a content exists with this name but none was found.
    MissingExistingContent(String),
    /// Disk work failed.
    Unexpected(String),
}

/// Contents whose data can be sent or fetched: files and documents, not folders.
pub open spec fn fillable(content_type: ContentType) -> bool {
    content_type != ContentType::Folder
}

/// Whether contents of this type carry data: see [`fillable`].
pub fn is_fillable(content_type: ContentType) -> (r: bool)
    ensures
        r == fillable(content_type),
{
    match content_type {
        ContentType::Folder => false,
        _ => true,
    }
}

/// Where a content named `name` lives under `parent`: at the root, or under
/// the path of its parent.
pub open spec fn location(
    entries: Seq<crate::content::ContentView>,
    parent: Option<ContentId>,
    name: Seq<char>,
) -> Result<Seq<char>, StateError> {
    match parent {
        None => Ok(name),
        Some(p) => match content_path(entries, p) {
            Ok(parts) => Ok(spec_join(joined_names(parts), name)),
            Err(e) => Err(e),
        },
    }
}

/// Where a content named `name` lives under `parent`: see [`location`].
pub fn content_location(state: &MemoryState, parent: Option<ContentId>, name: &str) -> (r: Result<
    String,
    StateError,
>)
    ensures
        r matches Ok(p) ==> location(state.entries(), parent, name@) == Ok::<Seq<char>, StateError>(
            p@,
        ),
        r matches Err(e) ==> location(state.entries(), parent, name@) == Err::<Seq<char>, StateError>(
            e,
        ),
{
    match parent {
        None => Ok(name.to_string()),
        Some(p) => {
            let found = state.path(p);
            match found {
                Ok(parts) => {
                    let base = parts.to_path_buf();
                    Ok(join(base.as_str(), name))
                },
                Err(e) => Err(e),
            }
        },
    }
}

/// The content at `path`, which must be known.
pub fn known_content_id(state: &MemoryState, path: &String) -> (r: Result<ContentId, ExecutorError>)
    ensures
        crate::state::search_path(state.entries(), state.entries(), path@) matches Ok(Some(id)) ==> (r
            matches Ok(i) && i == id),
        crate::state::search_path(state.entries(), state.entries(), path@) matches Ok(None) ==> (r
            matches Err(ExecutorError::UnknownPath(p)) && p@ == path@),
        crate::state::search_path(state.entries(), state.entries(), path@) matches Err(e) ==> (r
            matches Err(ExecutorError::State(x)) && x == e),
{
    match state.content_id_for_path(path) {
        Ok(Some(id)) => Ok(id),
        Ok(None) => Err(ExecutorError::UnknownPath(path.clone())),
        Err(e) => Err(ExecutorError::State(e)),
    }
}

} // verus!
