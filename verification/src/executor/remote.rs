//! Bringing the remote space in line with a disk event: a file deleted,
//! created, modified or renamed on disk.

use vstd::prelude::*;
use crate::types::{ContentId, ContentType, DiskTimestamp, RelativeFilePath, RevisionId};
use crate::content::{Content, joined_names};
use crate::state::{MemoryState, StateError, StateModification, content_path, lookup, search_path};
use crate::sync::remote::{RemoteContent, content_of};
use crate::event::{Event, EventView, RemoteEvent, event_views, push_remote};
use crate::path::{join, spec_join, file_name, spec_file_name, parent, spec_parent};
use crate::text::str_eq;
use super::{ExecutorError, TracimError, fillable, is_fillable, known_content_id};

verus! {

/// The content the state knows at `path`, if any: see [`search_path`].
pub open spec fn content_at(state: MemoryState, path: Seq<char>) -> Result<Option<ContentId>, StateError> {
    search_path(state.entries(), state.entries(), path)
}

/// Trashes on the remote side a content deleted from disk.
#[derive(Debug)]
pub struct AbsentFromRemoteExecutor {
    pub db_path: RelativeFilePath,
}

/// What comes after asking the remote space about a content to trash.
#[derive(Debug)]
pub enum AbsentFromRemoteStep {
    /// Trash it; whether the remote space already marks it deleted.
    Trash(bool),
    /// Nothing more to do on the remote side.
    Done(Vec<StateModification>),
    /// The work stops.
    Failed(ExecutorError),
}

impl AbsentFromRemoteExecutor {
    /// Trashing of the content known at `db_path`.
    pub fn new(db_path: RelativeFilePath) -> (r: AbsentFromRemoteExecutor)
        ensures
            r.db_path == db_path,
    {
        AbsentFromRemoteExecutor { db_path }
    }

    /// The content known at the path, if any.
    pub fn content_id(&self, state: &MemoryState) -> (r: Result<Option<ContentId>, StateError>)
        ensures
            r == content_at(*state, self.db_path@),
    {
        state.content_id_for_path(&self.db_path)
    }

    /// The content to trash: one must be known at the path.
    pub fn prepare(&self, state: &MemoryState) -> (r: Result<ContentId, ExecutorError>)
        ensures
            content_at(*state, self.db_path@) matches Ok(Some(id)) ==> (r matches Ok(i) && i == id),
            content_at(*state, self.db_path@) matches Ok(None) ==> (r matches Err(
                ExecutorError::UnknownPath(p),
            ) && p@ == self.db_path@),
            content_at(*state, self.db_path@) matches Err(e) ==> (r matches Err(ExecutorError::State(x))
                && x == e),
    {
        let content_id = known_content_id(state, &self.db_path)?;
        match state.get(content_id) {
            Ok(_) => Ok(content_id),
            Err(e) => Err(ExecutorError::State(e)),
        }
    }

    /// What the remote space said of the content (whether it marks it
    /// deleted): a content it does not have is simply forgotten.
    pub fn on_remote_fetched(&self, content_id: ContentId, fetched: Result<bool, TracimError>) -> (r:
        AbsentFromRemoteStep)
        ensures
            fetched matches Ok(deleted) ==> r == AbsentFromRemoteStep::Trash(deleted),
            fetched matches Err(TracimError::ContentNotFound) ==> (r matches AbsentFromRemoteStep::Done(
                m,
            ) && m@.len() == 1 && m@[0] == StateModification::Forgot(content_id)),
            fetched matches Err(e) ==> !(e is ContentNotFound) ==> r == AbsentFromRemoteStep::Failed(
                ExecutorError::Tracim(e),
            ),
    {
        match fetched {
            Ok(deleted) => AbsentFromRemoteStep::Trash(deleted),
            Err(TracimError::ContentNotFound) => AbsentFromRemoteStep::Done(
                vec![StateModification::Forgot(content_id)],
            ),
            Err(e) => AbsentFromRemoteStep::Failed(ExecutorError::Tracim(e)),
        }
    }

    /// Once trashed: the remote deletion is to be ignored unless the remote
    /// space already marked the content deleted, and the state forgets it.
    pub fn on_trashed(
        &self,
        content_id: ContentId,
        already_deleted: bool,
        trashed: Result<(), TracimError>,
        ignore_events: &mut Vec<Event>,
    ) -> (r: Result<Vec<StateModification>, ExecutorError>)
        ensures
            trashed matches Err(e) ==> (r matches Err(ExecutorError::Tracim(x)) && x == e
                && final(ignore_events)@ == old(ignore_events)@),
            trashed is Ok ==> (r matches Ok(m) && m@.len() == 1 && m@[0] == StateModification::Forgot(
                content_id,
            )),
            trashed is Ok && !already_deleted ==> event_views(final(ignore_events)@) == event_views(
                old(ignore_events)@,
            ).push(EventView::Remote(RemoteEvent::Deleted(content_id))),
            trashed is Ok && already_deleted ==> final(ignore_events)@ == old(ignore_events)@,
    {
        match trashed {
            Err(e) => Err(ExecutorError::Tracim(e)),
            Ok(()) => {
                if !already_deleted {
                    push_remote(ignore_events, RemoteEvent::Deleted(content_id));
                }
                Ok(vec![StateModification::Forgot(content_id)])
            },
        }
    }
}

/// Creates on the remote side a file or folder created on disk.
#[derive(Debug)]
pub struct CreatedOnRemoteExecutor {
    pub workspace_folder: String,
    pub path: RelativeFilePath,
    pub avoid_same_sums: bool,
}

/// What creating a content on the remote side takes.
#[derive(Debug)]
pub struct CreatedOnRemoteRun {
    /// Path of the file, relative to the synchronised folder.
    pub path: RelativeFilePath,
    /// Path of the file on disk.
    pub absolute_path: String,
    /// Name of the content to create.
    pub file_name: String,
    /// Parent of the content to create, none at the root.
    pub parent: Option<ContentId>,
    /// Type of the content to create.
    pub content_type: ContentType,
}

/// What comes next while creating a content on the remote side.
#[derive(Debug)]
pub enum CreateStep {
    /// Look for the content that already has this name under this parent.
    FindExisting,
    /// Fetch the remote data of the content and tell whether it is the same
    /// as the file on disk.
    CompareFile(ContentId),
    /// Fetch the remote document and compare it with the file on disk.
    CompareDocument(ContentId),
    /// Send the file on disk as the data of the content.
    Fill(ContentId),
    /// Fetch the content and the disk timestamp of the file.
    Fetch(ContentId),
    /// The work stops.
    Failed(ExecutorError),
}

/// What follows once the content exists remotely (`previously_exist`: it was
/// there before): data is sent to a new content, compared for an existing
/// one, and folders carry none.
pub open spec fn after_known(content_type: ContentType, id: ContentId, previously_exist: bool) -> CreateStep {
    if !fillable(content_type) {
        CreateStep::Fetch(id)
    } else if !previously_exist {
        CreateStep::Fill(id)
    } else {
        match content_type {
            ContentType::File => CreateStep::CompareFile(id),
            ContentType::HtmlDocument => CreateStep::CompareDocument(id),
            ContentType::Folder => CreateStep::Fetch(id),
        }
    }
}

impl CreatedOnRemoteExecutor {
    /// Creation of the content found on disk at `path`.
    pub fn new(workspace_folder: String, path: RelativeFilePath) -> (r: CreatedOnRemoteExecutor)
        ensures
            r.workspace_folder == workspace_folder,
            r.path == path,
            !r.avoid_same_sums,
    {
        CreatedOnRemoteExecutor { workspace_folder, path, avoid_same_sums: false }
    }

    /// The same executor, with `avoid_same_sums` set to `value`.
    pub fn avoid_same_sums(self, value: bool) -> (r: CreatedOnRemoteExecutor)
        ensures
            r.workspace_folder == self.workspace_folder,
            r.path == self.path,
            r.avoid_same_sums == value,
    {
        CreatedOnRemoteExecutor { avoid_same_sums: value, ..self }
    }

    /// Path of the file on disk.
    pub fn absolute_path(&self) -> (r: String)
        ensures
            r@ == spec_join(self.workspace_folder@, self.path@),
    {
        join(self.workspace_folder.as_str(), self.path.as_str())
    }

    /// Name of the file: the path must have one.
    pub fn file_name(&self) -> (r: Result<String, ExecutorError>)
        ensures
            spec_file_name(self.path@) matches Some(n) ==> (r matches Ok(x) && x@ == n),
            spec_file_name(self.path@) is None ==> (r matches Err(ExecutorError::NoFileName(p)) && p@
                == self.path@),
    {
        match file_name(self.path.as_str()) {
            Some(name) => Ok(name),
            None => Err(ExecutorError::NoFileName(self.path.clone())),
        }
    }

    /// The content known at the parent path, if the path has a parent.
    pub fn parent(&self, state: &MemoryState) -> (r: Result<Option<ContentId>, ExecutorError>)
        ensures
            spec_parent(self.path@) is None ==> r == Ok::<Option<ContentId>, ExecutorError>(None),
            spec_parent(self.path@) matches Some(pp) ==> match content_at(*state, pp) {
                Ok(found) => r == Ok::<Option<ContentId>, ExecutorError>(found),
                Err(e) => r == Err::<Option<ContentId>, ExecutorError>(ExecutorError::State(e)),
            },
    {
        match parent(self.path.as_str()) {
            Some(parent_path) => match state.content_id_for_path(&parent_path) {
                Ok(found) => Ok(found),
                Err(e) => Err(ExecutorError::State(e)),
            },
            None => Ok(None),
        }
    }

    /// Name, parent and place of the content to create; its type is what the
    /// disk says of the file.
    pub fn prepare(&self, state: &MemoryState, content_type: ContentType) -> (r: Result<
        CreatedOnRemoteRun,
        ExecutorError,
    >)
        ensures
            r matches Ok(run) ==> {
                &&& run.path == self.path
                &&& run.absolute_path@ == spec_join(self.workspace_folder@, self.path@)
                &&& spec_file_name(self.path@) == Some(run.file_name@)
                &&& (spec_parent(self.path@) matches Some(pp) ==> content_at(*state, pp)
                    == Ok::<Option<ContentId>, StateError>(run.parent))
                &&& (spec_parent(self.path@) is None ==> run.parent is None)
                &&& run.content_type == content_type
            },
            spec_file_name(self.path@) is None ==> (r matches Err(ExecutorError::NoFileName(p)) && p@
                == self.path@),
            spec_file_name(self.path@) is Some ==> (spec_parent(self.path@) matches Some(pp) ==> (content_at(
                *state,
                pp,
            ) matches Err(e) ==> r == Err::<CreatedOnRemoteRun, ExecutorError>(ExecutorError::State(e)))),
            spec_file_name(self.path@) is Some && (spec_parent(self.path@) matches Some(pp) ==> content_at(
                *state,
                pp,
            ) is Ok) ==> r is Ok,
    {
        let absolute_path = self.absolute_path();
        let file_name = self.file_name()?;
        let parent = self.parent(state)?;
        Ok(CreatedOnRemoteRun {
            path: self.path.clone(),
            absolute_path,
            file_name,
            parent,
            content_type,
        })
    }
}

/// Whether a disk document differs from the remote one (a remote document
/// without raw content differs from any file).
pub fn document_differs(local: &String, remote: &Option<String>) -> (r: bool)
    ensures
        r == !(remote matches Some(x) && x@ == local@),
{
    match remote {
        Some(x) => !str_eq(x.as_str(), local.as_str()),
        None => true,
    }
}

impl CreatedOnRemoteRun {
    /// What follows once the content exists remotely: see [`after_known`].
    pub fn after_known(&self, id: ContentId, previously_exist: bool) -> (r: CreateStep)
        ensures
            r == after_known(self.content_type, id, previously_exist),
    {
        if !is_fillable(self.content_type) {
            CreateStep::Fetch(id)
        } else if !previously_exist {
            CreateStep::Fill(id)
        } else {
            match self.content_type {
                ContentType::File => CreateStep::CompareFile(id),
                ContentType::HtmlDocument => CreateStep::CompareDocument(id),
                ContentType::Folder => CreateStep::Fetch(id),
            }
        }
    }

    /// The answer to the creation: a new content's creation is to be ignored
    /// when it comes back; an existing one is looked for.
    pub fn on_created(&self, created: Result<ContentId, TracimError>, ignore_events: &mut Vec<Event>) -> (r:
        CreateStep)
        ensures
            created matches Ok(id) ==> r == after_known(self.content_type, id, false) && event_views(
                final(ignore_events)@,
            ) == event_views(old(ignore_events)@).push(EventView::Remote(RemoteEvent::Created(id))),
            created matches Err(TracimError::ContentAlreadyExist) ==> r == CreateStep::FindExisting
                && final(ignore_events)@ == old(ignore_events)@,
            created matches Err(e) ==> !(e is ContentAlreadyExist) ==> r == CreateStep::Failed(
                ExecutorError::Tracim(e),
            ) && final(ignore_events)@ == old(ignore_events)@,
    {
        match created {
            Ok(id) => {
                push_remote(ignore_events, RemoteEvent::Created(id));
                self.after_known(id, false)
            },
            Err(TracimError::ContentAlreadyExist) => CreateStep::FindExisting,
            Err(e) => CreateStep::Failed(ExecutorError::Tracim(e)),
        }
    }

    /// The answer to the search for the existing content: it must be found.
    pub fn on_found(&self, found: Result<Option<ContentId>, TracimError>) -> (r: CreateStep)
        ensures
            found matches Ok(Some(id)) ==> r == after_known(self.content_type, id, true),
            found matches Ok(None) ==> (r matches CreateStep::Failed(
                ExecutorError::MissingExistingContent(n),
            ) && n@ == self.file_name@),
            found matches Err(e) ==> r == CreateStep::Failed(ExecutorError::Tracim(e)),
    {
        match found {
            Ok(Some(id)) => self.after_known(id, true),
            Ok(None) => CreateStep::Failed(ExecutorError::MissingExistingContent(self.file_name.clone())),
            Err(e) => CreateStep::Failed(ExecutorError::Tracim(e)),
        }
    }

    /// The outcome of the comparison: different data is sent.
    pub fn on_compared(&self, id: ContentId, same: bool) -> (r: CreateStep)
        ensures
            same ==> r == CreateStep::Fetch(id),
            !same ==> r == CreateStep::Fill(id),
    {
        if same {
            CreateStep::Fetch(id)
        } else {
            CreateStep::Fill(id)
        }
    }

    /// Once the data is sent: the remote update is to be ignored.
    pub fn on_filled(&self, id: ContentId, filled: Result<(), TracimError>, ignore_events: &mut Vec<Event>) -> (r:
        CreateStep)
        ensures
            filled is Ok ==> r == CreateStep::Fetch(id) && event_views(final(ignore_events)@)
                == event_views(old(ignore_events)@).push(EventView::Remote(RemoteEvent::Updated(id))),
            filled matches Err(e) ==> r == CreateStep::Failed(ExecutorError::Tracim(e)) && final(ignore_events)@ == old(ignore_events)@,
    {
        match filled {
            Ok(()) => {
                push_remote(ignore_events, RemoteEvent::Updated(id));
                CreateStep::Fetch(id)
            },
            Err(e) => CreateStep::Failed(ExecutorError::Tracim(e)),
        }
    }

    /// The state learns the created content, at the file's path, with its
    /// disk timestamp.
    pub fn finish(self, remote: &RemoteContent, timestamp: DiskTimestamp) -> (r: Result<
        Vec<StateModification>,
        ExecutorError,
    >)
        ensures
            content_of(*remote) matches Err(e) ==> r == Err::<Vec<StateModification>, ExecutorError>(
                ExecutorError::Sync(e),
            ),
            content_of(*remote) matches Ok(c) ==> (r matches Ok(m) && m@.len() == 1 && (m@[0] matches StateModification::Add(
                x,
                p,
                t,
            ) && x@ == c && p@ == self.path@ && t == timestamp)),
    {
        match Content::from_remote(remote) {
            Ok(content) => Ok(vec![StateModification::Add(content, self.path, timestamp)]),
            Err(e) => Err(ExecutorError::Sync(e)),
        }
    }
}

/// Sends to the remote side a file modified on disk.
#[derive(Debug)]
pub struct ModifiedOnRemoteExecutor {
    pub workspace_folder: String,
    pub db_path: RelativeFilePath,
    pub disk_path: RelativeFilePath,
}

/// What sending a modified file takes.
#[derive(Debug)]
pub struct ModifiedOnRemoteRun {
    pub content_id: ContentId,
    pub content_type: ContentType,
    /// Where the file is on disk.
    pub absolute_path: String,
}

/// What comes next while sending a modified file.
#[derive(Debug, PartialEq, Eq)]
pub enum ModifyStep {
    /// Send the file as the data of the content.
    Fill,
    /// Restore the content, deleted or archived remotely.
    Restore,
    /// Send the file again, after the restoration.
    FillAgain,
    /// Fetch the content and the disk timestamp of the file.
    Fetch,
}

impl ModifiedOnRemoteExecutor {
    /// Sending of the file known at `db_path` and found on disk at `disk_path`.
    pub fn new(workspace_folder: String, db_path: RelativeFilePath, disk_path: RelativeFilePath) -> (r:
        ModifiedOnRemoteExecutor)
        ensures
            r.workspace_folder == workspace_folder,
            r.db_path == db_path,
            r.disk_path == disk_path,
    {
        ModifiedOnRemoteExecutor { workspace_folder, db_path, disk_path }
    }

    /// The content known at the path, if any.
    pub fn content_id(&self, state: &MemoryState) -> (r: Result<Option<ContentId>, StateError>)
        ensures
            r == content_at(*state, self.db_path@),
    {
        state.content_id_for_path(&self.db_path)
    }

    /// The content, its type and its place on disk: it must be known.
    pub fn prepare(&self, state: &MemoryState) -> (r: Result<ModifiedOnRemoteRun, ExecutorError>)
        ensures
            r matches Ok(run) ==> {
                &&& content_at(*state, self.db_path@) == Ok::<Option<ContentId>, StateError>(
                    Some(run.content_id),
                )
                &&& content_path(state.entries(), run.content_id) matches Ok(parts)
                    && run.absolute_path@ == spec_join(self.workspace_folder@, joined_names(parts))
                &&& lookup(state.entries(), run.content_id) matches Some(c) && c.type_ == run.content_type
            },
            content_at(*state, self.db_path@) matches Ok(None) ==> (r matches Err(
                ExecutorError::UnknownPath(p),
            ) && p@ == self.db_path@),
            content_at(*state, self.db_path@) matches Err(e) ==> (r matches Err(ExecutorError::State(x))
                && x == e),
            content_at(*state, self.db_path@) matches Ok(Some(id)) ==> match content_path(
                state.entries(),
                id,
            ) {
                Ok(_) => r is Ok,
                Err(x) => r == Err::<ModifiedOnRemoteRun, ExecutorError>(ExecutorError::State(x)),
            },
    {
        let content_id = known_content_id(state, &self.db_path)?;
        let parts = match state.path(content_id) {
            Ok(parts) => parts,
            Err(e) => return Err(ExecutorError::State(e)),
        };
        let absolute_path = join(self.workspace_folder.as_str(), parts.to_path_buf().as_str());
        let content = match state.get(content_id) {
            Ok(Some(content)) => content,
            Ok(None) => return Err(ExecutorError::UnknownContent(content_id)),
            Err(e) => return Err(ExecutorError::State(e)),
        };
        proof {
            crate::state::law_path_runs_from_root(state.entries(), content_id);
        }
        Ok(ModifiedOnRemoteRun { content_id, content_type: content.type_(), absolute_path })
    }
}

impl ModifiedOnRemoteRun {
    /// The first step: folders carry no data.
    pub fn start(&self) -> (r: ModifyStep)
        ensures
            fillable(self.content_type) ==> r == ModifyStep::Fill,
            !fillable(self.content_type) ==> r == ModifyStep::Fetch,
    {
        if is_fillable(self.content_type) {
            ModifyStep::Fill
        } else {
            ModifyStep::Fetch
        }
    }

    /// Once the data is sent: the remote update is to be ignored; a content
    /// deleted or archived remotely is restored; any other failure is let go.
    pub fn on_filled(&self, filled: Result<(), TracimError>, ignore_events: &mut Vec<Event>) -> (r: ModifyStep)
        ensures
            filled is Ok ==> r == ModifyStep::Fetch && event_views(final(ignore_events)@) == event_views(
                old(ignore_events)@,
            ).push(EventView::Remote(RemoteEvent::Updated(self.content_id))),
            filled matches Err(TracimError::ContentDeletedOrArchived) ==> r == ModifyStep::Restore
                && final(ignore_events)@ == old(ignore_events)@,
            filled matches Err(e) ==> !(e is ContentDeletedOrArchived) ==> r == ModifyStep::Fetch
                && final(ignore_events)@ == old(ignore_events)@,
    {
        match filled {
            Ok(()) => {
                push_remote(ignore_events, RemoteEvent::Updated(self.content_id));
                ModifyStep::Fetch
            },
            Err(TracimError::ContentDeletedOrArchived) => ModifyStep::Restore,
            Err(_) => ModifyStep::Fetch,
        }
    }

    /// Once restored: the remote creation is to be ignored, and the data is
    /// sent again.
    pub fn on_restored(&self, restored: Result<(), TracimError>, ignore_events: &mut Vec<Event>) -> (r: Result<
        ModifyStep,
        ExecutorError,
    >)
        ensures
            restored is Ok ==> r == Ok::<ModifyStep, ExecutorError>(ModifyStep::FillAgain) && event_views(
                final(ignore_events)@,
            ) == event_views(old(ignore_events)@).push(
                EventView::Remote(RemoteEvent::Created(self.content_id)),
            ),
            restored matches Err(e) ==> r == Err::<ModifyStep, ExecutorError>(ExecutorError::Tracim(e))
                && final(ignore_events)@ == old(ignore_events)@,
    {
        match restored {
            Ok(()) => {
                push_remote(ignore_events, RemoteEvent::Created(self.content_id));
                Ok(ModifyStep::FillAgain)
            },
            Err(e) => Err(ExecutorError::Tracim(e)),
        }
    }

    /// Once the data is sent again: the remote update is to be ignored.
    pub fn on_filled_again(&self, filled: Result<(), TracimError>, ignore_events: &mut Vec<Event>) -> (r: Result<
        ModifyStep,
        ExecutorError,
    >)
        ensures
            filled is Ok ==> r == Ok::<ModifyStep, ExecutorError>(ModifyStep::Fetch) && event_views(
                final(ignore_events)@,
            ) == event_views(old(ignore_events)@).push(
                EventView::Remote(RemoteEvent::Updated(self.content_id)),
            ),
            filled matches Err(e) ==> r == Err::<ModifyStep, ExecutorError>(ExecutorError::Tracim(e))
                && final(ignore_events)@ == old(ignore_events)@,
    {
        match filled {
            Ok(()) => {
                push_remote(ignore_events, RemoteEvent::Updated(self.content_id));
                Ok(ModifyStep::Fetch)
            },
            Err(e) => Err(ExecutorError::Tracim(e)),
        }
    }

    /// The state learns the content's name, revision and parent as the remote
    /// space now has them, with the disk timestamp.
    pub fn finish(&self, remote: &RemoteContent, timestamp: DiskTimestamp) -> (r: Result<
        Vec<StateModification>,
        ExecutorError,
    >)
        ensures
            content_of(*remote) matches Err(e) ==> r == Err::<Vec<StateModification>, ExecutorError>(
                ExecutorError::Sync(e),
            ),
            content_of(*remote) matches Ok(c) ==> (r matches Ok(m) && m@.len() == 1 && (m@[0] matches StateModification::Update(
                id,
                name,
                revision,
                parent,
                t,
            ) && id == c.id && name@ == c.file_name && revision == c.revision_id && parent == c.parent_id
                && t == timestamp)),
    {
        match Content::from_remote(remote) {
            Ok(content) => Ok(
                vec![
                    StateModification::Update(
                        content.id(),
                        content.file_name().clone(),
                        content.revision_id(),
                        content.parent_id(),
                        timestamp,
                    ),
                ],
            ),
            Err(e) => Err(ExecutorError::Sync(e)),
        }
    }
}

/// Renames or moves on the remote side a file renamed or moved on disk.
#[derive(Debug)]
pub struct NamedOnRemoteExecutor {
    pub workspace_folder: String,
    pub previous_db_path: RelativeFilePath,
    pub after_disk_path: RelativeFilePath,
}

/// What renaming or moving a content takes.
#[derive(Debug)]
pub struct NamedOnRemoteRun {
    pub content_id: ContentId,
    pub before_absolute_path: String,
    pub after_absolute_path: String,
    pub before_file_name: String,
    pub after_file_name: String,
    pub after_parent: Option<ContentId>,
    /// The revision the content has, updated as the remote space answers.
    pub revision_id: RevisionId,
}

impl NamedOnRemoteExecutor {
    /// Renaming of the content known at `previous_db_path`, now on disk at
    /// `after_disk_path`.
    pub fn new(workspace_folder: String, previous_db_path: RelativeFilePath, after_disk_path: RelativeFilePath) -> (r:
        NamedOnRemoteExecutor)
        ensures
            r.workspace_folder == workspace_folder,
            r.previous_db_path == previous_db_path,
            r.after_disk_path == after_disk_path,
    {
        NamedOnRemoteExecutor { workspace_folder, previous_db_path, after_disk_path }
    }

    /// The content known at the previous path, if any.
    pub fn content_id(&self, state: &MemoryState) -> (r: Result<Option<ContentId>, StateError>)
        ensures
            r == content_at(*state, self.previous_db_path@),
    {
        state.content_id_for_path(&self.previous_db_path)
    }

    /// Where the file is on disk after the rename.
    pub fn after_absolute_path(&self) -> (r: Result<String, ExecutorError>)
        ensures
            r matches Ok(p) && p@ == spec_join(self.workspace_folder@, self.after_disk_path@),
    {
        Ok(join(self.workspace_folder.as_str(), self.after_disk_path.as_str()))
    }

    /// The new name: that of the file on disk after the rename.
    pub fn after_file_name(&self) -> (r: Result<String, ExecutorError>)
        ensures
            spec_file_name(spec_join(self.workspace_folder@, self.after_disk_path@)) matches Some(n) ==> (r
                matches Ok(x) && x@ == n),
            spec_file_name(spec_join(self.workspace_folder@, self.after_disk_path@)) is None ==> (r
                matches Err(ExecutorError::NoFileName(p)) && p@ == spec_join(
                self.workspace_folder@,
                self.after_disk_path@,
            )),
    {
        let after_absolute_path = join(self.workspace_folder.as_str(), self.after_disk_path.as_str());
        match file_name(after_absolute_path.as_str()) {
            Some(name) => Ok(name),
            None => Err(ExecutorError::NoFileName(after_absolute_path)),
        }
    }

    /// The new parent: the content known at the parent of the new path, if
    /// the new path has a parent.
    pub fn after_parent(&self, state: &MemoryState) -> (r: Result<Option<ContentId>, ExecutorError>)
        ensures
            spec_parent(self.after_disk_path@) is None ==> r == Ok::<Option<ContentId>, ExecutorError>(
                None,
            ),
            spec_parent(self.after_disk_path@) matches Some(pp) ==> match content_at(*state, pp) {
                Ok(found) => r == Ok::<Option<ContentId>, ExecutorError>(found),
                Err(e) => r == Err::<Option<ContentId>, ExecutorError>(ExecutorError::State(e)),
            },
    {
        match parent(self.after_disk_path.as_str()) {
            Some(parent_path) => match state.content_id_for_path(&parent_path) {
                Ok(found) => Ok(found),
                Err(e) => Err(ExecutorError::State(e)),
            },
            None => Ok(None),
        }
    }

    /// What the state knows of the content before the rename, and where it
    /// goes: the content must be known at the previous path.
    pub fn prepare(&self, state: &MemoryState) -> (r: Result<NamedOnRemoteRun, ExecutorError>)
        ensures
            r matches Ok(run) ==> {
                &&& content_at(*state, self.previous_db_path@) == Ok::<Option<ContentId>, StateError>(
                    Some(run.content_id),
                )
                &&& content_path(state.entries(), run.content_id) matches Ok(parts)
                    && run.before_absolute_path@ == spec_join(self.workspace_folder@, joined_names(parts))
                &&& run.after_absolute_path@ == spec_join(self.workspace_folder@, self.after_disk_path@)
                &&& lookup(state.entries(), run.content_id) matches Some(c) && c.file_name
                    == run.before_file_name@ && c.revision_id == run.revision_id
                &&& spec_file_name(run.after_absolute_path@) == Some(run.after_file_name@)
                &&& (spec_parent(self.after_disk_path@) matches Some(pp) ==> content_at(*state, pp)
                    == Ok::<Option<ContentId>, StateError>(run.after_parent))
                &&& (spec_parent(self.after_disk_path@) is None ==> run.after_parent is None)
            },
            content_at(*state, self.previous_db_path@) matches Ok(None) ==> (r matches Err(
                ExecutorError::UnknownPath(p),
            ) && p@ == self.previous_db_path@),
            content_at(*state, self.previous_db_path@) matches Err(e) ==> (r matches Err(
                ExecutorError::State(x),
            ) && x == e),
            content_at(*state, self.previous_db_path@) matches Ok(Some(id)) ==> match content_path(
                state.entries(),
                id,
            ) {
                Err(x) => r == Err::<NamedOnRemoteRun, ExecutorError>(ExecutorError::State(x)),
                Ok(_) => match spec_file_name(spec_join(self.workspace_folder@, self.after_disk_path@)) {
                    None => r matches Err(ExecutorError::NoFileName(_)),
                    Some(_) => match spec_parent(self.after_disk_path@) {
                        Some(pp) => match content_at(*state, pp) {
                            Err(x) => r == Err::<NamedOnRemoteRun, ExecutorError>(ExecutorError::State(x)),
                            Ok(_) => r is Ok,
                        },
                        None => r is Ok,
                    },
                },
            },
    {
        let content_id = known_content_id(state, &self.previous_db_path)?;
        let parts = match state.path(content_id) {
            Ok(parts) => parts,
            Err(e) => return Err(ExecutorError::State(e)),
        };
        let before_absolute_path = join(self.workspace_folder.as_str(), parts.to_path_buf().as_str());
        let after_absolute_path = self.after_absolute_path()?;
        let content = match state.get(content_id) {
            Ok(Some(content)) => content,
            Ok(None) => return Err(ExecutorError::UnknownContent(content_id)),
            Err(e) => return Err(ExecutorError::State(e)),
        };
        let after_file_name = self.after_file_name()?;
        let after_parent = self.after_parent(state)?;
        proof {
            crate::state::law_path_runs_from_root(state.entries(), content_id);
        }
        Ok(NamedOnRemoteRun {
            content_id,
            before_absolute_path,
            after_absolute_path,
            before_file_name: content.file_name().clone(),
            after_file_name,
            after_parent,
            revision_id: content.revision_id(),
        })
    }
}

/// A call the remote space gets to rename or move a content.
#[derive(Debug)]
pub enum NamedCall {
    /// Give the content a new name.
    SetLabel(ContentId, ContentType, String),
    /// Put the content under a new parent.
    SetParent(ContentId, ContentType, Option<ContentId>),
}

impl NamedOnRemoteRun {
    /// Whether the name changes.
    pub fn renames(&self) -> (r: bool)
        ensures
            r == (self.before_file_name@ != self.after_file_name@),
    {
        !str_eq(self.before_file_name.as_str(), self.after_file_name.as_str())
    }

    /// Whether the parent folder on disk changes.
    pub fn moves(&self) -> (r: bool)
        ensures
            r == (spec_parent(self.after_absolute_path@) != spec_parent(self.before_absolute_path@)),
    {
        let after = parent(self.after_absolute_path.as_str());
        let before = parent(self.before_absolute_path.as_str());
        match (after, before) {
            (Some(a), Some(b)) => !str_eq(a.as_str(), b.as_str()),
            (None, None) => false,
            _ => true,
        }
    }

    /// The calls that rename and move the content on the remote side, for a
    /// content that kept its type on disk (a file that became a folder, or the
    /// reverse, is not handled): a new label when the name changes, then a new
    /// parent when the parent folder changes.
    pub fn calls(&self, before_type: ContentType, after_type: ContentType) -> (r: Vec<NamedCall>)
        requires
            before_type == after_type,
        ensures
            ({
                let renames = self.before_file_name@ != self.after_file_name@;
                let moves = spec_parent(self.after_absolute_path@) != spec_parent(self.before_absolute_path@);
                &&& r@.len() == (if renames { 1int } else { 0 }) + (if moves { 1int } else { 0 })
                &&& renames ==> (r@[0] matches NamedCall::SetLabel(id, t, name) && id == self.content_id && t
                    == after_type && name@ == self.after_file_name@)
                &&& moves ==> (r@[r@.len() - 1] matches NamedCall::SetParent(id, t, p) && id == self.content_id
                    && t == after_type && p == self.after_parent)
            }),
    {
        let mut r: Vec<NamedCall> = Vec::new();
        if self.renames() {
            r.push(NamedCall::SetLabel(self.content_id, after_type, self.after_file_name.clone()));
        }
        if self.moves() {
            r.push(NamedCall::SetParent(self.content_id, after_type, self.after_parent));
        }
        r
    }

    /// The revision the remote space gave after a rename or a move.
    pub fn on_revised(&mut self, revision_id: RevisionId)
        ensures
            final(self).revision_id == revision_id,
            final(self).content_id == old(self).content_id,
            final(self).after_file_name == old(self).after_file_name,
            final(self).after_parent == old(self).after_parent,
            final(self).before_absolute_path == old(self).before_absolute_path,
            final(self).after_absolute_path == old(self).after_absolute_path,
            final(self).before_file_name == old(self).before_file_name,
    {
        self.revision_id = revision_id;
    }

    /// The state learns the new name, the last revision and the new parent,
    /// with the disk timestamp.
    pub fn finish(self, timestamp: DiskTimestamp) -> (r: Vec<StateModification>)
        ensures
            r@.len() == 1,
            r@[0] matches StateModification::Update(id, name, revision, parent, t) && id == self.content_id
                && name@ == self.after_file_name@ && revision == self.revision_id && parent
                == self.after_parent && t == timestamp,
    {
        vec![
            StateModification::Update(
                self.content_id,
                self.after_file_name,
                self.revision_id,
                self.after_parent,
                timestamp,
            ),
        ]
    }
}

} // verus!
