//! Bringing the disk in line with a remote event: a content deleted, created,
//! or updated (renamed, moved or modified) on the remote side.

use vstd::prelude::*;
use crate::types::{ContentId, ContentType, DiskTimestamp, RelativeFilePath};
use crate::content::{Content, ContentView, joined_names};
use crate::state::{MemoryState, StateError, StateModification, content_path, lookup};
use crate::sync::remote::{RemoteContent, SyncError, content_of};
use crate::event::{Event, DiskEvent, DiskEventView, event_views, local_event, push_local};
use crate::path::{join, spec_join, parent, spec_parent, lemma_parent_shorter};
use super::{ExecutorError, content_location, location};

verus! {

/// Removes from disk a content deleted on the remote side.
#[derive(Debug)]
pub struct AbsentFromDiskExecutor {
    pub workspace_folder: String,
    pub content_id: ContentId,
}

/// What removing a content from disk takes.
#[derive(Debug)]
pub struct AbsentFromDiskPlan {
    /// Path of the content, relative to the synchronised folder.
    pub content_path: RelativeFilePath,
    /// Path of the content on disk.
    pub absolute_path: String,
    /// Whether it is a folder, removed with everything in it.
    pub is_folder: bool,
}

impl AbsentFromDiskExecutor {
    /// Removal of content `content_id` from the folder `workspace_folder`.
    pub fn new(workspace_folder: String, content_id: ContentId) -> (r: AbsentFromDiskExecutor)
        ensures
            r.workspace_folder == workspace_folder,
            r.content_id == content_id,
    {
        AbsentFromDiskExecutor { workspace_folder, content_id }
    }

    /// Where the content lives: it must be known to the state.
    pub fn prepare(&self, state: &MemoryState) -> (r: Result<AbsentFromDiskPlan, ExecutorError>)
        ensures
            lookup(state.entries(), self.content_id) is None ==> (r matches Err(
                ExecutorError::UnknownContent(id),
            ) && id == self.content_id),
            lookup(state.entries(), self.content_id) matches Some(c) ==> match content_path(
                state.entries(),
                self.content_id,
            ) {
                Ok(parts) => r matches Ok(plan) && plan.content_path@ == joined_names(parts)
                    && plan.absolute_path@ == spec_join(self.workspace_folder@, plan.content_path@)
                    && plan.is_folder == (c.type_ == ContentType::Folder),
                Err(e) => r matches Err(ExecutorError::State(x)) && x == e,
            },
    {
        let content = match state.get(self.content_id) {
            Ok(Some(content)) => content,
            Ok(None) => return Err(ExecutorError::UnknownContent(self.content_id)),
            Err(e) => return Err(ExecutorError::State(e)),
        };
        let parts = match state.path(self.content_id) {
            Ok(parts) => parts,
            Err(e) => return Err(ExecutorError::State(e)),
        };
        let content_path = parts.to_path_buf();
        let absolute_path = join(self.workspace_folder.as_str(), content_path.as_str());
        let is_folder = match content.type_() {
            ContentType::Folder => true,
            _ => false,
        };
        Ok(AbsentFromDiskPlan { content_path, absolute_path, is_folder })
    }

    /// Once it is known whether the content was on disk: its deletion there
    /// will be seen and is to be ignored, and the state forgets it.
    pub fn finish(&self, plan: &AbsentFromDiskPlan, existed: bool, ignore_events: &mut Vec<Event>) -> (r: Vec<
        StateModification,
    >)
        ensures
            existed ==> event_views(final(ignore_events)@) == event_views(old(ignore_events)@).push(
                local_event(plan.content_path@, DiskEventView::Deleted(plan.content_path@)),
            ),
            !existed ==> final(ignore_events)@ == old(ignore_events)@,
            r@.len() == 1,
            r@[0] matches StateModification::Forgot(id) && id == self.content_id,
    {
        if existed {
            push_local(ignore_events, &plan.content_path, DiskEvent::Deleted(plan.content_path.clone()));
        }
        vec![StateModification::Forgot(self.content_id)]
    }
}

/// Writes on disk a content created on the remote side.
#[derive(Debug)]
pub struct PresentOnDiskExecutor {
    pub workspace_folder: String,
    pub content_id: ContentId,
}

/// What writing a remote content on disk takes.
#[derive(Debug)]
pub struct PresentOnDiskPlan {
    /// The content as the remote space describes it.
    pub content: Content,
    /// Path of the content, relative to the synchronised folder.
    pub content_path: RelativeFilePath,
    /// Path of the content on disk.
    pub absolute_path: String,
}

/// The successive parents of a relative path, nearest first, down to the
/// empty path.
pub open spec fn ancestors_of(p: Seq<char>) -> Seq<Seq<char>>
    decreases p.len(),
{
    match spec_parent(p) {
        Some(q) => if q.len() < p.len() {
            seq![q] + ancestors_of(q)
        } else {
            seq![q]
        },
        None => Seq::empty(),
    }
}

/// The successive parents of a relative path: see [`ancestors_of`].
pub fn ancestors(p: &String) -> (r: Vec<String>)
    ensures
        r@.map_values(|s: String| s@) == ancestors_of(p@),
{
    let mut r: Vec<String> = Vec::new();
    let mut current = p.clone();
    let ghost start = p@;
    loop
        invariant
            start == p@,
            r@.map_values(|s: String| s@) + ancestors_of(current@) == ancestors_of(start),
        decreases current@.len(),
    {
        proof {
            lemma_parent_shorter(current@);
        }
        match parent(current.as_str()) {
            Some(q) => {
                let ghost before = r@.map_values(|s: String| s@);
                assert(ancestors_of(current@) == seq![q@] + ancestors_of(q@));
                r.push(q.clone());
                assert(r@.map_values(|s: String| s@) =~= before.push(q@));
                assert(before + ancestors_of(current@) =~= before.push(q@) + ancestors_of(q@));
                current = q;
            },
            None => {
                assert(ancestors_of(current@) =~= Seq::<Seq<char>>::empty());
                assert(r@.map_values(|s: String| s@) + ancestors_of(current@) =~= r@.map_values(
                    |s: String| s@,
                ));
                return r;
            },
        }
    }
}

impl PresentOnDiskExecutor {
    /// Writing content `content_id` into the folder `workspace_folder`.
    pub fn new(workspace_folder: String, content_id: ContentId) -> (r: PresentOnDiskExecutor)
        ensures
            r.workspace_folder == workspace_folder,
            r.content_id == content_id,
    {
        PresentOnDiskExecutor { workspace_folder, content_id }
    }

    /// Where the remote content goes: under the path of its parent, which
    /// must be known.
    pub fn prepare(&self, state: &MemoryState, remote: &RemoteContent) -> (r: Result<
        PresentOnDiskPlan,
        ExecutorError,
    >)
        ensures
            content_of(*remote) matches Err(e) ==> (r matches Err(ExecutorError::Sync(x)) && x == e),
            content_of(*remote) matches Ok(c) ==> match location(
                state.entries(),
                c.parent_id,
                c.file_name,
            ) {
                Ok(p) => r matches Ok(plan) && plan.content@ == c && plan.content_path@ == p
                    && plan.absolute_path@ == spec_join(self.workspace_folder@, p),
                Err(StateError::UnknownContent(_)) => r matches Err(
                    ExecutorError::MissingParent(a, b),
                ) && a == self.content_id && Some(b) == c.parent_id,
                Err(e) => r matches Err(ExecutorError::State(x)) && x == e,
            },
    {
        let content = match Content::from_remote(remote) {
            Ok(content) => content,
            Err(e) => return Err(ExecutorError::Sync(e)),
        };
        let parent_id = content.parent_id();
        let content_path = match content_location(state, parent_id, content.file_name().as_str()) {
            Ok(p) => p,
            Err(StateError::UnknownContent(_)) => {
                return Err(ExecutorError::MissingParent(self.content_id, parent_id.unwrap()));
            },
            Err(e) => return Err(ExecutorError::State(e)),
        };
        let absolute_path = join(self.workspace_folder.as_str(), content_path.as_str());
        Ok(PresentOnDiskPlan { content, content_path, absolute_path })
    }
}

impl PresentOnDiskPlan {
    /// Once it is known whether something is already at the target: its
    /// creation will be seen and is to be ignored when nothing is there.
    pub fn on_target_checked(&self, exists: bool, ignore_events: &mut Vec<Event>)
        ensures
            !exists ==> event_views(final(ignore_events)@) == event_views(old(ignore_events)@).push(
                local_event(self.content_path@, DiskEventView::Created(self.content_path@)),
            ),
            exists ==> final(ignore_events)@ == old(ignore_events)@,
    {
        if !exists {
            push_local(ignore_events, &self.content_path, DiskEvent::Created(self.content_path.clone()));
        }
    }

    /// The parents of the folder to create, each to be checked on disk.
    pub fn ancestors(&self) -> (r: Vec<String>)
        ensures
            r@.map_values(|s: String| s@) == ancestors_of(self.content_path@),
    {
        ancestors(&self.content_path)
    }

    /// Once it is known whether a parent of the folder exists: its creation
    /// will be seen and is to be ignored when it does not.
    pub fn on_ancestor_checked(&self, ancestor: &String, exists: bool, ignore_events: &mut Vec<Event>)
        ensures
            !exists ==> event_views(final(ignore_events)@) == event_views(old(ignore_events)@).push(
                local_event(ancestor@, DiskEventView::Created(ancestor@)),
            ),
            exists ==> final(ignore_events)@ == old(ignore_events)@,
    {
        if !exists {
            push_local(ignore_events, ancestor, DiskEvent::Created(ancestor.clone()));
        }
    }

    /// The outcome of creating the folder: a failure counts only when the
    /// folder is still absent.
    pub fn on_folder_created(&self, failure: Option<String>, exists_after: bool) -> (r: Result<
        (),
        ExecutorError,
    >)
        ensures
            r is Err <==> (failure is Some && !exists_after),
            r matches Err(e) ==> (e matches ExecutorError::Unexpected(m) && failure == Some(m)),
    {
        match failure {
            Some(message) => if exists_after {
                Ok(())
            } else {
                Err(ExecutorError::Unexpected(message))
            },
            None => Ok(()),
        }
    }

    /// Once the file is created (`existed`: whether it was there before):
    /// its creation is to be ignored when it was not there.
    pub fn on_file_created(&self, existed: bool, ignore_events: &mut Vec<Event>)
        ensures
            !existed ==> event_views(final(ignore_events)@) == event_views(old(ignore_events)@).push(
                local_event(self.content_path@, DiskEventView::Created(self.content_path@)),
            ),
            existed ==> final(ignore_events)@ == old(ignore_events)@,
    {
        if !existed {
            push_local(ignore_events, &self.content_path, DiskEvent::Created(self.content_path.clone()));
        }
    }

    /// Once the file is filled with the remote data: its modification is to
    /// be ignored.
    pub fn on_filled(&self, ignore_events: &mut Vec<Event>)
        ensures
            event_views(final(ignore_events)@) == event_views(old(ignore_events)@).push(
                local_event(self.content_path@, DiskEventView::Modified(self.content_path@)),
            ),
    {
        push_local(ignore_events, &self.content_path, DiskEvent::Modified(self.content_path.clone()));
    }

    /// The state learns the content, at its path, with its disk timestamp.
    pub fn finish(self, timestamp: DiskTimestamp) -> (r: Vec<StateModification>)
        ensures
            r@.len() == 1,
            r@[0] matches StateModification::Add(c, p, t) && c@ == self.content@ && p@
                == self.content_path@ && t == timestamp,
    {
        vec![StateModification::Add(self.content, self.content_path, timestamp)]
    }
}

/// Brings on disk a content updated on the remote side: moved or renamed,
/// and its data fetched again when `download` is set.
#[derive(Debug)]
pub struct UpdatedOnDiskExecutor {
    pub workspace_folder: String,
    pub content_id: ContentId,
    pub download: bool,
}

/// What updating a content on disk takes.
#[derive(Debug)]
pub struct UpdatedOnDiskPlan {
    /// The content as the remote space describes it.
    pub content: Content,
    /// Where the state knows the content, relative to the synchronised folder.
    pub local_path: RelativeFilePath,
    /// Where the remote space puts it, relative to the synchronised folder.
    pub remote_path: RelativeFilePath,
    /// Where the content is on disk.
    pub previous_absolute_path: String,
    /// Where the content goes on disk.
    pub new_absolute_path: String,
    /// Whether it moves.
    pub moves: bool,
    /// Whether its data is fetched again.
    pub download: bool,
}

impl UpdatedOnDiskExecutor {
    /// Update of content `content_id` in the folder `workspace_folder`.
    pub fn new(workspace_folder: String, content_id: ContentId, download: bool) -> (r: UpdatedOnDiskExecutor)
        ensures
            r.workspace_folder == workspace_folder,
            r.content_id == content_id,
            r.download == download,
    {
        UpdatedOnDiskExecutor { workspace_folder, content_id, download }
    }

    /// Where the content is and where the remote space puts it.
    pub fn prepare(&self, state: &MemoryState, remote: &RemoteContent) -> (r: Result<
        UpdatedOnDiskPlan,
        ExecutorError,
    >)
        ensures
            r matches Ok(plan) ==> {
                &&& content_path(state.entries(), self.content_id) matches Ok(parts)
                    && plan.local_path@ == joined_names(parts)
                &&& content_of(*remote) == Ok::<ContentView, SyncError>(plan.content@)
                &&& location(state.entries(), plan.content@.parent_id, plan.content@.file_name)
                    == Ok::<Seq<char>, StateError>(plan.remote_path@)
                &&& plan.previous_absolute_path@ == spec_join(self.workspace_folder@, plan.local_path@)
                &&& plan.new_absolute_path@ == spec_join(self.workspace_folder@, plan.remote_path@)
                &&& plan.moves == (plan.previous_absolute_path@ != plan.new_absolute_path@)
                &&& plan.download == self.download
            },
            content_path(state.entries(), self.content_id) matches Err(x) ==> r == Err::<
                UpdatedOnDiskPlan,
                ExecutorError,
            >(ExecutorError::State(x)),
            content_path(state.entries(), self.content_id) is Ok ==> (content_of(*remote) matches Err(x)
                ==> r == Err::<UpdatedOnDiskPlan, ExecutorError>(ExecutorError::Sync(x))),
            content_path(state.entries(), self.content_id) is Ok ==> (content_of(*remote) matches Ok(c)
                ==> match location(state.entries(), c.parent_id, c.file_name) {
                Ok(_) => r is Ok,
                Err(x) => r == Err::<UpdatedOnDiskPlan, ExecutorError>(ExecutorError::State(x)),
            }),
    {
        let local_path = match state.path(self.content_id) {
            Ok(parts) => parts.to_path_buf(),
            Err(e) => return Err(ExecutorError::State(e)),
        };
        let content = match Content::from_remote(remote) {
            Ok(content) => content,
            Err(e) => return Err(ExecutorError::Sync(e)),
        };
        let remote_path = match content_location(state, content.parent_id(), content.file_name().as_str()) {
            Ok(p) => p,
            Err(e) => return Err(ExecutorError::State(e)),
        };
        let previous_absolute_path = join(self.workspace_folder.as_str(), local_path.as_str());
        let new_absolute_path = join(self.workspace_folder.as_str(), remote_path.as_str());
        let moves = previous_absolute_path != new_absolute_path;
        Ok(UpdatedOnDiskPlan {
            content,
            local_path,
            remote_path,
            previous_absolute_path,
            new_absolute_path,
            moves,
            download: self.download,
        })
    }
}

impl UpdatedOnDiskPlan {
    /// Once the content is moved: the rename is to be ignored.
    pub fn on_moved(&self, ignore_events: &mut Vec<Event>)
        ensures
            event_views(final(ignore_events)@) == event_views(old(ignore_events)@).push(
                local_event(self.local_path@, DiskEventView::Renamed(self.local_path@, self.remote_path@)),
            ),
    {
        push_local(
            ignore_events,
            &self.local_path,
            DiskEvent::Renamed(self.local_path.clone(), self.remote_path.clone()),
        );
    }

    /// Once the data is fetched: the modification is to be ignored.
    pub fn on_downloaded(&self, ignore_events: &mut Vec<Event>)
        ensures
            event_views(final(ignore_events)@) == event_views(old(ignore_events)@).push(
                local_event(self.local_path@, DiskEventView::Modified(self.local_path@)),
            ),
    {
        push_local(ignore_events, &self.local_path, DiskEvent::Modified(self.local_path.clone()));
    }

    /// The state learns the new name, revision and parent, with the disk timestamp.
    pub fn finish(self, content_id: ContentId, timestamp: DiskTimestamp) -> (r: Vec<StateModification>)
        ensures
            r@.len() == 1,
            r@[0] matches StateModification::Update(id, name, revision, parent, t) && id == content_id
                && name@ == self.content@.file_name && revision == self.content@.revision_id && parent
                == self.content@.parent_id && t == timestamp,
    {
        let revision_id = self.content.revision_id();
        let parent_id = self.content.parent_id();
        let file_name = self.content.file_name().clone();
        vec![StateModification::Update(content_id, file_name, revision_id, parent_id, timestamp)]
    }
}

} // verus!
