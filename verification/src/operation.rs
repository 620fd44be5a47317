//! Messages of the operational loop: what changed locally or remotely, and
//! which of them the loop skips.

use vstd::prelude::*;
use crate::types::{ContentId, ContentType, RelativeFilePath, RevisionId};
use crate::path::{file_name, spec_file_name, parent, spec_parent, join, spec_join};
use crate::text::{starts_with_char, ends_with_char, str_eq};
use crate::sync::local::{LocalChange, LocalChangeView};

verus! {

/// A change to operate, locally or remotely.
#[derive(Debug)]
pub enum OperationalMessage {
    NewLocalFile(RelativeFilePath),
    ModifiedLocalFile(RelativeFilePath),
    DeletedLocalFile(RelativeFilePath),
    /// Path before, path after.
    RenamedLocalFile(RelativeFilePath, RelativeFilePath),
    NewRemoteFile(ContentId),
    ModifiedRemoteFile(ContentId),
    DeletedRemoteFile(ContentId),
    Exit,
}

/// Mathematical value of an [`OperationalMessage`].
pub enum MessageView {
    NewLocalFile(Seq<char>),
    ModifiedLocalFile(Seq<char>),
    DeletedLocalFile(Seq<char>),
    RenamedLocalFile(Seq<char>, Seq<char>),
    NewRemoteFile(ContentId),
    ModifiedRemoteFile(ContentId),
    DeletedRemoteFile(ContentId),
    Exit,
}

impl View for OperationalMessage {
    type V = MessageView;

    open spec fn view(&self) -> MessageView {
        match self {
            OperationalMessage::NewLocalFile(p) => MessageView::NewLocalFile(p@),
            OperationalMessage::ModifiedLocalFile(p) => MessageView::ModifiedLocalFile(p@),
            OperationalMessage::DeletedLocalFile(p) => MessageView::DeletedLocalFile(p@),
            OperationalMessage::RenamedLocalFile(a, b) => MessageView::RenamedLocalFile(a@, b@),
            OperationalMessage::NewRemoteFile(id) => MessageView::NewRemoteFile(*id),
            OperationalMessage::ModifiedRemoteFile(id) => MessageView::ModifiedRemoteFile(*id),
            OperationalMessage::DeletedRemoteFile(id) => MessageView::DeletedRemoteFile(*id),
            OperationalMessage::Exit => MessageView::Exit,
        }
    }
}

/// Whether a message is about a local change.
pub open spec fn is_local(m: MessageView) -> bool {
    m is NewLocalFile || m is ModifiedLocalFile || m is DeletedLocalFile || m is RenamedLocalFile
}

/// Whether a message is about a remote change.
pub open spec fn is_remote(m: MessageView) -> bool {
    m is NewRemoteFile || m is ModifiedRemoteFile || m is DeletedRemoteFile
}

/// Mathematical value of a sequence of messages.
pub open spec fn message_views(s: Seq<OperationalMessage>) -> Seq<MessageView> {
    s.map_values(|m: OperationalMessage| m@)
}

impl OperationalMessage {
    /// A copy of this message.
    pub fn duplicate(&self) -> (r: OperationalMessage)
        ensures
            r@ == self@,
    {
        match self {
            OperationalMessage::NewLocalFile(p) => OperationalMessage::NewLocalFile(p.clone()),
            OperationalMessage::ModifiedLocalFile(p) => OperationalMessage::ModifiedLocalFile(p.clone()),
            OperationalMessage::DeletedLocalFile(p) => OperationalMessage::DeletedLocalFile(p.clone()),
            OperationalMessage::RenamedLocalFile(a, b) => OperationalMessage::RenamedLocalFile(
                a.clone(),
                b.clone(),
            ),
            OperationalMessage::NewRemoteFile(id) => OperationalMessage::NewRemoteFile(*id),
            OperationalMessage::ModifiedRemoteFile(id) => OperationalMessage::ModifiedRemoteFile(*id),
            OperationalMessage::DeletedRemoteFile(id) => OperationalMessage::DeletedRemoteFile(*id),
            OperationalMessage::Exit => OperationalMessage::Exit,
        }
    }

    /// Whether two messages are the same.
    pub fn same(&self, other: &OperationalMessage) -> (r: bool)
        ensures
            r == (self@ == other@),
    {
        match (self, other) {
            (OperationalMessage::NewLocalFile(a), OperationalMessage::NewLocalFile(b)) => *a == *b,
            (OperationalMessage::ModifiedLocalFile(a), OperationalMessage::ModifiedLocalFile(b)) => *a == *b,
            (OperationalMessage::DeletedLocalFile(a), OperationalMessage::DeletedLocalFile(b)) => *a == *b,
            (
                OperationalMessage::RenamedLocalFile(a1, a2),
                OperationalMessage::RenamedLocalFile(b1, b2),
            ) => *a1 == *b1 && *a2 == *b2,
            (OperationalMessage::NewRemoteFile(a), OperationalMessage::NewRemoteFile(b)) => *a == *b,
            (OperationalMessage::ModifiedRemoteFile(a), OperationalMessage::ModifiedRemoteFile(b)) => *a == *b,
            (OperationalMessage::DeletedRemoteFile(a), OperationalMessage::DeletedRemoteFile(b)) => *a == *b,
            (OperationalMessage::Exit, OperationalMessage::Exit) => true,
            _ => false,
        }
    }
}

impl Clone for OperationalMessage {
    fn clone(&self) -> (r: OperationalMessage)
        ensures
            r@ == self@,
    {
        self.duplicate()
    }
}

impl PartialEq for OperationalMessage {
    fn eq(&self, other: &OperationalMessage) -> (r: bool) {
        self.same(other)
    }
}

impl vstd::std_specs::cmp::PartialEqSpecImpl for OperationalMessage {
    open spec fn obeys_eq_spec() -> bool {
        true
    }

    open spec fn eq_spec(&self, other: &OperationalMessage) -> bool {
        self@ == other@
    }
}

/// The message of a change found on disk at startup: a new file, a modified
/// file, a file gone.
pub open spec fn message_of_local_change(c: LocalChangeView) -> MessageView {
    match c {
        LocalChangeView::New(p) => MessageView::NewLocalFile(p),
        LocalChangeView::Updated(p) => MessageView::ModifiedLocalFile(p),
        LocalChangeView::Disappear(p) => MessageView::DeletedLocalFile(p),
    }
}

impl OperationalMessage {
    /// The message of a change found on disk at startup: see [`message_of_local_change`].
    pub fn from_local_change(change: &LocalChange) -> (r: OperationalMessage)
        ensures
            r@ == message_of_local_change(change@),
    {
        match change {
            LocalChange::New(p) => OperationalMessage::NewLocalFile(p.clone()),
            LocalChange::Updated(p) => OperationalMessage::ModifiedLocalFile(p.clone()),
            LocalChange::Disappear(p) => OperationalMessage::DeletedLocalFile(p.clone()),
        }
    }
}

/// Failure of the operational loop.
#[derive(Debug)]
pub enum Error {
    /// No content is indexed at this path.
    UnIndexedRelativePath(String),
    UnexpectedError(String),
    /// A path has no file name.
    PathCastingError(String),
}

/// Failure of the remote space to create a content.
#[derive(Debug)]
pub enum CreateFailure {
    /// A content exists already with that name: its identifier and revision.
    AlreadyExistResponse(ContentId, RevisionId),
    /// Any other failure, described.
    Other(String),
}

/// The file name of a path, which must have one.
pub fn string_path_file_name(path: &String) -> (r: Result<String, Error>)
    ensures
        spec_file_name(path@) matches Some(n) ==> (r matches Ok(x) && x@ == n),
        spec_file_name(path@) is None ==> (r matches Err(Error::PathCastingError(p)) && p@ == path@),
{
    match file_name(path.as_str()) {
        Some(name) => Ok(name),
        None => Err(Error::PathCastingError(path.clone())),
    }
}

/// Whether a local message is about a hidden (`.`) or backup (`~` last) file.
pub open spec fn hidden_or_backup(m: MessageView) -> Option<bool> {
    match m {
        MessageView::NewLocalFile(p) | MessageView::ModifiedLocalFile(p) | MessageView::DeletedLocalFile(p) => {
            match spec_file_name(p) {
                Some(n) => Some(n[0] == '.' || n.last() == '~'),
                None => None,
            }
        },
        _ => Some(false),
    }
}

/// `messages` without any occurrence of `x`, in order.
pub open spec fn without_message(messages: Seq<MessageView>, x: MessageView) -> Seq<MessageView>
    decreases messages.len(),
{
    if messages.len() == 0 {
        Seq::empty()
    } else if messages.last() == x {
        without_message(messages.drop_last(), x)
    } else {
        without_message(messages.drop_last(), x).push(messages.last())
    }
}

/// What the operational loop decides, as opposed to what it asks of the
/// disk, the local index and the remote space: the messages it expects
/// because of its own work, in the synchronised folder `folder_path`.
#[derive(Debug)]
pub struct OperationalHandler {
    pub folder_path: String,
    /// Messages caused by the work done, to be skipped once when they come.
    pub ignore_messages: Vec<OperationalMessage>,
}

/// Where a renamed file goes.
#[derive(Debug, PartialEq, Eq)]
pub enum ParentChange {
    /// It stays in the same folder.
    Same,
    /// It goes to the root of the synchronised folder.
    Root,
    /// It goes to the folder at this path.
    Folder(String),
}

/// How a content is written on disk, by its remote type.
#[derive(Debug, PartialEq, Eq, Structural, Clone, Copy)]
pub enum WriteKind {
    /// A folder is created.
    Folder,
    /// The raw content of a document is written.
    Document,
    /// The data of a file is fetched.
    File,
}

/// How a content of a remote type is written on disk.
pub open spec fn write_kind(content_type: Seq<char>) -> WriteKind {
    if content_type == "folder"@ {
        WriteKind::Folder
    } else if content_type == "html-document"@ {
        WriteKind::Document
    } else {
        WriteKind::File
    }
}

/// How a content of a remote type is written on disk: see [`write_kind`].
pub fn write_kind_of(content_type: &str) -> (r: WriteKind)
    ensures
        r == write_kind(content_type@),
{
    if str_eq(content_type, "folder") {
        WriteKind::Folder
    } else if str_eq(content_type, "html-document") {
        WriteKind::Document
    } else {
        WriteKind::File
    }
}

/// What writing a remote modification on disk takes.
#[derive(Debug)]
pub enum RemoteModificationPlan {
    /// A folder: move it from the first path to the second (both relative);
    /// nothing else is done.
    MoveFolder(String, String),
    /// A file or document: remove the first path when the file moved, then
    /// write at the second path.
    Write(Option<String>, String),
}

/// A change the local index takes after a remote modification was written.
#[derive(Debug, PartialEq, Eq)]
pub enum IndexUpdate {
    /// The content (first) is now at this relative path.
    RelativePath(ContentId, String),
    /// The file at this relative path was written at this revision: record
    /// the revision and the file's disk timestamp.
    Written(String, RevisionId),
}

/// The index updates after carrying out a remote modification plan for
/// `content_id` at `revision`: a moved folder or file gets its new path, a
/// written file its revision and timestamp at the path it was written to.
pub fn index_updates(content_id: ContentId, plan: &RemoteModificationPlan, revision: RevisionId) -> (r: Vec<
    IndexUpdate,
>)
    ensures
        match plan {
            RemoteModificationPlan::MoveFolder(_, to) => r@.len() == 1 && (r@[0] matches IndexUpdate::RelativePath(
                id,
                p,
            ) && id == content_id && p@ == to@),
            RemoteModificationPlan::Write(Some(_), to) => r@.len() == 2 && (r@[0] matches IndexUpdate::RelativePath(
                id,
                p,
            ) && id == content_id && p@ == to@) && (r@[1] matches IndexUpdate::Written(p, rev) && p@ == to@ && rev
                == revision),
            RemoteModificationPlan::Write(None, to) => r@.len() == 1 && (r@[0] matches IndexUpdate::Written(p, rev)
                && p@ == to@ && rev == revision),
        },
{
    match plan {
        RemoteModificationPlan::MoveFolder(_, to) => vec![IndexUpdate::RelativePath(content_id, to.clone())],
        RemoteModificationPlan::Write(Some(_), to) => vec![
            IndexUpdate::RelativePath(content_id, to.clone()),
            IndexUpdate::Written(to.clone(), revision),
        ],
        RemoteModificationPlan::Write(None, to) => vec![IndexUpdate::Written(to.clone(), revision)],
    }
}

impl OperationalHandler {
    /// A handler that expects no message yet.
    pub fn new(folder_path: String) -> (r: OperationalHandler)
        ensures
            r.folder_path == folder_path,
            r.ignore_messages@.len() == 0,
    {
        OperationalHandler { folder_path, ignore_messages: Vec::new() }
    }

    /// Expects a message caused by work about to be done.
    pub fn expect(&mut self, message: OperationalMessage)
        ensures
            message_views(final(self).ignore_messages@) == message_views(old(self).ignore_messages@).push(
                message@,
            ),
            final(self).folder_path == old(self).folder_path,
    {
        let ghost before = message_views(self.ignore_messages@);
        self.ignore_messages.push(message);
        assert(message_views(self.ignore_messages@) =~= before.push(message@));
    }

    /// Whether to skip a message: an expected one (every expectation of it is
    /// dropped), or a local message about a hidden or backup file; a local
    /// message about a path without file name is refused.
    pub fn ignore_message(&mut self, message: &OperationalMessage) -> (r: Result<bool, Error>)
        ensures
            message_views(old(self).ignore_messages@).contains(message@) ==> r == Ok::<bool, Error>(true)
                && message_views(final(self).ignore_messages@) == without_message(
                message_views(old(self).ignore_messages@),
                message@,
            ),
            !message_views(old(self).ignore_messages@).contains(message@) ==> final(self).ignore_messages@
                == old(self).ignore_messages@ && match hidden_or_backup(message@) {
                Some(b) => r == Ok::<bool, Error>(b),
                None => r is Err,
            },
            final(self).folder_path == old(self).folder_path,
    {
        let ghost before = message_views(self.ignore_messages@);
        let mut kept: Vec<OperationalMessage> = Vec::new();
        let mut found = false;
        let n = self.ignore_messages.len();
        let mut i: usize = 0;
        assert(before.take(0) =~= Seq::<MessageView>::empty());
        while i < n
            invariant
                n == self.ignore_messages@.len(),
                before == message_views(self.ignore_messages@),
                i <= n,
                message_views(kept@) == without_message(before.take(i as int), message@),
                found == before.take(i as int).contains(message@),
            decreases n - i,
        {
            let m = &self.ignore_messages[i];
            assert(before.take(i + 1).drop_last() =~= before.take(i as int));
            assert(before.take(i + 1).last() == m@);
            if m.same(message) {
                found = true;
                assert(before.take(i + 1)[i as int] == message@);
            } else {
                let ghost prior = message_views(kept@);
                kept.push(m.duplicate());
                assert(message_views(kept@) =~= prior.push(m@));
                proof {
                    if found {
                        let k = choose|k: int| 0 <= k < i && before.take(i as int)[k] == message@;
                        assert(before.take(i + 1)[k] == message@);
                    } else {
                        assert forall|k: int| 0 <= k < i + 1 implies #[trigger] before.take(i + 1)[k]
                            != message@ by {
                            if k < i {
                                assert(before.take(i + 1)[k] == before.take(i as int)[k]);
                            }
                        }
                    }
                }
            }
            i = i + 1;
        }
        assert(before.take(n as int) =~= before);
        if found {
            self.ignore_messages = kept;
            return Ok(true);
        }
        match message {
            OperationalMessage::NewLocalFile(p) | OperationalMessage::ModifiedLocalFile(p)
            | OperationalMessage::DeletedLocalFile(p) => {
                let name = string_path_file_name(p)?;
                Ok(starts_with_char(name.as_str(), '.') || ends_with_char(name.as_str(), '~'))
            },
            _ => Ok(false),
        }
    }

    /// The answer of the remote space to the creation of a local file: the
    /// remote creation (and, for a file, the modification the remote space
    /// adds) is to be skipped; an existing content is taken as it is.
    pub fn on_remote_created(
        &mut self,
        created: Result<(ContentId, RevisionId), CreateFailure>,
        content_type: ContentType,
    ) -> (r: Result<(ContentId, RevisionId), Error>)
        ensures
            final(self).folder_path == old(self).folder_path,
            created matches Ok(x) ==> r == Ok::<(ContentId, RevisionId), Error>(x) && message_views(
                final(self).ignore_messages@,
            ) == if content_type == ContentType::File {
                message_views(old(self).ignore_messages@).push(MessageView::NewRemoteFile(x.0)).push(
                    MessageView::ModifiedRemoteFile(x.0),
                )
            } else {
                message_views(old(self).ignore_messages@).push(MessageView::NewRemoteFile(x.0))
            },
            created matches Err(CreateFailure::AlreadyExistResponse(id, revision)) ==> r == Ok::<
                (ContentId, RevisionId),
                Error,
            >((id, revision)) && final(self).ignore_messages@ == old(self).ignore_messages@,
            created matches Err(CreateFailure::Other(_)) ==> (r matches Err(Error::UnexpectedError(_))
                && final(self).ignore_messages@ == old(self).ignore_messages@),
    {
        match created {
            Ok((content_id, revision_id)) => {
                self.expect(OperationalMessage::NewRemoteFile(content_id));
                if content_type == ContentType::File {
                    self.expect(OperationalMessage::ModifiedRemoteFile(content_id));
                }
                Ok((content_id, revision_id))
            },
            Err(CreateFailure::AlreadyExistResponse(content_id, revision_id)) => Ok(
                (content_id, revision_id),
            ),
            Err(CreateFailure::Other(description)) => Err(
                Error::UnexpectedError(
                    crate::text::concat("Fail to create new local file on remote : ", description.as_str()),
                ),
            ),
        }
    }

    /// Where a renamed file goes, by the parents of its paths.
    pub fn parent_change(before: &RelativeFilePath, after: &RelativeFilePath) -> (r: ParentChange)
        ensures
            spec_parent(before@) == spec_parent(after@) ==> r == ParentChange::Same,
            spec_parent(before@) != spec_parent(after@) ==> match spec_parent(after@) {
                Some(p) => r matches ParentChange::Folder(x) && x@ == p,
                None => r == ParentChange::Root,
            },
    {
        let b = parent(before.as_str());
        let a = parent(after.as_str());
        let same = match (&b, &a) {
            (Some(x), Some(y)) => str_eq(x.as_str(), y.as_str()),
            (None, None) => true,
            _ => false,
        };
        if same {
            ParentChange::Same
        } else {
            match a {
                Some(p) => ParentChange::Folder(p),
                None => ParentChange::Root,
            }
        }
    }

    /// The new name of a renamed file, when it changes.
    pub fn new_file_name(before: &RelativeFilePath, after: &RelativeFilePath) -> (r: Result<
        Option<String>,
        Error,
    >)
        ensures
            match (spec_file_name(before@), spec_file_name(after@)) {
                (Some(b), Some(a)) => if b == a {
                    r == Ok::<Option<String>, Error>(None)
                } else {
                    r matches Ok(Some(x)) && x@ == a
                },
                (None, _) => r matches Err(Error::PathCastingError(p)) && p@ == before@,
                (Some(_), None) => r matches Err(Error::PathCastingError(p)) && p@ == after@,
            },
    {
        let before_name = string_path_file_name(before)?;
        let after_name = string_path_file_name(after)?;
        if str_eq(before_name.as_str(), after_name.as_str()) {
            Ok(None)
        } else {
            Ok(Some(after_name))
        }
    }

    /// Before writing a new remote content at `relative_path`: its creation
    /// on disk is to be skipped, and a parent the local index does not know
    /// is written first.
    pub fn on_new_remote_file(
        &mut self,
        relative_path: RelativeFilePath,
        parent_id: Option<ContentId>,
        parent_known: bool,
    ) -> (r: Option<ContentId>)
        ensures
            message_views(final(self).ignore_messages@) == message_views(old(self).ignore_messages@).push(
                MessageView::NewLocalFile(relative_path@),
            ),
            final(self).folder_path == old(self).folder_path,
            r == (if parent_id is Some && !parent_known {
                parent_id
            } else {
                None
            }),
    {
        self.expect(OperationalMessage::NewLocalFile(relative_path));
        match parent_id {
            Some(p) => if parent_known {
                None
            } else {
                Some(p)
            },
            None => None,
        }
    }

    /// What writing a remote modification takes: a folder is moved to where
    /// the remote space puts it (the move is to be skipped); a file that
    /// moved is removed from its old place (the deletion is to be skipped)
    /// and written at the new one.
    pub fn plan_remote_modification(
        &mut self,
        content_type: &str,
        remote_path: RelativeFilePath,
        local_path: RelativeFilePath,
    ) -> (r: RemoteModificationPlan)
        ensures
            final(self).folder_path == old(self).folder_path,
            content_type@ == "folder"@ ==> (r matches RemoteModificationPlan::MoveFolder(from, to) && from@
                == local_path@ && to@ == remote_path@ && message_views(final(self).ignore_messages@)
                == message_views(old(self).ignore_messages@).push(
                MessageView::RenamedLocalFile(local_path@, remote_path@),
            )),
            content_type@ != "folder"@ && remote_path@ != local_path@ ==> (r matches RemoteModificationPlan::Write(
                Some(from),
                to,
            ) && from@ == local_path@ && to@ == remote_path@ && message_views(
                final(self).ignore_messages@,
            ) == message_views(old(self).ignore_messages@).push(
                MessageView::DeletedLocalFile(local_path@),
            )),
            content_type@ != "folder"@ && remote_path@ == local_path@ ==> (r matches RemoteModificationPlan::Write(
                None,
                to,
            ) && to@ == local_path@ && final(self).ignore_messages@ == old(self).ignore_messages@),
    {
        if write_kind_of(content_type) == WriteKind::Folder {
            proof {
                reveal_strlit("folder");
                reveal_strlit("html-document");
            }
            self.expect(OperationalMessage::RenamedLocalFile(local_path.clone(), remote_path.clone()));
            return RemoteModificationPlan::MoveFolder(local_path, remote_path);
        }
        proof {
            reveal_strlit("folder");
            reveal_strlit("html-document");
        }
        if !str_eq(remote_path.as_str(), local_path.as_str()) {
            self.expect(OperationalMessage::DeletedLocalFile(local_path.clone()));
            RemoteModificationPlan::Write(Some(local_path), remote_path)
        } else {
            RemoteModificationPlan::Write(None, local_path)
        }
    }

    /// Before writing a file at `relative_path`: the write is to be skipped,
    /// as a modification when the file exists, as a creation otherwise.
    pub fn on_write_target_checked(&mut self, relative_path: RelativeFilePath, exists: bool)
        ensures
            final(self).folder_path == old(self).folder_path,
            exists ==> message_views(final(self).ignore_messages@) == message_views(
                old(self).ignore_messages@,
            ).push(MessageView::ModifiedLocalFile(relative_path@)),
            !exists ==> message_views(final(self).ignore_messages@) == message_views(
                old(self).ignore_messages@,
            ).push(MessageView::NewLocalFile(relative_path@)),
    {
        if exists {
            self.expect(OperationalMessage::ModifiedLocalFile(relative_path));
        } else {
            self.expect(OperationalMessage::NewLocalFile(relative_path));
        }
    }

    /// Path of a relative path in the synchronised folder.
    pub fn absolute_path(&self, relative_path: &str) -> (r: String)
        ensures
            r@ == spec_join(self.folder_path@, relative_path@),
    {
        join(self.folder_path.as_str(), relative_path)
    }
}

/// Once an expected message is skipped, it is no longer expected: the next
/// one like it is operated.
pub proof fn law_skipped_message_no_longer_expected(messages: Seq<MessageView>, x: MessageView)
    ensures
        !without_message(messages, x).contains(x),
        without_message(messages, x).len() <= messages.len(),
    decreases messages.len(),
{
    if messages.len() > 0 {
        law_skipped_message_no_longer_expected(messages.drop_last(), x);
        let r = without_message(messages.drop_last(), x);
        if messages.last() != x {
            assert forall|i: int| 0 <= i < r.push(messages.last()).len() implies r.push(messages.last())[i]
                != x by {
                if i < r.len() {
                    assert(r[i] == r.push(messages.last())[i]);
                    if r[i] == x {
                        assert(r.contains(x));
                    }
                }
            }
        }
    }
}

} // verus!
