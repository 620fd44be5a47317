//! Changes made on the remote side while the synchronisation was not running:
//! what the remote space holds compared with what the local index last
//! recorded.

use vstd::prelude::*;
use crate::types::{ContentId, ContentType, RevisionId, content_type_named};
use crate::content::{Content, ContentView, content_views};
use crate::state::{MemoryState, StateError, upsert, of_kind, lookup, parent_known, distinct_ids, lemma_index_of, law_add_then_get, index_of, lemma_index_of_bounds, lemma_lookup_distinct};

verus! {

/// A content as the remote space describes it.
#[derive(Debug)]
pub struct RemoteContent {
    pub content_id: ContentId,
    pub current_revision_id: RevisionId,
    pub parent_id: Option<ContentId>,
    pub content_type: String,
    pub modified: String,
    pub raw_content: Option<String>,
    pub filename: String,
    pub is_deleted: bool,
    pub is_archived: bool,
    pub sub_content_types: Vec<String>,
}

/// A change of a remote content since the last synchronisation.
#[derive(Debug, PartialEq, Eq, Structural, Clone, Copy)]
pub enum RemoteChange {
    New(ContentId),
    Disappear(ContentId),
    Updated(ContentId),
}

/// Failure to compute the remote changes.
#[derive(Debug, PartialEq, Eq, Structural, Clone, Copy)]
pub enum SyncError {
    /// The parent (first) of a content (second) is not among the remote contents.
    MissingParent(ContentId, ContentId),
    /// Following parents from a content never reaches a root.
    ParentLoop(ContentId),
    /// A content has a type this synchronisation does not know.
    UnknownContentType(ContentId),
    /// The remote contents do not make a consistent state.
    State(StateError),
}

/// The first remote content with identifier `id`, if any.
pub open spec fn find_remote(all: Seq<RemoteContent>, id: ContentId) -> Option<RemoteContent>
    decreases all.len(),
{
    if all.len() == 0 {
        None
    } else if all[0].content_id == id {
        Some(all[0])
    } else {
        find_remote(all.drop_first(), id)
    }
}

/// Whether `current` or one of its parents (followed at most `fuel` times)
/// is deleted or archived.
pub open spec fn deleted_along(all: Seq<RemoteContent>, current: RemoteContent, fuel: nat) -> Result<bool, SyncError>
    decreases fuel,
{
    if current.is_deleted || current.is_archived {
        Ok(true)
    } else {
        match current.parent_id {
            None => Ok(false),
            Some(parent) => if fuel == 0 {
                Err(SyncError::ParentLoop(current.content_id))
            } else {
                match find_remote(all, parent) {
                    None => Err(SyncError::MissingParent(parent, current.content_id)),
                    Some(p) => deleted_along(all, p, (fuel - 1) as nat),
                }
            },
        }
    }
}

/// Whether a remote content counts as deleted: it, or one of its parents, is
/// deleted or archived.  The walk follows at most one parent more than there
/// are remote contents, which no walk that never comes back to a content
/// needs.
pub open spec fn spec_is_deleted(all: Seq<RemoteContent>, content: RemoteContent) -> Result<bool, SyncError> {
    deleted_along(all, content, all.len() + 1)
}

/// The content a remote content describes.
pub open spec fn content_of(r: RemoteContent) -> Result<ContentView, SyncError> {
    match content_type_named(r.content_type@) {
        Some(t) => Ok(ContentView {
            id: r.content_id,
            revision_id: r.current_revision_id,
            file_name: r.filename@,
            parent_id: r.parent_id,
            type_: t,
        }),
        None => Err(SyncError::UnknownContentType(r.content_id)),
    }
}

/// The contents known from the first `n` remote contents: those not deleted,
/// later ones replacing earlier ones with the same identifier.
pub open spec fn live_contents(all: Seq<RemoteContent>, n: int) -> Result<Seq<ContentView>, SyncError>
    decreases n,
{
    if n <= 0 {
        Ok(Seq::empty())
    } else {
        match live_contents(all, n - 1) {
            Err(e) => Err(e),
            Ok(previous) => match spec_is_deleted(all, all[n - 1]) {
                Err(e) => Err(e),
                Ok(true) => Ok(previous),
                Ok(false) => match content_of(all[n - 1]) {
                    Err(e) => Err(e),
                    Ok(c) => Ok(upsert(previous, c)),
                },
            },
        }
    }
}

/// The parent of the first content whose parent is not known, if any.
pub open spec fn has_missing_parent(entries: Seq<ContentView>) -> bool {
    exists|i: int| 0 <= i < entries.len() && !parent_known(entries, #[trigger] entries[i])
}

/// The revision recorded for content `id` (the first record for it), if any.
pub open spec fn known_revision(known: Seq<(ContentId, RevisionId)>, id: ContentId) -> Option<RevisionId>
    decreases known.len(),
{
    if known.len() == 0 {
        None
    } else if known[0].0 == id {
        Some(known[0].1)
    } else {
        known_revision(known.drop_first(), id)
    }
}

/// Changes of the first `n` remote contents: a content never recorded is new,
/// one recorded with another revision is updated.
pub open spec fn content_changes(contents: Seq<ContentView>, known: Seq<(ContentId, RevisionId)>, n: int) -> Seq<RemoteChange>
    decreases n,
{
    if n <= 0 {
        Seq::empty()
    } else {
        let previous = content_changes(contents, known, n - 1);
        let c = contents[n - 1];
        match known_revision(known, c.id) {
            None => previous.push(RemoteChange::New(c.id)),
            Some(r) => if r != c.revision_id {
                previous.push(RemoteChange::Updated(c.id))
            } else {
                previous
            },
        }
    }
}

/// Disappearances among the first `n` records: recorded, no longer on the remote side.
pub open spec fn vanished(known: Seq<(ContentId, RevisionId)>, entries: Seq<ContentView>, n: int) -> Seq<RemoteChange>
    decreases n,
{
    if n <= 0 {
        Seq::empty()
    } else if lookup(entries, known[n - 1].0) is None {
        vanished(known, entries, n - 1).push(RemoteChange::Disappear(known[n - 1].0))
    } else {
        vanished(known, entries, n - 1)
    }
}

/// All remote changes: those of the remote contents, folders first, then the
/// disappearances, in record order.
pub open spec fn remote_changes_of(entries: Seq<ContentView>, known: Seq<(ContentId, RevisionId)>) -> Seq<RemoteChange> {
    let ordered = of_kind(entries, true, entries.len() as int) + of_kind(entries, false, entries.len() as int);
    content_changes(ordered, known, ordered.len() as int) + vanished(known, entries, known.len() as int)
}

fn find_remote_index(all_remote_contents: &Vec<RemoteContent>, id: ContentId) -> (r: Option<usize>)
    ensures
        r matches Some(j) ==> j < all_remote_contents@.len() && find_remote(all_remote_contents@, id) == Some(
            all_remote_contents@[j as int],
        ),
        r is None ==> find_remote(all_remote_contents@, id) is None,
{
    let ghost all = all_remote_contents@;
    let n = all_remote_contents.len();
    let mut i: usize = 0;
    assert(all.skip(0) =~= all);
    while i < n
        invariant
            all == all_remote_contents@,
            n == all.len(),
            i <= n,
            find_remote(all, id) == find_remote(all.skip(i as int), id),
        decreases n - i,
    {
        assert(all.skip(i as int)[0] == all[i as int]);
        assert(all.skip(i as int).drop_first() =~= all.skip(i + 1));
        if all_remote_contents[i].content_id == id {
            return Some(i);
        }
        i = i + 1;
    }
    None
}

/// Whether a remote content counts as deleted: it, or one of its parents, is
/// deleted or archived; refused when a parent is missing.
pub fn is_deleted(remote_content: &RemoteContent, all_remote_contents: &Vec<RemoteContent>) -> (r: Result<bool, SyncError>)
    ensures
        r == spec_is_deleted(all_remote_contents@, *remote_content),
{
    let ghost all = all_remote_contents@;
    let n = all_remote_contents.len();
    if remote_content.is_deleted || remote_content.is_archived {
        return Ok(true);
    }
    let first_parent = match remote_content.parent_id {
        None => return Ok(false),
        Some(p) => p,
    };
    let mut current = match find_remote_index(all_remote_contents, first_parent) {
        None => return Err(SyncError::MissingParent(first_parent, remote_content.content_id)),
        Some(j) => &all_remote_contents[j],
    };
    let mut fuel = n;
    loop
        invariant
            all == all_remote_contents@,
            n == all.len(),
            fuel <= n,
            spec_is_deleted(all, *remote_content) == deleted_along(all, *current, fuel as nat),
        decreases fuel,
    {
        if current.is_deleted || current.is_archived {
            return Ok(true);
        }
        let parent_id = match current.parent_id {
            None => return Ok(false),
            Some(p) => p,
        };
        if fuel == 0 {
            return Err(SyncError::ParentLoop(current.content_id));
        }
        let found = find_remote_index(all_remote_contents, parent_id);
        match found {
            None => {
                return Err(SyncError::MissingParent(parent_id, current.content_id));
            },
            Some(j) => {
                current = &all_remote_contents[j];
                fuel = fuel - 1;
            },
        }
    }
}

impl Content {
    /// The content a remote content describes; refused when its type is unknown.
    pub fn from_remote(remote: &RemoteContent) -> (r: Result<Content, SyncError>)
        ensures
            r matches Ok(c) ==> content_of(*remote) == Ok::<ContentView, SyncError>(c@),
            r matches Err(e) ==> content_of(*remote) == Err::<ContentView, SyncError>(e),
    {
        match ContentType::from_str(remote.content_type.as_str()) {
            Some(type_) => Ok(Content::new(
                remote.content_id,
                remote.current_revision_id,
                remote.filename.clone(),
                remote.parent_id,
                type_,
            )),
            None => Err(SyncError::UnknownContentType(remote.content_id)),
        }
    }
}


fn upsert_content(contents: &mut Vec<Content>, content: Content)
    requires
        distinct_ids(content_views(old(contents)@)),
    ensures
        distinct_ids(content_views(final(contents)@)),
        content_views(final(contents)@) == upsert(content_views(old(contents)@), content@),
{
    let ghost before = content_views(contents@);
    let n = contents.len();
    let mut i: usize = 0;
    while i < n
        invariant
            n == contents@.len(),
            before == content_views(contents@),
            before == content_views(old(contents)@),
            distinct_ids(before),
            i <= n,
            forall|j: int| 0 <= j < i ==> before[j].id != content@.id,
        decreases n - i,
    {
        assert(before[i as int] == contents@[i as int]@);
        if contents[i].id() == content.id() {
            proof {
                lemma_index_of(before, content@.id, i as int);
                law_add_then_get(before, content@, content@.id);
            }
            contents.set(i, content);
            assert(content_views(contents@) =~= before.update(i as int, content@));
            return;
        }
        i = i + 1;
    }
    proof {
        lemma_index_of(before, content@.id, -1);
        law_add_then_get(before, content@, content@.id);
    }
    contents.push(content);
    assert(content_views(contents@) =~= before.push(content@));
}

/// The state made of the live remote contents (those not deleted, with a later
/// content replacing an earlier one with the same identifier), without
/// timestamps; refused when a content's type is unknown, when a parent is
/// missing on the way to the root, or when a live content's parent is not live.
pub fn remote_state(all_remote_contents: &Vec<RemoteContent>) -> (r: Result<MemoryState, SyncError>)
    ensures
        live_contents(all_remote_contents@, all_remote_contents@.len() as int) matches Err(e) ==> r == Err::<MemoryState, SyncError>(e),
        live_contents(all_remote_contents@, all_remote_contents@.len() as int) matches Ok(entries) ==> {
            &&& r is Ok <==> !has_missing_parent(entries)
            &&& r matches Ok(s) ==> s.wf() && s.entries() == entries && s.timestamps().len() == 0
            &&& r matches Err(e) ==> e matches SyncError::State(StateError::MissingParent(p)) && exists|i: int|
                0 <= i < entries.len() && (#[trigger] entries[i]).parent_id == Some(p) && lookup(entries, p) is None
        },
{
    let ghost all = all_remote_contents@;
    let n = all_remote_contents.len();
    let mut contents: Vec<Content> = Vec::new();
    let mut i: usize = 0;
    proof {
        assert(content_views(contents@) =~= Seq::<ContentView>::empty());
    }
    while i < n
        invariant
            all == all_remote_contents@,
            n == all.len(),
            i <= n,
            live_contents(all, i as int) == Ok::<Seq<ContentView>, SyncError>(content_views(contents@)),
            distinct_ids(content_views(contents@)),
        decreases n - i,
    {
        let remote = &all_remote_contents[i];
        match is_deleted(remote, all_remote_contents) {
            Err(e) => {
                proof {
                    lemma_live_contents_error(all, i as int + 1, n as int);
                }
                return Err(e);
            },
            Ok(true) => {},
            Ok(false) => {
                match Content::from_remote(remote) {
                    Err(e) => {
                        proof {
                            lemma_live_contents_error(all, i as int + 1, n as int);
                        }
                        return Err(e);
                    },
                    Ok(content) => {
                        upsert_content(&mut contents, content);
                    },
                }
            },
        }
        i = i + 1;
    }
    let timestamps: Vec<(ContentId, crate::types::DiskTimestamp)> = Vec::new();
    let ghost entries = content_views(contents@);
    let ghost raw = contents@;
    assert(forall|k: int| 0 <= k < raw.len() ==> raw[k]@ == #[trigger] entries[k]);
    assert(timestamps@ =~= Seq::<(ContentId, crate::types::DiskTimestamp)>::empty());
    match MemoryState::new(contents, timestamps) {
        Ok(state) => {
            assert(!has_missing_parent(entries)) by {
                assert forall|k: int| 0 <= k < entries.len() implies parent_known(entries, #[trigger] entries[k]) by {
                    assert(parent_known(entries, raw[k]@));
                }
            }
            Ok(state)
        },
        Err(e) => {
            proof {
                let k = choose|k: int| 0 <= k < raw.len() && (#[trigger] raw[k]@).parent_id == Some(
                    e->MissingParent_0) && lookup(entries, e->MissingParent_0) is None && e is MissingParent;
                assert(entries[k] == raw[k]@);
                assert(!parent_known(entries, entries[k]));
            }
            Err(SyncError::State(e))
        },
    }
}

proof fn lemma_live_contents_error(all: Seq<RemoteContent>, i: int, n: int)
    requires
        0 < i <= n,
        n == all.len(),
        live_contents(all, i) is Err,
    ensures
        live_contents(all, n) == live_contents(all, i),
    decreases n - i,
{
    if i < n {
        lemma_live_contents_error(all, i + 1, n);
    }
}

fn recorded_revision(known: &Vec<(ContentId, RevisionId)>, id: ContentId) -> (r: Option<RevisionId>)
    ensures
        r == known_revision(known@, id),
{
    let ghost k = known@;
    let n = known.len();
    let mut i: usize = 0;
    assert(k.skip(0) =~= k);
    while i < n
        invariant
            n == known@.len(),
            k == known@,
            i <= n,
            known_revision(k, id) == known_revision(k.skip(i as int), id),
        decreases n - i,
    {
        assert(k.skip(i as int)[0] == k[i as int]);
        assert(k.skip(i as int).drop_first() =~= k.skip(i + 1));
        if known[i].0 == id {
            return Some(known[i].1);
        }
        i = i + 1;
    }
    None
}

/// The remote changes between a remote state and the revisions the local
/// index recorded: see [`remote_changes_of`].
pub fn changes_between(remote_state: &MemoryState, known: &Vec<(ContentId, RevisionId)>) -> (r: Vec<RemoteChange>)
    ensures
        r@ == remote_changes_of(remote_state.entries(), known@),
{
    let ghost entries = remote_state.entries();
    let contents = match remote_state.contents() {
        Ok(contents) => contents,
        Err(_) => Vec::new(),
    };
    let ghost ordered = content_views(contents@);
    let mut changes: Vec<RemoteChange> = Vec::new();
    let n = contents.len();
    let mut i: usize = 0;
    while i < n
        invariant
            n == contents@.len(),
            ordered == content_views(contents@),
            i <= n,
            changes@ == content_changes(ordered, known@, i as int),
        decreases n - i,
    {
        let content = &contents[i];
        assert(ordered[i as int] == content@);
        match recorded_revision(known, content.id()) {
            None => changes.push(RemoteChange::New(content.id())),
            Some(revision) => {
                if revision != content.revision_id() {
                    changes.push(RemoteChange::Updated(content.id()));
                }
            },
        }
        i = i + 1;
    }
    let ghost from_contents = changes@;
    let m = known.len();
    let mut j: usize = 0;
    while j < m
        invariant
            m == known@.len(),
            entries == remote_state.entries(),
            j <= m,
            changes@ == from_contents + vanished(known@, entries, j as int),
        decreases m - j,
    {
        let id = known[j].0;
        match remote_state.known(id) {
            Ok(false) => {
                changes.push(RemoteChange::Disappear(id));
            },
            _ => {},
        }
        j = j + 1;
    }
    changes
}

/// The remote changes between the remote contents and the revisions the local
/// index recorded: the state of the live remote contents (see
/// [`remote_state`]) compared with the records (see [`changes_between`]).
pub fn remote_changes(all_remote_contents: &Vec<RemoteContent>, known: &Vec<(ContentId, RevisionId)>) -> (r: Result<Vec<RemoteChange>, SyncError>)
    ensures
        live_contents(all_remote_contents@, all_remote_contents@.len() as int) matches Err(e) ==> r == Err::<Vec<RemoteChange>, SyncError>(e),
        live_contents(all_remote_contents@, all_remote_contents@.len() as int) matches Ok(entries) ==> {
            &&& r is Ok <==> !has_missing_parent(entries)
            &&& r matches Ok(changes) ==> changes@ == remote_changes_of(entries, known@)
        },
{
    let state = remote_state(all_remote_contents)?;
    Ok(changes_between(&state, known))
}

/// The first content named `file_name` under `parent` (none: at the root), if any.
pub open spec fn first_named(all: Seq<RemoteContent>, file_name: Seq<char>, parent: Option<ContentId>) -> Option<ContentId>
    decreases all.len(),
{
    if all.len() == 0 {
        None
    } else if all[0].filename@ == file_name && all[0].parent_id == parent {
        Some(all[0].content_id)
    } else {
        first_named(all.drop_first(), file_name, parent)
    }
}

/// The content that has a name under a parent: see [`first_named`].
pub fn find_one(all: &Vec<RemoteContent>, file_name: &str, parent: Option<ContentId>) -> (r: Option<ContentId>)
    ensures
        r == first_named(all@, file_name@, parent),
{
    let n = all.len();
    let mut i: usize = 0;
    assert(all@.skip(0) =~= all@);
    while i < n
        invariant
            n == all@.len(),
            i <= n,
            first_named(all@, file_name@, parent) == first_named(all@.skip(i as int), file_name@, parent),
        decreases n - i,
    {
        assert(all@.skip(i as int)[0] == all@[i as int]);
        assert(all@.skip(i as int).drop_first() =~= all@.skip(i + 1));
        if all[i].parent_id == parent && crate::text::str_eq(all[i].filename.as_str(), file_name) {
            return Some(all[i].content_id);
        }
        i = i + 1;
    }
    None
}

/// A content whose parent is deleted or archived counts as deleted too.
pub proof fn law_deleted_parent_hides_child(all: Seq<RemoteContent>, child: RemoteContent, parent: RemoteContent)
    requires
        child.parent_id == Some(parent.content_id),
        find_remote(all, parent.content_id) == Some(parent),
        parent.is_deleted || parent.is_archived,
    ensures
        spec_is_deleted(all, child) == Ok::<bool, SyncError>(true),
{
    let fuel = all.len() + 1;
    assert(deleted_along(all, parent, (fuel - 1) as nat) == Ok::<bool, SyncError>(true));
    assert(deleted_along(all, child, fuel) == Ok::<bool, SyncError>(true));
}

proof fn lemma_content_changes_members(contents: Seq<ContentView>, known: Seq<(ContentId, RevisionId)>, n: int, id: ContentId)
    requires
        0 <= n <= contents.len(),
    ensures
        content_changes(contents, known, n).contains(RemoteChange::New(id)) <==> exists|i: int|
            0 <= i < n && #[trigger] contents[i].id == id && known_revision(known, id) is None,
        content_changes(contents, known, n).contains(RemoteChange::Updated(id)) <==> exists|i: int|
            0 <= i < n && #[trigger] contents[i].id == id && (known_revision(known, id) matches Some(r) && r
                != contents[i].revision_id),
        !content_changes(contents, known, n).contains(RemoteChange::Disappear(id)),
    decreases n,
{
    if n > 0 {
        lemma_content_changes_members(contents, known, n - 1, id);
        let previous = content_changes(contents, known, n - 1);
        let cur = content_changes(contents, known, n);
        let c = contents[n - 1];
        assert forall|x: RemoteChange| cur.contains(x) <==> (previous.contains(x) || (cur.len() > previous.len()
            && x == cur.last())) by {
            if cur.len() > previous.len() {
                assert(cur == previous.push(cur.last()));
                if cur.contains(x) {
                    let k = choose|k: int| 0 <= k < cur.len() && cur[k] == x;
                    if k < previous.len() {
                        assert(previous[k] == x);
                    }
                }
                if previous.contains(x) {
                    let k = choose|k: int| 0 <= k < previous.len() && previous[k] == x;
                    assert(cur[k] == x);
                }
                if x == cur.last() {
                    assert(cur[cur.len() - 1] == x);
                }
            } else {
                assert(cur == previous);
            }
        }
        if content_changes(contents, known, n).contains(RemoteChange::New(id)) && !previous.contains(
            RemoteChange::New(id),
        ) {
            assert(contents[n - 1].id == id);
        }
        if content_changes(contents, known, n).contains(RemoteChange::Updated(id)) && !previous.contains(
            RemoteChange::Updated(id),
        ) {
            assert(contents[n - 1].id == id);
        }
        assert((exists|i: int| 0 <= i < n && #[trigger] contents[i].id == id && known_revision(known, id) is None)
            ==> (previous.contains(RemoteChange::New(id)) || (c.id == id && known_revision(known, id) is None)));
        assert((exists|i: int| 0 <= i < n && #[trigger] contents[i].id == id && (known_revision(known, id) matches Some(
            r,
        ) && r != contents[i].revision_id)) ==> (previous.contains(RemoteChange::Updated(id)) || (c.id == id
            && (known_revision(known, id) matches Some(r) && r != c.revision_id))));
    }
}

proof fn lemma_vanished_members(known: Seq<(ContentId, RevisionId)>, entries: Seq<ContentView>, m: int, id: ContentId)
    requires
        0 <= m <= known.len(),
    ensures
        vanished(known, entries, m).contains(RemoteChange::Disappear(id)) <==> (lookup(entries, id) is None
            && exists|j: int| 0 <= j < m && #[trigger] known[j].0 == id),
        !vanished(known, entries, m).contains(RemoteChange::New(id)),
        !vanished(known, entries, m).contains(RemoteChange::Updated(id)),
    decreases m,
{
    if m > 0 {
        lemma_vanished_members(known, entries, m - 1, id);
        let previous = vanished(known, entries, m - 1);
        let cur = vanished(known, entries, m);
        assert forall|x: RemoteChange| cur.contains(x) <==> (previous.contains(x) || (cur.len() > previous.len()
            && x == cur.last())) by {
            if cur.len() > previous.len() {
                assert(cur == previous.push(cur.last()));
                if cur.contains(x) {
                    let k = choose|k: int| 0 <= k < cur.len() && cur[k] == x;
                    if k < previous.len() {
                        assert(previous[k] == x);
                    }
                }
                if previous.contains(x) {
                    let k = choose|k: int| 0 <= k < previous.len() && previous[k] == x;
                    assert(cur[k] == x);
                }
                if x == cur.last() {
                    assert(cur[cur.len() - 1] == x);
                }
            } else {
                assert(cur == previous);
            }
        }
        if lookup(entries, id) is None && (exists|j: int| 0 <= j < m && #[trigger] known[j].0 == id) {
            if !(exists|j: int| 0 <= j < m - 1 && #[trigger] known[j].0 == id) {
                let j = choose|j: int| 0 <= j < m && #[trigger] known[j].0 == id;
                assert(j == m - 1);
            }
        }
    }
}

proof fn lemma_known_revision(known: Seq<(ContentId, RevisionId)>, id: ContentId)
    ensures
        known_revision(known, id) is Some <==> exists|j: int| 0 <= j < known.len() && #[trigger] known[j].0 == id,
    decreases known.len(),
{
    if known.len() > 0 {
        lemma_known_revision(known.drop_first(), id);
        if known[0].0 != id {
            if exists|j: int| 0 <= j < known.len() && #[trigger] known[j].0 == id {
                let j = choose|j: int| 0 <= j < known.len() && #[trigger] known[j].0 == id;
                assert(known.drop_first()[j - 1].0 == id);
            }
            if exists|j: int| 0 <= j < known.drop_first().len() && #[trigger] known.drop_first()[j].0 == id {
                let j = choose|j: int| 0 <= j < known.drop_first().len() && #[trigger] known.drop_first()[j].0 == id;
                assert(known[j + 1].0 == id);
            }
        }
    }
}

proof fn lemma_concat_contains(a: Seq<RemoteChange>, b: Seq<RemoteChange>, x: RemoteChange)
    ensures
        (a + b).contains(x) <==> (a.contains(x) || b.contains(x)),
{
    if (a + b).contains(x) {
        let k = choose|k: int| 0 <= k < (a + b).len() && (a + b)[k] == x;
        if k < a.len() {
            assert(a[k] == x);
        } else {
            assert(b[k - a.len()] == x);
        }
    }
    if a.contains(x) {
        let k = choose|k: int| 0 <= k < a.len() && a[k] == x;
        assert((a + b)[k] == x);
    }
    if b.contains(x) {
        let k = choose|k: int| 0 <= k < b.len() && b[k] == x;
        assert((a + b)[k + a.len()] == x);
    }
}

/// The remote changes say exactly what differs between the live remote
/// contents and the recorded revisions: a content is new when it is live and
/// not recorded, updated when it is live and recorded with another revision,
/// and gone when it is recorded and no longer live.
pub proof fn law_remote_changes_characterised(
    entries: Seq<ContentView>,
    known: Seq<(ContentId, RevisionId)>,
    id: ContentId,
)
    requires
        distinct_ids(entries),
    ensures
        remote_changes_of(entries, known).contains(RemoteChange::New(id)) <==> (lookup(entries, id) is Some
            && known_revision(known, id) is None),
        remote_changes_of(entries, known).contains(RemoteChange::Updated(id)) <==> (lookup(entries, id) matches Some(
            c,
        ) && (known_revision(known, id) matches Some(r) && r != c.revision_id)),
        remote_changes_of(entries, known).contains(RemoteChange::Disappear(id)) <==> (lookup(entries, id) is None
            && known_revision(known, id) is Some),
{
    broadcast use vstd::seq_lib::group_to_multiset_ensures;
    let n = entries.len() as int;
    let ordered = of_kind(entries, true, n) + of_kind(entries, false, n);
    crate::state::law_contents_folders_first(entries);
    let from_contents = content_changes(ordered, known, ordered.len() as int);
    let gone = vanished(known, entries, known.len() as int);
    lemma_content_changes_members(ordered, known, ordered.len() as int, id);
    lemma_vanished_members(known, entries, known.len() as int, id);
    lemma_known_revision(known, id);
    lemma_concat_contains(from_contents, gone, RemoteChange::New(id));
    lemma_concat_contains(from_contents, gone, RemoteChange::Updated(id));
    lemma_concat_contains(from_contents, gone, RemoteChange::Disappear(id));
    lemma_index_of_bounds(entries, id);
    // An element of `ordered` with identifier `id` is the entry looked up for `id`.
    assert forall|i: int| 0 <= i < ordered.len() && #[trigger] ordered[i].id == id implies lookup(entries, id)
        == Some(ordered[i]) by {
        assert(ordered.to_multiset().count(ordered[i]) > 0);
        assert(entries.contains(ordered[i]));
        let k = choose|k: int| 0 <= k < entries.len() && entries[k] == ordered[i];
        lemma_lookup_distinct(entries, k);
    }
    if lookup(entries, id) is Some {
        let k = index_of(entries, id);
        assert(entries.to_multiset().count(entries[k]) > 0);
        assert(ordered.contains(entries[k]));
        let i = choose|i: int| 0 <= i < ordered.len() && ordered[i] == entries[k];
        assert(ordered[i].id == id);
    }
}

} // verus!
