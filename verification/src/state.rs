//! What the synchronisation knows of the contents: identity, revision, name,
//! parent and last seen disk timestamp of each content.

use vstd::prelude::*;
use crate::types::{ContentId, ContentType, DiskTimestamp, RelativeFilePath, RevisionId};
use crate::content::{Content, ContentView, ContentPath, content_views, joined_names};

verus! {

/// Failure to find what a state is asked about.
#[derive(Debug, PartialEq, Eq, Structural, Clone, Copy)]
pub enum StateError {
    /// The content asked about is not known.
    UnknownContent(ContentId),
    /// A parent on the way to the root is not known.
    MissingParent(ContentId),
    /// Following parents from the content never reaches a root.
    ParentLoop(ContentId),
}

/// Position of the first entry with identifier `id`, or `-1`.
pub open spec fn index_of(entries: Seq<ContentView>, id: ContentId) -> int
    decreases entries.len(),
{
    if entries.len() == 0 {
        -1
    } else if entries[0].id == id {
        0
    } else {
        let r = index_of(entries.drop_first(), id);
        if r < 0 {
            -1
        } else {
            r + 1
        }
    }
}

/// The entry with identifier `id`, if any.
pub open spec fn lookup(entries: Seq<ContentView>, id: ContentId) -> Option<ContentView> {
    if index_of(entries, id) >= 0 {
        Some(entries[index_of(entries, id)])
    } else {
        None
    }
}

/// No two entries share an identifier.
pub open spec fn distinct_ids(entries: Seq<ContentView>) -> bool {
    forall|i: int, j: int| 0 <= i < entries.len() && 0 <= j < entries.len() && i != j
        ==> #[trigger] entries[i].id != #[trigger] entries[j].id
}

/// No two timestamps are recorded for one content.
pub open spec fn distinct_keys(timestamps: Seq<(ContentId, DiskTimestamp)>) -> bool {
    forall|i: int, j: int| 0 <= i < timestamps.len() && 0 <= j < timestamps.len() && i != j
        ==> #[trigger] timestamps[i].0 != #[trigger] timestamps[j].0
}

pub proof fn lemma_index_of(entries: Seq<ContentView>, id: ContentId, i: int)
    requires
        -1 <= i < entries.len(),
        i >= 0 ==> entries[i].id == id,
        forall|j: int| 0 <= j < entries.len() && (i < 0 || j < i) ==> entries[j].id != id,
    ensures
        index_of(entries, id) == i,
    decreases entries.len(),
{
    if entries.len() > 0 && i != 0 {
        assert forall|j: int| 0 <= j < entries.drop_first().len() && (i - 1 < 0 || j < i - 1) implies
            entries.drop_first()[j].id != id by {
            assert(entries.drop_first()[j] == entries[j + 1]);
        }
        if i < 0 {
            lemma_index_of(entries.drop_first(), id, -1);
        } else {
            lemma_index_of(entries.drop_first(), id, i - 1);
        }
    }
}

pub proof fn lemma_index_of_bounds(entries: Seq<ContentView>, id: ContentId)
    ensures
        -1 <= index_of(entries, id) < entries.len(),
        index_of(entries, id) >= 0 ==> entries[index_of(entries, id)].id == id,
        index_of(entries, id) < 0 ==> forall|j: int| 0 <= j < entries.len() ==> entries[j].id != id,
    decreases entries.len(),
{
    if entries.len() > 0 && entries[0].id != id {
        lemma_index_of_bounds(entries.drop_first(), id);
        assert forall|j: int| 0 <= j < entries.len() && index_of(entries, id) < 0 implies entries[j].id != id by {
            if j > 0 {
                assert(entries[j] == entries.drop_first()[j - 1]);
            }
        }
    }
}

/// With distinct identifiers, the entry at `i` is the one looked up by its identifier.
pub proof fn lemma_lookup_distinct(entries: Seq<ContentView>, i: int)
    requires
        distinct_ids(entries),
        0 <= i < entries.len(),
    ensures
        index_of(entries, entries[i].id) == i,
        lookup(entries, entries[i].id) == Some(entries[i]),
{
    lemma_index_of(entries, entries[i].id, i);
}

/// The chain of contents from a root down to the content `id`, following
/// parents at most `fuel` times; a missing content is reported as a missing
/// parent.
pub open spec fn chain(entries: Seq<ContentView>, id: ContentId, fuel: nat) -> Result<Seq<ContentView>, StateError>
    decreases fuel,
{
    match lookup(entries, id) {
        None => Err(StateError::MissingParent(id)),
        Some(c) => match c.parent_id {
            None => Ok(seq![c]),
            Some(parent) => if fuel == 0 {
                Err(StateError::ParentLoop(id))
            } else {
                match chain(entries, parent, (fuel - 1) as nat) {
                    Ok(s) => Ok(s.push(c)),
                    Err(e) => Err(e),
                }
            },
        },
    }
}

/// The path of content `id`: the chain from its root down to it, following
/// parents at most as many times as there are contents.
pub open spec fn content_path(entries: Seq<ContentView>, id: ContentId) -> Result<Seq<ContentView>, StateError> {
    if lookup(entries, id) is None {
        Err(StateError::UnknownContent(id))
    } else {
        chain(entries, id, entries.len())
    }
}

/// Whether the parent of `c`, if it has one, is among `entries`.
pub open spec fn parent_known(entries: Seq<ContentView>, c: ContentView) -> bool {
    match c.parent_id {
        Some(p) => lookup(entries, p) is Some,
        None => true,
    }
}

/// Appends `tail` to a successful chain.
pub open spec fn extended(r: Result<Seq<ContentView>, StateError>, tail: Seq<ContentView>) -> Result<Seq<ContentView>, StateError> {
    match r {
        Ok(s) => Ok(s + tail),
        Err(e) => Err(e),
    }
}

/// Mathematical value of a path result.
pub open spec fn path_result_view(r: Result<ContentPath, StateError>) -> Result<Seq<ContentView>, StateError> {
    match r {
        Ok(p) => Ok(p@),
        Err(e) => Err(e),
    }
}

pub proof fn lemma_key_index(timestamps: Seq<(ContentId, DiskTimestamp)>, id: ContentId, i: int)
    requires
        -1 <= i < timestamps.len(),
        i >= 0 ==> timestamps[i].0 == id,
        forall|j: int| 0 <= j < timestamps.len() && (i < 0 || j < i) ==> timestamps[j].0 != id,
    ensures
        key_index(timestamps, id) == i,
    decreases timestamps.len(),
{
    if timestamps.len() > 0 && i != 0 {
        assert forall|j: int| 0 <= j < timestamps.drop_first().len() && (i - 1 < 0 || j < i - 1) implies
            timestamps.drop_first()[j].0 != id by {
            assert(timestamps.drop_first()[j] == timestamps[j + 1]);
        }
        if i < 0 {
            lemma_key_index(timestamps.drop_first(), id, -1);
        } else {
            lemma_key_index(timestamps.drop_first(), id, i - 1);
        }
    }
}

proof fn lemma_outside_of_distinct(entries: Seq<ContentView>, id: ContentId, n: int)
    requires
        distinct_ids(entries),
        0 <= n <= entries.len(),
    ensures
        distinct_ids(outside_of(entries, id, n)),
        forall|x: int| 0 <= x < outside_of(entries, id, n).len() ==> exists|k: int| 0 <= k < n
            && #[trigger] outside_of(entries, id, n)[x] == entries[k],
    decreases n,
{
    if n > 0 {
        lemma_outside_of_distinct(entries, id, n - 1);
        let prev = outside_of(entries, id, n - 1);
        if !descends_from(entries, entries[n - 1], id) {
            let cur = outside_of(entries, id, n);
            assert forall|x: int| 0 <= x < cur.len() implies exists|k: int| 0 <= k < n
                && #[trigger] cur[x] == entries[k] by {
                if x < prev.len() {
                    assert(cur[x] == prev[x]);
                    let k = choose|k: int| 0 <= k < n - 1 && prev[x] == entries[k];
                } else {
                    assert(cur[x] == entries[n - 1]);
                }
            }
            assert forall|a: int, b: int| 0 <= a < cur.len() && 0 <= b < cur.len() && a != b
                implies #[trigger] cur[a].id != #[trigger] cur[b].id by {
                if a < prev.len() && b < prev.len() {
                    assert(cur[a] == prev[a] && cur[b] == prev[b]);
                } else if a < prev.len() {
                    let k = choose|k: int| 0 <= k < n - 1 && prev[a] == entries[k];
                    assert(cur[a] == entries[k]);
                    assert(cur[b] == entries[n - 1]);
                } else {
                    let k = choose|k: int| 0 <= k < n - 1 && prev[b] == entries[k];
                    assert(cur[b] == entries[k]);
                    assert(cur[a] == entries[n - 1]);
                }
            }
        } else {
            assert forall|x: int| 0 <= x < prev.len() implies exists|k: int| 0 <= k < n
                && #[trigger] prev[x] == entries[k] by {
                let k = choose|k: int| 0 <= k < n - 1 && prev[x] == entries[k];
            }
        }
    }
}

/// Contents, and last seen disk timestamps, of the synchronised space, kept in memory.
pub struct MemoryState {
    contents: Vec<Content>,
    timestamps: Vec<(ContentId, DiskTimestamp)>,
}

impl MemoryState {
    /// The contents, in the order they are kept.
    pub closed spec fn entries(&self) -> Seq<ContentView> {
        content_views(self.contents@)
    }

    /// The recorded disk timestamps, in the order they are kept.
    pub closed spec fn timestamps(&self) -> Seq<(ContentId, DiskTimestamp)> {
        self.timestamps@
    }

    /// No identifier occurs twice, among contents or among timestamps.
    pub open spec fn wf(&self) -> bool {
        distinct_ids(self.entries()) && distinct_keys(self.timestamps())
    }

    /// Position of content `id` in the kept contents.
    fn position(&self, id: ContentId) -> (r: Option<usize>)
        ensures
            r matches Some(i) ==> i as int == index_of(self.entries(), id) && i < self.contents@.len(),
            r is None ==> index_of(self.entries(), id) == -1,
    {
        let n = self.contents.len();
        let mut i: usize = 0;
        while i < n
            invariant
                n == self.contents@.len(),
                i <= n,
                forall|j: int| 0 <= j < i ==> self.entries()[j].id != id,
            decreases n - i,
        {
            if self.contents[i].id() == id {
                proof {
                    lemma_index_of(self.entries(), id, i as int);
                }
                return Some(i);
            }
            i = i + 1;
        }
        proof {
            lemma_index_of(self.entries(), id, -1);
        }
        None
    }

    /// A state made of `contents` and `timestamps`, refused when a content's
    /// parent is not among the contents (the first such content, in order,
    /// is reported).
    #[verifier::loop_isolation(false)]
    pub fn new(contents: Vec<Content>, timestamps: Vec<(ContentId, DiskTimestamp)>) -> (r: Result<MemoryState, StateError>)
        requires
            distinct_ids(content_views(contents@)),
            distinct_keys(timestamps@),
        ensures
            r matches Ok(s) ==> s.wf() && s.entries() == content_views(contents@) && s.timestamps() == timestamps@,
            r is Ok <==> (forall|i: int| 0 <= i < contents@.len() ==> parent_known(
                content_views(contents@),
                #[trigger] contents@[i]@,
            )),
            r matches Err(e) ==> exists|i: int| 0 <= i < contents@.len() && (#[trigger] contents@[i]@).parent_id == Some(
                e->MissingParent_0) && lookup(content_views(contents@), e->MissingParent_0) is None && e is MissingParent,
    {
        let ghost views = content_views(contents@);
        let ghost initial = contents@;
        let state = MemoryState { contents, timestamps };
        assert(state.entries() == views);
        let n = state.contents.len();
        let mut i: usize = 0;
        while i < n
            invariant
                n == state.contents@.len(),
                views == state.entries(),
                initial == state.contents@,
                views == content_views(initial),
                i <= n,
                forall|j: int| 0 <= j < i ==> parent_known(state.entries(), #[trigger] state.contents@[j]@),
            decreases n - i,
        {
            let parent = state.contents[i].parent_id();
            if let Some(parent_id) = parent {
                if state.position(parent_id).is_none() {
                    proof {
                        assert(state.contents@[i as int]@.parent_id == Some(parent_id));
                        assert(index_of(views, parent_id) == -1);
                        assert(lookup(views, parent_id) is None);
                        assert(state.entries()[i as int] == state.contents@[i as int]@);
                        assert(!parent_known(views, state.contents@[i as int]@));
                    }
                    return Err(StateError::MissingParent(parent_id));
                }
            }
            i = i + 1;
        }
        Ok(state)
    }

    /// A state that knows nothing.
    pub fn empty() -> (r: MemoryState)
        ensures
            r.wf(),
            r.entries() == Seq::<ContentView>::empty(),
            r.timestamps() == Seq::<(ContentId, DiskTimestamp)>::empty(),
    {
        let r = MemoryState { contents: Vec::new(), timestamps: Vec::new() };
        assert(r.entries() =~= Seq::<ContentView>::empty());
        r
    }

    /// The parent of the first content, in the kept order, whose parent is not
    /// known, if any.
    pub fn first_missing_parent(&self) -> (r: Option<ContentId>)
        ensures
            r is None <==> (forall|i: int| 0 <= i < self.entries().len() ==> parent_known(
                self.entries(),
                #[trigger] self.entries()[i],
            )),
            r matches Some(p) ==> exists|i: int| 0 <= i < self.entries().len() && (#[trigger] self.entries()[i]).parent_id
                == Some(p) && lookup(self.entries(), p) is None,
    {
        let ghost entries = self.entries();
        let n = self.contents.len();
        let mut i: usize = 0;
        while i < n
            invariant
                n == self.contents@.len(),
                entries == self.entries(),
                i <= n,
                forall|j: int| 0 <= j < i ==> parent_known(entries, #[trigger] entries[j]),
            decreases n - i,
        {
            assert(entries[i as int] == self.contents@[i as int]@);
            let parent = self.contents[i].parent_id();
            if let Some(parent_id) = parent {
                if self.position(parent_id).is_none() {
                    assert(!parent_known(entries, entries[i as int]));
                    return Some(parent_id);
                }
            }
            i = i + 1;
        }
        None
    }

    /// Whether content `id` is known.
    pub fn known(&self, id: ContentId) -> (r: Result<bool, StateError>)
        ensures
            r == Ok::<bool, StateError>(lookup(self.entries(), id) is Some),
    {
        Ok(self.position(id).is_some())
    }

    /// Of the contents `before`, those this state does not know, in their order.
    pub fn no_longer_known(&self, before: &Vec<ContentId>) -> (r: Vec<ContentId>)
        ensures
            r@ == before@.filter(|id: ContentId| lookup(self.entries(), id) is None),
    {
        let ghost entries = self.entries();
        let ghost unknown = |id: ContentId| lookup(entries, id) is None;
        let n = before.len();
        let mut out: Vec<ContentId> = Vec::new();
        let mut i: usize = 0;
        proof {
            reveal(Seq::filter);
            assert(before@.take(0) =~= Seq::<ContentId>::empty());
            assert(before@.take(0).filter(unknown) =~= Seq::<ContentId>::empty());
        }
        while i < n
            invariant
                n == before@.len(),
                i <= n,
                entries == self.entries(),
                unknown == (|id: ContentId| lookup(entries, id) is None),
                out@ == before@.take(i as int).filter(unknown),
            decreases n - i,
        {
            let id = before[i];
            let known = self.known(id);
            proof {
                reveal(Seq::filter);
                assert(before@.take(i + 1).drop_last() =~= before@.take(i as int));
                assert(before@.take(i + 1).last() == id);
            }
            if let Ok(false) = known {
                out.push(id);
            }
            i = i + 1;
        }
        proof {
            assert(before@.take(n as int) =~= before@);
        }
        out
    }

    /// Content `id`, if known.
    pub fn get(&self, id: ContentId) -> (r: Result<Option<Content>, StateError>)
        ensures
            r is Ok,
            r matches Ok(Some(c)) ==> lookup(self.entries(), id) == Some(c@),
            r matches Ok(None) ==> lookup(self.entries(), id) is None,
    {
        match self.position(id) {
            Some(i) => Ok(Some(self.contents[i].duplicate())),
            None => Ok(None),
        }
    }

    /// The path of content `id`, built on demand from the parents: see
    /// [`content_path`].
    pub fn path(&self, id: ContentId) -> (r: Result<ContentPath, StateError>)
        ensures
            path_result_view(r) == content_path(self.entries(), id),
    {
        let ghost entries = self.entries();
        let n = self.contents.len();
        let first = match self.position(id) {
            Some(i) => i,
            None => return Err(StateError::UnknownContent(id)),
        };
        let mut current = self.contents[first].duplicate();
        let mut parts: Vec<Content> = vec![current.duplicate()];
        let mut steps: usize = 0;
        proof {
            lemma_index_of_bounds(entries, id);
            assert(entries[first as int] == self.contents@[first as int]@);
            assert(lookup(entries, current@.id) == Some(current@));
            assert(content_views(parts@).drop_first() =~= Seq::<ContentView>::empty());
            assert(entries.len() - 0 == entries.len());
            assert(extended(chain(entries, id, entries.len()), Seq::empty()) == chain(entries, id, entries.len())) by {
                match chain(entries, id, entries.len()) {
                    Ok(s) => { assert(s + Seq::<ContentView>::empty() =~= s); },
                    Err(_) => {},
                }
            }
        }
        while current.parent_id().is_some()
            invariant
                n == self.contents@.len(),
                entries == self.entries(),
                steps <= n,
                content_views(parts@).len() > 0,
                content_views(parts@)[0] == current@,
                lookup(entries, current@.id) == Some(current@),
                content_path(entries, id) == extended(
                    chain(entries, current@.id, (n - steps) as nat),
                    content_views(parts@).drop_first(),
                ),
            decreases n - steps,
        {
            let parent_id = current.parent_id().unwrap();
            if steps == n {
                return Err(StateError::ParentLoop(current.id()));
            }
            let j = match self.position(parent_id) {
                Some(j) => j,
                None => return Err(StateError::MissingParent(parent_id)),
            };
            let parent = self.contents[j].duplicate();
            proof {
                lemma_index_of_bounds(entries, parent_id);
                assert(entries[j as int] == self.contents@[j as int]@);
                assert(lookup(entries, parent_id) == Some(parent@));
            }
            let ghost old_parts = content_views(parts@);
            parts.insert(0, parent.duplicate());
            proof {
                assert(content_views(parts@) =~= seq![parent@] + old_parts);
                assert(content_views(parts@).drop_first() =~= old_parts);
                assert(entries[j as int] == self.contents@[j as int]@);
                let rest = content_views(parts@).drop_first();
                match chain(entries, parent_id, (n - steps - 1) as nat) {
                    Ok(s) => {
                        assert(s.push(current@) + old_parts.drop_first() =~= s + rest);
                    },
                    Err(_) => {},
                }
            }
            current = parent;
            steps = steps + 1;
        }
        proof {
            let rest = content_views(parts@).drop_first();
            assert(seq![current@] + rest =~= content_views(parts@));
        }
        Ok(ContentPath::new(parts))
    }

    /// All contents, folders first, each group in the kept order.
    pub fn contents(&self) -> (r: Result<Vec<Content>, StateError>)
        ensures
            r matches Ok(v) && content_views(v@) == of_kind(self.entries(), true, self.entries().len() as int)
                + of_kind(self.entries(), false, self.entries().len() as int),
    {
        let ghost entries = self.entries();
        let n = self.contents.len();
        let mut folders: Vec<Content> = Vec::new();
        let mut others: Vec<Content> = Vec::new();
        let mut i: usize = 0;
        while i < n
            invariant
                n == self.contents@.len(),
                entries == self.entries(),
                i <= n,
                content_views(folders@) == of_kind(entries, true, i as int),
                content_views(others@) == of_kind(entries, false, i as int),
            decreases n - i,
        {
            let c = self.contents[i].duplicate();
            assert(entries[i as int] == self.contents@[i as int]@);
            let ghost prior_folders = folders@;
            let ghost prior_others = others@;
            if c.type_() == ContentType::Folder {
                folders.push(c);
                assert(content_views(folders@) =~= content_views(prior_folders).push(entries[i as int]));
            } else {
                others.push(c);
                assert(content_views(others@) =~= content_views(prior_others).push(entries[i as int]));
            }
            i = i + 1;
        }
        let ghost f = folders@;
        let ghost o = others@;
        folders.append(&mut others);
        assert(content_views(folders@) =~= content_views(f) + content_views(o));
        Ok(folders)
    }

    /// Identifiers, in the kept order, of the contents whose parent is `content_id`.
    pub fn direct_children_ids(&self, content_id: ContentId) -> (r: Result<Vec<ContentId>, StateError>)
        ensures
            r matches Ok(v) && v@ == children(self.entries(), content_id, self.entries().len() as int),
    {
        let ghost entries = self.entries();
        let n = self.contents.len();
        let mut ids: Vec<ContentId> = Vec::new();
        let mut i: usize = 0;
        while i < n
            invariant
                n == self.contents@.len(),
                entries == self.entries(),
                i <= n,
                ids@ == children(entries, content_id, i as int),
            decreases n - i,
        {
            assert(entries[i as int] == self.contents@[i as int]@);
            if self.contents[i].parent_id() == Some(content_id) {
                ids.push(self.contents[i].id());
            }
            i = i + 1;
        }
        Ok(ids)
    }

    /// The first content, in the kept order, whose path is `path`: see
    /// [`search_path`].
    pub fn content_id_for_path(&self, path: &RelativeFilePath) -> (r: Result<Option<ContentId>, StateError>)
        ensures
            r == search_path(self.entries(), self.entries(), path@),
    {
        let ghost entries = self.entries();
        let n = self.contents.len();
        let mut i: usize = 0;
        assert(entries.skip(0) =~= entries);
        while i < n
            invariant
                n == self.contents@.len(),
                entries == self.entries(),
                i <= n,
                search_path(entries, entries, path@) == search_path(entries, entries.skip(i as int), path@),
            decreases n - i,
        {
            let id = self.contents[i].id();
            assert(entries.skip(i as int)[0] == entries[i as int]);
            assert(entries.skip(i as int).drop_first() =~= entries.skip(i + 1));
            let content_path = self.path(id)?;
            let p = content_path.to_path_buf();
            if p == *path {
                return Ok(Some(id));
            }
            i = i + 1;
        }
        Ok(None)
    }

    /// Forgets content `id` (its timestamp stays recorded); refused when it is
    /// not known.
    pub fn forgot(&mut self, content_id: ContentId) -> (r: Result<(), StateError>)
        requires
            old(self).wf(),
        ensures
            final(self).wf(),
            final(self).timestamps() == old(self).timestamps(),
            index_of(old(self).entries(), content_id) >= 0 ==> r is Ok && final(self).entries() == old(
                self,
            ).entries().remove(index_of(old(self).entries(), content_id)),
            index_of(old(self).entries(), content_id) < 0 ==> r == Err::<(), StateError>(
                StateError::UnknownContent(content_id),
            ) && final(self).entries() == old(self).entries(),
    {
        match self.position(content_id) {
            Some(i) => {
                let ghost before = self.entries();
                self.contents.remove(i);
                assert(self.entries() =~= before.remove(i as int));
                Ok(())
            },
            None => Err(StateError::UnknownContent(content_id)),
        }
    }

    #[verifier::loop_isolation(false)]
    /// Whether `c` lies below `id`.
    fn descends(&self, c: &Content, id: ContentId) -> (r: bool)
        ensures
            r == descends_from(self.entries(), c@, id),
    {
        let ghost entries = self.entries();
        let mut fuel = self.contents.len();
        let mut parent = c.parent_id();
        loop
            invariant
                entries == self.entries(),
                fuel <= self.contents@.len(),
                descends_from(entries, c@, id) == reaches(entries, parent, id, fuel as nat),
            decreases fuel,
        {
            match parent {
                None => return false,
                Some(p) => {
                    if p == id {
                        return true;
                    }
                    if fuel == 0 {
                        return false;
                    }
                    match self.position(p) {
                        None => {
                            return false;
                        },
                        Some(j) => {
                            proof {
                                lemma_index_of_bounds(entries, p);
                                assert(entries[j as int] == self.contents@[j as int]@);
                            }
                            parent = self.contents[j].parent_id();
                            fuel = fuel - 1;
                        },
                    }
                },
            }
        }
    }

    /// Forgets content `content_id` and everything below it: everything below
    /// it is forgotten even when it is not known itself, which is then refused.
    pub fn forgot_with_children(&mut self, content_id: ContentId) -> (r: Result<(), StateError>)
        requires
            old(self).wf(),
        ensures
            final(self).wf(),
            final(self).entries() == forgotten(old(self).entries(), content_id).0,
            final(self).timestamps() == old(self).timestamps(),
            forgotten(old(self).entries(), content_id).1 ==> r is Ok,
            !forgotten(old(self).entries(), content_id).1 ==> r == Err::<(), StateError>(
                StateError::UnknownContent(content_id),
            ),
    {
        let ghost entries = self.entries();
        let n = self.contents.len();
        let mut kept: Vec<Content> = Vec::new();
        let mut i: usize = 0;
        while i < n
            invariant
                n == self.contents@.len(),
                entries == self.entries(),
                i <= n,
                content_views(kept@) == outside_of(entries, content_id, i as int),
            decreases n - i,
        {
            assert(entries[i as int] == self.contents@[i as int]@);
            if !self.descends(&self.contents[i], content_id) {
                let ghost prior = kept@;
                kept.push(self.contents[i].duplicate());
                assert(content_views(kept@) =~= content_views(prior).push(entries[i as int]));
            }
            i = i + 1;
        }
        proof {
            lemma_outside_of_distinct(entries, content_id, n as int);
        }
        self.contents = kept;
        self.forgot(content_id)
    }

    /// Applies a modification: see [`MemoryState::forgot_with_children`],
    /// [`MemoryState::add`] and [`MemoryState::update`].
    pub fn change(&mut self, change: StateModification) -> (r: Result<(), StateError>)
        requires
            old(self).wf(),
        ensures
            final(self).wf(),
            match change {
                StateModification::Forgot(id) => {
                    &&& final(self).entries() == forgotten(old(self).entries(), id).0
                    &&& final(self).timestamps() == old(self).timestamps()
                    &&& (forgotten(old(self).entries(), id).1 ==> r is Ok)
                    &&& (!forgotten(old(self).entries(), id).1 ==> r == Err::<(), StateError>(
                        StateError::UnknownContent(id),
                    ))
                },
                StateModification::Add(content, _, timestamp) => {
                    &&& r is Ok
                    &&& final(self).entries() == upsert(old(self).entries(), content@)
                    &&& final(self).timestamps() == record(old(self).timestamps(), content@.id, timestamp)
                },
                StateModification::Update(id, file_name, revision_id, parent_id, timestamp) => {
                    &&& index_of(old(self).entries(), id) >= 0 ==> r is Ok && final(self).entries() == old(
                        self,
                    ).entries().update(
                        index_of(old(self).entries(), id),
                        ContentView {
                            file_name: file_name@,
                            revision_id,
                            parent_id,
                            ..old(self).entries()[index_of(old(self).entries(), id)]
                        },
                    ) && final(self).timestamps() == record(old(self).timestamps(), id, timestamp)
                    &&& index_of(old(self).entries(), id) < 0 ==> r == Err::<(), StateError>(
                        StateError::UnknownContent(id),
                    ) && final(self).entries() == old(self).entries() && final(self).timestamps() == old(
                        self,
                    ).timestamps()
                },
            },
    {
        match change {
            StateModification::Forgot(content_id) => self.forgot_with_children(content_id),
            StateModification::Add(content, relative_path, timestamp) => self.add(
                content,
                relative_path,
                timestamp,
            ),
            StateModification::Update(content_id, file_name, revision_id, parent_id, timestamp) => self.update(
                content_id,
                file_name,
                revision_id,
                parent_id,
                timestamp,
            ),
        }
    }

    fn record_timestamp(&mut self, content_id: ContentId, timestamp: DiskTimestamp)
        requires
            distinct_keys(old(self).timestamps()),
        ensures
            distinct_keys(final(self).timestamps()),
            final(self).timestamps() == record(old(self).timestamps(), content_id, timestamp),
            final(self).entries() == old(self).entries(),
    {
        let ghost ts = self.timestamps@;
        let ghost before = self.contents@;
        let n = self.timestamps.len();
        let mut i: usize = 0;
        while i < n
            invariant
                n == self.timestamps@.len(),
                ts == self.timestamps@,
                ts == old(self).timestamps(),
                distinct_keys(ts),
                before == self.contents@,
                before == old(self).contents@,
                i <= n,
                forall|j: int| 0 <= j < i ==> ts[j].0 != content_id,
            decreases n - i,
        {
            if self.timestamps[i].0 == content_id {
                proof {
                    lemma_key_index(ts, content_id, i as int);
                }
                self.timestamps.set(i, (content_id, timestamp));
                proof {
                    assert(self.timestamps@ == ts.update(i as int, (content_id, timestamp)));
                    assert(self.contents@ == before);
                    assert(distinct_keys(ts));
                    assert(key_index(ts, content_id) == i);
                    assert(self.timestamps@ == record(ts, content_id, timestamp));
                    assert forall|a: int, b: int| 0 <= a < self.timestamps@.len() && 0 <= b < self.timestamps@.len()
                        && a != b implies #[trigger] self.timestamps@[a].0 != #[trigger] self.timestamps@[b].0 by {
                        assert(ts[a].0 == self.timestamps@[a].0);
                        assert(ts[b].0 == self.timestamps@[b].0);
                        assert(ts[a].0 != ts[b].0);
                    }
                }
                return;
            }
            i = i + 1;
        }
        proof {
            lemma_key_index(ts, content_id, -1);
        }
        self.timestamps.push((content_id, timestamp));
        proof {
            assert(self.contents@ == before);
            assert forall|a: int, b: int| 0 <= a < self.timestamps@.len() && 0 <= b < self.timestamps@.len()
                && a != b implies #[trigger] self.timestamps@[a].0 != #[trigger] self.timestamps@[b].0 by {
                if a < n && b < n {
                    assert(ts[a].0 == self.timestamps@[a].0);
                    assert(ts[b].0 == self.timestamps@[b].0);
                }
            }
        }
    }

    /// Knows `content` (replacing what was known under its identifier) with
    /// its disk timestamp.
    pub fn add(&mut self, content: Content, relative_path: RelativeFilePath, timestamp: DiskTimestamp) -> (r: Result<(), StateError>)
        requires
            old(self).wf(),
        ensures
            r is Ok,
            final(self).wf(),
            final(self).entries() == upsert(old(self).entries(), content@),
            final(self).timestamps() == record(old(self).timestamps(), content@.id, timestamp),
    {
        self.record_timestamp(content.id(), timestamp);
        let ghost before = self.entries();
        match self.position(content.id()) {
            Some(i) => {
                self.contents.set(i, content);
                assert(self.entries() =~= before.update(i as int, content@));
                proof {
                    lemma_index_of_bounds(before, content@.id);
                }
            },
            None => {
                self.contents.push(content);
                assert(self.entries() =~= before.push(content@));
                proof {
                    lemma_index_of_bounds(before, content@.id);
                }
            },
        }
        Ok(())
    }

    /// Gives known content `content_id` a new name, revision, parent and disk
    /// timestamp; refused when it is not known.
    pub fn update(
        &mut self,
        content_id: ContentId,
        file_name: String,
        revision_id: RevisionId,
        parent_id: Option<ContentId>,
        timestamp: DiskTimestamp,
    ) -> (r: Result<(), StateError>)
        requires
            old(self).wf(),
        ensures
            final(self).wf(),
            index_of(old(self).entries(), content_id) >= 0 ==> r is Ok && final(self).entries() == old(
                self,
            ).entries().update(
                index_of(old(self).entries(), content_id),
                ContentView {
                    file_name: file_name@,
                    revision_id,
                    parent_id,
                    ..old(self).entries()[index_of(old(self).entries(), content_id)]
                },
            ) && final(self).timestamps() == record(old(self).timestamps(), content_id, timestamp),
            index_of(old(self).entries(), content_id) < 0 ==> r == Err::<(), StateError>(
                StateError::UnknownContent(content_id),
            ) && final(self).entries() == old(self).entries() && final(self).timestamps() == old(
                self,
            ).timestamps(),
    {
        let i = match self.position(content_id) {
            Some(i) => i,
            None => return Err(StateError::UnknownContent(content_id)),
        };
        let ghost before = self.entries();
        let mut content = self.contents[i].duplicate();
        content.set_revision_id(revision_id);
        content.set_parent_id(parent_id);
        content.set_file_name(file_name);
        assert(before[i as int] == self.contents@[i as int]@);
        self.contents.set(i, content);
        proof {
            lemma_index_of_bounds(before, content_id);
            assert(self.entries() =~= before.update(
                i as int,
                ContentView { file_name: file_name@, revision_id, parent_id, ..before[i as int] },
            ));
            assert forall|a: int, b: int| 0 <= a < self.entries().len() && 0 <= b < self.entries().len()
                && a != b implies #[trigger] self.entries()[a].id != #[trigger] self.entries()[b].id by {
                assert(before[a].id == self.entries()[a].id);
                assert(before[b].id == self.entries()[b].id);
            }
        }
        self.record_timestamp(content_id, timestamp);
        Ok(())
    }
}


/// The entries among the first `n` that are folders (or that are not).
pub open spec fn of_kind(entries: Seq<ContentView>, folders: bool, n: int) -> Seq<ContentView>
    decreases n,
{
    if n <= 0 {
        Seq::empty()
    } else if (entries[n - 1].type_ == ContentType::Folder) == folders {
        of_kind(entries, folders, n - 1).push(entries[n - 1])
    } else {
        of_kind(entries, folders, n - 1)
    }
}

/// Identifiers, in order, of the entries among the first `n` whose parent is `id`.
pub open spec fn children(entries: Seq<ContentView>, id: ContentId, n: int) -> Seq<ContentId>
    decreases n,
{
    if n <= 0 {
        Seq::empty()
    } else if entries[n - 1].parent_id == Some(id) {
        children(entries, id, n - 1).push(entries[n - 1].id)
    } else {
        children(entries, id, n - 1)
    }
}

/// Looks for the first of `candidates` whose path (in `all`) is `path`; the
/// first candidate whose path cannot be built stops the search with its error.
pub open spec fn search_path(all: Seq<ContentView>, candidates: Seq<ContentView>, path: Seq<char>) -> Result<Option<ContentId>, StateError>
    decreases candidates.len(),
{
    if candidates.len() == 0 {
        Ok(None)
    } else {
        match content_path(all, candidates[0].id) {
            Err(e) => Err(e),
            Ok(parts) => if joined_names(parts) == path {
                Ok(Some(candidates[0].id))
            } else {
                search_path(all, candidates.drop_first(), path)
            },
        }
    }
}

/// Position of the timestamp recorded for `id`, or `-1`.
pub open spec fn key_index(timestamps: Seq<(ContentId, DiskTimestamp)>, id: ContentId) -> int
    decreases timestamps.len(),
{
    if timestamps.len() == 0 {
        -1
    } else if timestamps[0].0 == id {
        0
    } else {
        let r = key_index(timestamps.drop_first(), id);
        if r < 0 {
            -1
        } else {
            r + 1
        }
    }
}

/// `timestamps` where `id` is recorded with `timestamp` (replacing what was recorded).
pub open spec fn record(timestamps: Seq<(ContentId, DiskTimestamp)>, id: ContentId, timestamp: DiskTimestamp) -> Seq<(ContentId, DiskTimestamp)> {
    if key_index(timestamps, id) >= 0 {
        timestamps.update(key_index(timestamps, id), (id, timestamp))
    } else {
        timestamps.push((id, timestamp))
    }
}

/// `entries` where `c` replaces the entry with its identifier, or is appended.
pub open spec fn upsert(entries: Seq<ContentView>, c: ContentView) -> Seq<ContentView> {
    if index_of(entries, c.id) >= 0 {
        entries.update(index_of(entries, c.id), c)
    } else {
        entries.push(c)
    }
}

/// Whether following parents, starting from `parent` (at most `fuel` times
/// beyond it), reaches `id`.
pub open spec fn reaches(entries: Seq<ContentView>, parent: Option<ContentId>, id: ContentId, fuel: nat) -> bool
    decreases fuel,
{
    match parent {
        None => false,
        Some(p) => p == id || (fuel > 0 && match lookup(entries, p) {
            Some(pc) => reaches(entries, pc.parent_id, id, (fuel - 1) as nat),
            None => false,
        }),
    }
}

/// Whether `c` lies below `id`: following its parents reaches `id`.
pub open spec fn descends_from(entries: Seq<ContentView>, c: ContentView, id: ContentId) -> bool {
    reaches(entries, c.parent_id, id, entries.len())
}

/// The entries among the first `n` that do not lie below `id`.
pub open spec fn outside_of(entries: Seq<ContentView>, id: ContentId, n: int) -> Seq<ContentView>
    decreases n,
{
    if n <= 0 {
        Seq::empty()
    } else if !descends_from(entries, entries[n - 1], id) {
        outside_of(entries, id, n - 1).push(entries[n - 1])
    } else {
        outside_of(entries, id, n - 1)
    }
}

/// Forgetting `id` with everything below it: the entries left, and whether
/// `id` itself was known (everything below it is forgotten either way).
pub open spec fn forgotten(entries: Seq<ContentView>, id: ContentId) -> (Seq<ContentView>, bool) {
    let kept = outside_of(entries, id, entries.len() as int);
    if index_of(kept, id) >= 0 {
        (kept.remove(index_of(kept, id)), true)
    } else {
        (kept, false)
    }
}

/// Mathematical value of an optional content.
pub open spec fn option_content_view(o: Option<Content>) -> Option<ContentView> {
    match o {
        Some(c) => Some(c@),
        None => None,
    }
}

/// A change to apply to a state.
#[derive(Debug)]
pub enum StateModification {
    /// Forget a content and everything below it.
    Forgot(ContentId),
    /// Know a content, found at a path, with its disk timestamp.
    Add(Content, RelativeFilePath, DiskTimestamp),
    /// New name, revision, parent and disk timestamp of a known content.
    Update(ContentId, String, RevisionId, Option<ContentId>, DiskTimestamp),
}


proof fn lemma_chain_shape(entries: Seq<ContentView>, id: ContentId, fuel: nat)
    requires
        chain(entries, id, fuel) is Ok,
    ensures
        ({
            let parts = chain(entries, id, fuel)->Ok_0;
            &&& parts.len() > 0
            &&& parts.last().id == id
            &&& lookup(entries, id) == Some(parts.last())
            &&& parts[0].parent_id is None
            &&& forall|k: int| 0 <= k < parts.len() - 1 ==> #[trigger] parts[k + 1].parent_id == Some(parts[k].id)
        }),
    decreases fuel,
{
    lemma_index_of_bounds(entries, id);
    let c = lookup(entries, id)->Some_0;
    if let Some(parent) = c.parent_id {
        lemma_chain_shape(entries, parent, (fuel - 1) as nat);
        let s = chain(entries, parent, (fuel - 1) as nat)->Ok_0;
        let parts = s.push(c);
        assert forall|k: int| 0 <= k < parts.len() - 1 implies #[trigger] parts[k + 1].parent_id == Some(parts[k].id) by {
            if k < s.len() - 1 {
                assert(parts[k + 1] == s[k + 1] && parts[k] == s[k]);
            } else {
                assert(parts[k] == s.last());
            }
        }
    }
}

/// A path found for a content runs from a root content (without parent) down
/// to that content, each content being the parent of the next one.
pub proof fn law_path_runs_from_root(entries: Seq<ContentView>, id: ContentId)
    requires
        content_path(entries, id) is Ok,
    ensures
        ({
            let parts = content_path(entries, id)->Ok_0;
            &&& parts.len() > 0
            &&& parts.last().id == id
            &&& lookup(entries, id) == Some(parts.last())
            &&& parts[0].parent_id is None
            &&& forall|k: int| 0 <= k < parts.len() - 1 ==> #[trigger] parts[k + 1].parent_id == Some(parts[k].id)
        }),
{
    lemma_chain_shape(entries, id, entries.len());
}

/// Once added, a content is what the state gives back for its identifier, and
/// every other content is unchanged.
pub proof fn law_add_then_get(entries: Seq<ContentView>, c: ContentView, other: ContentId)
    requires
        distinct_ids(entries),
    ensures
        lookup(upsert(entries, c), c.id) == Some(c),
        other != c.id ==> lookup(upsert(entries, c), other) == lookup(entries, other),
        distinct_ids(upsert(entries, c)),
{
    lemma_index_of_bounds(entries, c.id);
    lemma_index_of_bounds(entries, other);
    let after = upsert(entries, c);
    if index_of(entries, c.id) >= 0 {
        let i = index_of(entries, c.id);
        assert forall|a: int, b: int| 0 <= a < after.len() && 0 <= b < after.len() && a != b
            implies #[trigger] after[a].id != #[trigger] after[b].id by {
            assert(after[a].id == entries[a].id && after[b].id == entries[b].id);
        }
        lemma_lookup_distinct(after, i);
        if other != c.id {
            if index_of(entries, other) >= 0 {
                lemma_lookup_distinct(entries, index_of(entries, other));
                lemma_lookup_distinct(after, index_of(entries, other));
            } else {
                assert forall|j: int| 0 <= j < after.len() implies after[j].id != other by {
                    assert(after[j].id == entries[j].id);
                }
                lemma_index_of(after, other, -1);
            }
        }
    } else {
        assert forall|a: int, b: int| 0 <= a < after.len() && 0 <= b < after.len() && a != b
            implies #[trigger] after[a].id != #[trigger] after[b].id by {
            if a < entries.len() && b < entries.len() {
                assert(after[a] == entries[a] && after[b] == entries[b]);
            } else if a < entries.len() {
                assert(after[a] == entries[a]);
            } else {
                assert(after[b] == entries[b]);
            }
        }
        lemma_lookup_distinct(after, entries.len() as int);
        if other != c.id {
            if index_of(entries, other) >= 0 {
                lemma_lookup_distinct(entries, index_of(entries, other));
                lemma_lookup_distinct(after, index_of(entries, other));
            } else {
                assert forall|j: int| 0 <= j < after.len() implies after[j].id != other by {
                    if j < entries.len() {
                        assert(after[j] == entries[j]);
                    }
                }
                lemma_index_of(after, other, -1);
            }
        }
    }
}

/// After forgetting a content with its children, neither it nor anything that
/// lay below it is known.
pub proof fn law_forgotten_is_unknown(entries: Seq<ContentView>, id: ContentId, x: int)
    requires
        distinct_ids(entries),
        0 <= x < forgotten(entries, id).0.len(),
    ensures
        forgotten(entries, id).0[x].id != id,
        !descends_from(entries, forgotten(entries, id).0[x], id),
        lookup(forgotten(entries, id).0, id) is None,
{
    let kept = outside_of(entries, id, entries.len() as int);
    lemma_outside_of_distinct(entries, id, entries.len() as int);
    lemma_outside_of_members(entries, id, entries.len() as int);
    lemma_index_of_bounds(kept, id);
    let after = forgotten(entries, id).0;
    if index_of(kept, id) >= 0 {
        let i = index_of(kept, id);
        assert forall|j: int| 0 <= j < after.len() implies after[j].id != id by {
            if j < i {
                assert(after[j] == kept[j]);
                assert(kept[j].id != kept[i].id);
            } else {
                assert(after[j] == kept[j + 1]);
                assert(kept[j + 1].id != kept[i].id);
            }
        }
        if x < i {
            assert(after[x] == kept[x]);
        } else {
            assert(after[x] == kept[x + 1]);
        }
    } else {
        assert(after == kept);
    }
    lemma_index_of(after, id, -1);
}

proof fn lemma_outside_of_members(entries: Seq<ContentView>, id: ContentId, n: int)
    requires
        0 <= n <= entries.len(),
    ensures
        forall|x: int| 0 <= x < outside_of(entries, id, n).len() ==> !descends_from(
            entries,
            #[trigger] outside_of(entries, id, n)[x],
            id,
        ),
    decreases n,
{
    if n > 0 {
        lemma_outside_of_members(entries, id, n - 1);
        let prev = outside_of(entries, id, n - 1);
        let cur = outside_of(entries, id, n);
        assert forall|x: int| 0 <= x < cur.len() implies !descends_from(entries, #[trigger] cur[x], id) by {
            if x < prev.len() {
                assert(cur[x] == prev[x]);
            }
        }
    }
}
proof fn lemma_outside_of_keeps(entries: Seq<ContentView>, id: ContentId, n: int, k: int)
    requires
        0 <= k < n <= entries.len(),
        !descends_from(entries, entries[k], id),
    ensures
        exists|x: int| 0 <= x < outside_of(entries, id, n).len() && #[trigger] outside_of(entries, id, n)[x]
            == entries[k],
    decreases n,
{
    let prev = outside_of(entries, id, n - 1);
    let cur = outside_of(entries, id, n);
    if k == n - 1 {
        assert(cur == prev.push(entries[k]));
        assert(cur[prev.len() as int] == entries[k]);
    } else {
        lemma_outside_of_keeps(entries, id, n - 1, k);
        let x = choose|x: int| 0 <= x < prev.len() && #[trigger] prev[x] == entries[k];
        assert(cur[x] == prev[x]);
    }
}

/// Forgetting a content with its children keeps every other content as it
/// was: whatever is neither that content nor below it is still known, and
/// unchanged.
pub proof fn law_forgotten_keeps_the_rest(entries: Seq<ContentView>, id: ContentId, k: int)
    requires
        distinct_ids(entries),
        0 <= k < entries.len(),
        entries[k].id != id,
        !descends_from(entries, entries[k], id),
    ensures
        lookup(forgotten(entries, id).0, entries[k].id) == Some(entries[k]),
{
    let n = entries.len() as int;
    let kept = outside_of(entries, id, n);
    lemma_outside_of_distinct(entries, id, n);
    lemma_outside_of_keeps(entries, id, n, k);
    let x = choose|x: int| 0 <= x < kept.len() && #[trigger] kept[x] == entries[k];
    lemma_index_of_bounds(kept, id);
    let after = forgotten(entries, id).0;
    if index_of(kept, id) >= 0 {
        let i = index_of(kept, id);
        assert(x != i);
        let pos = if x < i { x } else { x - 1 };
        assert(after[pos] == entries[k]);
        assert(distinct_ids(after)) by {
            assert forall|a: int, b: int| 0 <= a < after.len() && 0 <= b < after.len() && a != b implies #[trigger] after[a].id
                != #[trigger] after[b].id by {
                let ka = if a < i { a } else { a + 1 };
                let kb = if b < i { b } else { b + 1 };
                assert(after[a] == kept[ka]);
                assert(after[b] == kept[kb]);
            }
        }
        lemma_lookup_distinct(after, pos);
    } else {
        assert(after == kept);
        lemma_lookup_distinct(after, x);
    }
}

proof fn lemma_of_kind(entries: Seq<ContentView>, n: int)
    requires
        0 <= n <= entries.len(),
    ensures
        (of_kind(entries, true, n) + of_kind(entries, false, n)).to_multiset() =~= entries.take(n).to_multiset(),
        forall|i: int| 0 <= i < of_kind(entries, true, n).len() ==> (#[trigger] of_kind(entries, true, n)[i]).type_
            == ContentType::Folder,
        forall|i: int| 0 <= i < of_kind(entries, false, n).len() ==> (#[trigger] of_kind(entries, false, n)[i]).type_
            != ContentType::Folder,
    decreases n,
{
    broadcast use vstd::seq_lib::group_to_multiset_ensures;
    if n == 0 {
        assert(entries.take(0) =~= Seq::<ContentView>::empty());
        assert(of_kind(entries, true, 0) + of_kind(entries, false, 0) =~= Seq::<ContentView>::empty());
    } else {
        lemma_of_kind(entries, n - 1);
        let f = of_kind(entries, true, n - 1);
        let o = of_kind(entries, false, n - 1);
        let e = entries[n - 1];
        assert(entries.take(n) =~= entries.take(n - 1).push(e));
        vstd::seq_lib::lemma_multiset_commutative(f, o);
        if e.type_ == ContentType::Folder {
            vstd::seq_lib::lemma_multiset_commutative(f.push(e), o);
            assert(of_kind(entries, true, n) == f.push(e));
            assert forall|i: int| 0 <= i < f.push(e).len() implies (#[trigger] f.push(e)[i]).type_
                == ContentType::Folder by {
                if i < f.len() {
                    assert(f.push(e)[i] == f[i]);
                }
            }
        } else {
            vstd::seq_lib::lemma_multiset_commutative(f, o.push(e));
            assert(of_kind(entries, false, n) == o.push(e));
            assert forall|i: int| 0 <= i < o.push(e).len() implies (#[trigger] o.push(e)[i]).type_
                != ContentType::Folder by {
                if i < o.len() {
                    assert(o.push(e)[i] == o[i]);
                }
            }
        }
    }
}

/// The contents of a state, as [`MemoryState::contents`] gives them, are
/// all the known contents, each once, folders first.
pub proof fn law_contents_folders_first(entries: Seq<ContentView>)
    ensures
        ({
            let all = of_kind(entries, true, entries.len() as int) + of_kind(
                entries,
                false,
                entries.len() as int,
            );
            &&& all.to_multiset() =~= entries.to_multiset()
            &&& forall|i: int, j: int|
                0 <= i < j < all.len() && all[j].type_ == ContentType::Folder ==> all[i].type_
                    == ContentType::Folder
        }),
{
    let n = entries.len() as int;
    lemma_of_kind(entries, n);
    assert(entries.take(n) =~= entries);
    let f = of_kind(entries, true, n);
    let o = of_kind(entries, false, n);
    let all = f + o;
    assert forall|i: int, j: int| 0 <= i < j < all.len() && all[j].type_ == ContentType::Folder implies all[i].type_
        == ContentType::Folder by {
        if j >= f.len() {
            assert(all[j] == o[j - f.len()]);
        }
        assert(all[i] == f[i]);
    }
}

} // verus!
