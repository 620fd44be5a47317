//! No content appears twice among the remote changes.

use vstd::prelude::*;
use crate::types::{ContentId, ContentType, RevisionId};
use crate::content::ContentView;
use crate::state::{of_kind, distinct_ids, lookup, lemma_lookup_distinct, lemma_index_of_bounds};
use crate::sync::remote::{RemoteChange, content_changes, vanished, remote_changes_of};

verus! {

/// The content a remote change is about.
pub open spec fn change_id(c: RemoteChange) -> ContentId {
    match c {
        RemoteChange::New(id) => id,
        RemoteChange::Disappear(id) => id,
        RemoteChange::Updated(id) => id,
    }
}

/// Whether no two changes are about the same content.
pub open spec fn ids_once(changes: Seq<RemoteChange>) -> bool {
    forall|i: int, j: int| 0 <= i < j < changes.len() ==> change_id(#[trigger] changes[i]) != change_id(#[trigger] changes[j])
}

/// Whether no content is recorded twice.
pub open spec fn recorded_once(known: Seq<(ContentId, RevisionId)>) -> bool {
    forall|i: int, j: int| 0 <= i < j < known.len() ==> (#[trigger] known[i]).0 != (#[trigger] known[j]).0
}

proof fn lemma_of_kind_from(entries: Seq<ContentView>, folders: bool, n: int)
    requires
        0 <= n <= entries.len(),
        distinct_ids(entries),
    ensures
        forall|i: int| 0 <= i < of_kind(entries, folders, n).len() ==> exists|k: int|
            0 <= k < n && #[trigger] of_kind(entries, folders, n)[i] == entries[k],
        distinct_ids(of_kind(entries, folders, n)),
        forall|i: int| 0 <= i < of_kind(entries, folders, n).len() ==> ((#[trigger] of_kind(entries, folders, n)[i]).type_
            == ContentType::Folder) == folders,
    decreases n,
{
    if n > 0 {
        lemma_of_kind_from(entries, folders, n - 1);
        let previous = of_kind(entries, folders, n - 1);
        let now = of_kind(entries, folders, n);
        assert forall|i: int| 0 <= i < now.len() implies exists|k: int| 0 <= k < n && #[trigger] now[i] == entries[k] by {
            if i < previous.len() {
                assert(now[i] == previous[i]);
            } else {
                assert(now[i] == entries[n - 1]);
            }
        }
        assert forall|i: int| 0 <= i < now.len() implies ((#[trigger] now[i]).type_ == ContentType::Folder) == folders by {
            if i < previous.len() {
                assert(now[i] == previous[i]);
            }
        }
        if now.len() > previous.len() {
            assert forall|i: int, j: int| 0 <= i < now.len() && 0 <= j < now.len() && i != j implies #[trigger] now[i].id
                != #[trigger] now[j].id by {
                if i < previous.len() && j < previous.len() {
                    assert(now[i] == previous[i] && now[j] == previous[j]);
                } else if i < previous.len() {
                    assert(now[i] == previous[i]);
                    let k = choose|k: int| 0 <= k < n - 1 && #[trigger] previous[i] == entries[k];
                    assert(now[j] == entries[n - 1]);
                } else {
                    assert(now[j] == previous[j]);
                    let k = choose|k: int| 0 <= k < n - 1 && #[trigger] previous[j] == entries[k];
                    assert(now[i] == entries[n - 1]);
                }
            }
        }
    }
}

proof fn lemma_content_changes_once(contents: Seq<ContentView>, known: Seq<(ContentId, RevisionId)>, n: int)
    requires
        0 <= n <= contents.len(),
        distinct_ids(contents),
    ensures
        forall|i: int| 0 <= i < content_changes(contents, known, n).len() ==> exists|k: int|
            0 <= k < n && change_id(#[trigger] content_changes(contents, known, n)[i]) == contents[k].id,
        ids_once(content_changes(contents, known, n)),
    decreases n,
{
    if n > 0 {
        lemma_content_changes_once(contents, known, n - 1);
        let previous = content_changes(contents, known, n - 1);
        let now = content_changes(contents, known, n);
        assert forall|i: int| 0 <= i < now.len() implies exists|k: int|
            0 <= k < n && change_id(#[trigger] now[i]) == contents[k].id by {
            if i < previous.len() {
                assert(now[i] == previous[i]);
            } else {
                assert(change_id(now[i]) == contents[n - 1].id);
            }
        }
        assert forall|i: int, j: int| 0 <= i < j < now.len() implies change_id(#[trigger] now[i]) != change_id(
            #[trigger] now[j],
        ) by {
            assert(now[i] == previous[i]);
            if j < previous.len() {
                assert(now[j] == previous[j]);
            } else {
                let k = choose|k: int| 0 <= k < n - 1 && change_id(#[trigger] previous[i]) == contents[k].id;
                assert(change_id(now[j]) == contents[n - 1].id);
            }
        }
    }
}

proof fn lemma_vanished_once(known: Seq<(ContentId, RevisionId)>, entries: Seq<ContentView>, m: int)
    requires
        0 <= m <= known.len(),
        recorded_once(known),
    ensures
        forall|i: int| 0 <= i < vanished(known, entries, m).len() ==> lookup(
            entries,
            change_id(#[trigger] vanished(known, entries, m)[i]),
        ) is None && exists|k: int| 0 <= k < m && change_id(vanished(known, entries, m)[i]) == known[k].0,
        ids_once(vanished(known, entries, m)),
    decreases m,
{
    if m > 0 {
        lemma_vanished_once(known, entries, m - 1);
        let previous = vanished(known, entries, m - 1);
        let now = vanished(known, entries, m);
        assert forall|i: int| 0 <= i < now.len() implies lookup(entries, change_id(#[trigger] now[i])) is None
            && exists|k: int| 0 <= k < m && change_id(now[i]) == known[k].0 by {
            if i < previous.len() {
                assert(now[i] == previous[i]);
            } else {
                assert(change_id(now[i]) == known[m - 1].0);
            }
        }
        assert forall|i: int, j: int| 0 <= i < j < now.len() implies change_id(#[trigger] now[i]) != change_id(
            #[trigger] now[j],
        ) by {
            assert(now[i] == previous[i]);
            if j < previous.len() {
                assert(now[j] == previous[j]);
            } else {
                let k = choose|k: int| 0 <= k < m - 1 && change_id(previous[i]) == known[k].0;
                assert(change_id(now[j]) == known[m - 1].0);
            }
        }
    }
}

/// No content appears twice among the remote changes: when the live contents
/// have distinct identifiers and no content is recorded twice, each content
/// is new, updated or gone at most once.
pub proof fn law_remote_changes_once(entries: Seq<ContentView>, known: Seq<(ContentId, RevisionId)>)
    requires
        distinct_ids(entries),
        recorded_once(known),
    ensures
        ids_once(remote_changes_of(entries, known)),
{
    let n = entries.len() as int;
    let folders = of_kind(entries, true, n);
    let others = of_kind(entries, false, n);
    let ordered = folders + others;
    lemma_of_kind_from(entries, true, n);
    lemma_of_kind_from(entries, false, n);
    assert forall|i: int, j: int| 0 <= i < ordered.len() && 0 <= j < ordered.len() && i != j implies #[trigger] ordered[i].id
        != #[trigger] ordered[j].id by {
        if i < folders.len() && j < folders.len() {
            assert(ordered[i] == folders[i] && ordered[j] == folders[j]);
        } else if i >= folders.len() && j >= folders.len() {
            assert(ordered[i] == others[i - folders.len()] && ordered[j] == others[j - folders.len()]);
        } else {
            let (f, o) = if i < folders.len() { (i, j - folders.len()) } else { (j, i - folders.len()) };
            assert(ordered[i].id == ordered[j].id ==> folders[f].id == others[o].id);
            let a = choose|k: int| 0 <= k < n && #[trigger] folders[f] == entries[k];
            let b = choose|k: int| 0 <= k < n && #[trigger] others[o] == entries[k];
            assert(folders[f].type_ == ContentType::Folder);
            assert(others[o].type_ != ContentType::Folder);
        }
    }
    let from_contents = content_changes(ordered, known, ordered.len() as int);
    let gone = vanished(known, entries, known.len() as int);
    lemma_content_changes_once(ordered, known, ordered.len() as int);
    lemma_vanished_once(known, entries, known.len() as int);
    let all = from_contents + gone;
    assert(remote_changes_of(entries, known) == all);
    assert forall|i: int, j: int| 0 <= i < j < all.len() implies change_id(#[trigger] all[i]) != change_id(
        #[trigger] all[j],
    ) by {
        if j < from_contents.len() {
            assert(all[i] == from_contents[i] && all[j] == from_contents[j]);
        } else if i >= from_contents.len() {
            assert(all[i] == gone[i - from_contents.len()] && all[j] == gone[j - from_contents.len()]);
        } else {
            assert(all[i] == from_contents[i] && all[j] == gone[j - from_contents.len()]);
            let k = choose|k: int| 0 <= k < ordered.len() && change_id(#[trigger] from_contents[i]) == ordered[k].id;
            let e = if k < folders.len() { folders[k] } else { others[k - folders.len()] };
            assert(ordered[k] == e);
            let a = if k < folders.len() {
                choose|a: int| 0 <= a < n && #[trigger] folders[k] == entries[a]
            } else {
                choose|a: int| 0 <= a < n && #[trigger] others[k - folders.len()] == entries[a]
            };
            lemma_lookup_distinct(entries, a);
            assert(lookup(entries, change_id(gone[j - from_contents.len()])) is None);
        }
    }
}

} // verus!
