//! Walking up the parents of a remote content: what decides whether it
//! counts as deleted.

use vstd::prelude::*;
use vstd::set_lib::{set_int_range, lemma_int_range, lemma_map_size, lemma_len_subset};
use crate::types::ContentId;
use crate::sync::remote::{RemoteContent, SyncError, find_remote, deleted_along, spec_is_deleted};

verus! {

/// Whether a remote content is deleted or archived itself.
pub open spec fn dead(r: RemoteContent) -> bool {
    r.is_deleted || r.is_archived
}

/// The content reached from `content` by following `k` parents, each looked
/// up among `all`; none once a content has no parent or its parent is missing.
pub open spec fn ancestor(all: Seq<RemoteContent>, content: RemoteContent, k: nat) -> Option<RemoteContent>
    decreases k,
{
    if k == 0 {
        Some(content)
    } else {
        match content.parent_id {
            None => None,
            Some(p) => match find_remote(all, p) {
                None => None,
                Some(q) => ancestor(all, q, (k - 1) as nat),
            },
        }
    }
}

/// Whether walking up the parents of `content` never comes back to a content
/// already met.
pub open spec fn walk_is_acyclic(all: Seq<RemoteContent>, content: RemoteContent) -> bool {
    forall|i: nat, j: nat|
        i < j && #[trigger] ancestor(all, content, i) is Some && #[trigger] ancestor(all, content, j) is Some
            ==> ancestor(all, content, i)->Some_0.content_id != ancestor(all, content, j)->Some_0.content_id
}

/// Whether walking up from `content` meets a deleted or archived content.
pub open spec fn reaches_dead(all: Seq<RemoteContent>, content: RemoteContent) -> bool {
    exists|k: nat| #[trigger] ancestor(all, content, k) is Some && dead(ancestor(all, content, k)->Some_0)
}

/// Whether walking up from `content` meets a content without parent.
pub open spec fn reaches_root(all: Seq<RemoteContent>, content: RemoteContent) -> bool {
    exists|k: nat| #[trigger] ancestor(all, content, k) is Some && ancestor(all, content, k)->Some_0.parent_id is None
}

/// Whether walking up from `content` meets a content whose parent is missing.
pub open spec fn reaches_missing(all: Seq<RemoteContent>, content: RemoteContent) -> bool {
    exists|k: nat|
        #[trigger] ancestor(all, content, k) is Some && (ancestor(all, content, k)->Some_0.parent_id matches Some(p)
            && find_remote(all, p) is None)
}

spec fn dead_within(all: Seq<RemoteContent>, content: RemoteContent, f: nat) -> bool {
    exists|k: nat| k <= f && #[trigger] ancestor(all, content, k) is Some && dead(ancestor(all, content, k)->Some_0)
}

spec fn root_within(all: Seq<RemoteContent>, content: RemoteContent, f: nat) -> bool {
    exists|k: nat|
        k <= f && #[trigger] ancestor(all, content, k) is Some && ancestor(all, content, k)->Some_0.parent_id is None
}

spec fn missing_within(all: Seq<RemoteContent>, content: RemoteContent, f: nat) -> bool {
    exists|k: nat|
        k < f && #[trigger] ancestor(all, content, k) is Some && (ancestor(all, content, k)->Some_0.parent_id matches Some(
            p,
        ) && find_remote(all, p) is None)
}

proof fn lemma_deleted_along_walk(all: Seq<RemoteContent>, cur: RemoteContent, f: nat)
    ensures
        (deleted_along(all, cur, f) == Ok::<bool, SyncError>(true)) == dead_within(all, cur, f),
        (deleted_along(all, cur, f) == Ok::<bool, SyncError>(false)) == (!dead_within(all, cur, f) && root_within(
            all,
            cur,
            f,
        )),
        (deleted_along(all, cur, f) matches Err(SyncError::MissingParent(_, _))) == (!dead_within(all, cur, f)
            && !root_within(all, cur, f) && missing_within(all, cur, f)),
        deleted_along(all, cur, f) matches Err(e) ==> e is MissingParent || e is ParentLoop,
        deleted_along(all, cur, f) matches Err(SyncError::ParentLoop(_)) ==> ancestor(all, cur, f) is Some,
    decreases f,
{
    assert(ancestor(all, cur, 0) == Some(cur));
    if dead(cur) {
        assert(dead_within(all, cur, f));
    } else {
        match cur.parent_id {
            None => {
                assert(root_within(all, cur, f));
                assert(!dead_within(all, cur, f)) by {
                    if dead_within(all, cur, f) {
                        let k = choose|k: nat|
                            k <= f && #[trigger] ancestor(all, cur, k) is Some && dead(ancestor(all, cur, k)->Some_0);
                        assert(k == 0);
                    }
                }
            },
            Some(p) => {
                if f == 0 || find_remote(all, p) is None {
                    assert(!root_within(all, cur, f)) by {
                        if root_within(all, cur, f) {
                            let k = choose|k: nat|
                                k <= f && #[trigger] ancestor(all, cur, k) is Some && ancestor(
                                    all,
                                    cur,
                                    k,
                                )->Some_0.parent_id is None;
                            assert(k != 0);
                        }
                    }
                }
                if f == 0 {
                    assert(!dead_within(all, cur, f)) by {
                        if dead_within(all, cur, f) {
                            let k = choose|k: nat|
                                k <= f && #[trigger] ancestor(all, cur, k) is Some && dead(ancestor(all, cur, k)->Some_0);
                            assert(k == 0);
                        }
                    }
                    assert(!missing_within(all, cur, f));
                } else {
                    match find_remote(all, p) {
                        None => {
                            assert(missing_within(all, cur, f));
                            assert(!dead_within(all, cur, f)) by {
                                if dead_within(all, cur, f) {
                                    let k = choose|k: nat|
                                        k <= f && #[trigger] ancestor(all, cur, k) is Some && dead(
                                            ancestor(all, cur, k)->Some_0,
                                        );
                                    assert(k == 0);
                                }
                            }
                        },
                        Some(q) => {
                            let g = (f - 1) as nat;
                            lemma_deleted_along_walk(all, q, g);
                            assert forall|k: nat| k < f implies #[trigger] ancestor(all, cur, k + 1) == ancestor(
                                all,
                                q,
                                k,
                            ) by {}
                            assert(dead_within(all, cur, f) == dead_within(all, q, g)) by {
                                if dead_within(all, cur, f) {
                                    let k = choose|k: nat|
                                        k <= f && #[trigger] ancestor(all, cur, k) is Some && dead(
                                            ancestor(all, cur, k)->Some_0,
                                        );
                                    assert(k != 0);
                                    assert(ancestor(all, cur, ((k - 1) as nat) + 1) == ancestor(all, q, (k - 1) as nat));
                                }
                                if dead_within(all, q, g) {
                                    let k = choose|k: nat|
                                        k <= g && #[trigger] ancestor(all, q, k) is Some && dead(
                                            ancestor(all, q, k)->Some_0,
                                        );
                                    assert(ancestor(all, cur, k + 1) == ancestor(all, q, k));
                                }
                            }
                            assert(root_within(all, cur, f) == root_within(all, q, g)) by {
                                if root_within(all, cur, f) {
                                    let k = choose|k: nat|
                                        k <= f && #[trigger] ancestor(all, cur, k) is Some && ancestor(
                                            all,
                                            cur,
                                            k,
                                        )->Some_0.parent_id is None;
                                    assert(k != 0);
                                    assert(ancestor(all, cur, ((k - 1) as nat) + 1) == ancestor(all, q, (k - 1) as nat));
                                }
                                if root_within(all, q, g) {
                                    let k = choose|k: nat|
                                        k <= g && #[trigger] ancestor(all, q, k) is Some && ancestor(
                                            all,
                                            q,
                                            k,
                                        )->Some_0.parent_id is None;
                                    assert(ancestor(all, cur, k + 1) == ancestor(all, q, k));
                                }
                            }
                            assert(missing_within(all, cur, f) == missing_within(all, q, g)) by {
                                if missing_within(all, cur, f) {
                                    let k = choose|k: nat|
                                        k < f && #[trigger] ancestor(all, cur, k) is Some && (ancestor(
                                            all,
                                            cur,
                                            k,
                                        )->Some_0.parent_id matches Some(p) && find_remote(all, p) is None);
                                    assert(k != 0);
                                    assert(ancestor(all, cur, ((k - 1) as nat) + 1) == ancestor(all, q, (k - 1) as nat));
                                }
                                if missing_within(all, q, g) {
                                    let k = choose|k: nat|
                                        k < g && #[trigger] ancestor(all, q, k) is Some && (ancestor(
                                            all,
                                            q,
                                            k,
                                        )->Some_0.parent_id matches Some(p) && find_remote(all, p) is None);
                                    assert(ancestor(all, cur, k + 1) == ancestor(all, q, k));
                                }
                            }
                            assert(ancestor(all, cur, g + 1) == ancestor(all, q, g));
                        },
                    }
                }
            },
        }
    }
}

proof fn lemma_find_remote_member(all: Seq<RemoteContent>, id: ContentId)
    requires
        find_remote(all, id) is Some,
    ensures
        all.contains(find_remote(all, id)->Some_0),
    decreases all.len(),
{
    if all[0].content_id != id {
        lemma_find_remote_member(all.drop_first(), id);
        let j = choose|j: int| 0 <= j < all.drop_first().len() && all.drop_first()[j] == find_remote(all, id)->Some_0;
        assert(all[j + 1] == all.drop_first()[j]);
    } else {
        assert(all[0] == find_remote(all, id)->Some_0);
    }
}

proof fn lemma_ancestor_facts(all: Seq<RemoteContent>, c: RemoteContent, j: nat, k: nat)
    requires
        all.contains(c),
        j <= k,
        ancestor(all, c, k) is Some,
    ensures
        ancestor(all, c, j) is Some,
        all.contains(ancestor(all, c, j)->Some_0),
    decreases j,
{
    if j > 0 {
        let p = c.parent_id->Some_0;
        let q = find_remote(all, p)->Some_0;
        lemma_find_remote_member(all, p);
        lemma_ancestor_facts(all, q, (j - 1) as nat, (k - 1) as nat);
    }
}

proof fn lemma_ancestor_in_all(all: Seq<RemoteContent>, c: RemoteContent, j: nat, k: nat)
    requires
        1 <= j <= k,
        ancestor(all, c, k) is Some,
    ensures
        ancestor(all, c, j) is Some,
        all.contains(ancestor(all, c, j)->Some_0),
{
    let p = c.parent_id->Some_0;
    let q = find_remote(all, p)->Some_0;
    lemma_find_remote_member(all, p);
    lemma_ancestor_facts(all, q, (j - 1) as nat, (k - 1) as nat);
}

proof fn lemma_walk_bound(all: Seq<RemoteContent>, c: RemoteContent, m: nat)
    requires
        walk_is_acyclic(all, c),
        ancestor(all, c, m) is Some,
    ensures
        m <= all.len(),
{
    if m > 0 {
        let ids = all.map_values(|r: RemoteContent| r.content_id);
        let f = |k: int| ancestor(all, c, k as nat)->Some_0.content_id;
        let x = set_int_range(1, m + 1int);
        lemma_int_range(1, m + 1int);
        assert forall|a: int, b: int| x.contains(a) && x.contains(b) && #[trigger] f(a) == #[trigger] f(b) implies a
            == b by {
            lemma_ancestor_in_all(all, c, a as nat, m);
            lemma_ancestor_in_all(all, c, b as nat, m);
            if a < b {
                assert(ancestor(all, c, a as nat) is Some && ancestor(all, c, b as nat) is Some);
            } else if b < a {
                assert(ancestor(all, c, b as nat) is Some && ancestor(all, c, a as nat) is Some);
            }
        }
        let y = x.map(f);
        lemma_map_size(x, y, f);
        assert forall|v: ContentId| y.contains(v) implies ids.to_set().contains(v) by {
            let a = choose|a: int| x.contains(a) && f(a) == v;
            lemma_ancestor_in_all(all, c, a as nat, m);
            let r = ancestor(all, c, a as nat)->Some_0;
            let i = choose|i: int| 0 <= i < all.len() && all[i] == r;
            assert(ids[i] == v);
        }
        lemma_len_subset(y, ids.to_set());
        ids.lemma_cardinality_of_set();
    }
}

/// Whether a content counts as deleted is found by walking up its parents:
/// when the walk never comes back to a content already met, the answer is
/// deleted exactly when the walk meets a deleted or archived content, not
/// deleted when it reaches a content without parent first, and a missing
/// parent is reported when it reaches one first; the bound on the walk is
/// never what stops it, so no parent loop is ever reported.
pub proof fn law_is_deleted_walks_up(all: Seq<RemoteContent>, content: RemoteContent)
    requires
        walk_is_acyclic(all, content),
    ensures
        (spec_is_deleted(all, content) == Ok::<bool, SyncError>(true)) == reaches_dead(all, content),
        (spec_is_deleted(all, content) == Ok::<bool, SyncError>(false)) == (!reaches_dead(all, content)
            && reaches_root(all, content)),
        (spec_is_deleted(all, content) matches Err(SyncError::MissingParent(_, _))) == (!reaches_dead(
            all,
            content,
        ) && !reaches_root(all, content) && reaches_missing(all, content)),
        spec_is_deleted(all, content) matches Err(e) ==> e is MissingParent,
        !(spec_is_deleted(all, content) matches Err(SyncError::ParentLoop(_))),
{
    let n = all.len() + 1;
    lemma_deleted_along_walk(all, content, n);
    if reaches_dead(all, content) {
        let k = choose|k: nat| #[trigger] ancestor(all, content, k) is Some && dead(ancestor(all, content, k)->Some_0);
        lemma_walk_bound(all, content, k);
        assert(dead_within(all, content, n));
    }
    if reaches_root(all, content) {
        let k = choose|k: nat|
            #[trigger] ancestor(all, content, k) is Some && ancestor(all, content, k)->Some_0.parent_id is None;
        lemma_walk_bound(all, content, k);
        assert(root_within(all, content, n));
    }
    if reaches_missing(all, content) {
        let k = choose|k: nat|
            #[trigger] ancestor(all, content, k) is Some && (ancestor(all, content, k)->Some_0.parent_id matches Some(
                p,
            ) && find_remote(all, p) is None);
        lemma_walk_bound(all, content, k);
        assert(missing_within(all, content, n));
    }
    if deleted_along(all, content, n) matches Err(SyncError::ParentLoop(_)) {
        lemma_walk_bound(all, content, n);
    }
}

} // verus!
