//! Startup synchronisation: changes collected on both sides while the
//! synchronisation was not running, and how conflicts between them are settled.

pub mod local;
pub mod remote;
pub mod walk;
pub mod once;

use vstd::prelude::*;
use crate::change::{RemoteChange, RemoteChangeView, remote_change_path, remote_change_views};
use crate::sync::local::{LocalChange, LocalChangeView, local_change_path, local_change_views};
use crate::types::RelativeFilePath;
use crate::content::{ContentView, joined_names};
use crate::state::{MemoryState, StateError, content_path};

verus! {

/// Which side wins when both changed the same path.
#[derive(Debug, PartialEq, Eq, Structural, Clone, Copy)]
pub enum ResolveMethod {
    ForceLocal,
    ForceRemote,
}

/// Whether some local change is about `path`.
pub open spec fn locally_changed(locals: Seq<LocalChangeView>, path: Seq<char>) -> bool {
    exists|i: int| 0 <= i < locals.len() && local_change_path(locals[i]) == path
}

/// Whether some remote change is about `path`.
pub open spec fn remotely_changed(remotes: Seq<RemoteChangeView>, path: Seq<char>) -> bool {
    exists|i: int| 0 <= i < remotes.len() && remote_change_path(remotes[i]) == path
}

/// The first `n` remote changes whose path no local change has.
pub open spec fn remote_without_conflict(
    remotes: Seq<RemoteChangeView>,
    locals: Seq<LocalChangeView>,
    n: int,
) -> Seq<RemoteChangeView>
    decreases n,
{
    if n <= 0 {
        Seq::empty()
    } else if !locally_changed(locals, remote_change_path(remotes[n - 1])) {
        remote_without_conflict(remotes, locals, n - 1).push(remotes[n - 1])
    } else {
        remote_without_conflict(remotes, locals, n - 1)
    }
}

/// The first `n` local changes whose path no remote change has.
pub open spec fn local_without_conflict(
    locals: Seq<LocalChangeView>,
    remotes: Seq<RemoteChangeView>,
    n: int,
) -> Seq<LocalChangeView>
    decreases n,
{
    if n <= 0 {
        Seq::empty()
    } else if !remotely_changed(remotes, local_change_path(locals[n - 1])) {
        local_without_conflict(locals, remotes, n - 1).push(locals[n - 1])
    } else {
        local_without_conflict(locals, remotes, n - 1)
    }
}

/// The changes kept on each side: the winning side keeps all its changes, the
/// other side drops those about a path the winning side also changed.
pub open spec fn kept_changes(
    method: ResolveMethod,
    remotes: Seq<RemoteChangeView>,
    locals: Seq<LocalChangeView>,
) -> (Seq<RemoteChangeView>, Seq<LocalChangeView>) {
    match method {
        ResolveMethod::ForceLocal => (remote_without_conflict(remotes, locals, remotes.len() as int), locals),
        ResolveMethod::ForceRemote => (remotes, local_without_conflict(locals, remotes, locals.len() as int)),
    }
}

/// Settles the changes collected at startup on both sides.
pub struct StartupSyncResolver {
    remote_changes: Vec<RemoteChange>,
    local_changes: Vec<LocalChange>,
    method: ResolveMethod,
}

fn is_locally_changed(locals: &Vec<LocalChange>, path: &RelativeFilePath) -> (r: bool)
    ensures
        r == locally_changed(local_change_views(locals@), path@),
{
    let ghost l = local_change_views(locals@);
    let n = locals.len();
    let mut i: usize = 0;
    while i < n
        invariant
            n == locals@.len(),
            l == local_change_views(locals@),
            i <= n,
            forall|j: int| 0 <= j < i ==> local_change_path(l[j]) != path@,
        decreases n - i,
    {
        if locals[i].path() == *path {
            assert(local_change_path(l[i as int]) == path@);
            return true;
        }
        i = i + 1;
    }
    false
}

fn is_remotely_changed(remotes: &Vec<RemoteChange>, path: &RelativeFilePath) -> (r: bool)
    ensures
        r == remotely_changed(remote_change_views(remotes@), path@),
{
    let ghost rv = remote_change_views(remotes@);
    let n = remotes.len();
    let mut i: usize = 0;
    while i < n
        invariant
            n == remotes@.len(),
            rv == remote_change_views(remotes@),
            i <= n,
            forall|j: int| 0 <= j < i ==> remote_change_path(rv[j]) != path@,
        decreases n - i,
    {
        if remotes[i].path() == *path {
            assert(remote_change_path(rv[i as int]) == path@);
            return true;
        }
        i = i + 1;
    }
    false
}

impl StartupSyncResolver {
    /// A resolver of the given changes with the given method.
    pub fn new(remote_changes: Vec<RemoteChange>, local_changes: Vec<LocalChange>, method: ResolveMethod) -> (r: Self)
        ensures
            r.remotes() == remote_change_views(remote_changes@),
            r.locals() == local_change_views(local_changes@),
            r.method() == method,
    {
        StartupSyncResolver { remote_changes, local_changes, method }
    }

    /// The remote changes to settle.
    pub closed spec fn remotes(&self) -> Seq<RemoteChangeView> {
        remote_change_views(self.remote_changes@)
    }

    /// The local changes to settle.
    pub closed spec fn locals(&self) -> Seq<LocalChangeView> {
        local_change_views(self.local_changes@)
    }

    /// The method that settles conflicts.
    pub closed spec fn method(&self) -> ResolveMethod {
        self.method
    }

    /// The remote and local changes to apply: see [`kept_changes`].
    pub fn resolve(&self) -> (r: Result<(Vec<RemoteChange>, Vec<LocalChange>), ()>)
        ensures
            r matches Ok((remotes, locals)) && (remote_change_views(remotes@), local_change_views(locals@))
                == kept_changes(self.method(), self.remotes(), self.locals()),
    {
        let ghost rv = self.remotes();
        let ghost lv = self.locals();
        match self.method {
            ResolveMethod::ForceLocal => {
                let mut kept: Vec<RemoteChange> = Vec::new();
                let n = self.remote_changes.len();
                let mut i: usize = 0;
                while i < n
                    invariant
                        n == self.remote_changes@.len(),
                        rv == self.remotes(),
                        lv == self.locals(),
                        i <= n,
                        remote_change_views(kept@) == remote_without_conflict(rv, lv, i as int),
                    decreases n - i,
                {
                    let change = &self.remote_changes[i];
                    assert(rv[i as int] == change@);
                    if !is_locally_changed(&self.local_changes, &change.path()) {
                        let ghost prior = kept@;
                        kept.push(change.duplicate());
                        assert(remote_change_views(kept@) =~= remote_change_views(prior).push(change@));
                    }
                    i = i + 1;
                }
                let mut locals: Vec<LocalChange> = Vec::new();
                let m = self.local_changes.len();
                let mut j: usize = 0;
                while j < m
                    invariant
                        m == self.local_changes@.len(),
                        lv == self.locals(),
                        j <= m,
                        local_change_views(locals@) == lv.take(j as int),
                    decreases m - j,
                {
                    let ghost prior = locals@;
                    assert(lv[j as int] == self.local_changes@[j as int]@);
                    locals.push(self.local_changes[j].duplicate());
                    assert(local_change_views(locals@) =~= local_change_views(prior).push(lv[j as int]));
                    assert(local_change_views(locals@) =~= lv.take(j + 1));
                    j = j + 1;
                }
                assert(lv.take(m as int) =~= lv);
                Ok((kept, locals))
            },
            ResolveMethod::ForceRemote => {
                let mut remotes: Vec<RemoteChange> = Vec::new();
                let n = self.remote_changes.len();
                let mut i: usize = 0;
                while i < n
                    invariant
                        n == self.remote_changes@.len(),
                        rv == self.remotes(),
                        i <= n,
                        remote_change_views(remotes@) == rv.take(i as int),
                    decreases n - i,
                {
                    let ghost prior = remotes@;
                    assert(rv[i as int] == self.remote_changes@[i as int]@);
                    remotes.push(self.remote_changes[i].duplicate());
                    assert(remote_change_views(remotes@) =~= remote_change_views(prior).push(rv[i as int]));
                    assert(remote_change_views(remotes@) =~= rv.take(i + 1));
                    i = i + 1;
                }
                assert(rv.take(n as int) =~= rv);
                let mut kept: Vec<LocalChange> = Vec::new();
                let m = self.local_changes.len();
                let mut j: usize = 0;
                while j < m
                    invariant
                        m == self.local_changes@.len(),
                        rv == self.remotes(),
                        lv == self.locals(),
                        j <= m,
                        local_change_views(kept@) == local_without_conflict(lv, rv, j as int),
                    decreases m - j,
                {
                    let change = &self.local_changes[j];
                    assert(lv[j as int] == change@);
                    if !is_remotely_changed(&self.remote_changes, &change.path()) {
                        let ghost prior = kept@;
                        kept.push(change.duplicate());
                        assert(local_change_views(kept@) =~= local_change_views(prior).push(change@));
                    }
                    j = j + 1;
                }
                Ok((remotes, kept))
            },
        }
    }
}


proof fn lemma_remote_without_conflict(remotes: Seq<RemoteChangeView>, locals: Seq<LocalChangeView>, n: int)
    requires
        0 <= n <= remotes.len(),
    ensures
        forall|x: int| 0 <= x < remote_without_conflict(remotes, locals, n).len() ==> !locally_changed(
            locals,
            remote_change_path(#[trigger] remote_without_conflict(remotes, locals, n)[x]),
        ),
        forall|k: int| 0 <= k < n && !locally_changed(locals, remote_change_path(#[trigger] remotes[k]))
            ==> remote_without_conflict(remotes, locals, n).contains(remotes[k]),
    decreases n,
{
    if n > 0 {
        lemma_remote_without_conflict(remotes, locals, n - 1);
        let prev = remote_without_conflict(remotes, locals, n - 1);
        let cur = remote_without_conflict(remotes, locals, n);
        assert forall|x: int| 0 <= x < cur.len() implies !locally_changed(locals, remote_change_path(#[trigger] cur[x])) by {
            if x < prev.len() {
                assert(cur[x] == prev[x]);
            }
        }
        assert forall|k: int| 0 <= k < n && !locally_changed(locals, remote_change_path(#[trigger] remotes[k]))
            implies cur.contains(remotes[k]) by {
            if k < n - 1 {
                let x = choose|x: int| 0 <= x < prev.len() && prev[x] == remotes[k];
                assert(cur[x] == prev[x]);
            } else {
                assert(cur[cur.len() - 1] == remotes[k]);
            }
        }
    }
}

proof fn lemma_local_without_conflict(locals: Seq<LocalChangeView>, remotes: Seq<RemoteChangeView>, n: int)
    requires
        0 <= n <= locals.len(),
    ensures
        forall|x: int| 0 <= x < local_without_conflict(locals, remotes, n).len() ==> !remotely_changed(
            remotes,
            local_change_path(#[trigger] local_without_conflict(locals, remotes, n)[x]),
        ),
        forall|k: int| 0 <= k < n && !remotely_changed(remotes, local_change_path(#[trigger] locals[k]))
            ==> local_without_conflict(locals, remotes, n).contains(locals[k]),
    decreases n,
{
    if n > 0 {
        lemma_local_without_conflict(locals, remotes, n - 1);
        let prev = local_without_conflict(locals, remotes, n - 1);
        let cur = local_without_conflict(locals, remotes, n);
        assert forall|x: int| 0 <= x < cur.len() implies !remotely_changed(remotes, local_change_path(#[trigger] cur[x])) by {
            if x < prev.len() {
                assert(cur[x] == prev[x]);
            }
        }
        assert forall|k: int| 0 <= k < n && !remotely_changed(remotes, local_change_path(#[trigger] locals[k]))
            implies cur.contains(locals[k]) by {
            if k < n - 1 {
                let x = choose|x: int| 0 <= x < prev.len() && prev[x] == locals[k];
                assert(cur[x] == prev[x]);
            } else {
                assert(cur[cur.len() - 1] == locals[k]);
            }
        }
    }
}

/// After startup resolution no path is changed on both sides any more, the
/// winning side keeps all its changes, and a change whose path the other side
/// did not change is kept.
pub proof fn law_startup_resolution(
    method: ResolveMethod,
    remotes: Seq<RemoteChangeView>,
    locals: Seq<LocalChangeView>,
)
    ensures
        ({
            let (kept_remotes, kept_locals) = kept_changes(method, remotes, locals);
            &&& forall|i: int, j: int| 0 <= i < kept_remotes.len() && 0 <= j < kept_locals.len() ==> remote_change_path(
                #[trigger] kept_remotes[i],
            ) != local_change_path(#[trigger] kept_locals[j])
            &&& method == ResolveMethod::ForceLocal ==> kept_locals == locals
            &&& method == ResolveMethod::ForceRemote ==> kept_remotes == remotes
            &&& forall|k: int| 0 <= k < remotes.len() && !locally_changed(locals, remote_change_path(#[trigger] remotes[k]))
                ==> kept_remotes.contains(remotes[k])
            &&& forall|k: int| 0 <= k < locals.len() && !remotely_changed(remotes, local_change_path(#[trigger] locals[k]))
                ==> kept_locals.contains(locals[k])
        }),
{
    lemma_remote_without_conflict(remotes, locals, remotes.len() as int);
    lemma_local_without_conflict(locals, remotes, locals.len() as int);
    let (kept_remotes, kept_locals) = kept_changes(method, remotes, locals);
    assert forall|i: int, j: int| 0 <= i < kept_remotes.len() && 0 <= j < kept_locals.len() implies remote_change_path(
        #[trigger] kept_remotes[i],
    ) != local_change_path(#[trigger] kept_locals[j]) by {
        match method {
            ResolveMethod::ForceLocal => {
                assert(!locally_changed(locals, remote_change_path(kept_remotes[i])));
                assert(kept_locals[j] == locals[j]);
            },
            ResolveMethod::ForceRemote => {
                assert(!remotely_changed(remotes, local_change_path(kept_locals[j])));
                assert(kept_remotes[i] == remotes[i]);
            },
        }
    }
    assert forall|k: int| 0 <= k < remotes.len() && !locally_changed(locals, remote_change_path(#[trigger] remotes[k]))
        implies kept_remotes.contains(remotes[k]) by {
        if method == ResolveMethod::ForceRemote {
            assert(kept_remotes[k] == remotes[k]);
        }
    }
    assert forall|k: int| 0 <= k < locals.len() && !remotely_changed(remotes, local_change_path(#[trigger] locals[k]))
        implies kept_locals.contains(locals[k]) by {
        if method == ResolveMethod::ForceLocal {
            assert(kept_locals[k] == locals[k]);
        }
    }
}
/// Where a found remote change is: a new or updated content at its path in
/// the `remote` state, a vanished content at its path in the `local` state.
pub open spec fn located(
    change: remote::RemoteChange,
    remote: Seq<ContentView>,
    local: Seq<ContentView>,
) -> Result<RemoteChangeView, StateError> {
    match change {
        remote::RemoteChange::New(id) => match content_path(remote, id) {
            Ok(parts) => Ok(RemoteChangeView::New(id, joined_names(parts))),
            Err(e) => Err(e),
        },
        remote::RemoteChange::Updated(id) => match content_path(remote, id) {
            Ok(parts) => Ok(RemoteChangeView::Updated(id, joined_names(parts))),
            Err(e) => Err(e),
        },
        remote::RemoteChange::Disappear(id) => match content_path(local, id) {
            Ok(parts) => Ok(RemoteChangeView::Disappear(id, joined_names(parts))),
            Err(e) => Err(e),
        },
    }
}

/// The first `n` found changes, located in order; the first one that cannot
/// be located refuses the whole.
pub open spec fn located_all(
    found: Seq<remote::RemoteChange>,
    remote: Seq<ContentView>,
    local: Seq<ContentView>,
    n: int,
) -> Result<Seq<RemoteChangeView>, StateError>
    decreases n,
{
    if n <= 0 {
        Ok(Seq::empty())
    } else {
        match located_all(found, remote, local, n - 1) {
            Err(e) => Err(e),
            Ok(previous) => match located(found[n - 1], remote, local) {
                Err(e) => Err(e),
                Ok(c) => Ok(previous.push(c)),
            },
        }
    }
}

/// Mathematical value of a result of located changes.
pub open spec fn located_view(r: Result<Vec<RemoteChange>, StateError>) -> Result<Seq<RemoteChangeView>, StateError> {
    match r {
        Ok(v) => Ok(remote_change_views(v@)),
        Err(e) => Err(e),
    }
}

proof fn lemma_located_error(
    found: Seq<remote::RemoteChange>,
    remote: Seq<ContentView>,
    local: Seq<ContentView>,
    i: int,
    n: int,
)
    requires
        0 < i <= n,
        located_all(found, remote, local, i) is Err,
    ensures
        located_all(found, remote, local, n) == located_all(found, remote, local, i),
    decreases n - i,
{
    if i < n {
        lemma_located_error(found, remote, local, i + 1, n);
    }
}

/// Gives each found remote change its path, as [`located_all`] states: a new
/// or updated content where the remote state has it, a vanished content where
/// the local state had it.
pub fn locate_changes(
    found: &Vec<remote::RemoteChange>,
    remote_state: &MemoryState,
    local_state: &MemoryState,
) -> (r: Result<Vec<RemoteChange>, StateError>)
    ensures
        located_view(r) == located_all(found@, remote_state.entries(), local_state.entries(), found@.len() as int),
{
    let ghost all = found@;
    let ghost remote = remote_state.entries();
    let ghost local = local_state.entries();
    let n = found.len();
    let mut out: Vec<RemoteChange> = Vec::new();
    let mut i: usize = 0;
    proof {
        assert(remote_change_views(out@) =~= Seq::<RemoteChangeView>::empty());
    }
    while i < n
        invariant
            all == found@,
            remote == remote_state.entries(),
            local == local_state.entries(),
            n == all.len(),
            i <= n,
            located_all(all, remote, local, i as int) == Ok::<Seq<RemoteChangeView>, StateError>(
                remote_change_views(out@),
            ),
        decreases n - i,
    {
        let change = found[i];
        let (id, in_state) = match change {
            remote::RemoteChange::New(id) => (id, remote_state),
            remote::RemoteChange::Updated(id) => (id, remote_state),
            remote::RemoteChange::Disappear(id) => (id, local_state),
        };
        match in_state.path(id) {
            Err(e) => {
                proof {
                    lemma_located_error(all, remote, local, i as int + 1, n as int);
                }
                return Err(e);
            },
            Ok(path) => {
                let p = path.to_path_buf();
                let located_change = match change {
                    remote::RemoteChange::New(_) => RemoteChange::New(id, p),
                    remote::RemoteChange::Updated(_) => RemoteChange::Updated(id, p),
                    remote::RemoteChange::Disappear(_) => RemoteChange::Disappear(id, p),
                };
                let ghost before = out@;
                out.push(located_change);
                proof {
                    assert(remote_change_views(out@) =~= remote_change_views(before).push(located_change@));
                }
            },
        }
        i = i + 1;
    }
    Ok(out)
}

} // verus!
