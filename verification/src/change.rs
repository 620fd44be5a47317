//! Changes found by the startup synchronisation, on either side, and the
//! events they are operated as.

use vstd::prelude::*;
use crate::types::{ContentId, RelativeFilePath};
use crate::event::{DiskEvent, DiskEventView, DiskEventWrap, DiskEventWrapView, Event, EventView, RemoteEvent};
use crate::sync::local::{LocalChange, LocalChangeView};

verus! {

/// A change of a remote content since the last synchronisation, with the path
/// it has on the remote side.
#[derive(Debug)]
pub enum RemoteChange {
    New(ContentId, RelativeFilePath),
    Disappear(ContentId, RelativeFilePath),
    Updated(ContentId, RelativeFilePath),
}

/// Mathematical value of a [`RemoteChange`].
pub enum RemoteChangeView {
    New(ContentId, Seq<char>),
    Disappear(ContentId, Seq<char>),
    Updated(ContentId, Seq<char>),
}

impl View for RemoteChange {
    type V = RemoteChangeView;

    open spec fn view(&self) -> RemoteChangeView {
        match self {
            RemoteChange::New(id, p) => RemoteChangeView::New(*id, p@),
            RemoteChange::Disappear(id, p) => RemoteChangeView::Disappear(*id, p@),
            RemoteChange::Updated(id, p) => RemoteChangeView::Updated(*id, p@),
        }
    }
}

/// The path a remote change is about.
pub open spec fn remote_change_path(c: RemoteChangeView) -> Seq<char> {
    match c {
        RemoteChangeView::New(_, p) => p,
        RemoteChangeView::Disappear(_, p) => p,
        RemoteChangeView::Updated(_, p) => p,
    }
}

/// Mathematical value of a sequence of remote changes.
pub open spec fn remote_change_views(s: Seq<RemoteChange>) -> Seq<RemoteChangeView> {
    s.map_values(|c: RemoteChange| c@)
}

impl RemoteChange {
    /// The path this change is about.
    pub fn path(&self) -> (r: RelativeFilePath)
        ensures
            r@ == remote_change_path(self@),
    {
        match self {
            RemoteChange::New(_, p) | RemoteChange::Disappear(_, p) | RemoteChange::Updated(_, p) => p.clone(),
        }
    }

    /// A copy of this change.
    pub fn duplicate(&self) -> (r: RemoteChange)
        ensures
            r@ == self@,
    {
        match self {
            RemoteChange::New(id, p) => RemoteChange::New(*id, p.clone()),
            RemoteChange::Disappear(id, p) => RemoteChange::Disappear(*id, p.clone()),
            RemoteChange::Updated(id, p) => RemoteChange::Updated(*id, p.clone()),
        }
    }
}

impl Clone for RemoteChange {
    fn clone(&self) -> (r: RemoteChange)
        ensures
            r@ == self@,
    {
        self.duplicate()
    }
}

impl PartialEq for RemoteChange {
    fn eq(&self, other: &RemoteChange) -> (r: bool) {
        match (self, other) {
            (RemoteChange::New(a, p), RemoteChange::New(b, q)) => *a == *b && *p == *q,
            (RemoteChange::Disappear(a, p), RemoteChange::Disappear(b, q)) => *a == *b && *p == *q,
            (RemoteChange::Updated(a, p), RemoteChange::Updated(b, q)) => *a == *b && *p == *q,
            _ => false,
        }
    }
}

impl vstd::std_specs::cmp::PartialEqSpecImpl for RemoteChange {
    open spec fn obeys_eq_spec() -> bool {
        true
    }

    open spec fn eq_spec(&self, other: &RemoteChange) -> bool {
        self@ == other@
    }
}

/// A change on either side.
#[derive(Debug)]
pub enum Change {
    Local(LocalChange),
    Remote(RemoteChange),
}

/// The event a change is operated as: a local change as the disk event of
/// the same kind on its path, a remote change as the remote event of the
/// same kind on its content.
pub open spec fn event_of_change(local: Option<LocalChangeView>, remote: Option<RemoteChangeView>) -> EventView {
    match local {
        Some(LocalChangeView::New(p)) => EventView::Local(DiskEventWrapView { stored_path: p, event: DiskEventView::Created(p) }),
        Some(LocalChangeView::Disappear(p)) => EventView::Local(DiskEventWrapView { stored_path: p, event: DiskEventView::Deleted(p) }),
        Some(LocalChangeView::Updated(p)) => EventView::Local(DiskEventWrapView { stored_path: p, event: DiskEventView::Modified(p) }),
        None => match remote {
            Some(RemoteChangeView::New(id, _)) => EventView::Remote(RemoteEvent::Created(id)),
            Some(RemoteChangeView::Disappear(id, _)) => EventView::Remote(RemoteEvent::Deleted(id)),
            Some(RemoteChangeView::Updated(id, _)) => EventView::Remote(RemoteEvent::Updated(id)),
            None => EventView::Remote(RemoteEvent::Deleted(0)),
        },
    }
}

impl Change {
    /// The local change, if this is one.
    pub open spec fn local_view(&self) -> Option<LocalChangeView> {
        match self {
            Change::Local(c) => Some(c@),
            Change::Remote(_) => None,
        }
    }

    /// The remote change, if this is one.
    pub open spec fn remote_view(&self) -> Option<RemoteChangeView> {
        match self {
            Change::Local(_) => None,
            Change::Remote(c) => Some(c@),
        }
    }
}

impl Event {
    /// The event a change is operated as: see [`event_of_change`].
    pub fn from_change(change: &Change) -> (r: Event)
        ensures
            r@ == event_of_change(change.local_view(), change.remote_view()),
    {
        match change {
            Change::Local(c) => match c {
                LocalChange::New(path) => Event::Local(DiskEventWrap::new(path.clone(), DiskEvent::Created(path.clone()))),
                LocalChange::Disappear(path) => Event::Local(DiskEventWrap::new(path.clone(), DiskEvent::Deleted(path.clone()))),
                LocalChange::Updated(path) => Event::Local(DiskEventWrap::new(path.clone(), DiskEvent::Modified(path.clone()))),
            },
            Change::Remote(c) => match c {
                RemoteChange::New(content_id, _) => Event::Remote(RemoteEvent::Created(*content_id)),
                RemoteChange::Disappear(content_id, _) => Event::Remote(RemoteEvent::Deleted(*content_id)),
                RemoteChange::Updated(content_id, _) => Event::Remote(RemoteEvent::Updated(*content_id)),
            },
        }
    }
}


/// A startup change is operated as the event of the same kind about the same
/// file: a new remote content as its creation, an updated one as its update
/// (so its data is fetched again), a vanished one as its deletion; a new
/// local file as its creation, an updated one as its modification, a
/// vanished one as its deletion, each stored under the file's path.
pub proof fn law_change_operated_as_same_kind(change: Change)
    ensures
        ({
            let e = event_of_change(change.local_view(), change.remote_view());
            match change {
                Change::Remote(c) => match c@ {
                    RemoteChangeView::New(id, _) => e == EventView::Remote(RemoteEvent::Created(id)),
                    RemoteChangeView::Updated(id, _) => e == EventView::Remote(RemoteEvent::Updated(id)),
                    RemoteChangeView::Disappear(id, _) => e == EventView::Remote(RemoteEvent::Deleted(id)),
                },
                Change::Local(c) => match c@ {
                    LocalChangeView::New(p) => e == EventView::Local(
                        DiskEventWrapView { stored_path: p, event: DiskEventView::Created(p) },
                    ),
                    LocalChangeView::Updated(p) => e == EventView::Local(
                        DiskEventWrapView { stored_path: p, event: DiskEventView::Modified(p) },
                    ),
                    LocalChangeView::Disappear(p) => e == EventView::Local(
                        DiskEventWrapView { stored_path: p, event: DiskEventView::Deleted(p) },
                    ),
                },
            }
        }),
{
}

} // verus!
