//! Events that drive the synchronisation: what happened on disk and what
//! happened on the remote side.

use vstd::prelude::*;
use crate::types::ContentId;

verus! {

/// A change observed on disk, with paths relative to the synchronised folder.
#[derive(Debug)]
pub enum DiskEvent {
    Deleted(String),
    Created(String),
    Modified(String),
    /// Path before, path after.
    Renamed(String, String),
}

/// Mathematical value of a [`DiskEvent`].
pub enum DiskEventView {
    Deleted(Seq<char>),
    Created(Seq<char>),
    Modified(Seq<char>),
    Renamed(Seq<char>, Seq<char>),
}

impl View for DiskEvent {
    type V = DiskEventView;

    open spec fn view(&self) -> DiskEventView {
        match self {
            DiskEvent::Deleted(p) => DiskEventView::Deleted(p@),
            DiskEvent::Created(p) => DiskEventView::Created(p@),
            DiskEvent::Modified(p) => DiskEventView::Modified(p@),
            DiskEvent::Renamed(a, b) => DiskEventView::Renamed(a@, b@),
        }
    }
}

/// The path an event is first about: the only path, or the path before a rename.
pub open spec fn first_path(e: DiskEventView) -> Seq<char> {
    match e {
        DiskEventView::Deleted(p) => p,
        DiskEventView::Created(p) => p,
        DiskEventView::Modified(p) => p,
        DiskEventView::Renamed(p, _) => p,
    }
}

impl DiskEvent {
    /// A copy of this event.
    pub fn duplicate(&self) -> (r: DiskEvent)
        ensures
            r@ == self@,
    {
        match self {
            DiskEvent::Deleted(p) => DiskEvent::Deleted(p.clone()),
            DiskEvent::Created(p) => DiskEvent::Created(p.clone()),
            DiskEvent::Modified(p) => DiskEvent::Modified(p.clone()),
            DiskEvent::Renamed(a, b) => DiskEvent::Renamed(a.clone(), b.clone()),
        }
    }

    /// The path this event is first about.
    pub fn first_path(&self) -> (r: String)
        ensures
            r@ == first_path(self@),
    {
        match self {
            DiskEvent::Deleted(p) => p.clone(),
            DiskEvent::Created(p) => p.clone(),
            DiskEvent::Modified(p) => p.clone(),
            DiskEvent::Renamed(p, _) => p.clone(),
        }
    }
}

impl Clone for DiskEvent {
    fn clone(&self) -> (r: DiskEvent)
        ensures
            r@ == self@,
    {
        self.duplicate()
    }
}

impl PartialEq for DiskEvent {
    fn eq(&self, other: &DiskEvent) -> (r: bool) {
        match (self, other) {
            (DiskEvent::Deleted(a), DiskEvent::Deleted(b)) => *a == *b,
            (DiskEvent::Created(a), DiskEvent::Created(b)) => *a == *b,
            (DiskEvent::Modified(a), DiskEvent::Modified(b)) => *a == *b,
            (DiskEvent::Renamed(a1, a2), DiskEvent::Renamed(b1, b2)) => *a1 == *b1 && *a2 == *b2,
            _ => false,
        }
    }
}

impl vstd::std_specs::cmp::PartialEqSpecImpl for DiskEvent {
    open spec fn obeys_eq_spec() -> bool {
        true
    }

    open spec fn eq_spec(&self, other: &DiskEvent) -> bool {
        self@ == other@
    }
}

/// A disk event together with the path under which the synchronised state
/// knows the file (which may differ from the event's path once renames have
/// been folded into it).
#[derive(Debug)]
pub struct DiskEventWrap(pub String, pub DiskEvent);

/// Mathematical value of a [`DiskEventWrap`].
pub struct DiskEventWrapView {
    pub stored_path: Seq<char>,
    pub event: DiskEventView,
}

impl View for DiskEventWrap {
    type V = DiskEventWrapView;

    open spec fn view(&self) -> DiskEventWrapView {
        DiskEventWrapView { stored_path: self.0@, event: self.1@ }
    }
}

/// The wrap of a fresh event: stored under the path it is first about.
pub open spec fn wrap_of(e: DiskEventView) -> DiskEventWrapView {
    DiskEventWrapView { stored_path: first_path(e), event: e }
}

impl DiskEventWrap {
    /// The path under which the synchronised state knows the file.
    pub fn stored_path(&self) -> (r: String)
        ensures
            r@ == self.0@,
    {
        self.0.clone()
    }

    /// Pairs an event with the path under which the state knows the file.
    pub fn new(path: String, event: DiskEvent) -> (r: DiskEventWrap)
        ensures
            r.0 == path,
            r.1 == event,
    {
        DiskEventWrap(path, event)
    }

    /// The wrap of a fresh event, stored under the path it is first about.
    pub fn from_event(event: &DiskEvent) -> (r: DiskEventWrap)
        ensures
            r@ == wrap_of(event@),
    {
        DiskEventWrap(event.first_path(), event.duplicate())
    }

    /// The disk event carried by this wrap.
    pub fn event(&self) -> (r: DiskEvent)
        ensures
            r@ == self.1@,
    {
        self.1.duplicate()
    }

    /// A copy of this wrap.
    pub fn duplicate(&self) -> (r: DiskEventWrap)
        ensures
            r@ == self@,
    {
        DiskEventWrap(self.0.clone(), self.1.duplicate())
    }
}

impl Clone for DiskEventWrap {
    fn clone(&self) -> (r: DiskEventWrap)
        ensures
            r@ == self@,
    {
        self.duplicate()
    }
}

impl PartialEq for DiskEventWrap {
    fn eq(&self, other: &DiskEventWrap) -> (r: bool) {
        self.0 == other.0 && self.1 == other.1
    }
}

impl vstd::std_specs::cmp::PartialEqSpecImpl for DiskEventWrap {
    open spec fn obeys_eq_spec() -> bool {
        true
    }

    open spec fn eq_spec(&self, other: &DiskEventWrap) -> bool {
        self@ == other@
    }
}

/// A change announced by the remote side, about one content.
#[derive(Debug, PartialEq, Eq, Structural, Clone, Copy)]
pub enum RemoteEvent {
    Deleted(ContentId),
    Created(ContentId),
    Updated(ContentId),
    Renamed(ContentId),
}

impl RemoteEvent {
    /// The content this event is about.
    pub fn content_id(&self) -> (r: ContentId)
        ensures
            r == match *self {
                RemoteEvent::Deleted(id) => id,
                RemoteEvent::Created(id) => id,
                RemoteEvent::Updated(id) => id,
                RemoteEvent::Renamed(id) => id,
            },
    {
        match self {
            RemoteEvent::Deleted(content_id) | RemoteEvent::Created(content_id)
            | RemoteEvent::Updated(content_id) | RemoteEvent::Renamed(content_id) => *content_id,
        }
    }
}

/// Something to operate on: a remote change or a (reduced) disk change.
#[derive(Debug)]
pub enum Event {
    Remote(RemoteEvent),
    Local(DiskEventWrap),
}

/// Mathematical value of an [`Event`].
pub enum EventView {
    Remote(RemoteEvent),
    Local(DiskEventWrapView),
}

impl View for Event {
    type V = EventView;

    open spec fn view(&self) -> EventView {
        match self {
            Event::Remote(e) => EventView::Remote(*e),
            Event::Local(w) => EventView::Local(w@),
        }
    }
}

/// Mathematical values of a sequence of events.
pub open spec fn event_views(s: Seq<Event>) -> Seq<EventView> {
    s.map_values(|e: Event| e@)
}

/// The value of a disk event stored under `stored_path`.
pub open spec fn local_event(stored_path: Seq<char>, event: DiskEventView) -> EventView {
    EventView::Local(DiskEventWrapView { stored_path, event })
}

/// Appends to `events` a disk event stored under its own path.
pub fn push_local(events: &mut Vec<Event>, path: &String, event: DiskEvent)
    ensures
        event_views(final(events)@) == event_views(old(events)@).push(local_event(path@, event@)),
{
    let ghost before = event_views(events@);
    events.push(Event::Local(DiskEventWrap(path.clone(), event)));
    assert(event_views(events@) =~= before.push(local_event(path@, event@)));
}

/// Appends to `events` a remote event.
pub fn push_remote(events: &mut Vec<Event>, event: RemoteEvent)
    ensures
        event_views(final(events)@) == event_views(old(events)@).push(EventView::Remote(event)),
{
    let ghost before = event_views(events@);
    events.push(Event::Remote(event));
    assert(event_views(events@) =~= before.push(EventView::Remote(event)));
}

impl Event {
    /// A copy of this event.
    pub fn duplicate(&self) -> (r: Event)
        ensures
            r@ == self@,
    {
        match self {
            Event::Remote(e) => Event::Remote(*e),
            Event::Local(w) => Event::Local(w.duplicate()),
        }
    }

    /// Whether two events are the same.
    pub fn same(&self, other: &Event) -> (r: bool)
        ensures
            r == (self@ == other@),
    {
        match (self, other) {
            (Event::Remote(a), Event::Remote(b)) => *a == *b,
            (Event::Local(a), Event::Local(b)) => a == b,
            _ => false,
        }
    }
}

/// How an event is shown to the user: a mark for the side and the kind of
/// change, then the path; the path of a remote content is what the remote
/// space gives for it, `?` when it gives none.
pub open spec fn shown(e: EventView, remote_path: Option<Seq<char>>) -> Seq<char> {
    let path = match remote_path {
        Some(p) => p,
        None => "?"@,
    };
    match e {
        EventView::Remote(RemoteEvent::Deleted(_)) => "\u{2601}\u{274c} "@ + path,
        EventView::Remote(RemoteEvent::Created(_)) => "\u{2601}\u{1f195} "@ + path,
        EventView::Remote(RemoteEvent::Updated(_)) => "\u{2601}\u{2b07} "@ + path,
        EventView::Remote(RemoteEvent::Renamed(_)) => "\u{2601}\u{2b07} "@ + path,
        EventView::Local(w) => match w.event {
            DiskEventView::Deleted(p) => "\u{1f5b4}\u{274c} "@ + p,
            DiskEventView::Created(p) => "\u{1f5b4}\u{1f195} "@ + p,
            DiskEventView::Modified(p) => "\u{1f5b4}\u{274c} "@ + p,
            DiskEventView::Renamed(a, b) => "\u{1f5b4} "@ + a + " \u{27a1} "@ + b,
        },
    }
}

impl Event {
    /// How this event is shown to the user: see [`shown`]; `remote_path` is
    /// what the remote space gives as the path of a remote event's content.
    pub fn display(&self, remote_path: Option<String>) -> (r: String)
        ensures
            r@ == shown(self@, match remote_path {
                Some(p) => Some(p@),
                None => None,
            }),
    {
        let path = match remote_path {
            Some(p) => p,
            None => "?".to_string(),
        };
        match self {
            Event::Remote(RemoteEvent::Deleted(_)) => crate::text::concat("\u{2601}\u{274c} ", path.as_str()),
            Event::Remote(RemoteEvent::Created(_)) => crate::text::concat("\u{2601}\u{1f195} ", path.as_str()),
            Event::Remote(RemoteEvent::Updated(_)) => crate::text::concat("\u{2601}\u{2b07} ", path.as_str()),
            Event::Remote(RemoteEvent::Renamed(_)) => crate::text::concat("\u{2601}\u{2b07} ", path.as_str()),
            Event::Local(w) => match &w.1 {
                DiskEvent::Deleted(p) => crate::text::concat("\u{1f5b4}\u{274c} ", p.as_str()),
                DiskEvent::Created(p) => crate::text::concat("\u{1f5b4}\u{1f195} ", p.as_str()),
                DiskEvent::Modified(p) => crate::text::concat("\u{1f5b4}\u{274c} ", p.as_str()),
                DiskEvent::Renamed(a, b) => {
                    let left = crate::text::concat("\u{1f5b4} ", a.as_str());
                    let middle = crate::text::concat(left.as_str(), " \u{27a1} ");
                    crate::text::concat(middle.as_str(), b.as_str())
                },
            },
        }
    }
}

impl Clone for Event {
    fn clone(&self) -> (r: Event)
        ensures
            r@ == self@,
    {
        self.duplicate()
    }
}

impl PartialEq for Event {
    fn eq(&self, other: &Event) -> (r: bool) {
        self.same(other)
    }
}

impl vstd::std_specs::cmp::PartialEqSpecImpl for Event {
    open spec fn obeys_eq_spec() -> bool {
        true
    }

    open spec fn eq_spec(&self, other: &Event) -> bool {
        self@ == other@
    }
}

} // verus!
