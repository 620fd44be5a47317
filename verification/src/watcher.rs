//! Turning what the file system and the remote space report into events.

use vstd::prelude::*;
use crate::types::{ContentId, ContentType, RemoteEventType, remote_event_type_named, content_event_name, law_content_events_recognised};
use crate::event::{DiskEvent, DiskEventView, RemoteEvent};
use crate::path::{strip_prefix, spec_strip_prefix};
use crate::text::{has_prefix, lines, split_lines, starts_with_str, substring};
use crate::util::{ignore_file, spec_ignore_file};
use vstd::string::*;

verus! {

/// Failure to turn a report into events.
#[derive(Debug)]
pub enum WatchError {
    /// A path (second) is not under the synchronised folder (first).
    StripPrefix(String, String),
    /// The remote report is not UTF-8 text.
    Utf8,
    /// A remote event lacks a field or has one of the wrong kind.
    Unexpected(String),
}

/// What the file system reports of the synchronised folder, with absolute
/// paths; a rename carries the type of what was at each path.
#[derive(Debug)]
pub enum WatchedEvent {
    Create(String),
    Write(String),
    Remove(String),
    Rename(String, String, ContentType, ContentType),
    NoticeWrite(String),
    NoticeRemove(String),
    Chmod(String),
    Rescan,
    Error(String, Option<String>),
}

/// The path a report is first about, for the reports that make events.
pub open spec fn reported_path(event: WatchedEvent) -> Option<Seq<char>> {
    match event {
        WatchedEvent::Create(p) => Some(p@),
        WatchedEvent::Write(p) => Some(p@),
        WatchedEvent::Remove(p) => Some(p@),
        WatchedEvent::Rename(p, _, _, _) => Some(p@),
        _ => None,
    }
}

/// The events a report makes once its first path is relative to the folder:
/// a rename that changes what the path holds (a file for a folder) is a
/// deletion and a creation.
pub open spec fn digested(event: WatchedEvent, workspace: Seq<char>) -> Option<Seq<DiskEventView>> {
    match event {
        WatchedEvent::Create(p) => Some(seq![DiskEventView::Created(spec_strip_prefix(p@, workspace)->Some_0)]),
        WatchedEvent::Write(p) => Some(seq![DiskEventView::Modified(spec_strip_prefix(p@, workspace)->Some_0)]),
        WatchedEvent::Remove(p) => Some(seq![DiskEventView::Deleted(spec_strip_prefix(p@, workspace)->Some_0)]),
        WatchedEvent::Rename(a, b, ta, tb) => match spec_strip_prefix(b@, workspace) {
            Some(rb) => if ta != tb {
                Some(
                    seq![
                        DiskEventView::Deleted(spec_strip_prefix(a@, workspace)->Some_0),
                        DiskEventView::Created(rb),
                    ],
                )
            } else {
                Some(seq![DiskEventView::Renamed(spec_strip_prefix(a@, workspace)->Some_0, rb)])
            },
            None => None,
        },
        _ => Some(Seq::empty()),
    }
}

/// Mathematical values of a sequence of disk events.
pub open spec fn disk_event_views(s: Seq<DiskEvent>) -> Seq<DiskEventView> {
    s.map_values(|e: DiskEvent| e@)
}

/// The events a file system report makes: none for notices, attribute
/// changes, rescans and errors, none for files the watcher leaves alone;
/// a path outside `workspace` is refused.
pub fn digest_event(event: &WatchedEvent, workspace: &str) -> (r: Result<Vec<DiskEvent>, WatchError>)
    ensures
        reported_path(*event) is None ==> (r matches Ok(v) && v@.len() == 0),
        reported_path(*event) matches Some(p) ==> match spec_strip_prefix(p, workspace@) {
            None => r matches Err(WatchError::StripPrefix(a, b)) && a@ == workspace@ && b@ == p,
            Some(rel) => if spec_ignore_file(rel) {
                r matches Ok(v) && v@.len() == 0
            } else {
                match digested(*event, workspace@) {
                    Some(events) => r matches Ok(v) && disk_event_views(v@) == events,
                    None => event matches WatchedEvent::Rename(_, b, _, _) && (r matches Err(
                        WatchError::StripPrefix(x, y),
                    ) && x@ == workspace@ && y@ == b@),
                }
            },
        },
{
    let first = match event {
        WatchedEvent::Create(p) => p,
        WatchedEvent::Write(p) => p,
        WatchedEvent::Remove(p) => p,
        WatchedEvent::Rename(p, _, _, _) => p,
        _ => return Ok(Vec::new()),
    };
    let relative_path = match strip_prefix(first.as_str(), workspace) {
        Some(rel) => rel,
        None => return Err(WatchError::StripPrefix(workspace.to_string(), first.clone())),
    };
    if ignore_file(relative_path.as_str()) {
        return Ok(Vec::new());
    }
    let mut events: Vec<DiskEvent> = Vec::new();
    match event {
        WatchedEvent::Create(_) => {
            events.push(DiskEvent::Created(relative_path));
        },
        WatchedEvent::Write(_) => {
            events.push(DiskEvent::Modified(relative_path));
        },
        WatchedEvent::Remove(_) => {
            events.push(DiskEvent::Deleted(relative_path));
        },
        WatchedEvent::Rename(_, after, before_type, after_type) => {
            let relative_after = match strip_prefix(after.as_str(), workspace) {
                Some(rel) => rel,
                None => return Err(WatchError::StripPrefix(workspace.to_string(), after.clone())),
            };
            if *before_type != *after_type {
                events.push(DiskEvent::Deleted(relative_path));
                events.push(DiskEvent::Created(relative_after));
            } else {
                events.push(DiskEvent::Renamed(relative_path, relative_after));
            }
        },
        _ => {},
    }
    assert(disk_event_views(events@) =~= digested(*event, workspace@)->Some_0);
    Ok(events)
}

/// The text that `bytes` encode in UTF-8, when they are valid UTF-8.
pub uninterp spec fn utf8_text(bytes: Seq<u8>) -> Option<Seq<char>>;

/// Decodes UTF-8 with `std::str::from_utf8`: the text when the bytes are
/// valid UTF-8, nothing otherwise.
#[verifier::external_body]
fn decode_utf8(bytes: &[u8]) -> (r: Option<String>)
    ensures
        r matches Some(s) ==> utf8_text(bytes@) == Some(s@),
        r is None ==> utf8_text(bytes@) is None,
{
    match std::str::from_utf8(bytes) {
        Ok(text) => Some(text.to_string()),
        Err(_) => None,
    }
}

/// The bytes a message of the live stream of the remote space starts with:
/// `event: message`.
pub open spec fn message_marker() -> Seq<u8> {
    seq![101u8, 118, 101, 110, 116, 58, 32, 109, 101, 115, 115, 97, 103, 101]
}

/// Whether `bytes` start with [`message_marker`].
fn starts_with_marker(bytes: &[u8]) -> (r: bool)
    ensures
        r == (bytes@.len() >= 14 && bytes@.subrange(0, 14) == message_marker()),
{
    let marker: [u8; 14] = [101u8, 118, 101, 110, 116, 58, 32, 109, 101, 115, 115, 97, 103, 101];
    assert(marker@ =~= message_marker());
    if bytes.len() < 14 {
        return false;
    }
    let mut i: usize = 0;
    while i < 14
        invariant
            bytes@.len() >= 14,
            marker@ == message_marker(),
            i <= 14,
            forall|j: int| 0 <= j < i ==> bytes@[j] == marker@[j],
        decreases 14 - i,
    {
        if bytes[i] != marker[i] {
            assert(bytes@.subrange(0, 14)[i as int] != message_marker()[i as int]);
            return false;
        }
        i = i + 1;
    }
    assert(bytes@.subrange(0, 14) =~= message_marker());
    true
}

/// What follows `data: ` on each line that starts with it, in order.
pub open spec fn data_of(ls: Seq<Seq<char>>) -> Seq<Seq<char>>
    decreases ls.len(),
{
    if ls.len() == 0 {
        Seq::empty()
    } else if has_prefix(ls.last(), "data: "@) {
        data_of(ls.drop_last()).push(ls.last().subrange(6, ls.last().len() as int))
    } else {
        data_of(ls.drop_last())
    }
}

/// What follows `data: ` on each line of a text: see [`data_of`].
pub fn data_lines(text: &str) -> (r: Vec<String>)
    ensures
        r@.map_values(|s: String| s@) == data_of(lines(text@)),
{
    let all = split_lines(text);
    let ghost ls = lines(text@);
    let mut r: Vec<String> = Vec::new();
    let mut i: usize = 0;
    proof {
        reveal_strlit("data: ");
        assert(ls.take(0) =~= Seq::<Seq<char>>::empty());
    }
    while i < all.len()
        invariant
            all@.map_values(|l: String| l@) == ls,
            i <= all@.len(),
            r@.map_values(|s: String| s@) == data_of(ls.take(i as int)),
            "data: "@.len() == 6,
        decreases all@.len() - i,
    {
        let line = &all[i];
        assert(ls.take(i + 1).drop_last() =~= ls.take(i as int));
        assert(ls.take(i + 1).last() == line@);
        if starts_with_str(line.as_str(), "data: ") {
            let ghost prior = r@.map_values(|s: String| s@);
            r.push(substring(line.as_str(), 6, line.unicode_len()));
            assert(r@.map_values(|s: String| s@) =~= prior.push(line@.subrange(6, line@.len() as int)));
        }
        i = i + 1;
    }
    assert(ls.take(all@.len() as int) =~= ls);
    r
}

/// The data lines of a chunk of the live stream: none unless it is a
/// message; a message must be UTF-8 text.
pub fn event_data(bytes: &[u8]) -> (r: Result<Vec<String>, WatchError>)
    ensures
        !(bytes@.len() >= 14 && bytes@.subrange(0, 14) == message_marker()) ==> (r matches Ok(v)
            && v@.len() == 0),
        (bytes@.len() >= 14 && bytes@.subrange(0, 14) == message_marker()) ==> match utf8_text(bytes@) {
            None => r matches Err(WatchError::Utf8),
            Some(text) => r matches Ok(v) && v@.map_values(|s: String| s@) == data_of(lines(text)),
        },
{
    if !starts_with_marker(bytes) {
        return Ok(Vec::new());
    }
    match decode_utf8(bytes) {
        Some(text) => Ok(data_lines(text.as_str())),
        None => Err(WatchError::Utf8),
    }
}

/// A field of a remote event that should be an object holding an integer.
#[derive(Debug, Clone, Copy, PartialEq, Eq, Structural)]
pub enum LiveField {
    /// The field is not an object.
    NotObject,
    /// The object does not hold an integer under the expected key.
    NotInteger,
    /// The integer found.
    Integer(i64),
}

/// An event of the live stream of the remote space: its type, and what its
/// `content` and `workspace` fields hold under `content_id` and `workspace_id`.
#[derive(Debug)]
pub struct TracimLiveEvent {
    pub event_id: i32,
    pub event_type: String,
    pub content: LiveField,
    pub workspace: LiveField,
}

/// What to do with a remote event.
#[derive(Debug, PartialEq, Eq, Structural, Clone, Copy)]
pub enum Route {
    /// Nothing.
    Ignore,
    /// The event is about another space: a content the local index knows has
    /// left this space.
    DeletedIfKnown(ContentId),
    /// Send this event.
    Send(RemoteEvent),
}

/// The remote event a type of content event makes.
pub open spec fn event_for_type(event_type: Seq<char>, id: ContentId) -> Option<RemoteEvent> {
    match remote_event_type_named(event_type) {
        Some(RemoteEventType::Modified) => Some(RemoteEvent::Updated(id)),
        Some(RemoteEventType::Created) => Some(RemoteEvent::Created(id)),
        Some(RemoteEventType::Deleted) => Some(RemoteEvent::Deleted(id)),
        None => None,
    }
}

/// What to do with a remote event: events of a type that [`RemoteEventType`]
/// does not recognise are let go; for the others the content and space are
/// read, an event of another space concerns a content only if it is known,
/// and an event of this space is sent as the event its type makes.
pub fn route(live: &TracimLiveEvent, workspace_id: i32) -> (r: Result<Route, WatchError>)
    ensures
        remote_event_type_named(live.event_type@) is None ==> r == Ok::<Route, WatchError>(Route::Ignore),
        remote_event_type_named(live.event_type@) is Some ==> match (live.content, live.workspace) {
            (LiveField::Integer(c), LiveField::Integer(w)) => if workspace_id != w as i32 {
                r == Ok::<Route, WatchError>(Route::DeletedIfKnown(c as i32))
            } else {
                r == Ok::<Route, WatchError>(Route::Send(event_for_type(live.event_type@, c as i32)->Some_0))
            },
            _ => r matches Err(WatchError::Unexpected(_)),
        },
{
    let event_type = match RemoteEventType::from_str(live.event_type.as_str()) {
        Some(event_type) => event_type,
        None => return Ok(Route::Ignore),
    };
    let content_id: i32 = match live.content {
        LiveField::Integer(c) => c as i32,
        LiveField::NotObject => {
            return Err(WatchError::Unexpected("Remote event content not appear to not be object".to_string()));
        },
        LiveField::NotInteger => {
            return Err(
                WatchError::Unexpected("Remote event content content_id appear to not be integer".to_string()),
            );
        },
    };
    let event_workspace_id: i32 = match live.workspace {
        LiveField::Integer(w) => w as i32,
        LiveField::NotObject => {
            return Err(WatchError::Unexpected("Remote event workspace not appear to not be object".to_string()));
        },
        LiveField::NotInteger => {
            return Err(
                WatchError::Unexpected(
                    "Remote event workspace workspace_id appear to not be integer".to_string(),
                ),
            );
        },
    };
    if workspace_id != event_workspace_id {
        return Ok(Route::DeletedIfKnown(content_id));
    }
    match event_type {
        RemoteEventType::Modified => Ok(Route::Send(RemoteEvent::Updated(content_id))),
        RemoteEventType::Created => Ok(Route::Send(RemoteEvent::Created(content_id))),
        RemoteEventType::Deleted => Ok(Route::Send(RemoteEvent::Deleted(content_id))),
    }
}

/// The event of a content that left this space: a deletion when the local
/// index knows it, nothing otherwise.
pub fn on_known(content_id: ContentId, known: bool) -> (r: Option<RemoteEvent>)
    ensures
        known ==> r == Some(RemoteEvent::Deleted(content_id)),
        !known ==> r is None,
{
    if known {
        Some(RemoteEvent::Deleted(content_id))
    } else {
        None
    }
}


/// Each content event is sent as the remote event of its kind, about the
/// event's content: a deletion as a deletion, a creation or a restoration as
/// a creation, a modification as an update.
pub proof fn law_content_events_sent_by_kind(content_type: ContentType, id: ContentId)
    ensures
        event_for_type(content_event_name("deleted"@, content_type), id) == Some(RemoteEvent::Deleted(id)),
        event_for_type(content_event_name("created"@, content_type), id) == Some(RemoteEvent::Created(id)),
        event_for_type(content_event_name("undeleted"@, content_type), id) == Some(RemoteEvent::Created(id)),
        event_for_type(content_event_name("modified"@, content_type), id) == Some(RemoteEvent::Updated(id)),
{
    law_content_events_recognised(content_type);
}

} // verus!
