use trsync::event::{DiskEvent, RemoteEvent};
use trsync::types::ContentType;
use trsync::watcher::{
    data_lines, digest_event, event_data, on_known, route, LiveField, Route, TracimLiveEvent, WatchError,
    WatchedEvent,
};

fn s(x: &str) -> String {
    x.to_string()
}

#[test]
fn digest_file_events() {
    assert_eq!(
        digest_event(&WatchedEvent::Create(s("/ws/Folder/a.txt")), "/ws").unwrap(),
        vec![DiskEvent::Created(s("Folder/a.txt"))]
    );
    assert_eq!(digest_event(&WatchedEvent::Write(s("/ws/a.txt")), "/ws").unwrap(), vec![DiskEvent::Modified(s("a.txt"))]);
    assert_eq!(digest_event(&WatchedEvent::Remove(s("/ws/a.txt")), "/ws").unwrap(), vec![DiskEvent::Deleted(s("a.txt"))]);
}

#[test]
fn digest_renames() {
    assert_eq!(
        digest_event(&WatchedEvent::Rename(s("/ws/a.txt"), s("/ws/b.txt"), ContentType::File, ContentType::File), "/ws")
            .unwrap(),
        vec![DiskEvent::Renamed(s("a.txt"), s("b.txt"))]
    );
    assert_eq!(
        digest_event(&WatchedEvent::Rename(s("/ws/a"), s("/ws/b"), ContentType::File, ContentType::Folder), "/ws")
            .unwrap(),
        vec![DiskEvent::Deleted(s("a")), DiskEvent::Created(s("b"))]
    );
    assert!(matches!(
        digest_event(&WatchedEvent::Rename(s("/ws/a"), s("/elsewhere/b"), ContentType::File, ContentType::File), "/ws"),
        Err(WatchError::StripPrefix(_, b)) if b == "/elsewhere/b"
    ));
}

#[test]
fn digest_skips_notices_and_ignored_files() {
    assert!(digest_event(&WatchedEvent::NoticeWrite(s("/ws/a.txt")), "/ws").unwrap().is_empty());
    assert!(digest_event(&WatchedEvent::Chmod(s("/ws/a.txt")), "/ws").unwrap().is_empty());
    assert!(digest_event(&WatchedEvent::Rescan, "/ws").unwrap().is_empty());
    assert!(digest_event(&WatchedEvent::Error(s("denied"), None), "/ws").unwrap().is_empty());
    assert!(digest_event(&WatchedEvent::Create(s("/ws/.a.swp")), "/ws").unwrap().is_empty());
    assert!(digest_event(&WatchedEvent::Write(s("/ws/a.txt~")), "/ws").unwrap().is_empty());
    assert!(matches!(
        digest_event(&WatchedEvent::Create(s("/other/a.txt")), "/ws"),
        Err(WatchError::StripPrefix(a, b)) if a == "/ws" && b == "/other/a.txt"
    ));
}

#[test]
fn live_stream_data_lines() {
    let chunk = b"event: message\ndata: {\"event_id\": 1}\r\nid: 3\ndata: second\n";
    assert_eq!(event_data(chunk).unwrap(), vec![s("{\"event_id\": 1}"), s("second")]);
    assert!(event_data(b"event: keep-alive\ndata: x\n").unwrap().is_empty());
    assert!(event_data(b"").unwrap().is_empty());
    assert!(matches!(event_data(b"event: message\n\xff\xfe"), Err(WatchError::Utf8)));
    assert!(event_data(b"ev\xff").unwrap().is_empty());
    assert_eq!(data_lines("data: a\ndata:b\ndata: "), vec![s("a"), s("")]);
}

fn live(event_type: &str, content: LiveField, workspace: LiveField) -> TracimLiveEvent {
    TracimLiveEvent { event_id: 1, event_type: s(event_type), content, workspace }
}

#[test]
fn remote_events_routing() {
    assert_eq!(
        route(&live("content.modified.file", LiveField::Integer(4), LiveField::Integer(7)), 7).unwrap(),
        Route::Send(RemoteEvent::Updated(4))
    );
    assert_eq!(
        route(&live("content.undeleted.folder", LiveField::Integer(4), LiveField::Integer(7)), 7).unwrap(),
        Route::Send(RemoteEvent::Created(4))
    );
    assert_eq!(
        route(&live("content.deleted.html-document", LiveField::Integer(4), LiveField::Integer(7)), 7).unwrap(),
        Route::Send(RemoteEvent::Deleted(4))
    );
    assert_eq!(
        route(&live("content.created.file", LiveField::Integer(4), LiveField::Integer(8)), 7).unwrap(),
        Route::DeletedIfKnown(4)
    );
    assert_eq!(
        route(&live("user.modified", LiveField::NotObject, LiveField::NotObject), 7).unwrap(),
        Route::Ignore
    );
    assert!(matches!(
        route(&live("content.created.file", LiveField::NotObject, LiveField::Integer(7)), 7),
        Err(WatchError::Unexpected(_))
    ));
    assert!(matches!(
        route(&live("content.created.file", LiveField::Integer(4), LiveField::NotInteger), 7),
        Err(WatchError::Unexpected(_))
    ));
    assert_eq!(on_known(4, true), Some(RemoteEvent::Deleted(4)));
    assert_eq!(on_known(4, false), None);
}

#[test]
fn digest_with_empty_workspace_keeps_paths() {
    assert_eq!(
        digest_event(&WatchedEvent::Rename(s("a"), s("b"), ContentType::File, ContentType::Folder), "").unwrap(),
        vec![DiskEvent::Deleted(s("a")), DiskEvent::Created(s("b"))]
    );
    assert_eq!(
        digest_event(&WatchedEvent::Rename(s("a"), s("b"), ContentType::File, ContentType::File), "").unwrap(),
        vec![DiskEvent::Renamed(s("a"), s("b"))]
    );
}
