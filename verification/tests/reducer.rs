use trsync::event::{DiskEvent, DiskEventWrap};
use trsync::reducer::LocalReceiverReducer;

fn created(p: &str) -> DiskEvent {
    DiskEvent::Created(p.to_string())
}

fn deleted(p: &str) -> DiskEvent {
    DiskEvent::Deleted(p.to_string())
}

fn modified(p: &str) -> DiskEvent {
    DiskEvent::Modified(p.to_string())
}

fn renamed(a: &str, b: &str) -> DiskEvent {
    DiskEvent::Renamed(a.to_string(), b.to_string())
}

fn wrap(p: &str, e: DiskEvent) -> DiskEventWrap {
    DiskEventWrap::new(p.to_string(), e)
}

/// Feeds `given` to a reducer and reads as many reduced events as `expected` holds.
fn check(given: Vec<DiskEvent>, expected: Vec<DiskEventWrap>) {
    let mut reducer = LocalReceiverReducer::new();
    reducer.extend(given);
    let result: Vec<DiskEventWrap> = expected
        .iter()
        .map(|_| reducer.next_event().unwrap().unwrap())
        .collect();
    assert_eq!(result, expected);
    assert!(reducer.is_empty());
}

#[test]
fn reducer_empty() {
    check(vec![], vec![]);
    let mut reducer = LocalReceiverReducer::new();
    assert_eq!(reducer.next_event().unwrap(), None);
}

#[test]
fn reducer_created_then_deleted_vanishes() {
    let mut reducer = LocalReceiverReducer::new();
    reducer.extend(vec![created("a.txt"), deleted("a.txt")]);
    assert_eq!(reducer.next_event().unwrap(), None);
    assert!(reducer.is_empty());
}

#[test]
fn reducer_created_then_renamed() {
    check(
        vec![created("a.txt"), renamed("a.txt", "b.txt")],
        vec![wrap("a.txt", created("b.txt"))],
    );
}

#[test]
fn reducer_created_renamed_then_old_path_deleted() {
    let mut reducer = LocalReceiverReducer::new();
    reducer.extend(vec![created("a.txt"), renamed("a.txt", "b.txt"), deleted("a.txt")]);
    assert_eq!(reducer.next_event().unwrap(), Some(wrap("a.txt", created("b.txt"))));
    // The deletion is not about the renamed file any more: it stays pending.
    assert_eq!(reducer.next_event().unwrap(), Some(wrap("a.txt", deleted("a.txt"))));
    assert!(reducer.is_empty());
}

#[test]
fn reducer_created_then_modified() {
    check(
        vec![created("a.txt"), modified("a.txt")],
        vec![wrap("a.txt", created("a.txt"))],
    );
}

#[test]
fn reducer_created_renamed_twice() {
    check(
        vec![created("a.txt"), renamed("a.txt", "b.txt"), renamed("b.txt", "c.txt")],
        vec![wrap("a.txt", created("c.txt"))],
    );
}

#[test]
fn reducer_modified_then_deleted() {
    check(
        vec![modified("a.txt"), deleted("a.txt")],
        vec![wrap("a.txt", deleted("a.txt"))],
    );
}

#[test]
fn reducer_modified_then_renamed() {
    check(
        vec![modified("a.txt"), renamed("a.txt", "b.txt")],
        vec![wrap("a.txt", modified("b.txt"))],
    );
}

#[test]
fn reducer_modified_renamed_twice() {
    check(
        vec![modified("a.txt"), renamed("a.txt", "b.txt"), renamed("b.txt", "c.txt")],
        vec![wrap("a.txt", modified("c.txt"))],
    );
}

#[test]
fn reducer_modified_renamed_then_deleted() {
    check(
        vec![modified("a.txt"), renamed("a.txt", "b.txt"), deleted("b.txt")],
        vec![wrap("a.txt", deleted("b.txt"))],
    );
}

#[test]
fn reducer_renamed_twice() {
    check(
        vec![renamed("a.txt", "b.txt"), renamed("b.txt", "c.txt")],
        vec![wrap("a.txt", renamed("b.txt", "c.txt"))],
    );
}

#[test]
fn reducer_renamed_three_times() {
    check(
        vec![
            renamed("a.txt", "b.txt"),
            renamed("b.txt", "c.txt"),
            renamed("c.txt", "d.txt"),
        ],
        vec![wrap("a.txt", renamed("c.txt", "d.txt"))],
    );
}

#[test]
fn reducer_two_independent_files() {
    check(
        vec![
            renamed("a.txt", "b.txt"),
            modified("c.txt"),
            renamed("c.txt", "d.txt"),
        ],
        vec![
            wrap("a.txt", renamed("a.txt", "b.txt")),
            wrap("c.txt", modified("d.txt")),
        ],
    );
}

#[test]
fn reducer_renamed_then_deleted() {
    check(
        vec![renamed("a.txt", "b.txt"), deleted("b.txt")],
        vec![wrap("a.txt", deleted("b.txt"))],
    );
}

#[test]
fn reducer_three_created() {
    check(
        vec![created("a.txt"), created("b.txt"), created("c.txt")],
        vec![
            wrap("a.txt", created("a.txt")),
            wrap("b.txt", created("b.txt")),
            wrap("c.txt", created("c.txt")),
        ],
    );
}

#[test]
fn reducer_three_modified() {
    check(
        vec![modified("a.txt"), modified("b.txt"), modified("c.txt")],
        vec![
            wrap("a.txt", modified("a.txt")),
            wrap("b.txt", modified("b.txt")),
            wrap("c.txt", modified("c.txt")),
        ],
    );
}

#[test]
fn reducer_three_deleted() {
    check(
        vec![deleted("a.txt"), deleted("b.txt"), deleted("c.txt")],
        vec![
            wrap("a.txt", deleted("a.txt")),
            wrap("b.txt", deleted("b.txt")),
            wrap("c.txt", deleted("c.txt")),
        ],
    );
}

#[test]
fn reducer_deleted_created_deleted_created() {
    check(
        vec![
            deleted("a.txt"),
            created("a.txt"),
            deleted("a.txt"),
            created("a.txt"),
        ],
        vec![
            wrap("a.txt", deleted("a.txt")),
            wrap("a.txt", created("a.txt")),
        ],
    );
}

#[test]
fn reducer_deletion_keeps_followers_pending() {
    let mut reducer = LocalReceiverReducer::new();
    reducer.extend(vec![deleted("a.txt"), created("b.txt"), modified("b.txt")]);
    assert_eq!(reducer.next_event().unwrap(), Some(wrap("a.txt", deleted("a.txt"))));
    assert!(!reducer.is_empty());
    assert_eq!(reducer.next_event().unwrap(), Some(wrap("b.txt", created("b.txt"))));
    assert!(reducer.is_empty());
}

#[test]
fn reducer_cancel_keeps_unrelated_order() {
    // A created file deleted later vanishes; the next pending event is taken
    // instead and unrelated events stay pending.
    let mut reducer = LocalReceiverReducer::new();
    reducer.extend(vec![created("a.txt"), created("b.txt"), deleted("a.txt"), modified("c.txt")]);
    assert_eq!(reducer.next_event().unwrap(), Some(wrap("c.txt", modified("c.txt"))));
    assert_eq!(reducer.next_event().unwrap(), Some(wrap("b.txt", created("b.txt"))));
    assert!(reducer.is_empty());
}

#[test]
fn reducer_receive_appends_then_reduces() {
    let mut reducer = LocalReceiverReducer::new();
    reducer.extend(vec![created("a.txt")]);
    let next = reducer.receive(vec![renamed("a.txt", "b.txt")]).unwrap();
    assert_eq!(next, Some(wrap("a.txt", created("b.txt"))));
    assert_eq!(wrap("x", created("y")).stored_path(), "x".to_string());
}

#[test]
fn unrelated_events_stay_pending_in_order() {
    let mut reducer = LocalReceiverReducer::new();
    reducer.extend(vec![created("a.txt"), modified("b.txt"), created("c.txt"), renamed("a", "d.txt")]);
    assert_eq!(reducer.next_event().unwrap(), Some(wrap("a.txt", created("a.txt"))));
    assert_eq!(reducer.next_event().unwrap(), Some(wrap("b.txt", modified("b.txt"))));
    assert_eq!(reducer.next_event().unwrap(), Some(wrap("c.txt", created("c.txt"))));
    assert_eq!(reducer.next_event().unwrap(), Some(wrap("a", renamed("a", "d.txt"))));
    assert!(reducer.is_empty());
}
