use trsync::change::RemoteChange as PathRemoteChange;
use trsync::content::Content;
use trsync::state::MemoryState;
use trsync::sync::local::{changes, ignore_entry, LocalChange};
use trsync::sync::remote::{remote_changes, remote_state, is_deleted, RemoteChange, RemoteContent, SyncError};
use trsync::sync::{locate_changes, ResolveMethod, StartupSyncResolver};
use trsync::types::ContentType;

fn remote(id: i32, revision: i32, parent: Option<i32>, content_type: &str, name: &str, deleted: bool) -> RemoteContent {
    RemoteContent {
        content_id: id,
        current_revision_id: revision,
        parent_id: parent,
        content_type: content_type.to_string(),
        modified: "".to_string(),
        raw_content: None,
        filename: name.to_string(),
        is_deleted: deleted,
        is_archived: false,
        sub_content_types: vec![],
    }
}

fn contents_of(state: &MemoryState) -> Vec<Content> {
    state.contents().unwrap()
}

// Local changes: what the disk holds against what the index recorded.

#[test]
fn test_empty() {
    let state = changes(&vec![], &vec![]);
    assert_eq!(state, vec![])
}

#[test]
fn test_one_new_file() {
    let state = changes(&vec![("a.txt".to_string(), 1_700_000_000_000)], &vec![]);
    assert_eq!(state, vec![LocalChange::New("a.txt".to_string())])
}

#[test]
fn test_one_file_but_not_modified() {
    let timestamp: u64 = 1_700_000_000_000;
    let state = changes(
        &vec![("a.txt".to_string(), timestamp)],
        &vec![("a.txt".to_string(), timestamp)],
    );
    assert_eq!(state, vec![])
}

#[test]
fn test_one_file_changed() {
    let state = changes(
        &vec![("a.txt".to_string(), 1_700_000_000_000)],
        &vec![("a.txt".to_string(), 0)],
    );
    assert_eq!(state, vec![LocalChange::Updated("a.txt".to_string())])
}

#[test]
fn test_one_file_deleted() {
    let state = changes(&vec![], &vec![("a.txt".to_string(), 0)]);
    assert_eq!(state, vec![LocalChange::Disappear("a.txt".to_string())])
}

#[test]
fn local_changes_keep_disk_order_then_disappeared() {
    let state = changes(
        &vec![("b.txt".to_string(), 5), ("a.txt".to_string(), 1)],
        &vec![("a.txt".to_string(), 1), ("c.txt".to_string(), 2)],
    );
    assert_eq!(
        state,
        vec![LocalChange::New("b.txt".to_string()), LocalChange::Disappear("c.txt".to_string())]
    )
}

#[test]
fn walk_skips_folders_and_hidden_entries() {
    assert!(!ignore_entry(true, true, "/home/me/Tracim"));
    assert!(ignore_entry(false, true, "Folder"));
    assert!(ignore_entry(false, false, ".hidden"));
    assert!(ignore_entry(false, false, "Folder/~backup"));
    assert!(ignore_entry(false, false, "#lock"));
    assert!(!ignore_entry(false, false, "Folder/a.txt~"));
    assert!(!ignore_entry(false, false, "a.txt"));
}

// Remote state and changes.

#[test]
fn test_state_empty() {
    let state = remote_state(&vec![]).unwrap();
    assert_eq!(contents_of(&state), vec![])
}

#[test]
fn test_state_flat() {
    let state = remote_state(&vec![
        remote(1, 1, None, "file", "a.txt", false),
        remote(2, 2, None, "file", "b.txt", false),
    ])
    .unwrap();
    let contents = contents_of(&state);
    assert_eq!(contents.len(), 2);
}

#[test]
fn test_state_tree() {
    let state = remote_state(&vec![
        remote(1, 1, None, "folder", "Folder", false),
        remote(2, 2, Some(1), "file", "a.txt", false),
    ])
    .unwrap();
    let contents = contents_of(&state);
    assert_eq!(contents.len(), 2);
    assert_eq!(contents[0].id(), 1);
    assert_eq!(contents[1].id(), 2);
}

#[test]
fn test_state_flat_with_deleted() {
    let state = remote_state(&vec![
        remote(1, 1, None, "file", "a.txt", false),
        remote(2, 2, None, "file", "b.txt", true),
    ])
    .unwrap();
    let contents = contents_of(&state);
    assert_eq!(contents.len(), 1);
    assert_eq!(contents[0].id(), 1);
}

#[test]
fn test_state_tree_with_parent_deleted() {
    let state = remote_state(&vec![
        remote(1, 1, None, "folder", "Folder", true),
        remote(2, 2, Some(1), "file", "a.txt", false),
    ])
    .unwrap();
    let contents = contents_of(&state);
    assert_eq!(contents.len(), 0);
}

#[test]
fn test_changes_file_no_change() {
    let changes = remote_changes(&vec![remote(1, 1, None, "file", "a.txt", false)], &vec![(1, 1)]).unwrap();
    assert_eq!(changes, vec![])
}

#[test]
fn test_changes_file_is_new() {
    let changes = remote_changes(&vec![remote(1, 1, None, "file", "a.txt", false)], &vec![]).unwrap();
    assert_eq!(changes, vec![RemoteChange::New(1)])
}

#[test]
fn test_changes_file_is_updated() {
    let changes = remote_changes(&vec![remote(1, 2, None, "file", "a.txt", false)], &vec![(1, 1)]).unwrap();
    assert_eq!(changes, vec![RemoteChange::Updated(1)])
}

#[test]
fn test_changes_file_is_deleted() {
    let changes = remote_changes(&vec![], &vec![(1, 1)]).unwrap();
    assert_eq!(changes, vec![RemoteChange::Disappear(1)])
}

#[test]
fn remote_state_refuses_unknown_type_and_missing_parent() {
    assert_eq!(
        remote_state(&vec![remote(1, 1, None, "thread", "a", false)]).err(),
        Some(SyncError::UnknownContentType(1))
    );
    assert_eq!(
        remote_state(&vec![remote(2, 1, Some(9), "file", "a.txt", false)]).err(),
        Some(SyncError::MissingParent(9, 2))
    );
}

#[test]
fn deleted_parent_hides_child() {
    let all = vec![
        remote(1, 1, None, "folder", "Folder", true),
        remote(2, 2, Some(1), "file", "a.txt", false),
    ];
    assert_eq!(is_deleted(&all[1], &all), Ok(true));
    assert_eq!(is_deleted(&all[0], &all), Ok(true));
    let kept = vec![remote(3, 1, None, "file", "c.txt", false)];
    assert_eq!(is_deleted(&kept[0], &kept), Ok(false));
}

#[test]
fn content_from_remote_reads_type() {
    let content = Content::from_remote(&remote(4, 7, Some(1), "html-document", "doc", false)).unwrap();
    assert_eq!(content.id(), 4);
    assert_eq!(content.revision_id(), 7);
    assert_eq!(content.parent_id(), Some(1));
    assert_eq!(content.type_(), ContentType::HtmlDocument);
    assert_eq!(content.file_name(), "doc");
}

// Startup resolution of conflicts.

fn resolved(
    method: ResolveMethod,
    remotes: Vec<PathRemoteChange>,
    locals: Vec<LocalChange>,
) -> (Vec<PathRemoteChange>, Vec<LocalChange>) {
    StartupSyncResolver::new(remotes, locals, method).resolve().unwrap()
}

#[test]
fn resolve_empty() {
    assert_eq!(resolved(ResolveMethod::ForceLocal, vec![], vec![]), (vec![], vec![]));
}

#[test]
fn resolve_without_conflict() {
    assert_eq!(
        resolved(
            ResolveMethod::ForceLocal,
            vec![PathRemoteChange::New(1, "a.txt".to_string())],
            vec![LocalChange::New("b.txt".to_string())],
        ),
        (vec![PathRemoteChange::New(1, "a.txt".to_string())], vec![LocalChange::New("b.txt".to_string())])
    );
}

#[test]
fn resolve_conflict_local_wins() {
    assert_eq!(
        resolved(
            ResolveMethod::ForceLocal,
            vec![PathRemoteChange::New(1, "a.txt".to_string())],
            vec![LocalChange::New("a.txt".to_string())],
        ),
        (vec![], vec![LocalChange::New("a.txt".to_string())])
    );
}

#[test]
fn resolve_conflict_remote_wins() {
    assert_eq!(
        resolved(
            ResolveMethod::ForceRemote,
            vec![PathRemoteChange::New(1, "a.txt".to_string())],
            vec![LocalChange::New("a.txt".to_string())],
        ),
        (vec![PathRemoteChange::New(1, "a.txt".to_string())], vec![])
    );
}

#[test]
fn is_deleted_walks_up_to_root_missing_or_dead() {
    let all = vec![
        remote(1, 1, None, "folder", "A", false),
        remote(2, 1, Some(1), "folder", "B", false),
        remote(3, 1, Some(2), "file", "c.txt", false),
        remote(4, 1, Some(9), "folder", "D", false),
        remote(5, 1, Some(4), "file", "e.txt", false),
        remote(6, 1, Some(4), "file", "f.txt", true),
        remote(7, 1, Some(8), "folder", "G", false),
        remote(8, 1, None, "folder", "H", false),
    ];
    assert_eq!(is_deleted(&all[2], &all), Ok(false));
    assert_eq!(is_deleted(&all[4], &all), Err(SyncError::MissingParent(9, 4)));
    assert_eq!(is_deleted(&all[5], &all), Ok(true));
    assert_eq!(is_deleted(&all[6], &all), Ok(false));
    let mut archived_root = remote(1, 1, None, "folder", "A", false);
    archived_root.is_archived = true;
    let archived = vec![
        archived_root,
        remote(2, 1, Some(1), "folder", "B", false),
        remote(3, 1, Some(2), "file", "c.txt", false),
    ];
    assert_eq!(is_deleted(&archived[2], &archived), Ok(true));
}

#[test]
fn remote_changes_new_updated_and_disappeared_together() {
    let changes = remote_changes(
        &vec![
            remote(1, 1, None, "file", "a.txt", false),
            remote(2, 5, None, "file", "b.txt", false),
            remote(3, 1, None, "file", "c.txt", false),
            remote(4, 1, None, "file", "d.txt", true),
        ],
        &vec![(2, 4), (3, 1), (4, 1), (6, 1)],
    )
    .unwrap();
    assert_eq!(
        changes,
        vec![RemoteChange::New(1), RemoteChange::Updated(2), RemoteChange::Disappear(4), RemoteChange::Disappear(6)]
    );
}

#[test]
fn located_changes_take_their_path_from_the_right_side() {
    let remote_side = remote_state(&vec![
        remote(1, 2, None, "folder", "Folder", false),
        remote(2, 2, Some(1), "file", "a.txt", false),
    ])
    .unwrap();
    let local_side = MemoryState::new(
        vec![
            Content::new(1, 1, "Old".to_string(), None, ContentType::Folder),
            Content::new(3, 1, "b.txt".to_string(), Some(1), ContentType::File),
        ],
        vec![],
    )
    .unwrap();
    let located = locate_changes(
        &vec![RemoteChange::New(2), RemoteChange::Updated(1), RemoteChange::Disappear(3)],
        &remote_side,
        &local_side,
    )
    .unwrap();
    assert_eq!(
        located,
        vec![
            PathRemoteChange::New(2, "Folder/a.txt".to_string()),
            PathRemoteChange::Updated(1, "Folder".to_string()),
            PathRemoteChange::Disappear(3, "Old/b.txt".to_string()),
        ]
    );
    assert!(locate_changes(&vec![RemoteChange::Disappear(2)], &remote_side, &local_side).is_err());
}
