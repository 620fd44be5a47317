use trsync::content::Content;
use trsync::state::{MemoryState, StateError, StateModification};
use trsync::types::ContentType;

fn content(id: i32, revision: i32, name: &str, parent: Option<i32>, content_type: ContentType) -> Content {
    Content::new(id, revision, name.to_string(), parent, content_type)
}

/// A state of `(id, revision, name, parent)` contents; those with a child are folders.
fn build_memory_state(raw: &[(i32, i32, &str, Option<i32>)]) -> MemoryState {
    let contents = raw
        .iter()
        .map(|(id, revision, name, parent)| {
            let is_parent = raw.iter().any(|(_, _, _, p)| *p == Some(*id));
            let kind = if is_parent || !name.contains('.') { ContentType::Folder } else { ContentType::File };
            content(*id, *revision, name, *parent, kind)
        })
        .collect();
    MemoryState::new(contents, vec![]).unwrap()
}

fn path_of(state: &MemoryState, id: i32) -> String {
    state.path(id).unwrap().to_path_buf()
}

#[test]
fn test_content_path_root_file() {
    let state = build_memory_state(&[(1, 1, "a.txt", None)]);
    assert_eq!(path_of(&state, 1), "a.txt");
}

#[test]
fn test_content_path_in_folder() {
    let state = build_memory_state(&[(1, 1, "Folder", None), (2, 2, "a.txt", Some(1))]);
    assert_eq!(path_of(&state, 2), "Folder/a.txt");
}

#[test]
fn test_content_path_in_sub_folder() {
    let state = build_memory_state(&[
        (1, 1, "Folder1", None),
        (2, 2, "Folder2", Some(1)),
        (3, 3, "a.txt", Some(2)),
    ]);
    assert_eq!(path_of(&state, 3), "Folder1/Folder2/a.txt");
}

#[test]
fn state_known() {
    let state = build_memory_state(&[(1, 1, "a.txt", None)]);
    assert!(state.known(1).unwrap());
    assert!(!state.known(2).unwrap());
}

#[test]
fn state_get() {
    let state = build_memory_state(&[(1, 2, "a.txt", None)]);
    let content = state.get(1).unwrap().unwrap();
    assert_eq!(content.id(), 1);
    assert_eq!(content.revision_id(), 2);
    assert_eq!(content.parent_id(), None);
    assert!(state.get(5).unwrap().is_none());
}

#[test]
fn state_content_id_for_path() {
    let state = build_memory_state(&[(1, 2, "Folder", None), (3, 4, "a.txt", Some(1))]);
    assert_eq!(state.content_id_for_path(&"Folder/a.txt".to_string()).unwrap(), Some(3));
    assert_eq!(state.content_id_for_path(&"Folder".to_string()).unwrap(), Some(1));
    assert_eq!(state.content_id_for_path(&"a.txt".to_string()).unwrap(), None);
}

#[test]
fn state_path_unknown_content() {
    let state = build_memory_state(&[(1, 2, "a.txt", None)]);
    assert_eq!(state.path(7).err(), Some(StateError::UnknownContent(7)));
}

#[test]
fn state_contents_folders_first() {
    let state = MemoryState::new(
        vec![
            content(3, 4, "a.txt", Some(1), ContentType::File),
            content(1, 2, "Folder", None, ContentType::Folder),
        ],
        vec![],
    )
    .unwrap();
    let contents = state.contents().unwrap();
    assert_eq!(contents.len(), 2);
    assert_eq!(contents[0].id(), 1);
    assert_eq!(contents[0].revision_id(), 2);
    assert_eq!(contents[0].parent_id(), None);
    assert_eq!(contents[1].id(), 3);
    assert_eq!(contents[1].revision_id(), 4);
    assert_eq!(contents[1].parent_id(), Some(1));
}

#[test]
fn state_direct_children_ids() {
    let state = build_memory_state(&[(1, 2, "Folder", None), (3, 4, "a.txt", Some(1))]);
    assert_eq!(state.direct_children_ids(1).unwrap(), vec![3]);
    assert_eq!(state.direct_children_ids(3).unwrap(), Vec::<i32>::new());
}

#[test]
fn state_add_then_get() {
    let mut state = MemoryState::empty();
    state.add(content(1, 2, "a.txt", None, ContentType::File), "a.txt".to_string(), 0).unwrap();
    let content = state.get(1).unwrap().unwrap();
    assert_eq!(content.id(), 1);
    assert_eq!(content.revision_id(), 2);
    assert_eq!(content.parent_id(), None);
}

#[test]
fn state_update() {
    let mut state = build_memory_state(&[(1, 2, "a.txt", None)]);
    state.update(1, "b.txt".to_string(), 3, None, 42).unwrap();
    let content = state.get(1).unwrap().unwrap();
    assert_eq!(content.id(), 1);
    assert_eq!(content.revision_id(), 3);
    assert_eq!(content.parent_id(), None);
    assert_eq!(content.file_name(), "b.txt");
    assert_eq!(state.update(9, "c.txt".to_string(), 1, None, 0), Err(StateError::UnknownContent(9)));
}

#[test]
fn state_new_refuses_missing_parent() {
    let state = MemoryState::new(vec![content(2, 1, "a.txt", Some(1), ContentType::File)], vec![]);
    assert!(state.is_err());
}

#[test]
fn state_forgot_with_children() {
    let mut state = build_memory_state(&[
        (1, 1, "Folder", None),
        (2, 2, "a.txt", Some(1)),
        (3, 3, "b.txt", None),
    ]);
    state.change(StateModification::Forgot(1)).unwrap();
    assert!(!state.known(1).unwrap());
    assert!(!state.known(2).unwrap());
    assert!(state.known(3).unwrap());
    assert_eq!(state.change(StateModification::Forgot(1)), Err(StateError::UnknownContent(1)));
}

#[test]
fn state_change_add_and_update() {
    let mut state = MemoryState::empty();
    state
        .change(StateModification::Add(content(1, 1, "Folder", None, ContentType::Folder), "Folder".to_string(), 5))
        .unwrap();
    state
        .change(StateModification::Add(content(2, 1, "a.txt", Some(1), ContentType::File), "Folder/a.txt".to_string(), 6))
        .unwrap();
    state.change(StateModification::Update(2, "x.txt".to_string(), 2, None, 7)).unwrap();
    assert_eq!(path_of(&state, 2), "x.txt");
    assert_eq!(state.get(2).unwrap().unwrap().revision_id(), 2);
}

#[test]
fn state_parent_loop_is_reported() {
    let state = MemoryState::new(
        vec![
            content(1, 1, "A", Some(2), ContentType::Folder),
            content(2, 1, "B", Some(1), ContentType::Folder),
        ],
        vec![],
    )
    .unwrap();
    assert!(matches!(state.path(1), Err(StateError::ParentLoop(_))));
}

#[test]
fn state_forgot_keeps_other_contents_unchanged() {
    let mut state = build_memory_state(&[
        (1, 1, "Folder", None),
        (2, 2, "a.txt", Some(1)),
        (3, 3, "b.txt", None),
        (4, 4, "Other", None),
        (5, 5, "c.txt", Some(4)),
    ]);
    let before = vec![state.get(3).unwrap().unwrap(), state.get(4).unwrap().unwrap(), state.get(5).unwrap().unwrap()];
    state.change(StateModification::Forgot(1)).unwrap();
    assert_eq!(state.get(3).unwrap().unwrap(), before[0]);
    assert_eq!(state.get(4).unwrap().unwrap(), before[1]);
    assert_eq!(state.get(5).unwrap().unwrap(), before[2]);
    assert_eq!(path_of(&state, 5), "Other/c.txt");
}

#[test]
fn state_no_longer_known_lists_forgotten_in_order() {
    let mut state = build_memory_state(&[
        (1, 1, "Folder", None),
        (2, 2, "a.txt", Some(1)),
        (3, 3, "b.txt", None),
    ]);
    state.change(StateModification::Forgot(1)).unwrap();
    assert_eq!(state.no_longer_known(&vec![3, 2, 1, 7]), vec![2, 1, 7]);
    assert_eq!(state.no_longer_known(&vec![3]), Vec::<i32>::new());
}

#[test]
fn state_contents_is_a_permutation_with_folders_first() {
    let state = MemoryState::new(
        vec![
            content(1, 1, "a.txt", None, ContentType::File),
            content(2, 1, "F", None, ContentType::Folder),
            content(3, 1, "b.txt", Some(2), ContentType::File),
            content(4, 1, "G", Some(2), ContentType::Folder),
        ],
        vec![],
    )
    .unwrap();
    let ids: Vec<i32> = state.contents().unwrap().iter().map(|c| c.id()).collect();
    assert_eq!(ids, vec![2, 4, 1, 3]);
}
