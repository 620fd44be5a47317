use trsync::content::Content;
use trsync::event::{DiskEvent, DiskEventWrap, Event, RemoteEvent};
use trsync::executor::disk::{ancestors, AbsentFromDiskExecutor, PresentOnDiskExecutor, UpdatedOnDiskExecutor};
use trsync::executor::remote::{
    document_differs, AbsentFromRemoteExecutor, AbsentFromRemoteStep, CreateStep, CreatedOnRemoteExecutor,
    ModifiedOnRemoteExecutor, ModifyStep, NamedCall, NamedOnRemoteExecutor,
};
use trsync::executor::{ExecutorError, TracimError};
use trsync::operator::{ExecutorChoice, Operator};
use trsync::state::{MemoryState, StateModification};
use trsync::sync::remote::RemoteContent;
use trsync::types::ContentType;

fn content(id: i32, revision: i32, name: &str, parent: Option<i32>, content_type: ContentType) -> Content {
    Content::new(id, revision, name.to_string(), parent, content_type)
}

fn state() -> MemoryState {
    MemoryState::new(
        vec![
            content(1, 1, "Folder", None, ContentType::Folder),
            content(2, 2, "a.txt", Some(1), ContentType::File),
            content(3, 3, "b.txt", None, ContentType::File),
        ],
        vec![],
    )
    .unwrap()
}

fn remote(id: i32, revision: i32, parent: Option<i32>, content_type: &str, name: &str) -> RemoteContent {
    RemoteContent {
        content_id: id,
        current_revision_id: revision,
        parent_id: parent,
        content_type: content_type.to_string(),
        modified: "".to_string(),
        raw_content: None,
        filename: name.to_string(),
        is_deleted: false,
        is_archived: false,
        sub_content_types: vec![],
    }
}

fn local(stored: &str, event: DiskEvent) -> Event {
    Event::Local(DiskEventWrap::new(stored.to_string(), event))
}

#[test]
fn absent_from_disk_plans_removal() {
    let executor = AbsentFromDiskExecutor::new("/ws".to_string(), 2);
    let plan = executor.prepare(&state()).unwrap();
    assert_eq!(plan.content_path, "Folder/a.txt");
    assert_eq!(plan.absolute_path, "/ws/Folder/a.txt");
    assert!(!plan.is_folder);
    let mut ignore = vec![];
    let modifications = executor.finish(&plan, true, &mut ignore);
    assert_eq!(ignore, vec![local("Folder/a.txt", DiskEvent::Deleted("Folder/a.txt".to_string()))]);
    assert!(matches!(modifications[..], [StateModification::Forgot(2)]));
    let mut none = vec![];
    executor.finish(&plan, false, &mut none);
    assert!(none.is_empty());
}

#[test]
fn absent_from_disk_of_unknown_content() {
    let executor = AbsentFromDiskExecutor::new("/ws".to_string(), 9);
    assert!(matches!(executor.prepare(&state()), Err(ExecutorError::UnknownContent(9))));
}

#[test]
fn present_on_disk_places_under_parent() {
    let executor = PresentOnDiskExecutor::new("/ws".to_string(), 4);
    let plan = executor.prepare(&state(), &remote(4, 1, Some(1), "file", "c.txt")).unwrap();
    assert_eq!(plan.content_path, "Folder/c.txt");
    assert_eq!(plan.absolute_path, "/ws/Folder/c.txt");
    let mut ignore = vec![];
    plan.on_target_checked(false, &mut ignore);
    plan.on_file_created(false, &mut ignore);
    plan.on_filled(&mut ignore);
    assert_eq!(
        ignore,
        vec![
            local("Folder/c.txt", DiskEvent::Created("Folder/c.txt".to_string())),
            local("Folder/c.txt", DiskEvent::Created("Folder/c.txt".to_string())),
            local("Folder/c.txt", DiskEvent::Modified("Folder/c.txt".to_string())),
        ]
    );
    let modifications = plan.finish(77);
    match &modifications[..] {
        [StateModification::Add(c, p, t)] => {
            assert_eq!(c.id(), 4);
            assert_eq!(p, "Folder/c.txt");
            assert_eq!(*t, 77);
        },
        _ => panic!("one addition expected"),
    }
}

#[test]
fn present_on_disk_with_missing_parent() {
    let executor = PresentOnDiskExecutor::new("/ws".to_string(), 4);
    let result = executor.prepare(&state(), &remote(4, 1, Some(8), "file", "c.txt"));
    assert!(matches!(result, Err(ExecutorError::MissingParent(4, 8))));
}

#[test]
fn present_on_disk_folder_ancestors() {
    assert_eq!(ancestors(&"A/B/C".to_string()), vec!["A/B".to_string(), "A".to_string(), "".to_string()]);
    assert_eq!(ancestors(&"A".to_string()), vec!["".to_string()]);
    assert_eq!(ancestors(&"".to_string()), Vec::<String>::new());
    let executor = PresentOnDiskExecutor::new("/ws".to_string(), 5);
    let plan = executor.prepare(&state(), &remote(5, 1, Some(1), "folder", "Sub")).unwrap();
    let mut ignore = vec![];
    for ancestor in plan.ancestors() {
        plan.on_ancestor_checked(&ancestor, ancestor == "Folder", &mut ignore);
    }
    assert_eq!(ignore, vec![local("", DiskEvent::Created("".to_string()))]);
    assert!(plan.on_folder_created(Some("denied".to_string()), true).is_ok());
    assert!(matches!(plan.on_folder_created(Some("denied".to_string()), false), Err(ExecutorError::Unexpected(_))));
}

#[test]
fn updated_on_disk_moves_and_downloads() {
    let executor = UpdatedOnDiskExecutor::new("/ws".to_string(), 3, true);
    let plan = executor.prepare(&state(), &remote(3, 4, Some(1), "file", "x.txt")).unwrap();
    assert_eq!(plan.local_path, "b.txt");
    assert_eq!(plan.remote_path, "Folder/x.txt");
    assert!(plan.moves);
    assert!(plan.download);
    let mut ignore = vec![];
    plan.on_moved(&mut ignore);
    plan.on_downloaded(&mut ignore);
    assert_eq!(
        ignore,
        vec![
            local("b.txt", DiskEvent::Renamed("b.txt".to_string(), "Folder/x.txt".to_string())),
            local("b.txt", DiskEvent::Modified("b.txt".to_string())),
        ]
    );
    match &plan.finish(3, 9)[..] {
        [StateModification::Update(id, name, revision, parent, t)] => {
            assert_eq!((*id, name.as_str(), *revision, *parent, *t), (3, "x.txt", 4, Some(1), 9));
        },
        _ => panic!("one update expected"),
    }
}

#[test]
fn updated_on_disk_in_place() {
    let executor = UpdatedOnDiskExecutor::new("/ws".to_string(), 3, false);
    let plan = executor.prepare(&state(), &remote(3, 4, None, "file", "b.txt")).unwrap();
    assert!(!plan.moves);
    assert!(!plan.download);
}

#[test]
fn absent_from_remote_steps() {
    let executor = AbsentFromRemoteExecutor::new("Folder/a.txt".to_string());
    assert_eq!(executor.content_id(&state()).unwrap(), Some(2));
    let id = executor.prepare(&state()).unwrap();
    assert_eq!(id, 2);
    assert!(matches!(executor.on_remote_fetched(id, Ok(false)), AbsentFromRemoteStep::Trash(false)));
    assert!(matches!(
        executor.on_remote_fetched(id, Err(TracimError::ContentNotFound)),
        AbsentFromRemoteStep::Done(_)
    ));
    assert!(matches!(
        executor.on_remote_fetched(id, Err(TracimError::Other("down".to_string()))),
        AbsentFromRemoteStep::Failed(ExecutorError::Tracim(TracimError::Other(_)))
    ));
    let mut ignore = vec![];
    let modifications = executor.on_trashed(id, false, Ok(()), &mut ignore).unwrap();
    assert_eq!(ignore, vec![Event::Remote(RemoteEvent::Deleted(2))]);
    assert!(matches!(modifications[..], [StateModification::Forgot(2)]));
    let mut untouched = vec![];
    executor.on_trashed(id, true, Ok(()), &mut untouched).unwrap();
    assert!(untouched.is_empty());
    let unknown = AbsentFromRemoteExecutor::new("nowhere.txt".to_string());
    assert!(matches!(unknown.prepare(&state()), Err(ExecutorError::UnknownPath(p)) if p == "nowhere.txt"));
}

#[test]
fn created_on_remote_new_file() {
    let executor = CreatedOnRemoteExecutor::new("/ws".to_string(), "Folder/c.txt".to_string());
    assert!(!executor.avoid_same_sums);
    assert_eq!(executor.absolute_path(), "/ws/Folder/c.txt");
    assert_eq!(executor.file_name().unwrap(), "c.txt");
    assert_eq!(executor.parent(&state()).unwrap(), Some(1));
    let run = executor.prepare(&state(), ContentType::File).unwrap();
    let mut ignore = vec![];
    assert!(matches!(run.on_created(Ok(10), &mut ignore), CreateStep::Fill(10)));
    assert!(matches!(run.on_filled(10, Ok(()), &mut ignore), CreateStep::Fetch(10)));
    assert_eq!(ignore, vec![Event::Remote(RemoteEvent::Created(10)), Event::Remote(RemoteEvent::Updated(10))]);
    match &run.finish(&remote(10, 2, Some(1), "file", "c.txt"), 5).unwrap()[..] {
        [StateModification::Add(c, p, t)] => {
            assert_eq!((c.id(), p.as_str(), *t), (10, "Folder/c.txt", 5));
        },
        _ => panic!("one addition expected"),
    }
}

#[test]
fn created_on_remote_existing_content() {
    let executor = CreatedOnRemoteExecutor::new("/ws".to_string(), "c.txt".to_string()).avoid_same_sums(true);
    assert!(executor.avoid_same_sums);
    let run = executor.prepare(&state(), ContentType::File).unwrap();
    assert_eq!(run.parent, None);
    let mut ignore = vec![];
    assert!(matches!(run.on_created(Err(TracimError::ContentAlreadyExist), &mut ignore), CreateStep::FindExisting));
    assert!(ignore.is_empty());
    assert!(matches!(run.on_found(Ok(Some(11))), CreateStep::CompareFile(11)));
    assert!(matches!(run.on_found(Ok(None)), CreateStep::Failed(ExecutorError::MissingExistingContent(_))));
    assert!(matches!(run.on_compared(11, true), CreateStep::Fetch(11)));
    assert!(matches!(run.on_compared(11, false), CreateStep::Fill(11)));
    let document = CreatedOnRemoteExecutor::new("/ws".to_string(), "d.html".to_string())
        .prepare(&state(), ContentType::HtmlDocument)
        .unwrap();
    assert!(matches!(document.on_found(Ok(Some(12))), CreateStep::CompareDocument(12)));
    let folder = CreatedOnRemoteExecutor::new("/ws".to_string(), "New".to_string())
        .prepare(&state(), ContentType::Folder)
        .unwrap();
    let mut ignore = vec![];
    assert!(matches!(folder.on_created(Ok(13), &mut ignore), CreateStep::Fetch(13)));
}

#[test]
fn created_on_remote_without_file_name() {
    let executor = CreatedOnRemoteExecutor::new("/ws".to_string(), "..".to_string());
    assert!(matches!(executor.file_name(), Err(ExecutorError::NoFileName(_))));
}

#[test]
fn document_comparison() {
    assert!(!document_differs(&"<p>x</p>".to_string(), &Some("<p>x</p>".to_string())));
    assert!(document_differs(&"<p>x</p>".to_string(), &Some("<p>y</p>".to_string())));
    assert!(document_differs(&"".to_string(), &None));
}

#[test]
fn modified_on_remote_restores_deleted_content() {
    let executor = ModifiedOnRemoteExecutor::new("/ws".to_string(), "b.txt".to_string(), "b.txt".to_string());
    let run = executor.prepare(&state()).unwrap();
    assert_eq!(run.content_id, 3);
    assert_eq!(run.absolute_path, "/ws/b.txt");
    assert_eq!(run.start(), ModifyStep::Fill);
    let mut ignore = vec![];
    assert_eq!(run.on_filled(Err(TracimError::ContentDeletedOrArchived), &mut ignore), ModifyStep::Restore);
    assert_eq!(run.on_restored(Ok(()), &mut ignore).unwrap(), ModifyStep::FillAgain);
    assert_eq!(run.on_filled_again(Ok(()), &mut ignore).unwrap(), ModifyStep::Fetch);
    assert_eq!(ignore, vec![Event::Remote(RemoteEvent::Created(3)), Event::Remote(RemoteEvent::Updated(3))]);
    assert_eq!(run.on_filled(Err(TracimError::Other("x".to_string())), &mut ignore), ModifyStep::Fetch);
    match &run.finish(&remote(3, 8, None, "file", "b.txt"), 1).unwrap()[..] {
        [StateModification::Update(id, name, revision, parent, t)] => {
            assert_eq!((*id, name.as_str(), *revision, *parent, *t), (3, "b.txt", 8, None, 1));
        },
        _ => panic!("one update expected"),
    }
    let folder = ModifiedOnRemoteExecutor::new("/ws".to_string(), "Folder".to_string(), "Folder".to_string());
    assert_eq!(folder.prepare(&state()).unwrap().start(), ModifyStep::Fetch);
}

#[test]
fn named_on_remote_renames_and_moves() {
    let executor = NamedOnRemoteExecutor::new("/ws".to_string(), "b.txt".to_string(), "Folder/c.txt".to_string());
    assert_eq!(executor.after_absolute_path().unwrap(), "/ws/Folder/c.txt");
    assert_eq!(executor.after_file_name().unwrap(), "c.txt");
    assert_eq!(executor.after_parent(&state()).unwrap(), Some(1));
    let mut run = executor.prepare(&state()).unwrap();
    assert_eq!(run.content_id, 3);
    assert_eq!(run.before_file_name, "b.txt");
    assert_eq!(run.revision_id, 3);
    assert!(run.renames());
    assert!(run.moves());
    run.on_revised(4);
    run.on_revised(5);
    match &run.finish(6)[..] {
        [StateModification::Update(id, name, revision, parent, t)] => {
            assert_eq!((*id, name.as_str(), *revision, *parent, *t), (3, "c.txt", 5, Some(1), 6));
        },
        _ => panic!("one update expected"),
    }
    let same_place = NamedOnRemoteExecutor::new("/ws".to_string(), "b.txt".to_string(), "b.txt".to_string());
    let run = same_place.prepare(&state()).unwrap();
    assert!(!run.renames());
    assert!(!run.moves());
}

#[test]
fn operator_chooses_executors() {
    let operator = Operator::new("/ws".to_string());
    assert!(matches!(
        operator.executor(Event::Remote(RemoteEvent::Deleted(1))),
        ExecutorChoice::AbsentFromDisk(AbsentFromDiskExecutor { content_id: 1, .. })
    ));
    assert!(matches!(
        operator.executor(Event::Remote(RemoteEvent::Created(2))),
        ExecutorChoice::PresentOnDisk(PresentOnDiskExecutor { content_id: 2, .. })
    ));
    assert!(matches!(
        operator.executor(Event::Remote(RemoteEvent::Updated(3))),
        ExecutorChoice::UpdatedOnDisk(UpdatedOnDiskExecutor { content_id: 3, download: true, .. })
    ));
    assert!(matches!(
        operator.executor(Event::Remote(RemoteEvent::Renamed(3))),
        ExecutorChoice::UpdatedOnDisk(UpdatedOnDiskExecutor { content_id: 3, download: false, .. })
    ));
    match operator.executor(local("a.txt", DiskEvent::Deleted("a.txt".to_string()))) {
        ExecutorChoice::AbsentFromRemote(x) => assert_eq!(x.db_path, "a.txt"),
        _ => panic!("absent from remote expected"),
    }
    match operator.executor(local("a.txt", DiskEvent::Created("b.txt".to_string()))) {
        ExecutorChoice::CreatedOnRemote(x) => assert_eq!(x.path, "b.txt"),
        _ => panic!("created on remote expected"),
    }
    match operator.executor(local("a.txt", DiskEvent::Modified("b.txt".to_string()))) {
        ExecutorChoice::ModifiedOnRemote(x) => assert_eq!((x.db_path.as_str(), x.disk_path.as_str()), ("a.txt", "b.txt")),
        _ => panic!("modified on remote expected"),
    }
    match operator.executor(local("a.txt", DiskEvent::Renamed("x.txt".to_string(), "c.txt".to_string()))) {
        ExecutorChoice::NamedOnRemote(x) => {
            assert_eq!((x.previous_db_path.as_str(), x.after_disk_path.as_str()), ("a.txt", "c.txt"))
        },
        _ => panic!("named on remote expected"),
    }
}

#[test]
fn operator_skips_planned_events_once() {
    let mut operator = Operator::new("/ws".to_string());
    operator.ignore_events.push(Event::Remote(RemoteEvent::Created(1)));
    operator.ignore_events.push(Event::Remote(RemoteEvent::Updated(1)));
    operator.ignore_events.push(Event::Remote(RemoteEvent::Created(1)));
    assert!(operator.planned_ignore(&Event::Remote(RemoteEvent::Created(1))));
    assert_eq!(operator.ignore_events, vec![Event::Remote(RemoteEvent::Updated(1))]);
    assert!(!operator.planned_ignore(&Event::Remote(RemoteEvent::Created(1))));
    assert!(!operator.planned_ignore(&Event::Remote(RemoteEvent::Deleted(1))));
    assert_eq!(operator.ignore_events, vec![Event::Remote(RemoteEvent::Updated(1))]);
}

#[test]
fn named_on_remote_calls_label_then_parent() {
    let executor = NamedOnRemoteExecutor::new("/ws".to_string(), "b.txt".to_string(), "Folder/c.txt".to_string());
    let run = executor.prepare(&state()).unwrap();
    match &run.calls(ContentType::File, ContentType::File)[..] {
        [NamedCall::SetLabel(3, ContentType::File, name), NamedCall::SetParent(3, ContentType::File, Some(1))] => {
            assert_eq!(name, "c.txt")
        },
        other => panic!("unexpected calls {:?}", other),
    }
    let moved = NamedOnRemoteExecutor::new("/ws".to_string(), "b.txt".to_string(), "Folder/b.txt".to_string());
    let run = moved.prepare(&state()).unwrap();
    assert!(matches!(&run.calls(ContentType::File, ContentType::File)[..], [NamedCall::SetParent(3, ContentType::File, Some(1))]));
    let renamed = NamedOnRemoteExecutor::new("/ws".to_string(), "b.txt".to_string(), "d.txt".to_string());
    let run = renamed.prepare(&state()).unwrap();
    assert!(matches!(&run.calls(ContentType::File, ContentType::File)[..], [NamedCall::SetLabel(3, ContentType::File, _)]));
}
