use ini::Ini;
use trsync::activity::{Activity, ActivityState, Config, Error as TrayError, Icon, Job, JobIdentifier};
use trsync::context::{Context, Opt};
use trsync::database::{db_path, Database, DB_NAME};
use trsync::decimal::{format_i32, format_u64, parse_i32};
use trsync::event::{DiskEvent, DiskEventWrap, Event, RemoteEvent};
use trsync::ignore::Ignore;
use trsync::operation::{
    Error as OperationError, OperationalHandler, OperationalMessage, ParentChange, RemoteModificationPlan,
    CreateFailure, WriteKind, write_kind_of, index_updates, IndexUpdate,
};
use trsync::password::{route_password_request, save_status, Method, PasswordRequest};
use trsync::path::{file_name, join, parent, strip_prefix};
use trsync::runner::{is_connection_error, next_round, retried, Next, Outcome, Round, StartupRun};
use trsync::change::Change;
use trsync::sync::local::LocalChange;
use trsync::executor::ExecutorError;
use trsync::types::{ContentType, RemoteEventType};
use trsync::util::{ignore_file, TryRemove};

#[test]
fn content_type_names() {
    assert_eq!(ContentType::from_str("file"), Some(ContentType::File));
    assert_eq!(ContentType::from_str("folder"), Some(ContentType::Folder));
    assert_eq!(ContentType::from_str("html-document"), Some(ContentType::HtmlDocument));
    assert_eq!(ContentType::from_str("thread"), None);
    assert_eq!(ContentType::HtmlDocument.to_string(), "html-document");
    assert_eq!(ContentType::File.to_string(), "file");
    assert_eq!(ContentType::Folder.to_string(), "folder");
}

#[test]
fn remote_event_type_names() {
    assert_eq!(RemoteEventType::from_str("content.modified.file"), Some(RemoteEventType::Modified));
    assert_eq!(RemoteEventType::from_str("content.undeleted.folder"), Some(RemoteEventType::Created));
    assert_eq!(RemoteEventType::from_str("content.deleted.html-document"), Some(RemoteEventType::Deleted));
    assert_eq!(RemoteEventType::from_str("user.modified"), None);
}

#[test]
fn paths() {
    assert_eq!(file_name("Folder/a.txt"), Some("a.txt".to_string()));
    assert_eq!(file_name("a.txt"), Some("a.txt".to_string()));
    assert_eq!(file_name("Folder/.."), None);
    assert_eq!(parent("Folder/a.txt"), Some("Folder".to_string()));
    assert_eq!(parent("a.txt"), Some("".to_string()));
    assert_eq!(parent(""), None);
    assert_eq!(join("/ws", "a.txt"), "/ws/a.txt");
    assert_eq!(join("/ws/", "a.txt"), "/ws/a.txt");
    assert_eq!(join("", "a.txt"), "a.txt");
    assert_eq!(join("/ws", "/etc"), "/etc");
    assert_eq!(strip_prefix("/ws/Folder/a.txt", "/ws"), Some("Folder/a.txt".to_string()));
    assert_eq!(strip_prefix("/ws", "/ws"), Some("".to_string()));
    assert_eq!(strip_prefix("/a", "/"), Some("a".to_string()));
    assert_eq!(strip_prefix("/wsx/a.txt", "/ws"), None);
    assert_eq!(strip_prefix("a/b.txt", ""), Some("a/b.txt".to_string()));
    assert_eq!(strip_prefix("/a", ""), Some("/a".to_string()));
}

#[test]
fn watcher_leaves_hidden_backup_and_lock_files() {
    assert!(ignore_file("Folder/.hidden"));
    assert!(ignore_file("~lock"));
    assert!(ignore_file("a.txt~"));
    assert!(ignore_file("#a.txt#"));
    assert!(!ignore_file("Folder/a.txt"));
    assert!(!ignore_file(""));
}

#[test]
fn try_remove_tolerates_missing_index() {
    let mut v = vec![1, 2, 3];
    assert_eq!(TryRemove::try_remove(&mut v, 1), Some(2));
    assert_eq!(v, vec![1, 3]);
    assert_eq!(TryRemove::try_remove(&mut v, 5), None);
    assert_eq!(v, vec![1, 3]);
}

#[test]
fn decimal_writing() {
    assert_eq!(format_u64(0), "0");
    assert_eq!(format_u64(1234), "1234");
    assert_eq!(format_i32(-42), "-42");
    assert_eq!(format_i32(i32::MIN), "-2147483648");
    assert_eq!(parse_i32("42"), Some(42));
    assert_eq!(parse_i32("-7"), Some(-7));
    assert_eq!(parse_i32("+7"), Some(7));
    assert_eq!(parse_i32("2147483648"), None);
    assert_eq!(parse_i32("-2147483648"), Some(i32::MIN));
    assert_eq!(parse_i32(""), None);
    assert_eq!(parse_i32("4a"), None);
    for x in [0, 1, -1, 99, i32::MAX, i32::MIN] {
        assert_eq!(parse_i32(&format_i32(x)), Some(x));
        assert_eq!(parse_i32(&format_i32(x)), format_i32(x).parse::<i32>().ok());
    }
}

#[test]
fn ignore_file_round_trip() {
    let mut ignore = Ignore::empty();
    ignore.push(12);
    ignore.push(-3);
    assert!(ignore.is_ignored(&12));
    assert!(!ignore.is_ignored(&4));
    let text = ignore.to_text();
    assert_eq!(text, "#12\n#-3");
    assert_eq!(Ignore::from_text(&text).content_ids(), &[12, -3]);
    assert_eq!(Ignore::from_text("#5\r\nnot a line\n#x\n#7\n").content_ids(), &[5, 7]);
    assert_eq!(Ignore::from_text("").content_ids(), &[] as &[i32]);
}

#[test]
fn database_location() {
    assert_eq!(DB_NAME, ".trsync.db");
    assert_eq!(db_path("/home/me/Tracim"), "/home/me/Tracim/.trsync.db");
    let database = Database::new("/tmp/x.db".to_string());
    assert_eq!(database.database_file_path(), "/tmp/x.db");
}

#[test]
fn context_addresses() {
    let context = Context::new(
        true,
        "mon.tracim.fr".to_string(),
        "bux".to_string(),
        "secret".to_string(),
        "/home/me/Tracim".to_string(),
        42,
        "Project".to_string(),
        false,
    );
    assert_eq!(context.base_address, "https://mon.tracim.fr/api/");
    assert_eq!(context.database_path, "/home/me/Tracim/.trsync.db");
    assert_eq!(context.workspace_url("contents"), "https://mon.tracim.fr/api/workspaces/42/contents");
    let job = context.job_identifier();
    assert_eq!(job.instance_name, "mon.tracim.fr");
    assert_eq!(job.workspace_id, 42);
    assert_eq!(job.workspace_name, "Project");
    let opt = Opt {
        path: "~/Tracim".to_string(),
        tracim_address: "localhost:7999".to_string(),
        workspace_id: 3,
        username: "admin".to_string(),
        no_ssl: true,
        env_var_pass: None,
        exit_after_sync: true,
    };
    let context = opt.to_context("pw".to_string(), "/home/me/Tracim".to_string());
    assert_eq!(context.base_address, "http://localhost:7999/api/");
    assert_eq!(context.workspace_id, 3);
    assert!(context.exit_after_sync);
    assert_eq!(context.workspace_name, "");
}

#[test]
fn tray_configuration_and_icons() {
    let config = Config::from_icons_path(Some("/usr/share/trsync".to_string())).unwrap();
    assert_eq!(Icon::Idle.value(&config), "/usr/share/trsync/trsync_idle.png");
    assert_eq!(Icon::Working3.value(&config), "/usr/share/trsync/trsync_working2_v2.png");
    assert_eq!(Icon::Working8.file_name(), "trsync_working1_v2.png");
    match Config::from_icons_path(None) {
        Err(TrayError::ReadConfigError(m)) => assert_eq!(m, "Unable to find server icons_path config"),
        _ => panic!("missing icons path must be refused"),
    }
}

#[test]
fn tray_animation() {
    let mut icon = Icon::Idle;
    let mut seen = vec![];
    for _ in 0..9 {
        icon = icon.next(true);
        seen.push(icon);
    }
    assert_eq!(seen[0], Icon::Working1);
    assert_eq!(seen[7], Icon::Working8);
    assert_eq!(seen[8], Icon::Working1);
    assert_eq!(Icon::Working5.next(false), Icon::Idle);
}

#[test]
fn activity_counts_jobs() {
    let job = JobIdentifier::new("mon.tracim.fr".to_string(), 1, "A".to_string());
    let other = JobIdentifier::new("mon.tracim.fr".to_string(), 2, "B".to_string());
    let mut state = ActivityState::new();
    assert_eq!(state.activity(), Activity::Idle);
    state.new_job(job.clone());
    state.new_job(other.clone());
    assert_eq!(state.activity(), Activity::Working);
    state.finished_job(job.clone());
    assert_eq!(state.activity(), Activity::Working);
    state.finished_job(other.clone());
    assert_eq!(state.activity(), Activity::Idle);
    state.new_job(job);
    assert_eq!(state.activity(), Activity::Working);
}

#[test]
fn handler_skips_expected_and_hidden_messages() {
    let mut handler = OperationalHandler::new("/ws".to_string());
    handler.expect(OperationalMessage::NewRemoteFile(1));
    handler.expect(OperationalMessage::NewRemoteFile(1));
    assert!(handler.ignore_message(&OperationalMessage::NewRemoteFile(1)).unwrap());
    assert!(handler.ignore_messages.is_empty());
    assert!(!handler.ignore_message(&OperationalMessage::NewRemoteFile(1)).unwrap());
    assert!(handler.ignore_message(&OperationalMessage::NewLocalFile("Folder/.x".to_string())).unwrap());
    assert!(handler.ignore_message(&OperationalMessage::ModifiedLocalFile("a.txt~".to_string())).unwrap());
    assert!(!handler.ignore_message(&OperationalMessage::DeletedLocalFile("~a.txt".to_string())).unwrap());
    assert!(!handler.ignore_message(&OperationalMessage::RenamedLocalFile(".a".to_string(), ".b".to_string())).unwrap());
    assert!(matches!(
        handler.ignore_message(&OperationalMessage::NewLocalFile("..".to_string())),
        Err(OperationError::PathCastingError(_))
    ));
}

#[test]
fn handler_expects_what_its_work_causes() {
    let mut handler = OperationalHandler::new("/ws".to_string());
    assert_eq!(handler.on_remote_created(Ok((4, 1)), ContentType::File).unwrap(), (4, 1));
    assert_eq!(
        handler.ignore_messages,
        vec![OperationalMessage::NewRemoteFile(4), OperationalMessage::ModifiedRemoteFile(4)]
    );
    let mut handler = OperationalHandler::new("/ws".to_string());
    assert_eq!(handler.on_remote_created(Ok((5, 1)), ContentType::Folder).unwrap(), (5, 1));
    assert_eq!(handler.ignore_messages, vec![OperationalMessage::NewRemoteFile(5)]);
    assert_eq!(handler.on_remote_created(Err(CreateFailure::AlreadyExistResponse(6, 2)), ContentType::File).unwrap(), (6, 2));
    assert!(matches!(
        handler.on_remote_created(Err(CreateFailure::Other("boom".to_string())), ContentType::File),
        Err(OperationError::UnexpectedError(_))
    ));
    assert_eq!(handler.on_new_remote_file("Folder/a.txt".to_string(), Some(1), false), Some(1));
    assert_eq!(handler.on_new_remote_file("b.txt".to_string(), Some(1), true), None);
    assert_eq!(handler.absolute_path("b.txt"), "/ws/b.txt");
}

#[test]
fn handler_plans_renames() {
    assert_eq!(OperationalHandler::parent_change(&"a.txt".to_string(), &"b.txt".to_string()), ParentChange::Same);
    assert_eq!(
        OperationalHandler::parent_change(&"a.txt".to_string(), &"Folder/a.txt".to_string()),
        ParentChange::Folder("Folder".to_string())
    );
    assert_eq!(OperationalHandler::new_file_name(&"a.txt".to_string(), &"Folder/a.txt".to_string()).unwrap(), None);
    assert_eq!(
        OperationalHandler::new_file_name(&"a.txt".to_string(), &"b.txt".to_string()).unwrap(),
        Some("b.txt".to_string())
    );
}

#[test]
fn handler_plans_remote_modifications() {
    assert_eq!(write_kind_of("folder"), WriteKind::Folder);
    assert_eq!(write_kind_of("html-document"), WriteKind::Document);
    assert_eq!(write_kind_of("file"), WriteKind::File);
    let mut handler = OperationalHandler::new("/ws".to_string());
    match handler.plan_remote_modification("folder", "B".to_string(), "A".to_string()) {
        RemoteModificationPlan::MoveFolder(from, to) => assert_eq!((from.as_str(), to.as_str()), ("A", "B")),
        _ => panic!("folder move expected"),
    }
    assert_eq!(handler.ignore_messages, vec![OperationalMessage::RenamedLocalFile("A".to_string(), "B".to_string())]);
    let mut handler = OperationalHandler::new("/ws".to_string());
    match handler.plan_remote_modification("file", "x.txt".to_string(), "a.txt".to_string()) {
        RemoteModificationPlan::Write(Some(from), to) => assert_eq!((from.as_str(), to.as_str()), ("a.txt", "x.txt")),
        _ => panic!("move then write expected"),
    }
    handler.on_write_target_checked("x.txt".to_string(), false);
    assert_eq!(
        handler.ignore_messages,
        vec![
            OperationalMessage::DeletedLocalFile("a.txt".to_string()),
            OperationalMessage::NewLocalFile("x.txt".to_string())
        ]
    );
}

#[test]
fn password_service_requests() {
    let headers = vec![("x-auth-token".to_string(), "T0K".to_string())];
    assert!(matches!(
        route_password_request(&headers, "T0K", "/password/mon.tracim.fr", Method::Post),
        PasswordRequest::Save(name) if name == "mon.tracim.fr"
    ));
    assert!(matches!(
        route_password_request(&headers, "T0K", "/password/mon.tracim.fr", Method::Get),
        PasswordRequest::Fetch(name) if name == "mon.tracim.fr"
    ));
    assert!(matches!(route_password_request(&headers, "T0K", "/x", Method::Other), PasswordRequest::Ignore));
    assert!(matches!(route_password_request(&headers, "bad", "/x", Method::Get), PasswordRequest::Forbidden));
    assert!(matches!(route_password_request(&vec![], "T0K", "/x", Method::Get), PasswordRequest::Forbidden));
    assert_eq!(save_status(true, true), 201);
    assert_eq!(save_status(false, true), 500);
    assert_eq!(save_status(true, false), 500);
}

#[test]
fn startup_rounds() {
    assert!(matches!(next_round(2, vec![]), Round::Finished));
    let waiting = vec![Change::Local(LocalChange::New("a.txt".to_string()))];
    assert!(matches!(next_round(2, waiting), Round::Retry(v) if v.len() == 1));
    let waiting = vec![Change::Local(LocalChange::New("a.txt".to_string()))];
    assert!(matches!(next_round(1, waiting), Round::Stuck(v) if v.len() == 1));
    assert!(retried(&ExecutorError::MissingParent(1, 2)));
    assert!(!retried(&ExecutorError::UnknownContent(1)));
}

#[test]
fn connection_errors() {
    assert!(is_connection_error("error sending request: Connection refused"));
    assert!(is_connection_error("CONNECTION reset"));
    assert!(!is_connection_error("Path a.txt must match to a content_id"));
    assert!(!is_connection_error("connectio"));
}

#[test]
fn events_shown() {
    let created = Event::Remote(RemoteEvent::Created(1));
    assert_eq!(created.display(Some("Folder/a.txt".to_string())), "\u{2601}\u{1f195} Folder/a.txt");
    assert_eq!(Event::Remote(RemoteEvent::Deleted(1)).display(None), "\u{2601}\u{274c} ?");
    let renamed = Event::Local(DiskEventWrap::new(
        "a.txt".to_string(),
        DiskEvent::Renamed("a.txt".to_string(), "b.txt".to_string()),
    ));
    assert_eq!(renamed.display(None), "\u{1f5b4} a.txt \u{27a1} b.txt");
}

#[test]
fn tray_configuration_from_file() {
    let ini = Ini::load_from_str("[server]\nicons_path = /usr/share/trsync\n").unwrap();
    let config = Config::from_ini(ini).unwrap();
    assert_eq!(config.icons_path, "/usr/share/trsync");
    let ini = Ini::load_from_str("icons_path = /x\n[other]\nicons_path = /y\n").unwrap();
    match Config::from_ini(ini) {
        Err(TrayError::ReadConfigError(m)) => assert_eq!(m, "Unable to find server icons_path config"),
        _ => panic!("missing server section must be refused"),
    }
}

#[test]
fn path_written_under_folder_reads_back() {
    for (base, rel) in [("/ws", "Folder/a.txt"), ("/ws/", "a.txt"), ("/ws", ""), ("/", "a"), ("", "a.txt")] {
        assert_eq!(strip_prefix(&join(base, rel), base), Some(rel.to_string()));
    }
}

#[test]
fn startup_disk_changes_as_messages() {
    assert_eq!(
        OperationalMessage::from_local_change(&LocalChange::New("a.txt".to_string())),
        OperationalMessage::NewLocalFile("a.txt".to_string())
    );
    assert_eq!(
        OperationalMessage::from_local_change(&LocalChange::Updated("a.txt".to_string())),
        OperationalMessage::ModifiedLocalFile("a.txt".to_string())
    );
    assert_eq!(
        OperationalMessage::from_local_change(&LocalChange::Disappear("a.txt".to_string())),
        OperationalMessage::DeletedLocalFile("a.txt".to_string())
    );
}

#[test]
fn activity_follows_jobs() {
    let job = JobIdentifier::new("i".to_string(), 1, "A".to_string());
    let mut state = ActivityState::new();
    state.on_job(Job::Begin(job.clone()));
    assert_eq!(state.activity(), Activity::Working);
    state.on_job(Job::End(job));
    assert_eq!(state.activity(), Activity::Idle);
}

#[test]
fn context_description_leaves_password_out() {
    let context = Context::new(
        false,
        "localhost:7999".to_string(),
        "admin".to_string(),
        "hunter2".to_string(),
        "/tmp/sync".to_string(),
        7,
        "Docs".to_string(),
        true,
    );
    let text = context.description();
    assert_eq!(
        text,
        "Context { base_address: \"http://localhost:7999/api/\", username: \"admin\", folder_path: \"/tmp/sync\", base_address: \"http://localhost:7999/api/\", workspace_id: 7, exit_after_sync: true }"
    );
    assert!(!text.contains("hunter2"));
}

#[test]
fn retry_rounds_shrink_until_done_or_stuck() {
    // Three changes, each round one more of them finds its parent.
    let mut pending = vec![
        Change::Local(LocalChange::New("a/b/c.txt".to_string())),
        Change::Local(LocalChange::New("a/b".to_string())),
        Change::Local(LocalChange::New("a".to_string())),
    ];
    let mut rounds = 0;
    let mut calls = 0;
    loop {
        rounds += 1;
        let operated = pending.len();
        calls += operated;
        let mut remaining = pending;
        remaining.pop();
        match next_round(operated, remaining) {
            Round::Finished => break,
            Round::Retry(v) => pending = v,
            Round::Stuck(_) => panic!("a round that makes progress is not stuck"),
        }
    }
    assert_eq!(rounds, 3);
    assert_eq!(calls, 6);
}

/// Drives a run where change `i` finds its parent in round `ready[i]`
/// (counting from 1); returns the run's end and the operations in order.
fn drive(ready: &[usize]) -> (Next, Vec<usize>) {
    let mut run = StartupRun::new(ready.len());
    let mut round_of = vec![1; ready.len()];
    let mut operated = vec![];
    loop {
        match run.next() {
            Next::Operate(i) => {
                operated.push(i);
                if round_of[i] >= ready[i] {
                    run.record(Outcome::Operated);
                } else {
                    round_of[i] += 1;
                    run.record(Outcome::WaitsForParent);
                }
            },
            other => return (other, operated),
        }
    }
}

#[test]
fn startup_run_retries_waiting_changes_in_order() {
    let (end, operated) = drive(&[3, 2, 1]);
    assert!(matches!(end, Next::Finished));
    assert_eq!(operated, vec![0, 1, 2, 0, 1, 0]);
    let (end, operated) = drive(&[]);
    assert!(matches!(end, Next::Finished));
    assert!(operated.is_empty());
}

#[test]
fn startup_run_stuck_when_a_round_makes_no_progress() {
    let (end, operated) = drive(&[1, 9, 9]);
    match end {
        Next::Stuck(v) => assert_eq!(v, vec![1, 2]),
        _ => panic!("expected a stuck run"),
    }
    assert_eq!(operated, vec![0, 1, 2, 1, 2]);
}

#[test]
fn startup_run_stops_at_first_failure() {
    let mut run = StartupRun::new(3);
    assert!(matches!(run.next(), Next::Operate(0)));
    run.record(Outcome::WaitsForParent);
    assert!(matches!(run.next(), Next::Operate(1)));
    run.record(Outcome::Failed);
    assert!(matches!(run.next(), Next::Failed(1)));
}

#[test]
fn remote_modification_index_updates() {
    let moved_folder = RemoteModificationPlan::MoveFolder("A".to_string(), "B".to_string());
    assert_eq!(index_updates(4, &moved_folder, 9), vec![IndexUpdate::RelativePath(4, "B".to_string())]);
    let moved_file = RemoteModificationPlan::Write(Some("a.txt".to_string()), "x.txt".to_string());
    assert_eq!(
        index_updates(4, &moved_file, 9),
        vec![IndexUpdate::RelativePath(4, "x.txt".to_string()), IndexUpdate::Written("x.txt".to_string(), 9)]
    );
    let in_place = RemoteModificationPlan::Write(None, "a.txt".to_string());
    assert_eq!(index_updates(4, &in_place, 9), vec![IndexUpdate::Written("a.txt".to_string(), 9)]);
}

#[test]
fn context_description_escapes_like_debug() {
    let context = Context::new(
        true,
        "host".to_string(),
        "a\"b\\c\n".to_string(),
        "pw".to_string(),
        "/tmp/x".to_string(),
        1,
        "W".to_string(),
        false,
    );
    assert_eq!(
        context.description(),
        "Context { base_address: \"https://host/api/\", username: \"a\\\"b\\\\c\\n\", folder_path: \"/tmp/x\", base_address: \"https://host/api/\", workspace_id: 1, exit_after_sync: false }"
    );
}

#[test]
fn file_names_and_parents_read_as_std_path() {
    let cases = [
        "", "/", "a", "a/", "a//", "a/.", "a/./", "./a", ".", "..", "a/..", "/a", "//a", "a/b", "a//b", "a/./b",
        "/a/b/", "Folder/a.txt", "/ws/Folder/a.txt", "a.", "x/.hidden", "/.", "./",
    ];
    for case in cases {
        let path = std::path::Path::new(case);
        let expected_name = path.file_name().map(|n| n.to_str().unwrap().to_string());
        let expected_parent = path.parent().map(|p| p.to_str().unwrap().to_string());
        assert_eq!(file_name(case), expected_name, "file name of {:?}", case);
        assert_eq!(parent(case), expected_parent, "parent of {:?}", case);
    }
}
