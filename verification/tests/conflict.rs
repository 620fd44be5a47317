use trsync::conflict::{ClientError, ConflictResolver, Knowledge, LocalIsTruth};
use trsync::operation::OperationalMessage;

/// Content 1 lives at `a.txt`, content 2 at `b.txt`, on both sides.
struct TwoFiles;

impl Knowledge for TwoFiles {
    fn get_remote_relative_path(&self, content_id: i32) -> Result<String, ClientError> {
        match content_id {
            1 => Ok("a.txt".to_string()),
            2 => Ok("b.txt".to_string()),
            _ => unreachable!(),
        }
    }

    fn get_local_relative_path(&self, content_id: i32) -> Result<String, String> {
        match content_id {
            1 => Ok("a.txt".to_string()),
            2 => Ok("b.txt".to_string()),
            _ => unreachable!(),
        }
    }
}

fn check(input: Vec<OperationalMessage>, expected: Vec<OperationalMessage>) {
    let resolver = ConflictResolver::new(TwoFiles, LocalIsTruth, input);
    let messages = resolver.resolve();
    assert_eq!(expected, messages)
}

fn local_new(p: &str) -> OperationalMessage {
    OperationalMessage::NewLocalFile(p.to_string())
}

fn local_modified(p: &str) -> OperationalMessage {
    OperationalMessage::ModifiedLocalFile(p.to_string())
}

fn local_renamed(a: &str, b: &str) -> OperationalMessage {
    OperationalMessage::RenamedLocalFile(a.to_string(), b.to_string())
}

#[test]
fn multiple_cases_empty() {
    check(vec![], vec![]);
}

#[test]
fn multiple_cases_modified_both() {
    check(
        vec![local_modified("a.txt"), OperationalMessage::ModifiedRemoteFile(1)],
        vec![local_modified("a.txt")],
    );
}

#[test]
fn multiple_cases_modified_locally_deleted_remotely() {
    check(
        vec![local_modified("a.txt"), OperationalMessage::DeletedRemoteFile(1)],
        vec![local_new("a.txt")],
    );
}

#[test]
fn multiple_cases_new_both() {
    check(
        vec![local_new("a.txt"), OperationalMessage::NewRemoteFile(1)],
        vec![local_modified("a.txt")],
    );
}

#[test]
fn multiple_cases_new_locally_deleted_remotely() {
    check(
        vec![local_new("a.txt"), OperationalMessage::DeletedRemoteFile(1)],
        vec![local_new("a.txt")],
    );
}

#[test]
fn multiple_cases_renamed_locally_modified_remotely() {
    check(
        vec![local_renamed("a.txt", "b.txt"), OperationalMessage::ModifiedRemoteFile(1)],
        vec![local_renamed("a.txt", "b.txt")],
    );
}

#[test]
fn multiple_cases_renamed_locally_new_remotely() {
    check(
        vec![local_renamed("a.txt", "b.txt"), OperationalMessage::NewRemoteFile(1)],
        vec![local_renamed("a.txt", "b.txt")],
    );
}

#[test]
fn multiple_cases_renamed_locally_deleted_remotely() {
    check(
        vec![local_renamed("a.txt", "b.txt"), OperationalMessage::DeletedRemoteFile(1)],
        vec![local_new("b.txt")],
    );
}

#[test]
fn multiple_cases_exit_stays_last() {
    check(
        vec![
            OperationalMessage::NewRemoteFile(1),
            OperationalMessage::NewRemoteFile(2),
            OperationalMessage::Exit,
        ],
        vec![
            OperationalMessage::NewRemoteFile(1),
            OperationalMessage::NewRemoteFile(2),
            OperationalMessage::Exit,
        ],
    );
}

#[test]
fn deleted_both_cancel_out() {
    check(
        vec![OperationalMessage::DeletedLocalFile("a.txt".to_string()), OperationalMessage::DeletedRemoteFile(1)],
        vec![],
    );
}

#[test]
fn unrelated_messages_pass_through() {
    check(
        vec![local_modified("c.txt"), OperationalMessage::ModifiedRemoteFile(2)],
        vec![local_modified("c.txt"), OperationalMessage::ModifiedRemoteFile(2)],
    );
}

#[test]
fn without_conflicts_locals_reversed_then_remotes_then_exit() {
    check(
        vec![
            local_new("c.txt"),
            OperationalMessage::Exit,
            OperationalMessage::ModifiedRemoteFile(1),
            local_modified("d.txt"),
            OperationalMessage::NewRemoteFile(2),
            local_renamed("e.txt", "f.txt"),
        ],
        vec![
            local_renamed("e.txt", "f.txt"),
            local_modified("d.txt"),
            local_new("c.txt"),
            OperationalMessage::ModifiedRemoteFile(1),
            OperationalMessage::NewRemoteFile(2),
            OperationalMessage::Exit,
        ],
    );
}

/// Content 1 cannot be found on either side.
struct NothingKnown;

impl Knowledge for NothingKnown {
    fn get_remote_relative_path(&self, _content_id: i32) -> Result<String, ClientError> {
        Err(ClientError::NotRelevant("unknown".to_string()))
    }

    fn get_local_relative_path(&self, _content_id: i32) -> Result<String, String> {
        Err("unknown".to_string())
    }
}

#[test]
fn remote_message_without_path_is_dropped() {
    let resolver = ConflictResolver::new(
        NothingKnown,
        LocalIsTruth,
        vec![OperationalMessage::ModifiedRemoteFile(1), local_modified("a.txt")],
    );
    assert_eq!(resolver.resolve(), vec![local_modified("a.txt")]);
}
