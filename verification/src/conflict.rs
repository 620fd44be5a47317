//! Resolution of conflicts between local and remote changes collected while
//! the synchronisation was not running.

use vstd::prelude::*;
use crate::types::{ContentId, RelativeFilePath};
use crate::operation::{OperationalMessage, MessageView, is_local, is_remote, message_views};

verus! {

/// Failure to compute where a remote content lives.
#[derive(Debug)]
pub enum ClientError {
    /// The content is not relevant to the synchronised space.
    NotRelevant(String),
    /// Any other failure.
    Unexpected(String),
}

/// Where contents live, locally and remotely.  Answers may come from the
/// network or the local index: nothing is assumed of them.
pub trait Knowledge {
    /// Path, relative to the synchronised folder, that a remote content would have.
    fn get_remote_relative_path(&self, content_id: ContentId) -> Result<RelativeFilePath, ClientError>;

    /// Path, relative to the synchronised folder, under which a content is indexed locally.
    fn get_local_relative_path(&self, content_id: ContentId) -> Result<RelativeFilePath, String>;
}

/// How a local message and a remote message about the same path are settled.
pub trait ResolveStrategy {
    /// Messages that replace a conflicting local and remote message.
    spec fn resolution(&self, local: MessageView, remote: MessageView) -> Seq<MessageView>;

    /// Settles a conflict between a local message and a remote message.
    fn resolve_conflict(
        &self,
        local_message: &OperationalMessage,
        remote_message: &OperationalMessage,
    ) -> (r: Vec<OperationalMessage>)
        requires
            is_local(local_message@),
            is_remote(remote_message@),
        ensures
            message_views(r@) == self.resolution(local_message@, remote_message@),
    ;
}

/// The local side wins every conflict.
pub struct LocalIsTruth;

/// The settlement of a conflict when the local side wins: the local change is
/// replayed, as a modification when the remote side also has the file, as a
/// creation when the remote side deleted it; two deletions cancel out.
pub open spec fn local_is_truth(local: MessageView, remote: MessageView) -> Seq<MessageView> {
    match local {
        MessageView::NewLocalFile(p) => match remote {
            MessageView::DeletedRemoteFile(_) => seq![local],
            _ => seq![MessageView::ModifiedLocalFile(p)],
        },
        MessageView::ModifiedLocalFile(p) => match remote {
            MessageView::DeletedRemoteFile(_) => seq![MessageView::NewLocalFile(p)],
            _ => seq![local],
        },
        MessageView::DeletedLocalFile(_) => match remote {
            MessageView::DeletedRemoteFile(_) => Seq::empty(),
            _ => seq![local],
        },
        MessageView::RenamedLocalFile(_, after) => match remote {
            MessageView::DeletedRemoteFile(_) => seq![MessageView::NewLocalFile(after)],
            _ => seq![local],
        },
        _ => Seq::empty(),
    }
}

impl ResolveStrategy for LocalIsTruth {
    open spec fn resolution(&self, local: MessageView, remote: MessageView) -> Seq<MessageView> {
        local_is_truth(local, remote)
    }

    fn resolve_conflict(
        &self,
        local_message: &OperationalMessage,
        remote_message: &OperationalMessage,
    ) -> (r: Vec<OperationalMessage>) {
        let remote_deleted = match remote_message {
            OperationalMessage::DeletedRemoteFile(_) => true,
            _ => false,
        };
        let r = match local_message {
            OperationalMessage::NewLocalFile(relative_path) => {
                if remote_deleted {
                    vec![local_message.duplicate()]
                } else {
                    vec![OperationalMessage::ModifiedLocalFile(relative_path.clone())]
                }
            },
            OperationalMessage::ModifiedLocalFile(relative_path) => {
                if remote_deleted {
                    vec![OperationalMessage::NewLocalFile(relative_path.clone())]
                } else {
                    vec![local_message.duplicate()]
                }
            },
            OperationalMessage::DeletedLocalFile(_) => {
                if remote_deleted {
                    vec![]
                } else {
                    vec![local_message.duplicate()]
                }
            },
            OperationalMessage::RenamedLocalFile(_, relative_path) => {
                if remote_deleted {
                    vec![OperationalMessage::NewLocalFile(relative_path.clone())]
                } else {
                    vec![local_message.duplicate()]
                }
            },
            _ => vec![],
        };
        assert(message_views(r@) =~= local_is_truth(local_message@, remote_message@));
        r
    }
}

/// A message paired with the path it is about.
pub type Operation = (RelativeFilePath, OperationalMessage);

/// Mathematical value of an [`Operation`].
pub type OperationView = (Seq<char>, MessageView);

/// Mathematical value of a sequence of operations.
pub open spec fn operation_views(s: Seq<Operation>) -> Seq<OperationView> {
    s.map_values(|o: Operation| (o.0@, o.1@))
}

/// The path a message is about: its own path for a local message, the looked-up
/// path for a remote one (none when the lookup failed), none for `Exit`.
pub open spec fn reference(m: MessageView, looked_up: Option<Seq<char>>) -> Option<Seq<char>> {
    match m {
        MessageView::NewLocalFile(p) => Some(p),
        MessageView::ModifiedLocalFile(p) => Some(p),
        MessageView::DeletedLocalFile(p) => Some(p),
        MessageView::RenamedLocalFile(p, _) => Some(p),
        MessageView::Exit => None,
        _ => looked_up,
    }
}

/// The operations of the first `n` messages: each message that has a path,
/// with that path, in order.
pub open spec fn operations(
    messages: Seq<MessageView>,
    references: Seq<Option<Seq<char>>>,
    n: int,
) -> Seq<OperationView>
    decreases n,
{
    if n <= 0 {
        Seq::empty()
    } else {
        let previous = operations(messages, references, n - 1);
        match reference(messages[n - 1], references[n - 1]) {
            Some(p) => previous.push((p, messages[n - 1])),
            None => previous,
        }
    }
}

/// The `Exit` messages among the first `n` messages.
pub open spec fn exits(messages: Seq<MessageView>, n: int) -> Seq<MessageView>
    decreases n,
{
    if n <= 0 {
        Seq::empty()
    } else if messages[n - 1] is Exit {
        exits(messages, n - 1).push(messages[n - 1])
    } else {
        exits(messages, n - 1)
    }
}

/// The operations among the first `n` whose message is local (or remote).
pub open spec fn select(operations: Seq<OperationView>, local: bool, n: int) -> Seq<OperationView>
    decreases n,
{
    if n <= 0 {
        Seq::empty()
    } else if is_local(operations[n - 1].1) == local {
        select(operations, local, n - 1).push(operations[n - 1])
    } else {
        select(operations, local, n - 1)
    }
}

/// The message of the first operation about `path`, if any.
pub open spec fn first_with_path(operations: Seq<OperationView>, path: Seq<char>) -> Option<MessageView>
    decreases operations.len(),
{
    if operations.len() == 0 {
        None
    } else if operations[0].0 == path {
        Some(operations[0].1)
    } else {
        first_with_path(operations.drop_first(), path)
    }
}

/// The first `n` operations without those whose message is `message`.
pub open spec fn without_message(operations: Seq<OperationView>, message: MessageView, n: int) -> Seq<OperationView>
    decreases n,
{
    if n <= 0 {
        Seq::empty()
    } else if operations[n - 1].1 != message {
        without_message(operations, message, n - 1).push(operations[n - 1])
    } else {
        without_message(operations, message, n - 1)
    }
}

/// The messages of a sequence of operations.
pub open spec fn messages_of(operations: Seq<OperationView>) -> Seq<MessageView> {
    operations.map_values(|o: OperationView| o.1)
}

/// Settles the local operations, last first: a local operation whose path a
/// remote operation also has is replaced by the strategy's settlement and every
/// remote operation with that remote message is dropped; the other local
/// operations pass through.  Returns what was produced and the remote
/// operations left.
pub open spec fn settle<S: ResolveStrategy>(
    strategy: S,
    locals: Seq<OperationView>,
    remotes: Seq<OperationView>,
    out: Seq<MessageView>,
) -> (Seq<MessageView>, Seq<OperationView>)
    decreases locals.len(),
{
    if locals.len() == 0 {
        (out, remotes)
    } else {
        let (path, message) = locals.last();
        match first_with_path(remotes, path) {
            Some(c) => settle(
                strategy,
                locals.drop_last(),
                without_message(remotes, c, remotes.len() as int),
                out + strategy.resolution(message, c),
            ),
            None => settle(strategy, locals.drop_last(), remotes, out.push(message)),
        }
    }
}

/// The messages that come out of conflict resolution, given the path looked up
/// for each message: the settled local operations, then the remote operations
/// left, then the `Exit` messages.
pub open spec fn resolution<S: ResolveStrategy>(
    strategy: S,
    messages: Seq<MessageView>,
    references: Seq<Option<Seq<char>>>,
) -> Seq<MessageView> {
    let ops = operations(messages, references, messages.len() as int);
    let locals = select(ops, true, ops.len() as int);
    let remotes = select(ops, false, ops.len() as int);
    let (out, left) = settle(strategy, locals, remotes, Seq::empty());
    out + messages_of(left) + exits(messages, messages.len() as int)
}

/// Mathematical value of looked-up paths.
pub open spec fn reference_views(s: Seq<Option<RelativeFilePath>>) -> Seq<Option<Seq<char>>> {
    s.map_values(|o: Option<RelativeFilePath>| match o {
        Some(p) => Some(p@),
        None => None,
    })
}

/// The path found for a looked-up answer: the path of a success, none for a failure.
pub open spec fn found<E>(answer: Result<RelativeFilePath, E>) -> Option<Seq<char>> {
    match answer {
        Ok(p) => Some(p@),
        Err(_) => None,
    }
}

/// The value of a looked-up path.
pub open spec fn found_view(looked_up: &Option<RelativeFilePath>) -> Option<Seq<char>> {
    match looked_up {
        Some(p) => Some(p@),
        None => None,
    }
}

/// Whether `looked_up` is what `knowledge` can answer for a message: for a
/// new remote file, an answer of `get_remote_relative_path` on its content;
/// for a modified or deleted remote file, an answer of
/// `get_local_relative_path` on its content; nothing for any other message.
pub open spec fn answered<K: Knowledge>(knowledge: K, m: MessageView, looked_up: Option<Seq<char>>) -> bool {
    match m {
        MessageView::NewRemoteFile(id) => exists|answer: Result<RelativeFilePath, ClientError>|
            #[trigger] call_ensures(K::get_remote_relative_path, (&knowledge, id), answer) && looked_up
                == found(answer),
        MessageView::ModifiedRemoteFile(id) => exists|answer: Result<RelativeFilePath, String>|
            #[trigger] call_ensures(K::get_local_relative_path, (&knowledge, id), answer) && looked_up
                == found(answer),
        MessageView::DeletedRemoteFile(id) => exists|answer: Result<RelativeFilePath, String>|
            #[trigger] call_ensures(K::get_local_relative_path, (&knowledge, id), answer) && looked_up
                == found(answer),
        _ => looked_up is None,
    }
}

/// Resolves conflicts in a batch of operational messages.
pub struct ConflictResolver<K: Knowledge, S: ResolveStrategy> {
    knowledge: K,
    strategy: S,
    messages: Vec<OperationalMessage>,
}

fn duplicate_operation(o: &Operation) -> (r: Operation)
    ensures
        r.0@ == o.0@,
        r.1@ == o.1@,
{
    (o.0.clone(), o.1.duplicate())
}

impl<K: Knowledge, S: ResolveStrategy> ConflictResolver<K, S> {
    /// A resolver of `messages` that looks paths up in `knowledge` and settles
    /// conflicts with `strategy`.
    pub fn new(knowledge: K, strategy: S, messages: Vec<OperationalMessage>) -> (r: Self)
        ensures
            r.messages() == message_views(messages@),
            r.strategy() == strategy,
            r.knowledge() == knowledge,
    {
        ConflictResolver { knowledge, strategy, messages }
    }

    /// The messages to resolve.
    pub closed spec fn messages(&self) -> Seq<MessageView> {
        message_views(self.messages@)
    }

    /// The strategy that settles conflicts.
    pub closed spec fn strategy(&self) -> S {
        self.strategy
    }

    /// Where the resolver looks paths up.
    pub closed spec fn knowledge(&self) -> K {
        self.knowledge
    }

    /// The path each message is about, looked up in the knowledge for remote
    /// messages (a new remote file where it would be on the remote side, a
    /// modified or deleted one where it is indexed locally); none for local
    /// messages, for `Exit`, and where the lookup failed.
    fn references(&self) -> (r: Vec<Option<RelativeFilePath>>)
        ensures
            r@.len() == self.messages().len(),
            forall|i: int|
                0 <= i < r@.len() ==> answered(
                    self.knowledge(),
                    #[trigger] self.messages()[i],
                    reference_views(r@)[i],
                ),
    {
        let mut r: Vec<Option<RelativeFilePath>> = Vec::new();
        let n = self.messages.len();
        let mut i: usize = 0;
        while i < n
            invariant
                n == self.messages@.len(),
                i <= n,
                r@.len() == i,
                forall|j: int|
                    0 <= j < i ==> answered(
                        self.knowledge(),
                        #[trigger] self.messages()[j],
                        reference_views(r@)[j],
                    ),
            decreases n - i,
        {
            let message = &self.messages[i];
            assert(self.messages()[i as int] == message@);
            let looked_up = match message {
                OperationalMessage::NewRemoteFile(content_id) => {
                    let answer = self.knowledge.get_remote_relative_path(*content_id);
                    assert(call_ensures(K::get_remote_relative_path, (&self.knowledge, *content_id), answer));
                    let looked_up = match &answer {
                        Ok(p) => Some(p.clone()),
                        Err(_) => None,
                    };
                    assert(answered(self.knowledge(), message@, found_view(&looked_up)));
                    looked_up
                },
                OperationalMessage::ModifiedRemoteFile(content_id) => {
                    let answer = self.knowledge.get_local_relative_path(*content_id);
                    assert(call_ensures(K::get_local_relative_path, (&self.knowledge, *content_id), answer));
                    let looked_up = match &answer {
                        Ok(p) => Some(p.clone()),
                        Err(_) => None,
                    };
                    assert(answered(self.knowledge(), message@, found_view(&looked_up)));
                    looked_up
                },
                OperationalMessage::DeletedRemoteFile(content_id) => {
                    let answer = self.knowledge.get_local_relative_path(*content_id);
                    assert(call_ensures(K::get_local_relative_path, (&self.knowledge, *content_id), answer));
                    let looked_up = match &answer {
                        Ok(p) => Some(p.clone()),
                        Err(_) => None,
                    };
                    assert(answered(self.knowledge(), message@, found_view(&looked_up)));
                    looked_up
                },
                _ => None,
            };
            let ghost prior = r@;
            r.push(looked_up);
            proof {
                assert(reference_views(r@) =~= reference_views(prior).push(reference_views(r@)[i as int]));
                assert forall|j: int| 0 <= j < i + 1 implies answered(
                    self.knowledge(),
                    #[trigger] self.messages()[j],
                    reference_views(r@)[j],
                ) by {
                    if j < i {
                        assert(reference_views(r@)[j] == reference_views(prior)[j]);
                    }
                }
            }
            i = i + 1;
        }
        r
    }

    /// Pairs each message that has a path with that path; `Exit` messages are
    /// put aside.
    fn prepare(&self, references: &Vec<Option<RelativeFilePath>>) -> (r: (Vec<Operation>, Vec<OperationalMessage>))
        requires
            references@.len() == self.messages().len(),
        ensures
            operation_views(r.0@) == operations(
                self.messages(),
                reference_views(references@),
                self.messages().len() as int,
            ),
            message_views(r.1@) == exits(self.messages(), self.messages().len() as int),
    {
        let ghost msgs = self.messages();
        let ghost refs = reference_views(references@);
        let mut ops: Vec<Operation> = Vec::new();
        let mut outgoing: Vec<OperationalMessage> = Vec::new();
        let n = self.messages.len();
        let mut i: usize = 0;
        while i < n
            invariant
                n == self.messages@.len(),
                msgs == message_views(self.messages@),
                refs == reference_views(references@),
                references@.len() == n,
                i <= n,
                operation_views(ops@) == operations(msgs, refs, i as int),
                message_views(outgoing@) == exits(msgs, i as int),
            decreases n - i,
        {
            let message = &self.messages[i];
            let ghost prior_ops = ops@;
            let ghost prior_out = outgoing@;
            assert(msgs[i as int] == message@);
            match message {
                OperationalMessage::NewLocalFile(relative_path)
                | OperationalMessage::ModifiedLocalFile(relative_path)
                | OperationalMessage::DeletedLocalFile(relative_path) => {
                    ops.push((relative_path.clone(), message.duplicate()));
                },
                OperationalMessage::RenamedLocalFile(relative_path, _) => {
                    ops.push((relative_path.clone(), message.duplicate()));
                },
                OperationalMessage::Exit => {
                    outgoing.push(message.duplicate());
                },
                _ => {
                    match &references[i] {
                        Some(relative_path) => {
                            ops.push((relative_path.clone(), message.duplicate()));
                        },
                        None => {},
                    }
                },
            }
            proof {
                assert(operation_views(ops@) =~= operations(msgs, refs, i + 1)) by {
                    if ops@.len() > prior_ops.len() {
                        assert(ops@ == prior_ops.push(ops@.last()));
                        assert(operation_views(ops@) =~= operation_views(prior_ops).push(
                            (ops@.last().0@, ops@.last().1@),
                        ));
                    }
                }
                assert(message_views(outgoing@) =~= exits(msgs, i + 1)) by {
                    if outgoing@.len() > prior_out.len() {
                        assert(outgoing@ == prior_out.push(outgoing@.last()));
                        assert(message_views(outgoing@) =~= message_views(prior_out).push(
                            outgoing@.last()@,
                        ));
                    }
                }
            }
            i = i + 1;
        }
        (ops, outgoing)
    }

    /// Splits operations into local ones and remote ones, in order.
    fn split_operations(&self, operations: &Vec<Operation>) -> (r: (Vec<Operation>, Vec<Operation>))
        requires
            forall|i: int| 0 <= i < operations@.len() ==> #[trigger] is_local(operations@[i].1@)
                || is_remote(operations@[i].1@),
        ensures
            operation_views(r.0@) == select(operation_views(operations@), true, operations@.len() as int),
            operation_views(r.1@) == select(operation_views(operations@), false, operations@.len() as int),
            forall|i: int| 0 <= i < r.0@.len() ==> is_local(#[trigger] r.0@[i].1@),
            forall|i: int| 0 <= i < r.1@.len() ==> is_remote(#[trigger] r.1@[i].1@),
    {
        let ghost ops = operation_views(operations@);
        let mut locals: Vec<Operation> = Vec::new();
        let mut remotes: Vec<Operation> = Vec::new();
        let n = operations.len();
        let mut i: usize = 0;
        while i < n
            invariant
                n == operations@.len(),
                ops == operation_views(operations@),
                forall|i: int| 0 <= i < operations@.len() ==> #[trigger] is_local(operations@[i].1@)
                    || is_remote(operations@[i].1@),
                i <= n,
                operation_views(locals@) == select(ops, true, i as int),
                operation_views(remotes@) == select(ops, false, i as int),
                forall|j: int| 0 <= j < locals@.len() ==> is_local(#[trigger] locals@[j].1@),
                forall|j: int| 0 <= j < remotes@.len() ==> is_remote(#[trigger] remotes@[j].1@),
            decreases n - i,
        {
            let operation = &operations[i];
            let ghost prior_locals = locals@;
            let ghost prior_remotes = remotes@;
            assert(ops[i as int] == (operation.0@, operation.1@));
            let local = match &operation.1 {
                OperationalMessage::NewLocalFile(_)
                | OperationalMessage::ModifiedLocalFile(_)
                | OperationalMessage::DeletedLocalFile(_)
                | OperationalMessage::RenamedLocalFile(_, _) => true,
                _ => false,
            };
            if local {
                assert(is_local(operation.1@));
                locals.push(duplicate_operation(operation));
                proof {
                    assert(operation_views(locals@) =~= operation_views(prior_locals).push(ops[i as int]));
                    assert forall|j: int| 0 <= j < locals@.len() implies is_local(#[trigger] locals@[j].1@) by {
                        if j < prior_locals.len() {
                            assert(locals@[j] == prior_locals[j]);
                        }
                    }
                }
            } else {
                assert(is_local(operations@[i as int].1@) || is_remote(operations@[i as int].1@));
                assert(is_remote(operations@[i as int].1@));
                remotes.push(duplicate_operation(operation));
                proof {
                    assert(operation_views(remotes@) =~= operation_views(prior_remotes).push(ops[i as int]));
                    assert forall|j: int| 0 <= j < remotes@.len() implies is_remote(#[trigger] remotes@[j].1@) by {
                        if j < prior_remotes.len() {
                            assert(remotes@[j] == prior_remotes[j]);
                        }
                    }
                }
            }
            i = i + 1;
        }
        (locals, remotes)
    }

    /// The message of the first operation about `relative_path`, if any.
    fn get_conflicting_message(
        &self,
        relative_path: &RelativeFilePath,
        operations: &Vec<Operation>,
    ) -> (r: Option<OperationalMessage>)
        ensures
            r matches Some(m) ==> first_with_path(operation_views(operations@), relative_path@) == Some(m@),
            r is None ==> first_with_path(operation_views(operations@), relative_path@) is None,
    {
        let ghost ops = operation_views(operations@);
        let n = operations.len();
        let mut i: usize = 0;
        assert(ops.skip(0) =~= ops);
        while i < n
            invariant
                n == operations@.len(),
                ops == operation_views(operations@),
                i <= n,
                first_with_path(ops, relative_path@) == first_with_path(ops.skip(i as int), relative_path@),
            decreases n - i,
        {
            assert(ops.skip(i as int)[0] == ops[i as int]);
            assert(ops.skip(i as int).drop_first() =~= ops.skip(i + 1));
            if operations[i].0 == *relative_path {
                return Some(operations[i].1.duplicate());
            }
            i = i + 1;
        }
        None
    }

    /// The operations whose message is not `message`, in order.
    fn without_message(operations: &Vec<Operation>, message: &OperationalMessage) -> (r: Vec<Operation>)
        ensures
            operation_views(r@) == without_message(operation_views(operations@), message@, operations@.len() as int),
            forall|i: int| 0 <= i < r@.len() ==> exists|j: int| 0 <= j < operations@.len()
                && #[trigger] r@[i].1@ == operations@[j].1@,
    {
        let ghost ops = operation_views(operations@);
        let mut r: Vec<Operation> = Vec::new();
        let n = operations.len();
        let mut i: usize = 0;
        while i < n
            invariant
                n == operations@.len(),
                ops == operation_views(operations@),
                i <= n,
                operation_views(r@) == without_message(ops, message@, i as int),
                forall|k: int| 0 <= k < r@.len() ==> exists|j: int| 0 <= j < operations@.len()
                    && #[trigger] r@[k].1@ == operations@[j].1@,
            decreases n - i,
        {
            let ghost prior = r@;
            assert(ops[i as int] == (operations@[i as int].0@, operations@[i as int].1@));
            if !operations[i].1.same(message) {
                r.push(duplicate_operation(&operations[i]));
                proof {
                    assert(operation_views(r@) =~= operation_views(prior).push(ops[i as int]));
                    assert(r@[r@.len() - 1].1@ == operations@[i as int].1@);
                    assert forall|k: int| 0 <= k < r@.len() implies exists|j: int| 0 <= j < operations@.len()
                        && #[trigger] r@[k].1@ == operations@[j].1@ by {
                        if k < prior.len() {
                            assert(r@[k] == prior[k]);
                            let j = choose|j: int| 0 <= j < operations@.len() && #[trigger] prior[k].1@
                                == operations@[j].1@;
                            assert(0 <= j < operations@.len() && r@[k].1@ == operations@[j].1@);
                        } else {
                            assert(0 <= i < operations@.len() && r@[k].1@ == operations@[i as int].1@);
                        }
                    }
                }
            }
            i = i + 1;
        }
        r
    }

    /// Resolves the conflicts, given for each message the path looked up for it
    /// (used for remote messages only): see [`resolution`].
    pub fn resolve_with_references(&self, references: &Vec<Option<RelativeFilePath>>) -> (r: Vec<OperationalMessage>)
        requires
            references@.len() == self.messages().len(),
        ensures
            message_views(r@) == resolution(self.strategy(), self.messages(), reference_views(references@)),
    {
        let ghost msgs = self.messages();
        let ghost refs = reference_views(references@);
        let (operations, set_aside) = self.prepare(references);
        proof {
            lemma_operations_have_paths(msgs, refs, msgs.len() as int);
            assert forall|i: int| 0 <= i < operations@.len() implies #[trigger] is_local(operations@[i].1@)
                || is_remote(operations@[i].1@) by {
                let all_ops = self::operations(msgs, refs, msgs.len() as int);
                assert(operation_views(operations@)[i] == (operations@[i].0@, operations@[i].1@));
                assert(all_ops[i] == operation_views(operations@)[i]);
                assert(is_local(all_ops[i].1) || is_remote(all_ops[i].1));
            }
        }
        let (local_operations, mut remote_operations) = self.split_operations(&operations);
        let ghost ops = operation_views(operations@);
        let ghost locals = operation_views(local_operations@);
        let mut outgoing: Vec<OperationalMessage> = Vec::new();
        let mut k = local_operations.len();
        proof {
            assert(locals.take(k as int) =~= locals);
            assert(message_views(outgoing@) =~= Seq::<MessageView>::empty());
        }
        while k > 0
            invariant
                k <= local_operations@.len(),
                locals == operation_views(local_operations@),
                forall|i: int| 0 <= i < local_operations@.len() ==> is_local(#[trigger] local_operations@[i].1@),
                forall|i: int| 0 <= i < remote_operations@.len() ==> is_remote(#[trigger] remote_operations@[i].1@),
                settle(self.strategy(), locals, select(ops, false, ops.len() as int), Seq::empty())
                    == settle(
                    self.strategy(),
                    locals.take(k as int),
                    operation_views(remote_operations@),
                    message_views(outgoing@),
                ),
            decreases k,
        {
            let (relative_path, message) = (&local_operations[k - 1].0, &local_operations[k - 1].1);
            let ghost taken = locals.take(k as int);
            assert(taken.last() == (relative_path@, message@));
            assert(taken.drop_last() =~= locals.take(k - 1));
            match self.get_conflicting_message(relative_path, &remote_operations) {
                Some(conflicting_message) => {
                    proof {
                        lemma_first_with_path_member(operation_views(remote_operations@), relative_path@);
                        let j = choose|j: int| 0 <= j < remote_operations@.len()
                            && operation_views(remote_operations@)[j].1 == conflicting_message@;
                        assert(operation_views(remote_operations@)[j].1 == remote_operations@[j].1@);
                    }
                    let solutions = self.strategy.resolve_conflict(message, &conflicting_message);
                    let remaining = Self::without_message(&remote_operations, &conflicting_message);
                    let ghost prior_out = outgoing@;
                    let mut solutions = solutions;
                    let ghost added = solutions@;
                    outgoing.append(&mut solutions);
                    proof {
                        assert(message_views(outgoing@) =~= message_views(prior_out) + message_views(added));
                        assert forall|i: int| 0 <= i < remaining@.len() implies is_remote(#[trigger] remaining@[i].1@) by {
                            let j = choose|j: int| 0 <= j < remote_operations@.len()
                                && #[trigger] remaining@[i].1@ == remote_operations@[j].1@;
                            assert(is_remote(remote_operations@[j].1@));
                        }
                    }
                    remote_operations = remaining;
                },
                None => {
                    let ghost prior_out = outgoing@;
                    outgoing.push(message.duplicate());
                    proof {
                        assert(message_views(outgoing@) =~= message_views(prior_out).push(message@));
                    }
                },
            }
            k = k - 1;
        }
        let ghost out_before = message_views(outgoing@);
        let ghost left = operation_views(remote_operations@);
        let n = remote_operations.len();
        let mut i: usize = 0;
        while i < n
            invariant
                n == remote_operations@.len(),
                left == operation_views(remote_operations@),
                i <= n,
                message_views(outgoing@) == out_before + messages_of(left.take(i as int)),
            decreases n - i,
        {
            let ghost prior_out = outgoing@;
            outgoing.push(remote_operations[i].1.duplicate());
            proof {
                assert(left[i as int].1 == remote_operations@[i as int].1@);
                assert(messages_of(left.take(i + 1)) =~= messages_of(left.take(i as int)).push(left[i as int].1));
                assert(message_views(outgoing@) =~= message_views(prior_out).push(left[i as int].1));
            }
            i = i + 1;
        }
        proof {
            assert(left.take(n as int) =~= left);
        }
        let ghost before_exits = outgoing@;
        let mut set_aside = set_aside;
        let ghost exit_messages = set_aside@;
        outgoing.append(&mut set_aside);
        proof {
            assert(message_views(outgoing@) =~= message_views(before_exits) + message_views(exit_messages));
        }
        outgoing
    }

    /// Resolves conflicts between local and remote messages: each local change
    /// whose path a remote change also has is settled by the strategy, the
    /// other messages pass through, `Exit` messages come last.  The result is
    /// the [`resolution`] for the paths the knowledge answered: for a new
    /// remote file, what `get_remote_relative_path` gave on its content; for a
    /// modified or deleted remote file, what `get_local_relative_path` gave;
    /// none where the lookup failed.  Local messages use their own path.
    pub fn resolve(&self) -> (r: Vec<OperationalMessage>)
        ensures
            exists|references: Seq<Option<Seq<char>>>|
                {
                    &&& references.len() == self.messages().len()
                    &&& forall|i: int|
                        0 <= i < references.len() ==> answered(
                            self.knowledge(),
                            #[trigger] self.messages()[i],
                            references[i],
                        )
                    &&& message_views(r@) == #[trigger] resolution(self.strategy(), self.messages(), references)
                },
    {
        let references = self.references();
        let r = self.resolve_with_references(&references);
        proof {
            let refs = reference_views(references@);
            assert(refs.len() == self.messages().len());
            assert(message_views(r@) == resolution(self.strategy(), self.messages(), refs));
        }
        r
    }
}

proof fn lemma_operations_have_paths(messages: Seq<MessageView>, references: Seq<Option<Seq<char>>>, n: int)
    requires
        0 <= n <= messages.len(),
    ensures
        forall|i: int| 0 <= i < operations(messages, references, n).len() ==> is_local(
            #[trigger] operations(messages, references, n)[i].1,
        ) || is_remote(operations(messages, references, n)[i].1),
    decreases n,
{
    if n > 0 {
        lemma_operations_have_paths(messages, references, n - 1);
        let previous = operations(messages, references, n - 1);
        let m = messages[n - 1];
        if let Some(p) = reference(m, references[n - 1]) {
            assert(!(m is Exit));
            assert(is_local(m) || is_remote(m));
            assert forall|i: int| 0 <= i < operations(messages, references, n).len() implies is_local(
                #[trigger] operations(messages, references, n)[i].1,
            ) || is_remote(operations(messages, references, n)[i].1) by {
                if i < previous.len() {
                    assert(operations(messages, references, n)[i] == previous[i]);
                }
            }
        }
    }
}

proof fn lemma_first_with_path_member(operations: Seq<OperationView>, path: Seq<char>)
    requires
        first_with_path(operations, path) is Some,
    ensures
        exists|j: int| 0 <= j < operations.len() && operations[j].1 == first_with_path(operations, path)->Some_0,
    decreases operations.len(),
{
    if operations[0].0 != path {
        lemma_first_with_path_member(operations.drop_first(), path);
        let j = choose|j: int| 0 <= j < operations.drop_first().len()
            && operations.drop_first()[j].1 == first_with_path(operations, path)->Some_0;
        assert(operations[j + 1] == operations.drop_first()[j]);
    }
}


/// Conflict resolution puts every `Exit` message last, in their order, after
/// all the file messages.
pub proof fn law_exit_messages_last<S: ResolveStrategy>(
    strategy: S,
    messages: Seq<MessageView>,
    references: Seq<Option<Seq<char>>>,
)
    ensures
        exists|before: Seq<MessageView>| resolution(strategy, messages, references) == before + exits(
            messages,
            messages.len() as int,
        ),
{
    let ops = operations(messages, references, messages.len() as int);
    let locals = select(ops, true, ops.len() as int);
    let remotes = select(ops, false, ops.len() as int);
    let (out, left) = settle(strategy, locals, remotes, Seq::empty());
    let before = out + messages_of(left);
    assert(resolution(strategy, messages, references) == before + exits(messages, messages.len() as int));
}

/// The local messages, in their order.
pub open spec fn local_messages(messages: Seq<MessageView>) -> Seq<MessageView> {
    messages.filter(|m: MessageView| is_local(m))
}

/// The remote messages, in their order.
pub open spec fn remote_messages(messages: Seq<MessageView>) -> Seq<MessageView> {
    messages.filter(|m: MessageView| is_remote(m))
}

/// The `Exit` messages.
pub open spec fn exit_messages(messages: Seq<MessageView>) -> Seq<MessageView> {
    messages.filter(|m: MessageView| m is Exit)
}

/// Whether an operation comes from one of the messages, with that message's path.
pub open spec fn from_message(
    op: OperationView,
    messages: Seq<MessageView>,
    references: Seq<Option<Seq<char>>>,
) -> bool {
    exists|k: int|
        0 <= k < messages.len() && op.1 == messages[k] && #[trigger] reference(messages[k], references[k])
            == Some(op.0)
}

proof fn lemma_operation_origins(messages: Seq<MessageView>, references: Seq<Option<Seq<char>>>, n: int)
    requires
        0 <= n <= messages.len(),
    ensures
        forall|i: int|
            0 <= i < operations(messages, references, n).len() ==> from_message(
                #[trigger] operations(messages, references, n)[i],
                messages,
                references,
            ),
    decreases n,
{
    if n > 0 {
        lemma_operation_origins(messages, references, n - 1);
        let previous = operations(messages, references, n - 1);
        let now = operations(messages, references, n);
        if let Some(p) = reference(messages[n - 1], references[n - 1]) {
            assert forall|i: int| 0 <= i < now.len() implies from_message(#[trigger] now[i], messages, references) by {
                if i < previous.len() {
                    assert(now[i] == previous[i]);
                } else {
                    assert(reference(messages[n - 1], references[n - 1]) == Some(now[i].0));
                }
            }
        }
    }
}

proof fn lemma_select_members(s: Seq<OperationView>, local: bool, k: int)
    requires
        0 <= k <= s.len(),
    ensures
        forall|i: int|
            0 <= i < select(s, local, k).len() ==> s.contains(#[trigger] select(s, local, k)[i]) && is_local(
                select(s, local, k)[i].1,
            ) == local,
    decreases k,
{
    if k > 0 {
        lemma_select_members(s, local, k - 1);
        let previous = select(s, local, k - 1);
        let now = select(s, local, k);
        assert forall|i: int| 0 <= i < now.len() implies s.contains(#[trigger] now[i]) && is_local(now[i].1) == local by {
            if i < previous.len() {
                assert(now[i] == previous[i]);
            } else {
                assert(now[i] == s[k - 1]);
            }
        }
    }
}

proof fn lemma_select_push(s: Seq<OperationView>, x: OperationView, local: bool, k: int)
    requires
        0 <= k <= s.len(),
    ensures
        select(s.push(x), local, k) == select(s, local, k),
    decreases k,
{
    if k > 0 {
        lemma_select_push(s, x, local, k - 1);
        assert(s.push(x)[k - 1] == s[k - 1]);
    }
}

proof fn lemma_sides(messages: Seq<MessageView>, references: Seq<Option<Seq<char>>>, n: int)
    requires
        references.len() == messages.len(),
        0 <= n <= messages.len(),
        forall|j: int| 0 <= j < messages.len() && is_remote(#[trigger] messages[j]) ==> references[j] is Some,
    ensures
        ({
            let ops = operations(messages, references, n);
            &&& messages_of(select(ops, true, ops.len() as int)) == local_messages(messages.take(n))
            &&& messages_of(select(ops, false, ops.len() as int)) == remote_messages(messages.take(n))
            &&& exits(messages, n) == exit_messages(messages.take(n))
        }),
    decreases n,
{
    reveal(Seq::filter);
    if n > 0 {
        lemma_sides(messages, references, n - 1);
        let previous = operations(messages, references, n - 1);
        let m = messages[n - 1];
        let t = messages.take(n);
        assert(t.drop_last() =~= messages.take(n - 1));
        assert(t.last() == m);
        if is_remote(m) {
            assert(references[n - 1] is Some);
        }
        match reference(m, references[n - 1]) {
            Some(p) => {
                let x = (p, m);
                lemma_select_push(previous, x, true, previous.len() as int);
                lemma_select_push(previous, x, false, previous.len() as int);
                let l = select(previous, true, previous.len() as int);
                let r = select(previous, false, previous.len() as int);
                assert(messages_of(l.push(x)) =~= messages_of(l).push(m));
                assert(messages_of(r.push(x)) =~= messages_of(r).push(m));
            },
            None => {},
        }
    }
}

proof fn lemma_first_with_path_absent(operations: Seq<OperationView>, path: Seq<char>)
    requires
        forall|j: int| 0 <= j < operations.len() ==> (#[trigger] operations[j]).0 != path,
    ensures
        first_with_path(operations, path) is None,
    decreases operations.len(),
{
    if operations.len() > 0 {
        assert forall|j: int| 0 <= j < operations.drop_first().len() implies (
        #[trigger] operations.drop_first()[j]).0 != path by {
            assert(operations.drop_first()[j] == operations[j + 1]);
        }
        lemma_first_with_path_absent(operations.drop_first(), path);
    }
}

proof fn lemma_settle_without_conflicts<S: ResolveStrategy>(
    strategy: S,
    locals: Seq<OperationView>,
    remotes: Seq<OperationView>,
    out: Seq<MessageView>,
)
    requires
        forall|i: int, j: int|
            0 <= i < locals.len() && 0 <= j < remotes.len() ==> (#[trigger] locals[i]).0 != (
            #[trigger] remotes[j]).0,
    ensures
        settle(strategy, locals, remotes, out) == (out + messages_of(locals).reverse(), remotes),
    decreases locals.len(),
{
    if locals.len() > 0 {
        let (path, message) = locals.last();
        assert forall|j: int| 0 <= j < remotes.len() implies (#[trigger] remotes[j]).0 != path by {
            assert(locals[locals.len() - 1] == locals.last());
        }
        lemma_first_with_path_absent(remotes, path);
        let rest = locals.drop_last();
        assert forall|i: int, j: int| 0 <= i < rest.len() && 0 <= j < remotes.len() implies (
        #[trigger] rest[i]).0 != (#[trigger] remotes[j]).0 by {
            assert(rest[i] == locals[i]);
        }
        lemma_settle_without_conflicts(strategy, rest, remotes, out.push(message));
        assert(messages_of(locals).reverse() =~= seq![message] + messages_of(rest).reverse());
        assert(out.push(message) + messages_of(rest).reverse() =~= out + messages_of(locals).reverse());
    } else {
        assert(out + messages_of(locals).reverse() =~= out);
    }
}

/// Without conflicts nothing is settled and nothing is lost: when every remote
/// message has a looked-up path and no local message is about the path of a
/// remote one, the resolution is the local messages, last first, then the
/// remote messages in their order, then the `Exit` messages.
pub proof fn law_resolution_without_conflicts<S: ResolveStrategy>(
    strategy: S,
    messages: Seq<MessageView>,
    references: Seq<Option<Seq<char>>>,
)
    requires
        references.len() == messages.len(),
        forall|j: int| 0 <= j < messages.len() && is_remote(#[trigger] messages[j]) ==> references[j] is Some,
        forall|i: int, j: int|
            0 <= i < messages.len() && 0 <= j < messages.len() && is_local(#[trigger] messages[i]) && is_remote(
                #[trigger] messages[j],
            ) ==> reference(messages[i], references[i]) != reference(messages[j], references[j]),
    ensures
        resolution(strategy, messages, references) == local_messages(messages).reverse() + remote_messages(
            messages,
        ) + exit_messages(messages),
{
    let n = messages.len() as int;
    let ops = operations(messages, references, n);
    let locals = select(ops, true, ops.len() as int);
    let remotes = select(ops, false, ops.len() as int);
    lemma_sides(messages, references, n);
    assert(messages.take(n) =~= messages);
    lemma_operation_origins(messages, references, n);
    lemma_select_members(ops, true, ops.len() as int);
    lemma_select_members(ops, false, ops.len() as int);
    assert forall|i: int, j: int| 0 <= i < locals.len() && 0 <= j < remotes.len() implies (
    #[trigger] locals[i]).0 != (#[trigger] remotes[j]).0 by {
        let a = locals[i];
        let b = remotes[j];
        let ia = choose|x: int| 0 <= x < ops.len() && ops[x] == a;
        let ib = choose|x: int| 0 <= x < ops.len() && ops[x] == b;
        assert(from_message(ops[ia], messages, references));
        assert(from_message(ops[ib], messages, references));
        let ka = choose|k: int|
            0 <= k < messages.len() && a.1 == messages[k] && #[trigger] reference(messages[k], references[k])
                == Some(a.0);
        let kb = choose|k: int|
            0 <= k < messages.len() && b.1 == messages[k] && #[trigger] reference(messages[k], references[k])
                == Some(b.0);
        assert(is_local(messages[ka]));
        assert(is_remote(messages[kb]));
    }
    lemma_settle_without_conflicts(strategy, locals, remotes, Seq::empty());
    assert(Seq::<MessageView>::empty() + messages_of(locals).reverse() =~= messages_of(locals).reverse());
}

/// The path a local message leaves the file at: the new path of a rename, the
/// message's path otherwise.
pub open spec fn local_outcome_path(m: MessageView) -> Seq<char> {
    match m {
        MessageView::NewLocalFile(p) => p,
        MessageView::ModifiedLocalFile(p) => p,
        MessageView::DeletedLocalFile(p) => p,
        MessageView::RenamedLocalFile(_, after) => after,
        _ => Seq::empty(),
    }
}

/// When the local side wins, the local change is what happens: a local
/// deletion is replayed as it is unless the remote side deleted the file
/// too, and the settlement is dropped only when both sides deleted it; any
/// other settlement is one local change that leaves the file where the local
/// change left it, present (never a deletion), and, when the remote side
/// still has the file, is the local change itself or, for a local creation,
/// a modification of that path.
pub proof fn law_local_is_truth(local: MessageView, remote: MessageView)
    requires
        is_local(local),
        is_remote(remote),
    ensures
        LocalIsTruth.resolution(local, remote).len() == 0 <==> (local is DeletedLocalFile
            && remote is DeletedRemoteFile),
        local is DeletedLocalFile && !(remote is DeletedRemoteFile) ==> LocalIsTruth.resolution(local, remote)
            == seq![local],
        !(local is DeletedLocalFile) ==> {
            let r = LocalIsTruth.resolution(local, remote);
            &&& r.len() == 1
            &&& is_local(r[0])
            &&& !(r[0] is DeletedLocalFile)
            &&& local_outcome_path(r[0]) == local_outcome_path(local)
            &&& !(remote is DeletedRemoteFile) ==> (r[0] == local || (local is NewLocalFile && r[0]
                == MessageView::ModifiedLocalFile(local_outcome_path(local))))
            &&& remote is DeletedRemoteFile ==> r[0] == MessageView::NewLocalFile(local_outcome_path(local))
                || (local is NewLocalFile && r[0] == local)
        },
{
}

} // verus!
