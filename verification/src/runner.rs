//! Decisions of the synchronisation run: retrying the startup changes whose
//! parent is not there yet, and telling connection failures apart.

use vstd::prelude::*;
use crate::change::Change;
use crate::executor::ExecutorError;

verus! {

/// What comes after operating a round of startup changes.
#[derive(Debug)]
pub enum Round {
    /// Every change was operated.
    Finished,
    /// Some changes wait for a parent another change created: operate them again.
    Retry(Vec<Change>),
    /// No change of the round could be operated: they wait for parents that
    /// will never come.
    Stuck(Vec<Change>),
}

/// Whether a change that failed this way is tried again in the next round:
/// only when its parent is missing.
pub fn retried(error: &ExecutorError) -> (r: bool)
    ensures
        r == (error is MissingParent),
{
    match error {
        ExecutorError::MissingParent(_, _) => true,
        _ => false,
    }
}

/// Which way a round ends.
#[derive(Debug, PartialEq, Eq, Structural, Clone, Copy)]
pub enum RoundKind {
    Finished,
    Retry,
    Stuck,
}

/// How a round of `operated` changes ends when `remaining` of them wait for
/// their parent: done when none waits, stuck when all wait, else retried.
pub open spec fn round_kind(operated: int, remaining: int) -> RoundKind {
    if remaining == 0 {
        RoundKind::Finished
    } else if remaining == operated {
        RoundKind::Stuck
    } else {
        RoundKind::Retry
    }
}

impl Round {
    /// Which way this round ends.
    pub open spec fn kind(&self) -> RoundKind {
        match self {
            Round::Finished => RoundKind::Finished,
            Round::Retry(_) => RoundKind::Retry,
            Round::Stuck(_) => RoundKind::Stuck,
        }
    }
}

/// What comes after a round of `operated` changes of which `remaining` wait
/// for their parent: see [`round_kind`]; the changes that wait are handed on.
pub fn next_round(operated: usize, remaining: Vec<Change>) -> (r: Round)
    requires
        remaining@.len() <= operated,
    ensures
        r.kind() == round_kind(operated as int, remaining@.len() as int),
        r matches Round::Retry(v) ==> v == remaining,
        r matches Round::Stuck(v) ==> v == remaining,
{
    if remaining.len() == 0 {
        Round::Finished
    } else if remaining.len() == operated {
        Round::Stuck(remaining)
    } else {
        Round::Retry(remaining)
    }
}

/// A retried round has fewer changes than the round before, and at least
/// one: the rounds end.
pub proof fn law_retry_shrinks(operated: int, remaining: int)
    requires
        0 <= remaining <= operated,
    ensures
        round_kind(operated, remaining) == RoundKind::Retry ==> 0 < remaining < operated,
        round_kind(operated, remaining) == RoundKind::Finished <==> remaining == 0,
{
}

/// The number of changes operated over successive rounds.
pub open spec fn total(sizes: Seq<int>) -> int
    decreases sizes.len(),
{
    if sizes.len() == 0 {
        0
    } else {
        sizes[0] + total(sizes.drop_first())
    }
}

/// Whether `sizes` are the sizes of successive rounds, each but the last
/// retried with the changes of the round before that wait for their parent.
pub open spec fn retried_rounds(sizes: Seq<int>) -> bool {
    forall|k: int| 0 < k < sizes.len() ==> #[trigger] retried_after(sizes, k)
}

/// Whether round `k` holds the changes of round `k - 1` that wait for their
/// parent, that round being retried.
pub open spec fn retried_after(sizes: Seq<int>, k: int) -> bool {
    0 <= sizes[k] <= sizes[k - 1] && round_kind(sizes[k - 1], sizes[k]) == RoundKind::Retry
}

/// Operating `n` startup changes takes at most `n` rounds (one when there is
/// none) and at most `n * (n + 1) / 2` operations.
pub proof fn law_rounds_are_bounded(sizes: Seq<int>)
    requires
        sizes.len() > 0,
        sizes[0] >= 0,
        retried_rounds(sizes),
    ensures
        sizes.len() <= if sizes[0] == 0 { 1 } else { sizes[0] },
        2 * total(sizes) <= sizes[0] * (sizes[0] + 1),
    decreases sizes.len(),
{
    if sizes.len() == 1 {
        assert(total(sizes.drop_first()) == 0);
        assert(total(sizes) == sizes[0]);
        assert(2 * sizes[0] <= sizes[0] * (sizes[0] + 1)) by (nonlinear_arith)
            requires
                sizes[0] >= 0,
        ;
    } else {
        let rest = sizes.drop_first();
        assert(retried_after(sizes, 1));
        assert(retried_rounds(rest)) by {
            assert forall|k: int| 0 < k < rest.len() implies #[trigger] retried_after(rest, k) by {
                assert(retried_after(sizes, k + 1));
                assert(rest[k] == sizes[k + 1] && rest[k - 1] == sizes[k]);
            }
        }
        law_rounds_are_bounded(rest);
        let a = sizes[0];
        let b = rest[0];
        let t = total(rest);
        assert(0 < b < a);
        assert(2 * (a + t) <= a * (a + 1)) by (nonlinear_arith)
            requires
                0 < b < a,
                2 * t <= b * (b + 1),
        ;
    }
}

/// The word that marks a connection failure.
pub open spec fn connection_word() -> Seq<char> {
    "connection"@
}

/// The code of a character in lower case, for the ASCII letters.
pub open spec fn ascii_lower(c: char) -> int {
    if 65 <= (c as u32) && (c as u32) <= 90 {
        (c as u32) + 32
    } else {
        c as u32 as int
    }
}

/// Whether `message` holds `word` at `at`, ignoring the case of ASCII letters.
pub open spec fn holds_at(message: Seq<char>, word: Seq<char>, at: int) -> bool {
    0 <= at && at + word.len() <= message.len() && forall|j: int|
        0 <= j < word.len() ==> #[trigger] ascii_lower(message[at + j]) == (word[j] as u32 as int)
}

/// Whether a failure is a connection failure: its message mentions
/// `connection`, in any case.
pub open spec fn spec_is_connection_error(message: Seq<char>) -> bool {
    exists|at: int| holds_at(message, connection_word(), at)
}

fn lower(c: char) -> (r: u32)
    ensures
        r == ascii_lower(c),
{
    let x = c as u32;
    if 65 <= x && x <= 90 {
        x + 32
    } else {
        x
    }
}

/// Whether a failure is a connection failure: see [`spec_is_connection_error`].
pub fn is_connection_error(message: &str) -> (r: bool)
    ensures
        r == spec_is_connection_error(message@),
{
    let word = "connection";
    proof {
        reveal_strlit("connection");
    }
    let n = message.unicode_len();
    let m = word.unicode_len();
    if n < m {
        assert forall|at: int| !holds_at(message@, connection_word(), at) by {}
        return false;
    }
    let mut at: usize = 0;
    while at <= n - m
        invariant
            n == message@.len(),
            m == word@.len(),
            word@ == connection_word(),
            m <= n,
            at <= n - m + 1,
            forall|k: int| 0 <= k < at ==> !holds_at(message@, connection_word(), k),
        decreases n - m + 1 - at,
    {
        let mut j: usize = 0;
        let mut all = true;
        while j < m
            invariant
                n == message@.len(),
                m == word@.len(),
                word@ == connection_word(),
                at + m <= n,
                j <= m,
                all == (forall|x: int| 0 <= x < j ==> #[trigger] ascii_lower(message@[at + x]) == (word@[x] as u32 as int)),
            decreases m - j,
        {
            if lower(message.get_char(at + j)) != (word.get_char(j) as u32) {
                all = false;
            }
            j = j + 1;
        }
        if all {
            assert(holds_at(message@, connection_word(), at as int));
            return true;
        }
        at = at + 1;
    }
    assert forall|k: int| !holds_at(message@, connection_word(), k) by {
        if 0 <= k < at {
        } else if k >= at {
            assert(k + m > n);
        }
    }
    false
}

/// How operating one startup change went.
#[derive(Debug, PartialEq, Eq, Structural, Clone, Copy)]
pub enum Outcome {
    /// The change was operated.
    Operated,
    /// The change waits for a parent that another change may create.
    WaitsForParent,
    /// The change failed in another way: the run stops.
    Failed,
}

/// What the run of startup changes asks for next.
#[derive(Debug)]
pub enum Next {
    /// Operate the change at this index.
    Operate(usize),
    /// Every change was operated.
    Finished,
    /// A whole round of changes waited for their parents: these never come.
    Stuck(Vec<usize>),
    /// The change at this index failed: the run stops there.
    Failed(usize),
}

/// The run of `count` startup changes, known by their index: they are
/// operated in rounds, each round retrying, in order, the changes of the
/// round before that waited for their parent.
pub struct StartupRun {
    count: usize,
    pending: Vec<usize>,
    position: usize,
    remaining: Vec<usize>,
    failed: Option<usize>,
    done: Ghost<Set<usize>>,
    sizes: Ghost<Seq<int>>,
}

impl StartupRun {
    /// How many changes the run operates.
    pub closed spec fn count(&self) -> nat {
        self.count as nat
    }

    /// The changes operated so far.
    pub closed spec fn done(&self) -> Set<usize> {
        self.done@
    }

    /// The changes of the current round not handed out yet, in order.
    pub closed spec fn waiting(&self) -> Seq<usize> {
        self.pending@.subrange(self.position as int, self.pending@.len() as int)
    }

    /// The changes of the current round that waited for their parent, in order.
    pub closed spec fn postponed(&self) -> Seq<usize> {
        self.remaining@
    }

    /// The change that failed, if one did.
    pub closed spec fn failure(&self) -> Option<usize> {
        self.failed
    }

    /// The number of changes of each round started so far.
    pub closed spec fn round_sizes(&self) -> Seq<int> {
        self.sizes@
    }

    /// Each change is either operated, waiting in the current round or
    /// postponed to the next, and only one of these.
    pub closed spec fn wf(&self) -> bool {
        &&& self.position <= self.pending@.len()
        &&& self.remaining@.len() <= self.position
        &&& self.pending@.no_duplicates()
        &&& self.remaining@.no_duplicates()
        &&& forall|i: usize|
            #![trigger self.done@.contains(i)]
            #![trigger self.waiting().contains(i)]
            #![trigger self.remaining@.contains(i)]
            (i < self.count) <==> (self.done@.contains(i) || self.waiting().contains(i) || self.remaining@.contains(i))
        &&& forall|i: usize|
            #![trigger self.done@.contains(i)]
            #![trigger self.waiting().contains(i)]
            #![trigger self.remaining@.contains(i)]
            self.done@.contains(i) ==> !self.waiting().contains(i) && !self.remaining@.contains(i)
        &&& forall|i: usize|
            #![trigger self.waiting().contains(i)]
            #![trigger self.remaining@.contains(i)]
            self.waiting().contains(i) ==> !self.remaining@.contains(i)
        &&& self.sizes@.len() > 0
        &&& self.sizes@[0] == self.count
        &&& retried_rounds(self.sizes@)
        &&& self.sizes@.last() == self.pending@.len()
    }

    /// A run of `count` changes: the first round holds them all, in order.
    pub fn new(count: usize) -> (r: StartupRun)
        ensures
            r.wf(),
            r.count() == count,
            r.done() == Set::<usize>::empty(),
            r.waiting() == Seq::new(count as nat, |k: int| k as usize),
            r.postponed().len() == 0,
            r.failure() is None,
            r.round_sizes() == seq![count as int],
    {
        let mut pending: Vec<usize> = Vec::new();
        let mut i: usize = 0;
        while i < count
            invariant
                i <= count,
                pending@ == Seq::new(i as nat, |k: int| k as usize),
            decreases count - i,
        {
            pending.push(i);
            assert(pending@ =~= Seq::new((i + 1) as nat, |k: int| k as usize));
            i = i + 1;
        }
        let ghost first_round = seq![count as int];
        let r = StartupRun {
            count,
            pending,
            position: 0,
            remaining: Vec::new(),
            failed: None,
            done: Ghost(Set::empty()),
            sizes: Ghost(first_round),
        };
        proof {
            assert(r.waiting() =~= r.pending@);
            assert forall|i: usize| (i < count) <==> (#[trigger] r.done@.contains(i) || r.waiting().contains(i)
                || r.remaining@.contains(i)) by {
                if i < count {
                    assert(r.pending@[i as int] == i);
                }
            }
            assert(retried_rounds(r.sizes@));
        }
        r
    }

    /// What comes next: the failure if a change failed; else the next change
    /// of the round; at the end of a round, the end of the run when no change
    /// waited, a stuck run when every change of the round waited, else a new
    /// round of the changes that waited, in order.
    pub fn next(&mut self) -> (r: Next)
        requires
            old(self).wf(),
        ensures
            final(self).wf(),
            final(self).count() == old(self).count(),
            final(self).done() == old(self).done(),
            final(self).failure() == old(self).failure(),
            old(self).failure() matches Some(i) ==> r matches Next::Failed(j) && j == i,
            old(self).failure() is None && old(self).waiting().len() > 0 ==> (r matches Next::Operate(i) && i
                == old(self).waiting()[0] && *final(self) == *old(self)),
            old(self).failure() is None && old(self).waiting().len() == 0 ==> match round_kind(
                old(self).round_sizes().last(),
                old(self).postponed().len() as int,
            ) {
                RoundKind::Finished => r is Finished,
                RoundKind::Stuck => r matches Next::Stuck(v) && v@ == old(self).postponed(),
                RoundKind::Retry => r matches Next::Operate(i) && i == old(self).postponed()[0]
                    && final(self).waiting() == old(self).postponed() && final(self).postponed().len() == 0
                    && final(self).round_sizes() == old(self).round_sizes().push(
                    old(self).postponed().len() as int,
                ),
            },
            r is Finished ==> forall|i: usize| i < final(self).count() ==> #[trigger] final(self).done().contains(i),
            r matches Next::Stuck(v) ==> v@.len() == final(self).round_sizes().last() && forall|i: usize|
                i < final(self).count() ==> #[trigger] final(self).done().contains(i) || v@.contains(i),
            r matches Next::Operate(i) ==> i < final(self).count() && !final(self).done().contains(i)
                && final(self).waiting().len() > 0 && final(self).waiting()[0] == i,
    {
        if let Some(i) = self.failed {
            return Next::Failed(i);
        }
        if self.position < self.pending.len() {
            let i = self.pending[self.position];
            proof {
                assert(self.waiting()[0] == i);
                assert(self.waiting().contains(i));
                assert(i < self.count);
                assert(!self.done@.contains(i));
            }
            return Next::Operate(i);
        }
        let operated = self.pending.len();
        let waited = self.remaining.len();
        proof {
            assert(self.waiting() =~= Seq::<usize>::empty());
        }
        if waited == 0 {
            return Next::Finished;
        }
        if waited == operated {
            let mut v: Vec<usize> = Vec::new();
            let mut k: usize = 0;
            while k < waited
                invariant
                    k <= waited,
                    waited == self.remaining@.len(),
                    v@ == self.remaining@.take(k as int),
                decreases waited - k,
            {
                v.push(self.remaining[k]);
                assert(v@ =~= self.remaining@.take(k + 1));
                k = k + 1;
            }
            assert(v@ =~= self.remaining@);
            return Next::Stuck(v);
        }
        let mut next_round: Vec<usize> = Vec::new();
        std::mem::swap(&mut next_round, &mut self.remaining);
        self.pending = next_round;
        self.position = 0;
        let ghost previous = self.sizes@;
        self.sizes = Ghost(previous.push(waited as int));
        proof {
            assert(self.waiting() =~= self.pending@);
            assert forall|k: int| 0 < k < self.sizes@.len() implies #[trigger] retried_after(self.sizes@, k) by {
                if k < previous.len() {
                    assert(retried_after(previous, k));
                }
            }
            assert(self.waiting().contains(self.pending@[0]));
        }
        Next::Operate(self.pending[0])
    }

    /// Records how operating the change handed out last went: an operated
    /// change is done, a change that waits for its parent goes to the next
    /// round, a failure stops the run.
    pub fn record(&mut self, outcome: Outcome)
        requires
            old(self).wf(),
            old(self).failure() is None,
            old(self).waiting().len() > 0,
        ensures
            final(self).wf(),
            final(self).count() == old(self).count(),
            final(self).round_sizes() == old(self).round_sizes(),
            ({
                let i = old(self).waiting()[0];
                match outcome {
                    Outcome::Operated => {
                        &&& final(self).done() == old(self).done().insert(i)
                        &&& final(self).waiting() == old(self).waiting().drop_first()
                        &&& final(self).postponed() == old(self).postponed()
                        &&& final(self).failure() is None
                    },
                    Outcome::WaitsForParent => {
                        &&& final(self).done() == old(self).done()
                        &&& final(self).waiting() == old(self).waiting().drop_first()
                        &&& final(self).postponed() == old(self).postponed().push(i)
                        &&& final(self).failure() is None
                    },
                    Outcome::Failed => {
                        &&& final(self).done() == old(self).done()
                        &&& final(self).failure() == Some(i)
                    },
                }
            }),
    {
        let len = self.pending.len();
        let i = self.pending[self.position];
        let ghost before = self.waiting();
        assert(self.position < len);
        proof {
            assert(before[0] == i);
            assert(before.drop_first() =~= self.pending@.subrange(self.position + 1, self.pending@.len() as int));
            assert(!before.drop_first().contains(i)) by {
                if before.drop_first().contains(i) {
                    let k = choose|k: int| 0 <= k < before.drop_first().len() && before.drop_first()[k] == i;
                    assert(self.pending@[self.position + 1 + k] == self.pending@[self.position as int]);
                }
            }
            assert(before.contains(i));
            assert forall|x: usize| before.contains(x) && x != i implies before.drop_first().contains(x) by {
                let k = choose|k: int| 0 <= k < before.len() && before[k] == x;
                assert(k != 0);
                assert(before.drop_first()[k - 1] == x);
            }
        }
        match outcome {
            Outcome::Operated => {
                self.done = Ghost(self.done@.insert(i));
                self.position = self.position + 1;
            },
            Outcome::WaitsForParent => {
                let ghost old_remaining = self.remaining@;
                self.remaining.push(i);
                self.position = self.position + 1;
                proof {
                    assert forall|x: usize| #[trigger] self.remaining@.contains(x) <==> (old_remaining.contains(x)
                        || x == i) by {
                        if self.remaining@.contains(x) {
                            let k = choose|k: int| 0 <= k < self.remaining@.len() && self.remaining@[k] == x;
                            if k < old_remaining.len() {
                                assert(old_remaining[k] == x);
                            }
                        }
                        if old_remaining.contains(x) {
                            let k = choose|k: int| 0 <= k < old_remaining.len() && old_remaining[k] == x;
                            assert(self.remaining@[k] == x);
                        }
                        if x == i {
                            assert(self.remaining@[old_remaining.len() as int] == x);
                        }
                    }
                    assert forall|a: int, b: int|
                        0 <= a < b < self.remaining@.len() implies self.remaining@[a] != self.remaining@[b] by {
                        if b == old_remaining.len() {
                            assert(old_remaining.contains(self.remaining@[a]));
                        } else {
                            assert(old_remaining[a] == self.remaining@[a] && old_remaining[b] == self.remaining@[b]);
                        }
                    }
                }
            },
            Outcome::Failed => {
                self.failed = Some(i);
            },
        }
        proof {
            if outcome != Outcome::Failed {
                assert(self.waiting() =~= before.drop_first());
                assert forall|x: usize| before.drop_first().contains(x) implies before.contains(x) by {
                    let k = choose|k: int| 0 <= k < before.drop_first().len() && before.drop_first()[k] == x;
                    assert(before[k + 1] == x);
                }
                assert forall|x: usize|
                    (x < self.count) <==> (self.done@.contains(x) || self.waiting().contains(x)
                        || self.remaining@.contains(x)) by {
                    assert((x < old(self).count) <==> (old(self).done@.contains(x) || before.contains(x)
                        || old(self).remaining@.contains(x)));
                }
            }
        }
    }
}

/// However the changes go, a run of `n` startup changes has at most `n`
/// rounds (one when there is none) and operates at most `n * (n + 1) / 2`
/// changes over all its rounds.
pub proof fn law_startup_run_bounded(run: StartupRun)
    requires
        run.wf(),
    ensures
        run.round_sizes().len() <= if run.count() == 0 { 1 } else { run.count() as int },
        2 * total(run.round_sizes()) <= run.count() * (run.count() + 1),
{
    law_rounds_are_bounded(run.round_sizes());
}

} // verus!
