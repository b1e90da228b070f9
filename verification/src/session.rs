//! The decisions of committing a unit of work: the statements queued in a
//! session run in one transaction, in the order they were added, and the
//! first failure ends the commit. The caller performs each action on a
//! connection and reports its outcome.
use vstd::prelude::*;

use crate::error::DbError;
use crate::query::Query;

verus! {

/// The statements queued for the next commit.
pub struct UnitOfWork {
    statements: Vec<Query>,
}

/// The texts of a sequence of queries.
pub open spec fn queries_view(q: Seq<Query>) -> Seq<Seq<char>> {
    q.map_values(|x: Query| x@)
}

impl View for UnitOfWork {
    type V = Seq<Seq<char>>;

    closed spec fn view(&self) -> Seq<Seq<char>> {
        queries_view(self.statements@)
    }
}

/// Where a commit stands: the action last handed out.
#[derive(Clone, Copy, Debug, PartialEq, Eq, Structural)]
pub enum CommitPhase {
    Starting,
    Executing(usize),
    Committing,
    Over,
}

/// A commit in progress.
pub struct CommitRun {
    phase: CommitPhase,
}

impl View for CommitRun {
    type V = CommitPhase;

    closed spec fn view(&self) -> CommitPhase {
        self.phase
    }
}

/// What the caller does next during a commit.
#[derive(Debug)]
pub enum CommitAction {
    /// Start a transaction on the connection.
    StartTransaction,
    /// Execute the statement with this index.
    Exec(usize),
    /// Commit the transaction.
    CommitTransaction,
    /// The commit is over and succeeded.
    Done,
    /// The commit is over and failed with this error.
    Failed(DbError),
}

#[verifier::ext_equal]
pub enum CommitActionView {
    StartTransaction,
    Exec(nat),
    CommitTransaction,
    Done,
    Failed(Seq<char>),
}

impl View for CommitAction {
    type V = CommitActionView;

    open spec fn view(&self) -> CommitActionView {
        match self {
            CommitAction::StartTransaction => CommitActionView::StartTransaction,
            CommitAction::Exec(i) => CommitActionView::Exec(*i as nat),
            CommitAction::CommitTransaction => CommitActionView::CommitTransaction,
            CommitAction::Done => CommitActionView::Done,
            CommitAction::Failed(e) => CommitActionView::Failed(e.message@),
        }
    }
}

/// How a commit of `n` statements begins: with nothing queued it is over at
/// once (no connection is needed); otherwise a transaction is started.
pub open spec fn spec_begin_commit(n: nat) -> (CommitPhase, CommitActionView) {
    if n == 0 {
        (CommitPhase::Over, CommitActionView::Done)
    } else {
        (CommitPhase::Starting, CommitActionView::StartTransaction)
    }
}

/// One step of a commit of `n` statements, from the outcome of the action
/// last handed out: an error ends the commit with that error; after the
/// transaction started come the statements in order, then the commit; a
/// successful commit ends it.
pub open spec fn spec_commit_step(n: nat, p: CommitPhase, last: Result<(), Seq<char>>) -> (
    CommitPhase,
    CommitActionView,
) {
    match p {
        CommitPhase::Over => (CommitPhase::Over, CommitActionView::Done),
        _ => match last {
            Err(m) => (CommitPhase::Over, CommitActionView::Failed(m)),
            Ok(()) => match p {
                CommitPhase::Starting => if 0 < n {
                    (CommitPhase::Executing(0), CommitActionView::Exec(0))
                } else {
                    (CommitPhase::Committing, CommitActionView::CommitTransaction)
                },
                CommitPhase::Executing(i) => if i + 1 < n {
                    (CommitPhase::Executing((i + 1) as usize), CommitActionView::Exec((i + 1) as nat))
                } else {
                    (CommitPhase::Committing, CommitActionView::CommitTransaction)
                },
                _ => (CommitPhase::Over, CommitActionView::Done),
            },
        },
    }
}

/// The outcome of an action as plain values.
pub open spec fn outcome_view(r: Result<(), DbError>) -> Result<(), Seq<char>> {
    match r {
        Ok(()) => Ok(()),
        Err(e) => Err(e.message@),
    }
}

impl UnitOfWork {
    /// An empty unit of work.
    pub fn new() -> (r: Self)
        ensures
            r@ == Seq::<Seq<char>>::empty(),
    {
        let r = Self { statements: Vec::new() };
        assert(queries_view(r.statements@) =~= Seq::<Seq<char>>::empty());
        r
    }

    /// Queues a statement; it runs after those queued before it.
    pub fn add(&mut self, query: Query)
        ensures
            final(self)@ == old(self)@.push(query@),
    {
        let ghost before = queries_view(self.statements@);
        let ghost q = query@;
        self.statements.push(query);
        assert(queries_view(self.statements@) =~= before.push(q));
    }

    /// The number of queued statements.
    pub fn len(&self) -> (r: usize)
        ensures
            r == self@.len(),
    {
        self.statements.len()
    }

    /// The queued statement with index `i`, if there is one.
    pub fn statement(&self, i: usize) -> (r: Option<&Query>)
        ensures
            i < self@.len() ==> (r matches Some(q) && q@ == self@[i as int]),
            i >= self@.len() ==> r is None,
    {
        if i < self.statements.len() {
            Some(&self.statements[i])
        } else {
            None
        }
    }

    /// Begins a commit: the run and the first action.
    pub fn begin_commit(&self) -> (r: (CommitRun, CommitAction))
        ensures
            (r.0@, r.1@) == spec_begin_commit(self@.len()),
    {
        if self.statements.len() == 0 {
            (CommitRun { phase: CommitPhase::Over }, CommitAction::Done)
        } else {
            (CommitRun { phase: CommitPhase::Starting }, CommitAction::StartTransaction)
        }
    }

    /// Takes the outcome of the action last handed out and gives the next.
    pub fn commit_step(&self, run: &mut CommitRun, last: Result<(), DbError>) -> (a: CommitAction)
        ensures
            (final(run)@, a@) == spec_commit_step(self@.len(), old(run)@, outcome_view(last)),
    {
        let n = self.statements.len();
        match run.phase {
            CommitPhase::Over => CommitAction::Done,
            phase => match last {
                Err(e) => {
                    run.phase = CommitPhase::Over;
                    CommitAction::Failed(e)
                },
                Ok(()) => match phase {
                    CommitPhase::Starting => {
                        if 0 < n {
                            run.phase = CommitPhase::Executing(0);
                            CommitAction::Exec(0)
                        } else {
                            run.phase = CommitPhase::Committing;
                            CommitAction::CommitTransaction
                        }
                    },
                    CommitPhase::Executing(i) => {
                        if i < n && i + 1 < n {
                            run.phase = CommitPhase::Executing(i + 1);
                            CommitAction::Exec(i + 1)
                        } else {
                            run.phase = CommitPhase::Committing;
                            CommitAction::CommitTransaction
                        }
                    },
                    _ => {
                        run.phase = CommitPhase::Over;
                        CommitAction::Done
                    },
                },
            },
        }
    }

    /// Ends a commit: the queue is emptied when it succeeded and kept, for
    /// another attempt, when it failed.
    pub fn finish_commit(&mut self, outcome: &Result<(), DbError>)
        ensures
            outcome is Ok ==> final(self)@.len() == 0,
            outcome is Err ==> final(self)@ == old(self)@,
    {
        if outcome.is_ok() {
            self.statements = Vec::new();
            assert(queries_view(self.statements@) =~= Seq::<Seq<char>>::empty());
        }
    }
}

/// The actions handed out when each of `k` successive actions succeeds.
pub open spec fn actions_on_success(n: nat, p: CommitPhase, k: nat) -> Seq<CommitActionView>
    decreases k,
{
    if k == 0 {
        seq![]
    } else {
        let (p2, a) = spec_commit_step(n, p, Ok(()));
        seq![a] + actions_on_success(n, p2, (k - 1) as nat)
    }
}

/// The actions that run statements `from` up to `n`, in order.
pub open spec fn exec_actions(from: nat, n: nat) -> Seq<CommitActionView> {
    Seq::new((n - from) as nat, |j: int| CommitActionView::Exec((from + j) as nat))
}

proof fn lemma_actions_from(n: nat, i: nat)
    requires
        i < n,
        n <= usize::MAX,
    ensures
        actions_on_success(n, CommitPhase::Executing(i as usize), (n - i + 1) as nat)
            == exec_actions(i + 1, n) + seq![
            CommitActionView::CommitTransaction,
            CommitActionView::Done,
        ],
    decreases n - i,
{
    let k = (n - i + 1) as nat;
    if i + 1 < n {
        lemma_actions_from(n, i + 1);
        assert(exec_actions(i + 1, n) =~= seq![CommitActionView::Exec((i + 1) as nat)]
            + exec_actions(i + 2, n));
    } else {
        assert(actions_on_success(n, CommitPhase::Committing, 1) =~= seq![CommitActionView::Done]) by {
            reveal_with_fuel(actions_on_success, 2);
        }
        assert(exec_actions(i + 1, n) =~= seq![]);
        reveal_with_fuel(actions_on_success, 2);
    }
}

/// A commit runs all queued statements in a single transaction: when every
/// action succeeds, the actions are the start of the transaction, each
/// statement once in the order of queueing, the commit, and the end. When an
/// action fails, the next action reports that failure and nothing more
/// runs; with nothing queued, nothing runs at all.
pub proof fn law_commit_in_one_transaction(n: nat, p: CommitPhase, m: Seq<char>)
    requires
        n <= usize::MAX,
    ensures
        n == 0 ==> spec_begin_commit(n) == (CommitPhase::Over, CommitActionView::Done),
        n > 0 ==> spec_begin_commit(n).1 == CommitActionView::StartTransaction,
        n > 0 ==> seq![spec_begin_commit(n).1] + actions_on_success(
            n,
            spec_begin_commit(n).0,
            n + 2,
        ) == seq![CommitActionView::StartTransaction] + exec_actions(0, n) + seq![
            CommitActionView::CommitTransaction,
            CommitActionView::Done,
        ],
        p != CommitPhase::Over ==> spec_commit_step(n, p, Err(m)) == (
            CommitPhase::Over,
            CommitActionView::Failed(m),
        ),
        spec_commit_step(n, CommitPhase::Over, Err(m)).1 == CommitActionView::Done,
{
    if n > 0 {
        lemma_actions_from(n, 0);
        let rest = actions_on_success(n, CommitPhase::Executing(0), (n + 1) as nat);
        assert(actions_on_success(n, CommitPhase::Starting, n + 2) == seq![
            CommitActionView::Exec(0),
        ] + rest);
        assert(exec_actions(0, n) =~= seq![CommitActionView::Exec(0)] + exec_actions(1, n));
        assert(seq![CommitActionView::StartTransaction] + (seq![CommitActionView::Exec(0)] + rest)
            =~= seq![CommitActionView::StartTransaction] + exec_actions(0, n) + seq![
            CommitActionView::CommitTransaction,
            CommitActionView::Done,
        ]);
    }
}

} // verus!
