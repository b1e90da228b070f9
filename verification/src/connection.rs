//! The decisions of a connection and of a connection pool: which operations
//! a connection's state admits and what state follows, and the bookkeeping of
//! pooled connections.
use vstd::prelude::*;

use std::collections::VecDeque;

use crate::error::DbError;
use crate::text::owned;

verus! {

/// The state of a connection.
#[derive(Clone, Copy, Debug, PartialEq, Eq, Structural)]
pub enum ConnectionState {
    Ready,
    Busy,
    InTransaction,
    Error,
}

/// A transaction control operation.
#[derive(Clone, Copy, Debug, PartialEq, Eq, Structural)]
pub enum TransactionOp {
    Start,
    Commit,
    Rollback,
}

/// Whether a state admits a transaction operation, and the error otherwise:
/// a busy or failed connection admits none; starting needs a ready
/// connection; committing and rolling back need an open transaction.
pub open spec fn spec_allows(s: ConnectionState, op: TransactionOp) -> Result<(), Seq<char>> {
    match s {
        ConnectionState::Busy => Err("Connection is busy"@),
        ConnectionState::Error => Err("Connection error"@),
        ConnectionState::InTransaction => match op {
            TransactionOp::Start => Err("Connection is already in a transaction"@),
            _ => Ok(()),
        },
        ConnectionState::Ready => match op {
            TransactionOp::Start => Ok(()),
            _ => Err("Connection is not in a transaction"@),
        },
    }
}

/// The state after a transaction operation succeeded.
pub open spec fn spec_after(op: TransactionOp) -> ConnectionState {
    match op {
        TransactionOp::Start => ConnectionState::InTransaction,
        _ => ConnectionState::Ready,
    }
}

/// Whether a state admits executing a statement; on success, whether the
/// connection is inside a transaction.
pub open spec fn spec_begin_exec(s: ConnectionState) -> Result<bool, Seq<char>> {
    match s {
        ConnectionState::Busy => Err("Connection is busy"@),
        ConnectionState::Error => Err("Connection error"@),
        ConnectionState::InTransaction => Ok(true),
        ConnectionState::Ready => Ok(false),
    }
}

/// The state after executing a statement, whatever its outcome.
pub open spec fn spec_after_exec(in_transaction: bool) -> ConnectionState {
    if in_transaction {
        ConnectionState::InTransaction
    } else {
        ConnectionState::Ready
    }
}

impl TransactionOp {
    /// The SQL statement that performs the operation.
    pub fn statement(&self) -> (r: &'static str)
        ensures
            *self == TransactionOp::Start ==> r@ == "BEGIN"@,
            *self == TransactionOp::Commit ==> r@ == "COMMIT"@,
            *self == TransactionOp::Rollback ==> r@ == "ROLLBACK"@,
    {
        match self {
            TransactionOp::Start => "BEGIN",
            TransactionOp::Commit => "COMMIT",
            TransactionOp::Rollback => "ROLLBACK",
        }
    }
}

impl ConnectionState {
    /// Checks that this state admits the operation.
    pub fn allows(&self, op: TransactionOp) -> (r: Result<(), DbError>)
        ensures
            match (r, spec_allows(*self, op)) {
                (Ok(()), Ok(())) => true,
                (Err(e), Err(m)) => e.message@ == m,
                _ => false,
            },
    {
        match self {
            ConnectionState::Busy => Err(DbError::new(owned("Connection is busy"))),
            ConnectionState::Error => Err(DbError::new(owned("Connection error"))),
            ConnectionState::InTransaction => match op {
                TransactionOp::Start => Err(
                    DbError::new(owned("Connection is already in a transaction")),
                ),
                _ => Ok(()),
            },
            ConnectionState::Ready => match op {
                TransactionOp::Start => Ok(()),
                _ => Err(DbError::new(owned("Connection is not in a transaction"))),
            },
        }
    }

    /// The state after the operation succeeded.
    pub fn after(op: TransactionOp) -> (r: ConnectionState)
        ensures
            r == spec_after(op),
    {
        match op {
            TransactionOp::Start => ConnectionState::InTransaction,
            _ => ConnectionState::Ready,
        }
    }

    /// Checks that this state admits executing a statement; returns whether
    /// the connection is inside a transaction.
    pub fn begin_exec(&self) -> (r: Result<bool, DbError>)
        ensures
            match (r, spec_begin_exec(*self)) {
                (Ok(b), Ok(c)) => b == c,
                (Err(e), Err(m)) => e.message@ == m,
                _ => false,
            },
    {
        match self {
            ConnectionState::Busy => Err(DbError::new(owned("Connection is busy"))),
            ConnectionState::Error => Err(DbError::new(owned("Connection error"))),
            ConnectionState::InTransaction => Ok(true),
            ConnectionState::Ready => Ok(false),
        }
    }

    /// The state after executing a statement.
    pub fn after_exec(in_transaction: bool) -> (r: ConnectionState)
        ensures
            r == spec_after_exec(in_transaction),
    {
        if in_transaction {
            ConnectionState::InTransaction
        } else {
            ConnectionState::Ready
        }
    }

    /// Whether a connection in this state must be rolled back before it
    /// returns to a pool.
    pub fn needs_rollback(&self) -> (r: bool)
        ensures
            r == (*self == ConnectionState::InTransaction),
    {
        match self {
            ConnectionState::InTransaction => true,
            _ => false,
        }
    }
}

/// Transactions nest nowhere: a transaction can be started exactly on a ready
/// connection, committed or rolled back exactly inside a transaction; a
/// started transaction cannot be started again, and committing or rolling
/// back returns the connection to the ready state.
pub proof fn law_transaction_lifecycle(s: ConnectionState, op: TransactionOp)
    ensures
        spec_allows(s, TransactionOp::Start) is Ok <==> s == ConnectionState::Ready,
        op != TransactionOp::Start ==> (spec_allows(s, op) is Ok <==> s
            == ConnectionState::InTransaction),
        spec_allows(spec_after(TransactionOp::Start), TransactionOp::Start) is Err,
        spec_allows(spec_after(TransactionOp::Start), TransactionOp::Commit) is Ok,
        spec_allows(spec_after(TransactionOp::Start), TransactionOp::Rollback) is Ok,
        op != TransactionOp::Start ==> spec_after(op) == ConnectionState::Ready,
        op != TransactionOp::Start ==> spec_allows(spec_after(op), op) is Err,
{
}

/// Executing a statement leaves the connection in the state it was in.
pub proof fn law_exec_preserves_state(s: ConnectionState)
    ensures
        spec_begin_exec(s) matches Ok(b) ==> spec_after_exec(b) == s,
        spec_begin_exec(s) is Err <==> (s == ConnectionState::Busy || s == ConnectionState::Error),
{
}

/// A connection taken from a pool and given back leaves the pool with the
/// same connections available, the one taken now the newest, and the same
/// number managed: acquiring takes the oldest, releasing appends.
pub proof fn law_acquire_release<C>(v: PoolView<C>)
    requires
        v.available.len() > 0,
    ensures
        v.available.drop_first().push(v.available[0]).to_multiset() =~= v.available.to_multiset(),
        v.available.drop_first().push(v.available[0]).len() == v.available.len(),
        v.available.drop_first().push(v.available[0]).last() == v.available[0],
{
    broadcast use vstd::seq_lib::group_to_multiset_ensures;
    let s = v.available;
    assert(s.drop_first() =~= s.remove(0));
    assert(s.to_multiset().count(s[0]) > 0);
}

/// A pool opens a new connection exactly when it may expand, none is
/// available, and one more connection stays within its limit; a maximum of
/// 0 sets no limit, so an expanding pool without a maximum always opens one
/// when none is available.
pub proof fn law_expand_within_limit<C>(v: PoolView<C>)
    ensures
        spec_should_expand(v) <==> v.expand && v.available.len() == 0 && within_limit(
            PoolView { total: v.total + 1, ..v },
        ),
        v.max == 0 ==> within_limit(v),
        v.max > 0 ==> (within_limit(v) <==> v.total <= v.max),
        v.expand && v.available.len() == 0 && v.max == 0 ==> spec_should_expand(v),
{
}

/// The connections a pool holds and how many it manages.
pub struct PoolInner<C> {
    connections: VecDeque<C>,
    total_connections: usize,
    max_connections: usize,
    expand: bool,
}

/// A pool's bookkeeping as plain values.
#[verifier::ext_equal]
pub struct PoolView<C> {
    pub available: Seq<C>,
    pub total: nat,
    pub max: nat,
    pub expand: bool,
}

/// A pool never manages more connections than its maximum (0: unlimited).
pub open spec fn within_limit<C>(v: PoolView<C>) -> bool {
    v.max == 0 || v.total <= v.max
}

/// Whether a pool with this bookkeeping opens a new connection when asked for
/// one: it may expand, none is available, and the limit allows one more.
pub open spec fn spec_should_expand<C>(v: PoolView<C>) -> bool {
    v.expand && v.available.len() == 0 && (v.total < v.max || v.max == 0)
}

impl<C> View for PoolInner<C> {
    type V = PoolView<C>;

    closed spec fn view(&self) -> PoolView<C> {
        PoolView {
            available: self.connections@,
            total: self.total_connections as nat,
            max: self.max_connections as nat,
            expand: self.expand,
        }
    }
}

impl<C> PoolInner<C> {
    #[verifier::type_invariant]
    spec fn inv(&self) -> bool {
        self.max_connections == 0 || self.total_connections <= self.max_connections
    }

    /// Checks the sizes a pool is asked to start with.
    pub fn check_sizes(default_connections: usize, max_connections: usize) -> (r: Result<
        (),
        DbError,
    >)
        ensures
            (max_connections != 0 && default_connections > max_connections) ==> (r matches Err(e)
                && e.message@ == "default connections exceeded max connections"@),
            !(max_connections != 0 && default_connections > max_connections) ==> r is Ok,
    {
        if max_connections != 0 && default_connections > max_connections {
            return Err(DbError::new(owned("default connections exceeded max connections")));
        }
        Ok(())
    }

    /// A pool that starts with the given open connections.
    pub fn new(connections: VecDeque<C>, max_connections: usize, expand: bool) -> (r: Result<
        Self,
        DbError,
    >)
        ensures
            (max_connections != 0 && connections@.len() > max_connections) ==> (r matches Err(e)
                && e.message@ == "default connections exceeded max connections"@),
            !(max_connections != 0 && connections@.len() > max_connections) ==> (r matches Ok(p)
                && p@ == PoolView {
                available: connections@,
                total: connections@.len(),
                max: max_connections as nat,
                expand,
            }),
    {
        let n = connections.len();
        Self::check_sizes(n, max_connections)?;
        Ok(Self { connections, total_connections: n, max_connections, expand })
    }

    /// Whether the pool opens a new connection when asked for one.
    pub fn should_expand(&self) -> (r: bool)
        ensures
            r == spec_should_expand(self@),
    {
        self.expand && self.connections.len() == 0 && (self.total_connections
            < self.max_connections || self.max_connections == 0)
    }

    /// Takes a newly opened connection into the pool if the limit allows;
    /// otherwise it is handed back.
    pub fn take_new(&mut self, connection: C) -> (r: Option<C>)
        ensures
            within_limit(final(self)@),
            final(self)@.max == old(self)@.max,
            final(self)@.expand == old(self)@.expand,
            ((old(self)@.total < old(self)@.max || old(self)@.max == 0) && old(self)@.total
                < usize::MAX) ==> (r is None && final(self)@.available == old(
                self,
            )@.available.push(connection) && final(self)@.total == old(self)@.total + 1),
            !((old(self)@.total < old(self)@.max || old(self)@.max == 0) && old(self)@.total
                < usize::MAX) ==> (r == Some(connection) && final(self)@ == old(self)@),
    {
        proof {
            use_type_invariant(&*self);
        }
        if (self.total_connections < self.max_connections || self.max_connections == 0)
            && self.total_connections < usize::MAX {
            let mut connections = VecDeque::new();
            std::mem::swap(&mut connections, &mut self.connections);
            connections.push_back(connection);
            self.connections = connections;
            self.total_connections = self.total_connections + 1;
            None
        } else {
            Some(connection)
        }
    }

    /// Takes the oldest available connection.
    pub fn acquire(&mut self) -> (r: Result<C, DbError>)
        ensures
            within_limit(final(self)@),
            final(self)@.total == old(self)@.total,
            final(self)@.max == old(self)@.max,
            final(self)@.expand == old(self)@.expand,
            old(self)@.available.len() > 0 ==> (r == Ok::<C, DbError>(old(self)@.available[0])
                && final(self)@.available == old(self)@.available.drop_first()),
            old(self)@.available.len() == 0 ==> (r matches Err(e) && e.message@
                == "No available connection"@ && final(self)@ == old(self)@),
    {
        proof {
            use_type_invariant(&*self);
        }
        let mut connections = VecDeque::new();
        std::mem::swap(&mut connections, &mut self.connections);
        let first = connections.pop_front();
        self.connections = connections;
        match first {
            Some(c) => Ok(c),
            None => Err(DbError::new(owned("No available connection"))),
        }
    }

    /// Takes the oldest available connection, if any.
    pub fn try_acquire(&mut self) -> (r: Option<C>)
        ensures
            within_limit(final(self)@),
            final(self)@.total == old(self)@.total,
            final(self)@.max == old(self)@.max,
            final(self)@.expand == old(self)@.expand,
            old(self)@.available.len() > 0 ==> (r == Some(old(self)@.available[0])
                && final(self)@.available == old(self)@.available.drop_first()),
            old(self)@.available.len() == 0 ==> (r is None && final(self)@ == old(self)@),
    {
        proof {
            use_type_invariant(&*self);
        }
        let mut connections = VecDeque::new();
        std::mem::swap(&mut connections, &mut self.connections);
        let first = connections.pop_front();
        self.connections = connections;
        first
    }

    /// Returns a connection to the pool; it becomes the newest available one.
    pub fn release(&mut self, connection: C)
        ensures
            within_limit(final(self)@),
            final(self)@.available == old(self)@.available.push(connection),
            final(self)@.total == old(self)@.total,
            final(self)@.max == old(self)@.max,
            final(self)@.expand == old(self)@.expand,
    {
        proof {
            use_type_invariant(&*self);
        }
        let mut connections = VecDeque::new();
        std::mem::swap(&mut connections, &mut self.connections);
        connections.push_back(connection);
        self.connections = connections;
    }

    /// The number of available connections.
    pub fn available(&self) -> (r: usize)
        ensures
            r == self@.available.len(),
    {
        self.connections.len()
    }

    /// The number of connections the pool manages.
    pub fn total(&self) -> (r: usize)
        ensures
            r == self@.total,
            within_limit(self@),
    {
        proof {
            use_type_invariant(self);
        }
        self.total_connections
    }
}

} // verus!
