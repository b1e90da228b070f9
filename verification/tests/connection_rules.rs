use std::collections::VecDeque;

use rust_sql::connection::{ConnectionState, PoolInner, TransactionOp};
use rust_sql::{DatabaseConfig, DatabaseKind, DbError};

#[test]
fn config_keeps_its_fields() {
    let c = DatabaseConfig::new(
        DatabaseKind::Postgres,
        "127.0.0.1".to_string(),
        5432,
        "postgres".to_string(),
        "password".to_string(),
        "example".to_string(),
    );
    assert!(c.validate().is_ok());
    assert_eq!(c.kind(), DatabaseKind::Postgres);
    assert_eq!(c.host(), "127.0.0.1");
    assert_eq!(c.port(), 5432);
    assert_eq!(c.username(), "postgres");
    assert_eq!(c.password(), "password");
    assert_eq!(c.db_name(), "example");
}

#[test]
fn config_with_empty_host_is_refused() {
    let c = DatabaseConfig::new(
        DatabaseKind::MySql,
        String::new(),
        3306,
        "root".to_string(),
        "pw".to_string(),
        "db".to_string(),
    );
    assert_eq!(c.validate().unwrap_err().message, "Host is empty");
}

#[test]
fn db_error_keeps_message() {
    let e = DbError::new("boom".to_string());
    assert_eq!(e.message, "boom");
}

#[test]
fn transaction_statements() {
    assert_eq!(TransactionOp::Start.statement(), "BEGIN");
    assert_eq!(TransactionOp::Commit.statement(), "COMMIT");
    assert_eq!(TransactionOp::Rollback.statement(), "ROLLBACK");
}

fn refusal(s: ConnectionState, op: TransactionOp) -> String {
    s.allows(op).unwrap_err().message
}

#[test]
fn transaction_lifecycle_on_states() {
    assert!(ConnectionState::Ready.allows(TransactionOp::Start).is_ok());
    assert_eq!(
        refusal(ConnectionState::Ready, TransactionOp::Commit),
        "Connection is not in a transaction"
    );
    assert_eq!(
        refusal(ConnectionState::Ready, TransactionOp::Rollback),
        "Connection is not in a transaction"
    );
    assert_eq!(
        refusal(ConnectionState::InTransaction, TransactionOp::Start),
        "Connection is already in a transaction"
    );
    assert!(ConnectionState::InTransaction.allows(TransactionOp::Commit).is_ok());
    assert!(ConnectionState::InTransaction.allows(TransactionOp::Rollback).is_ok());
    assert_eq!(refusal(ConnectionState::Busy, TransactionOp::Start), "Connection is busy");
    assert_eq!(refusal(ConnectionState::Error, TransactionOp::Commit), "Connection error");
    let s = ConnectionState::after(TransactionOp::Start);
    assert_eq!(s, ConnectionState::InTransaction);
    assert!(s.allows(TransactionOp::Start).is_err());
    assert_eq!(ConnectionState::after(TransactionOp::Commit), ConnectionState::Ready);
    assert_eq!(ConnectionState::after(TransactionOp::Rollback), ConnectionState::Ready);
}

#[test]
fn exec_keeps_connection_state() {
    let in_tx = ConnectionState::InTransaction.begin_exec().unwrap();
    assert!(in_tx);
    assert_eq!(ConnectionState::after_exec(in_tx), ConnectionState::InTransaction);
    let ready = ConnectionState::Ready.begin_exec().unwrap();
    assert!(!ready);
    assert_eq!(ConnectionState::after_exec(ready), ConnectionState::Ready);
    assert_eq!(ConnectionState::Busy.begin_exec().unwrap_err().message, "Connection is busy");
    assert_eq!(ConnectionState::Error.begin_exec().unwrap_err().message, "Connection error");
    assert!(ConnectionState::InTransaction.needs_rollback());
    assert!(!ConnectionState::Ready.needs_rollback());
}

#[test]
fn pool_refuses_more_defaults_than_maximum() {
    let e = PoolInner::<u32>::check_sizes(6, 5).unwrap_err();
    assert_eq!(e.message, "default connections exceeded max connections");
    assert!(PoolInner::<u32>::check_sizes(6, 0).is_ok());
    assert!(PoolInner::<u32>::check_sizes(5, 5).is_ok());
    let conns: VecDeque<u32> = (0..3).collect();
    assert!(PoolInner::new(conns, 2, true).is_err());
}

#[test]
fn pool_acquire_and_release() {
    let conns: VecDeque<u32> = vec![10, 20].into_iter().collect();
    let mut pool = PoolInner::new(conns, 5, true).unwrap();
    assert_eq!(pool.available(), 2);
    assert_eq!(pool.total(), 2);
    assert!(!pool.should_expand());
    let a = pool.acquire().unwrap();
    assert_eq!(a, 10);
    let b = pool.try_acquire().unwrap();
    assert_eq!(b, 20);
    assert_eq!(pool.available(), 0);
    assert!(pool.try_acquire().is_none());
    assert_eq!(pool.acquire().unwrap_err().message, "No available connection");
    assert!(pool.should_expand());
    pool.release(a);
    assert_eq!(pool.available(), 1);
    assert_eq!(pool.total(), 2);
    assert_eq!(pool.acquire().unwrap(), 10);
}

#[test]
fn pool_acquire_release_restores_available() {
    let conns: VecDeque<u32> = vec![1, 2, 3].into_iter().collect();
    let mut pool = PoolInner::new(conns, 0, false).unwrap();
    let c = pool.acquire().unwrap();
    pool.release(c);
    assert_eq!(pool.available(), 3);
    assert_eq!(pool.total(), 3);
    let order: Vec<u32> = (0..3).map(|_| pool.acquire().unwrap()).collect();
    assert_eq!(order, vec![2, 3, 1]);
}

#[test]
fn pool_expands_up_to_its_maximum() {
    let mut pool = PoolInner::new(VecDeque::new(), 1, true).unwrap();
    assert!(pool.should_expand());
    assert!(pool.take_new(7u32).is_none());
    assert_eq!(pool.total(), 1);
    assert_eq!(pool.acquire().unwrap(), 7);
    assert!(!pool.should_expand());
    assert_eq!(pool.take_new(8), Some(8));
    assert_eq!(pool.total(), 1);
}

#[test]
fn pool_without_expansion_never_expands() {
    let pool = PoolInner::<u32>::new(VecDeque::new(), 0, false).unwrap();
    assert!(!pool.should_expand());
}
