use rust_sql::session::{CommitAction, UnitOfWork};
use rust_sql::{DbError, Query};

fn kind(a: &CommitAction) -> String {
    match a {
        CommitAction::StartTransaction => "start".to_string(),
        CommitAction::Exec(i) => format!("exec {i}"),
        CommitAction::CommitTransaction => "commit".to_string(),
        CommitAction::Done => "done".to_string(),
        CommitAction::Failed(e) => format!("failed {}", e.message),
    }
}

#[test]
fn empty_unit_commits_without_work() {
    let mut work = UnitOfWork::new();
    let (_, action) = work.begin_commit();
    assert_eq!(kind(&action), "done");
    work.finish_commit(&Ok(()));
    assert_eq!(work.len(), 0);
}

#[test]
fn commit_runs_statements_in_one_transaction() {
    let mut work = UnitOfWork::new();
    work.add(Query::new("INSERT 1"));
    work.add(Query::new("INSERT 2"));
    assert_eq!(work.len(), 2);
    assert_eq!(work.statement(1).unwrap().sql(), "INSERT 2");
    assert!(work.statement(2).is_none());
    let (mut run, mut action) = work.begin_commit();
    let mut seen = vec![kind(&action)];
    while !matches!(action, CommitAction::Done | CommitAction::Failed(_)) {
        action = work.commit_step(&mut run, Ok(()));
        seen.push(kind(&action));
    }
    assert_eq!(seen, vec!["start", "exec 0", "exec 1", "commit", "done"]);
    work.finish_commit(&Ok(()));
    assert_eq!(work.len(), 0);
}

#[test]
fn commit_stops_at_first_error_and_keeps_statements() {
    let mut work = UnitOfWork::new();
    work.add(Query::new("INSERT 1"));
    work.add(Query::new("INSERT 2"));
    let (mut run, _) = work.begin_commit();
    let a = work.commit_step(&mut run, Ok(()));
    assert_eq!(kind(&a), "exec 0");
    let a = work.commit_step(&mut run, Err(DbError::new("duplicate key".to_string())));
    assert_eq!(kind(&a), "failed duplicate key");
    let a = work.commit_step(&mut run, Ok(()));
    assert_eq!(kind(&a), "done");
    let outcome: Result<(), DbError> = Err(DbError::new("duplicate key".to_string()));
    work.finish_commit(&outcome);
    assert_eq!(work.len(), 2);
}
