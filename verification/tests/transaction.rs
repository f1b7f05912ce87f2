use memori_storage::connection::Step;
use memori_storage::dialect::Dialect;
use memori_storage::json::JsonValue;
use memori_storage::models::{HostStorageError, WriteAck, WriteBatch, WriteOp};
use memori_storage::transaction::{with_conn, write_batch, ConnRequest};

fn batch(n: usize) -> WriteBatch {
    WriteBatch {
        ops: (0..n)
            .map(|_| WriteOp { op_type: "upsert_fact".to_string(), payload: JsonValue::Null })
            .collect(),
    }
}

fn err(code: &str) -> HostStorageError {
    HostStorageError::new(code.to_string(), "failed".to_string())
}

/// Runs the write policy; `host` answers each request.
fn run(
    b: &WriteBatch,
    dialect: Dialect,
    mut host: impl FnMut(usize, ConnRequest) -> Result<(), HostStorageError>,
) -> (Result<WriteAck, HostStorageError>, Vec<ConnRequest>) {
    let mut replies = vec![];
    let mut requests = vec![];
    for _ in 0..100 {
        match write_batch(b, dialect, &replies) {
            Step::Run(req) => {
                replies.push(host(requests.len(), req));
                requests.push(req);
            }
            Step::Done(r) => return (r, requests),
        }
    }
    panic!("write did not finish");
}

use ConnRequest::{Acquire, Begin, Close, Commit, Rollback, Run, Sleep};

#[test]
fn empty_batch_needs_no_connection() {
    let (r, requests) = run(&batch(0), Dialect::Mysql, |_, _| panic!("no request expected"));
    assert_eq!(r.unwrap(), WriteAck { written_ops: 0 });
    assert!(requests.is_empty());
}

#[test]
fn batch_commits_in_one_transaction() {
    let (r, requests) = run(&batch(3), Dialect::Mysql, |_, _| Ok(()));
    assert_eq!(r.unwrap(), WriteAck { written_ops: 3 });
    assert_eq!(requests, vec![Acquire, Begin, Run, Commit, Close]);
}

#[test]
fn failed_acquire_is_the_result() {
    let (r, requests) = run(&batch(1), Dialect::Mysql, |_, _| Err(err("POOL")));
    assert_eq!(r.unwrap_err().code, "POOL");
    assert_eq!(requests, vec![Acquire]);
}

#[test]
fn failed_begin_closes_the_connection() {
    let (r, requests) = run(&batch(1), Dialect::Postgresql, |n, _| if n == 1 { Err(err("BEGIN")) } else { Ok(()) });
    assert_eq!(r.unwrap_err().code, "BEGIN");
    assert_eq!(requests, vec![Acquire, Begin, Close]);
}

#[test]
fn failed_commit_closes_the_connection() {
    let (r, requests) = run(&batch(1), Dialect::Cockroachdb, |n, _| if n == 3 { Err(err("40001")) } else { Ok(()) });
    assert_eq!(r.unwrap_err().code, "40001");
    assert_eq!(requests, vec![Acquire, Begin, Run, Commit, Close]);
}

#[test]
fn failed_run_rolls_back_without_retry_outside_cockroachdb() {
    let (r, requests) = run(&batch(1), Dialect::Postgresql, |n, _| if n == 2 { Err(err("40001")) } else { Ok(()) });
    assert_eq!(r.unwrap_err().code, "40001");
    assert_eq!(requests, vec![Acquire, Begin, Run, Rollback, Close]);
}

#[test]
fn other_failures_are_not_retried_on_cockroachdb() {
    let (r, requests) = run(&batch(1), Dialect::Cockroachdb, |n, _| if n == 2 { Err(err("23505")) } else { Ok(()) });
    assert_eq!(r.unwrap_err().code, "23505");
    assert_eq!(requests, vec![Acquire, Begin, Run, Rollback, Close]);
}

#[test]
fn rollback_and_close_failures_are_ignored() {
    let (r, requests) = run(&batch(1), Dialect::Mysql, |_, req| match req {
        Run | Rollback | Close => Err(err("X")),
        _ => Ok(()),
    });
    assert_eq!(r.unwrap_err().code, "X");
    assert_eq!(requests, vec![Acquire, Begin, Run, Rollback, Close]);
}

#[test]
fn serialization_failures_are_retried_with_backoff() {
    let mut runs = 0;
    let (r, requests) = run(&batch(2), Dialect::Cockroachdb, |_, req| {
        if req == Run {
            runs += 1;
            if runs <= 2 {
                return Err(err("40001"));
            }
        }
        Ok(())
    });
    assert_eq!(r.unwrap(), WriteAck { written_ops: 2 });
    assert_eq!(
        requests,
        vec![
            Acquire, Begin, Run, Rollback, Close, Sleep(50),
            Acquire, Begin, Run, Rollback, Close, Sleep(100),
            Acquire, Begin, Run, Commit, Close,
        ]
    );
}

#[test]
fn retries_stop_after_five() {
    let (r, requests) = run(&batch(1), Dialect::Cockroachdb, |_, req| if req == Run { Err(err("40001")) } else { Ok(()) });
    assert_eq!(r.unwrap_err().code, "40001");
    let sleeps: Vec<ConnRequest> = requests.iter().copied().filter(|r| matches!(r, Sleep(_))).collect();
    assert_eq!(sleeps, vec![Sleep(50), Sleep(100), Sleep(200), Sleep(400), Sleep(800)]);
    assert_eq!(requests.iter().filter(|r| **r == Acquire).count(), 6);
    assert_eq!(requests.len(), 35);
    assert_eq!(*requests.last().unwrap(), Close);
}

#[test]
fn with_conn_always_closes() {
    let run_with = |answers: Vec<Result<(), HostStorageError>>| {
        let mut replies = vec![];
        let mut requests = vec![];
        let mut answers = answers.into_iter();
        loop {
            match with_conn(&replies) {
                Step::Run(req) => {
                    requests.push(req);
                    replies.push(answers.next().unwrap());
                }
                Step::Done(r) => return (r, requests),
            }
        }
    };
    let (r, requests) = run_with(vec![Ok(()), Ok(()), Ok(())]);
    assert!(r.is_ok());
    assert_eq!(requests, vec![Acquire, Run, Close]);
    let (r, requests) = run_with(vec![Ok(()), Err(err("READ")), Err(err("CLOSE"))]);
    assert_eq!(r.unwrap_err().code, "READ");
    assert_eq!(requests, vec![Acquire, Run, Close]);
    let (r, requests) = run_with(vec![Err(err("POOL"))]);
    assert_eq!(r.unwrap_err().code, "POOL");
    assert_eq!(requests, vec![Acquire]);
}

#[test]
fn one_connection_at_a_time_each_closed_once() {
    // A host that fails in many places: every request is answered by a
    // pattern over its position, so retries, failed begins and failed
    // commits all occur across the cases.
    for seed in 0..64u32 {
        let mut held = false;
        let (_, _) = run(&batch(2), Dialect::Cockroachdb, |i, req| {
            let fail = (seed >> (i % 6)) & 1 == 1;
            let reply = match req {
                Run if fail => Err(err("40001")),
                Acquire | Begin | Commit if fail && i % 5 == 0 => Err(err("X")),
                _ => Ok(()),
            };
            match req {
                Acquire => {
                    assert!(!held, "acquire while holding a connection");
                    held = reply.is_ok();
                }
                Begin | Run | Commit | Rollback => assert!(held, "{req:?} without a connection"),
                Close => {
                    assert!(held, "close without a connection");
                    held = false;
                }
                Sleep(_) => {}
            }
            reply
        });
        assert!(!held, "a connection was left open");
    }
}
