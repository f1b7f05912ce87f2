//! Connection handling around the manager's flows: a connection is
//! acquired per call and always closed, and a write batch runs in one
//! transaction, retried on CockroachDB serialization failures.
//!
//! Each policy is a step function over the replies so far, one per request
//! made, in order; the replies to `Rollback`, `Close` and `Sleep` are
//! ignored, as a failure there changes nothing.

use vstd::prelude::*;

use crate::connection::{Outcome, Step, StepView, outcome_step};
use crate::dialect::Dialect;
use crate::models::{ErrorView, HostStorageError, WriteAck, WriteBatch};

verus! {

/// What the connection policy asks of its host.
#[derive(Debug, Clone, Copy, PartialEq, Eq, Structural)]
pub enum ConnRequest {
    /// Check a connection out of the pool.
    Acquire,
    /// Begin a transaction.
    Begin,
    /// Run the flow (a read, the migrations, or the batch's operations) on
    /// the connection.
    Run,
    Commit,
    Rollback,
    /// Release the connection to the pool.
    Close,
    /// Wait this many milliseconds.
    Sleep(u64),
}

impl DeepView for ConnRequest {
    type V = ConnRequest;

    open spec fn deep_view(&self) -> ConnRequest {
        *self
    }
}

impl DeepView for WriteAck {
    type V = WriteAck;

    open spec fn deep_view(&self) -> WriteAck {
        *self
    }
}

pub type ConnReply = Result<(), HostStorageError>;

/// The request at position `k` is made only once all before it have
/// replies; `then_o` is what follows once it has one.
pub open spec fn after<T>(replies: Seq<ConnReply>, k: nat, req: ConnRequest, then_o: Outcome<ConnRequest, T>) -> Outcome<
    ConnRequest,
    T,
> {
    if k >= replies.len() {
        Outcome::Need(req)
    } else {
        then_o
    }
}

pub open spec fn error_of(r: ConnReply) -> ErrorView {
    match r {
        Err(e) => e.deep_view(),
        Ok(_) => ErrorView { code: seq![], message: seq![] },
    }
}

/// Acquire, run, close, and give the run's result; a failed acquire is
/// the result itself and leaves nothing to close.
pub open spec fn with_conn_spec(replies: Seq<ConnReply>) -> Outcome<ConnRequest, ()> {
    after(
        replies,
        0,
        ConnRequest::Acquire,
        if replies[0] is Err {
            Outcome::Fail(error_of(replies[0]))
        } else {
            after(
                replies,
                1,
                ConnRequest::Run,
                after(
                    replies,
                    2,
                    ConnRequest::Close,
                    if replies[1] is Err {
                        Outcome::Fail(error_of(replies[1]))
                    } else {
                        Outcome::Finish((), 3, 0)
                    },
                ),
            )
        },
    )
}

/// One step of running a flow on a fresh connection that is closed
/// whatever the flow's outcome.
pub fn with_conn(replies: &Vec<ConnReply>) -> (r: Step<ConnRequest, ()>)
    ensures
        r.deep_view() == outcome_step(with_conn_spec(replies@)),
{
    if replies.len() == 0 {
        return Step::Run(ConnRequest::Acquire);
    }
    if let Err(e) = &replies[0] {
        return Step::Done(Err(e.duplicate()));
    }
    if replies.len() == 1 {
        return Step::Run(ConnRequest::Run);
    }
    if replies.len() == 2 {
        return Step::Run(ConnRequest::Close);
    }
    match &replies[1] {
        Err(e) => Step::Done(Err(e.duplicate())),
        Ok(_) => Step::Done(Ok(())),
    }
}

/// Retries after the first failed attempt, at most.
pub const MAX_RETRIES: u64 = 5;

/// SQLSTATE of a serialization failure.
pub const SERIALIZATION_FAILURE: &'static str = "40001";

/// Only a CockroachDB serialization failure is worth retrying.
pub open spec fn retryable(dialect: Dialect, e: ErrorView) -> bool {
    e.code == SERIALIZATION_FAILURE@ && dialect is Cockroachdb
}

/// 50 ms doubled `attempt` times.
pub open spec fn doubled_delay(attempt: nat) -> int
    decreases attempt,
{
    if attempt == 0 {
        50
    } else {
        2 * doubled_delay((attempt - 1) as nat)
    }
}

/// The wait before retrying after failed attempt `attempt` (from 0):
/// 50 ms doubled per attempt, capped at 1000 ms.
pub open spec fn backoff_ms(attempt: nat) -> u64 {
    if doubled_delay(attempt) < 1000 {
        doubled_delay(attempt) as u64
    } else {
        1000
    }
}

/// Attempt `attempt` of a write batch of `n` operations, its first request
/// at position `k`: acquire, begin, run the operations, then commit and
/// close on success; on a failed begin or commit, close and fail; on a
/// failed run, roll back and close, then wait and try again if the failure
/// is retryable and retries are left, else fail.
pub open spec fn attempt_spec(dialect: Dialect, n: usize, replies: Seq<ConnReply>, attempt: nat, k: nat) -> Outcome<
    ConnRequest,
    WriteAck,
>
    decreases MAX_RETRIES - attempt,
{
    after(
        replies,
        k,
        ConnRequest::Acquire,
        if replies[k as int] is Err {
            Outcome::Fail(error_of(replies[k as int]))
        } else {
            after(
                replies,
                k + 1,
                ConnRequest::Begin,
                if replies[(k + 1) as int] is Err {
                    after(replies, k + 2, ConnRequest::Close, Outcome::Fail(error_of(replies[(k + 1) as int])))
                } else {
                    after(
                        replies,
                        k + 2,
                        ConnRequest::Run,
                        if replies[(k + 2) as int] is Ok {
                            after(
                                replies,
                                k + 3,
                                ConnRequest::Commit,
                                after(
                                    replies,
                                    k + 4,
                                    ConnRequest::Close,
                                    if replies[(k + 3) as int] is Err {
                                        Outcome::Fail(error_of(replies[(k + 3) as int]))
                                    } else {
                                        Outcome::Finish(WriteAck { written_ops: n }, k + 5, 0)
                                    },
                                ),
                            )
                        } else {
                            after(
                                replies,
                                k + 3,
                                ConnRequest::Rollback,
                                after(
                                    replies,
                                    k + 4,
                                    ConnRequest::Close,
                                    if retryable(dialect, error_of(replies[(k + 2) as int])) && attempt < MAX_RETRIES {
                                        after(
                                            replies,
                                            k + 5,
                                            ConnRequest::Sleep(backoff_ms(attempt)),
                                            attempt_spec(dialect, n, replies, attempt + 1, k + 6),
                                        )
                                    } else {
                                        Outcome::Fail(error_of(replies[(k + 2) as int]))
                                    },
                                ),
                            )
                        },
                    )
                },
            )
        },
    )
}

/// An empty batch is acknowledged at once, without a connection; any other
/// runs in a transaction, retried as [`attempt_spec`] says.
pub open spec fn write_batch_spec(dialect: Dialect, n: usize, replies: Seq<ConnReply>) -> Outcome<ConnRequest, WriteAck> {
    if n == 0 {
        Outcome::Finish(WriteAck { written_ops: 0 }, 0, 0)
    } else {
        attempt_spec(dialect, n, replies, 0, 0)
    }
}

fn backoff(attempt: u64) -> (r: u64)
    requires
        attempt < MAX_RETRIES,
    ensures
        r == backoff_ms(attempt as nat),
{
    let mut delay: u64 = 50;
    let mut k: u64 = 0;
    while k < attempt
        invariant
            k <= attempt < MAX_RETRIES,
            delay == doubled_delay(k as nat),
            delay <= 800,
        decreases attempt - k,
    {
        assert(doubled_delay((k + 1) as nat) == 2 * doubled_delay(k as nat));
        proof {
            if k >= 1 {
                assert(doubled_delay(k as nat) <= 400) by {
                    lemma_doubled_delay_bound(k as nat);
                }
            }
        }
        delay = delay * 2;
        k = k + 1;
    }
    if delay < 1000 {
        delay
    } else {
        1000
    }
}

proof fn lemma_doubled_delay_bound(k: nat)
    requires
        k <= 3,
    ensures
        doubled_delay(k) <= 50 * 8,
        k <= 2 ==> doubled_delay(k) <= 50 * 4,
        k <= 1 ==> doubled_delay(k) <= 50 * 2,
        k == 0 ==> doubled_delay(k) == 50,
    decreases k,
{
    if k > 0 {
        lemma_doubled_delay_bound((k - 1) as nat);
    }
}

/// One step of writing a batch: the batch's operations run in a single
/// transaction on a fresh connection; a CockroachDB serialization failure
/// (`40001`) rolls it back and retries it on a new connection after a
/// growing wait, up to five times.
pub fn write_batch(batch: &WriteBatch, dialect: Dialect, replies: &Vec<ConnReply>) -> (r: Step<ConnRequest, WriteAck>)
    ensures
        r.deep_view() == outcome_step(write_batch_spec(dialect, batch.ops@.len() as usize, replies@)),
{
    let n = batch.ops.len();
    if n == 0 {
        return Step::Done(Ok(WriteAck { written_ops: 0 }));
    }
    let mut attempt: u64 = 0;
    let mut k: usize = 0;
    loop
        invariant
            n == batch.ops@.len(),
            n > 0,
            attempt <= MAX_RETRIES,
            k <= replies@.len(),
            write_batch_spec(dialect, n, replies@) == attempt_spec(dialect, n, replies@, attempt as nat, k as nat),
        decreases MAX_RETRIES - attempt,
    {
        if k >= replies.len() {
            return Step::Run(ConnRequest::Acquire);
        }
        if let Err(e) = &replies[k] {
            return Step::Done(Err(e.duplicate()));
        }
        if k + 1 >= replies.len() {
            return Step::Run(ConnRequest::Begin);
        }
        if let Err(e) = &replies[k + 1] {
            if k + 2 >= replies.len() {
                return Step::Run(ConnRequest::Close);
            }
            return Step::Done(Err(e.duplicate()));
        }
        if k + 2 >= replies.len() {
            return Step::Run(ConnRequest::Run);
        }
        match &replies[k + 2] {
            Ok(_) => {
                if k + 3 >= replies.len() {
                    return Step::Run(ConnRequest::Commit);
                }
                if k + 4 >= replies.len() {
                    return Step::Run(ConnRequest::Close);
                }
                return match &replies[k + 3] {
                    Err(e) => Step::Done(Err(e.duplicate())),
                    Ok(_) => Step::Done(Ok(WriteAck { written_ops: n })),
                };
            },
            Err(e) => {
                if k + 3 >= replies.len() {
                    return Step::Run(ConnRequest::Rollback);
                }
                if k + 4 >= replies.len() {
                    return Step::Run(ConnRequest::Close);
                }
                let retry = e.code == String::from_str(SERIALIZATION_FAILURE) && dialect.is_cockroachdb()
                    && attempt < MAX_RETRIES;
                if !retry {
                    return Step::Done(Err(e.duplicate()));
                }
                if k + 5 >= replies.len() {
                    return Step::Run(ConnRequest::Sleep(backoff(attempt)));
                }
                k = k + 6;
                attempt = attempt + 1;
            },
        }
    }
}

} // verus!
