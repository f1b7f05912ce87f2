//! Properties that hold across calls and over every run of the step
//! functions.

use vstd::prelude::*;

use crate::connection::{Outcome, StepView, outcome_step};
use crate::dialect::Dialect;
use crate::drivers::mysql::{
    attributes_from_spec, entity_create_spec, entity_fact_create_without_embedding_spec, entity_get_id_spec,
    knowledge_graph_create_spec, placeholders, process_attribute_create_spec, triple_item_spec, triple_parts,
    PLACEHOLDER, PLACEHOLDER_SEPARATOR, SQL_FACT_UPSERT, SQL_PROCESS_ATTRIBUTE_UPSERT, SQL_SUBJECT_INSERT,
};
use crate::connection::{BindView, DbRequestView, base64_standard};
use crate::drivers::stmt;
use crate::drivers::{DriverCallView, RowsReply, hex_digit, hex_text, uniq_key};
use crate::json::{JsonValue, json_array_field, json_str_field};
use crate::manager::{
    CallReply, ManagerRequestView, fact_create_call_spec, fact_create_op_spec, fact_create_rest_spec,
    upsert_fact_op_spec,
};
use crate::transaction::{
    ConnReply, ConnRequest, MAX_RETRIES, SERIALIZATION_FAILURE, attempt_spec, backoff_ms, error_of, retryable,
    with_conn_spec, write_batch_spec,
};
use crate::models::WriteAck;

verus! {

proof fn lemma_attempt_ack(dialect: Dialect, n: usize, replies: Seq<ConnReply>, attempt: nat, k: nat)
    ensures
        attempt_spec(dialect, n, replies, attempt, k) matches Outcome::Finish(ack, _, _) ==> ack.written_ops == n,
    decreases MAX_RETRIES - attempt,
{
    if attempt < MAX_RETRIES {
        lemma_attempt_ack(dialect, n, replies, attempt + 1, k + 6);
    }
}

/// A committed batch is acknowledged with the number of its operations.
pub proof fn write_batch_acknowledges_every_op(dialect: Dialect, n: usize, replies: Seq<ConnReply>)
    ensures
        write_batch_spec(dialect, n, replies) matches Outcome::Finish(ack, _, _) ==> ack.written_ops == n,
{
    if n != 0 {
        lemma_attempt_ack(dialect, n, replies, 0, 0);
    }
}

/// Outside CockroachDB a batch gets one attempt: once five requests
/// (acquire, begin, run, and commit or rollback, close) have replies, the
/// batch has its result.
pub proof fn write_batch_single_attempt_outside_cockroachdb(dialect: Dialect, n: usize, replies: Seq<ConnReply>)
    requires
        !(dialect is Cockroachdb),
        replies.len() >= 5,
    ensures
        !(write_batch_spec(dialect, n, replies) is Need),
{
}

proof fn lemma_attempts_bounded(dialect: Dialect, n: usize, replies: Seq<ConnReply>, attempt: nat, k: nat)
    requires
        attempt <= MAX_RETRIES,
        replies.len() >= k + 6 * (MAX_RETRIES - attempt) + 5,
    ensures
        !(attempt_spec(dialect, n, replies, attempt, k) is Need),
    decreases MAX_RETRIES - attempt,
{
    if attempt < MAX_RETRIES {
        lemma_attempts_bounded(dialect, n, replies, attempt + 1, k + 6);
    }
}

/// A batch makes at most six attempts: thirty-five requests are enough for
/// any batch to end.
pub proof fn write_batch_attempts_bounded(dialect: Dialect, n: usize, replies: Seq<ConnReply>)
    requires
        replies.len() >= 6 * MAX_RETRIES + 5,
    ensures
        !(write_batch_spec(dialect, n, replies) is Need),
{
    if n != 0 {
        lemma_attempts_bounded(dialect, n, replies, 0, 0);
    }
}

/// A connection that was acquired is closed before the result is given:
/// the request after the run is `Close`.
pub proof fn with_conn_closes_what_it_acquires(replies: Seq<ConnReply>)
    requires
        replies.len() > 0,
        replies[0] is Ok,
        !(with_conn_spec(replies) is Need),
    ensures
        replies.len() >= 3,
        with_conn_spec(replies.take(2)) == Outcome::<ConnRequest, ()>::Need(ConnRequest::Close),
{
    assert(replies.take(2)[0] == replies[0]);
}

/// A transaction whose operations failed is rolled back, then its
/// connection is closed.
pub proof fn write_batch_rolls_back_failed_run(dialect: Dialect, n: usize, replies: Seq<ConnReply>)
    requires
        n > 0,
        replies.len() == 3,
        replies[0] is Ok,
        replies[1] is Ok,
        replies[2] is Err,
    ensures
        write_batch_spec(dialect, n, replies) == Outcome::<ConnRequest, crate::models::WriteAck>::Need(
            ConnRequest::Rollback,
        ),
        write_batch_spec(dialect, n, replies.push(Ok(()))) == Outcome::<ConnRequest, crate::models::WriteAck>::Need(
            ConnRequest::Close,
        ),
{
    let r4 = replies.push(Ok(()));
    assert(r4[0] == replies[0] && r4[1] == replies[1] && r4[2] == replies[2]);
}

/// A CockroachDB serialization failure rolls the transaction back, closes
/// its connection, waits 50 ms and starts over on a fresh connection.
pub proof fn write_batch_retries_serialization_failure_on_fresh_connection(
    n: usize,
    replies: Seq<ConnReply>,
)
    requires
        n > 0,
        replies.len() == 5,
        replies[0] is Ok,
        replies[1] is Ok,
        replies[2] matches Err(e) && e.code@ == SERIALIZATION_FAILURE@,
    ensures
        write_batch_spec(Dialect::Cockroachdb, n, replies.take(3)) == Outcome::<ConnRequest, WriteAck>::Need(
            ConnRequest::Rollback,
        ),
        write_batch_spec(Dialect::Cockroachdb, n, replies.take(4)) == Outcome::<ConnRequest, WriteAck>::Need(
            ConnRequest::Close,
        ),
        write_batch_spec(Dialect::Cockroachdb, n, replies) == Outcome::<ConnRequest, WriteAck>::Need(
            ConnRequest::Sleep(50),
        ),
        write_batch_spec(Dialect::Cockroachdb, n, replies.push(Ok(()))) == Outcome::<ConnRequest, WriteAck>::Need(
            ConnRequest::Acquire,
        ),
{
    let r6 = replies.push(Ok(()));
    assert(r6[0] == replies[0] && r6[1] == replies[1] && r6[2] == replies[2]);
    assert(replies.take(3)[2] == replies[2]);
    assert(replies.take(4)[2] == replies[2]);
    assert(backoff_ms(0) == 50);
    reveal_with_fuel(attempt_spec, 2);
}

/// Creating an entity is an insert that ignores duplicates, followed by
/// exactly the lookup that reading the entity's id does.
pub proof fn entity_create_reads_id_like_entity_get_id(
    external_id: Seq<char>,
    rows: Seq<RowsReply>,
    uuid: Seq<char>,
)
    requires
        rows.len() > 0,
        rows[0] is Ok,
    ensures
        outcome_step(entity_create_spec(external_id, rows, uuid)) == outcome_step(
            entity_get_id_spec(external_id, rows.drop_first()),
        ),
{
    if rows.len() > 1 {
        assert(rows.drop_first()[0] == rows[1]);
    }
}

/// There is one placeholder per id: `n` marks and `n - 1` separators.
pub proof fn placeholders_count(n: nat)
    requires
        n >= 1,
    ensures
        placeholders(n).len() == 2 * n - 1,
    decreases n,
{
    reveal_strlit("?");
    reveal_strlit(",");
    if n > 1 {
        placeholders_count((n - 1) as nat);
    }
}

proof fn lemma_rest_never_embeds(
    payload: JsonValue,
    entity_id: i64,
    facts: Seq<Seq<char>>,
    embeddings: Seq<Seq<u32>>,
    calls: Seq<CallReply>,
    i: nat,
    j: nat,
)
    ensures
        !(fact_create_rest_spec(payload, entity_id, facts, embeddings, calls, i, j) matches Outcome::Need(
            ManagerRequestView::Embed(_),
        )),
{
}

/// Facts that come with their embeddings are stored without asking the
/// embedder.
pub proof fn caller_embeddings_skip_the_embedder(
    payload: JsonValue,
    calls: Seq<CallReply>,
    embeddings: Seq<Vec<Vec<u32>>>,
    i: nat,
    j: nat,
)
    requires
        json_array_field(payload, "fact_embeddings"@) is Some,
    ensures
        !(fact_create_op_spec(payload, calls, embeddings, i, j) matches Outcome::Need(ManagerRequestView::Embed(_))),
{
    if i < calls.len() && calls[i as int] is Ok {
        let e = calls[i as int]->Ok_0.deep_view();
        let raw = json_array_field(payload, "fact_embeddings"@)->0;
        lemma_rest_never_embeds(
            payload,
            crate::manager::id_or_zero(e),
            crate::manager::facts_of(payload),
            crate::manager::embeddings_of(raw),
            calls,
            i + 1,
            j,
        );
    }
}

/// An `upsert_fact` with string content always asks the embedder for the
/// content's embedding once the entity exists.
pub proof fn upsert_fact_always_embeds(
    payload: JsonValue,
    calls: Seq<CallReply>,
    embeddings: Seq<Vec<Vec<u32>>>,
    i: nat,
    j: nat,
)
    requires
        json_str_field(payload, "content"@) is Some,
        i < calls.len(),
        calls[i as int] is Ok,
        j >= embeddings.len(),
    ensures
        upsert_fact_op_spec(payload, calls, embeddings, i, j) == Outcome::<ManagerRequestView, ()>::Need(
            ManagerRequestView::Embed(seq![json_str_field(payload, "content"@)->0]),
        ),
{
}

proof fn lemma_hex_text_len(h: u64, n: nat)
    ensures
        hex_text(h, n).len() == n,
    decreases n,
{
    reveal_strlit("0");
    reveal_strlit("1");
    reveal_strlit("2");
    reveal_strlit("3");
    reveal_strlit("4");
    reveal_strlit("5");
    reveal_strlit("6");
    reveal_strlit("7");
    reveal_strlit("8");
    reveal_strlit("9");
    reveal_strlit("a");
    reveal_strlit("b");
    reveal_strlit("c");
    reveal_strlit("d");
    reveal_strlit("e");
    reveal_strlit("f");
    assert(hex_digit(h % 16).len() == 1);
    if n > 0 {
        lemma_hex_text_len(h / 16, (n - 1) as nat);
    }
}

/// Every uniqueness key is 16 characters long.
pub proof fn uniq_keys_have_sixteen_digits(terms: Seq<Seq<char>>)
    ensures
        uniq_key(terms).len() == 16,
{
    lemma_hex_text_len(crate::drivers::terms_hash(terms), 16);
}

/// A fact stored without an embedding is upserted under the uniqueness key
/// of its content.
pub proof fn fact_without_embedding_is_keyed_by_its_content(entity_id: i64, content: Seq<char>, uuid: Seq<char>)
    ensures
        entity_fact_create_without_embedding_spec(entity_id, content, seq![], uuid) == Outcome::<
            DbRequestView,
            (),
        >::Need(
            DbRequestView::Execute(
                stmt(
                    SQL_FACT_UPSERT@,
                    seq![
                        BindView::Text(uuid),
                        BindView::Int(entity_id),
                        BindView::Text(content),
                        BindView::Bytes(base64_standard(seq![])),
                        BindView::Text(uniq_key(seq![content])),
                    ],
                ),
            ),
        ),
{
}

/// A process attribute is upserted under the uniqueness key of its text.
pub proof fn attributes_are_keyed_by_their_text(process_id: i64, attributes: Seq<Seq<char>>, uuid: Seq<char>)
    requires
        attributes.len() > 0,
    ensures
        process_attribute_create_spec(process_id, attributes, seq![], uuid) == Outcome::<DbRequestView, ()>::Need(
            DbRequestView::Execute(
                stmt(
                    SQL_PROCESS_ATTRIBUTE_UPSERT@,
                    seq![
                        BindView::Text(uuid),
                        BindView::Int(process_id),
                        BindView::Text(attributes[0]),
                        BindView::Text(uniq_key(seq![attributes[0]])),
                    ],
                ),
            ),
        ),
{
    reveal_with_fuel(attributes_from_spec, 2);
}

/// The subject of a semantic triple is upserted under the uniqueness key
/// of its name and type.
pub proof fn triple_subjects_are_keyed_by_name_and_type(entity_id: i64, triples: Seq<JsonValue>, uuid: Seq<char>)
    requires
        triples.len() > 0,
    ensures
        ({
            let (name, kind) = triple_parts(triples[0]).0;
            knowledge_graph_create_spec(entity_id, triples, seq![], uuid) == Outcome::<DbRequestView, ()>::Need(
                DbRequestView::Execute(
                    stmt(
                        SQL_SUBJECT_INSERT@,
                        seq![
                            BindView::Text(uuid),
                            BindView::Text(name),
                            BindView::Text(kind),
                            BindView::Text(uniq_key(seq![name, kind])),
                        ],
                    ),
                ),
            )
        }),
{
    let (name, kind) = triple_parts(triples[0]).0;
    let subject = stmt(
        SQL_SUBJECT_INSERT@,
        seq![
            BindView::Text(uuid),
            BindView::Text(name),
            BindView::Text(kind),
            BindView::Text(uniq_key(seq![name, kind])),
        ],
    );
    assert(seq![BindView::Text(uuid), BindView::Text(name), BindView::Text(kind)].push(
        BindView::Text(uniq_key(seq![name, kind])),
    ) =~= subject.binds);
    assert(triple_item_spec(entity_id, triples[0], seq![], uuid, 0, 0) == Outcome::<DbRequestView, ()>::Need(
        DbRequestView::Execute(subject),
    ));
}

/// The request that writing a batch makes once the host has answered its
/// first `t` requests with the first `t` of `replies`; `None` once the
/// batch has its result.
pub open spec fn batch_request(dialect: Dialect, n: usize, replies: Seq<ConnReply>, t: nat) -> Option<ConnRequest> {
    match write_batch_spec(dialect, n, replies.take(t as int)) {
        Outcome::Need(r) => Some(r),
        _ => None,
    }
}

/// Whether the host holds a checked-out connection after carrying out the
/// batch's first `t` requests: a successful `Acquire` checks one out, a
/// `Close` gives it back, nothing else changes that.
pub open spec fn holds_connection(dialect: Dialect, n: usize, replies: Seq<ConnReply>, t: nat) -> bool
    decreases t,
{
    if t == 0 {
        false
    } else {
        match batch_request(dialect, n, replies, (t - 1) as nat) {
            Some(ConnRequest::Acquire) => replies[t - 1] is Ok,
            Some(ConnRequest::Close) => false,
            _ => holds_connection(dialect, n, replies, (t - 1) as nat),
        }
    }
}

/// The requests that act on a checked-out connection.
pub open spec fn uses_connection(r: ConnRequest) -> bool {
    r is Begin || r is Run || r is Commit || r is Rollback || r is Close
}

/// Whether attempt `a`, which starts at request `k`, fails in a way that
/// starts another attempt.
spec fn retry_at(dialect: Dialect, replies: Seq<ConnReply>, a: nat, k: nat) -> bool {
    &&& a < MAX_RETRIES
    &&& replies[k as int] is Ok
    &&& replies[k + 1int] is Ok
    &&& replies[k + 2int] is Err
    &&& retryable(dialect, error_of(replies[k + 2int]))
}

/// The attempt (its number and its first request) that request `t` belongs
/// to, following retries from attempt `a` at `k`.
spec fn attempt_at(dialect: Dialect, replies: Seq<ConnReply>, a: nat, k: nat, t: nat) -> (nat, nat)
    decreases t - k,
{
    if k + 6 <= t && retry_at(dialect, replies, a, k) {
        attempt_at(dialect, replies, a + 1, k + 6, t)
    } else {
        (a, k)
    }
}

/// Request `t` of attempt `a` starting at `k`, read off the replies.
spec fn phase_request(dialect: Dialect, replies: Seq<ConnReply>, a: nat, k: nat, t: nat) -> Option<ConnRequest> {
    let p = t - k;
    if p == 0 {
        Some(ConnRequest::Acquire)
    } else if replies[k as int] is Err {
        None
    } else if p == 1 {
        Some(ConnRequest::Begin)
    } else if p == 2 {
        if replies[k + 1int] is Err {
            Some(ConnRequest::Close)
        } else {
            Some(ConnRequest::Run)
        }
    } else if replies[k + 1int] is Err {
        None
    } else if p == 3 {
        if replies[k + 2int] is Ok {
            Some(ConnRequest::Commit)
        } else {
            Some(ConnRequest::Rollback)
        }
    } else if p == 4 {
        Some(ConnRequest::Close)
    } else if p == 5 && retry_at(dialect, replies, a, k) {
        Some(ConnRequest::Sleep(backoff_ms(a)))
    } else {
        None
    }
}

/// Whether attempt `k` holds its connection after `t` requests.
spec fn attempt_holds(replies: Seq<ConnReply>, k: nat, t: nat) -> bool {
    let p = t - k;
    (1 <= p <= 2 && replies[k as int] is Ok) || (3 <= p <= 4 && replies[k as int] is Ok && replies[k + 1int] is Ok)
}

proof fn lemma_attempt_at(dialect: Dialect, n: usize, replies: Seq<ConnReply>, a: nat, k: nat, t: nat)
    requires
        k <= t <= replies.len(),
        a <= MAX_RETRIES,
    ensures
        ({
            let (a2, k2) = attempt_at(dialect, replies, a, k, t);
            &&& a2 <= MAX_RETRIES
            &&& k <= k2 <= t
            &&& !(k2 + 6 <= t && retry_at(dialect, replies, a2, k2))
            &&& attempt_spec(dialect, n, replies.take(t as int), a, k) == attempt_spec(
                dialect,
                n,
                replies.take(t as int),
                a2,
                k2,
            )
        }),
    decreases t - k,
{
    if k + 6 <= t && retry_at(dialect, replies, a, k) {
        let s = replies.take(t as int);
        assert(s[k as int] == replies[k as int]);
        assert(s[k + 1int] == replies[k + 1int]);
        assert(s[k + 2int] == replies[k + 2int]);
        assert(attempt_spec(dialect, n, s, a, k) == attempt_spec(dialect, n, s, a + 1, k + 6));
        lemma_attempt_at(dialect, n, replies, a + 1, k + 6, t);
    }
}

proof fn lemma_attempt_at_next(dialect: Dialect, replies: Seq<ConnReply>, a: nat, k: nat, t: nat)
    requires
        k <= t,
        t + 1 <= replies.len(),
    ensures
        ({
            let (a2, k2) = attempt_at(dialect, replies, a, k, t);
            attempt_at(dialect, replies, a, k, t + 1) == if k2 + 6 <= t + 1 && retry_at(dialect, replies, a2, k2) {
                (a2 + 1, k2 + 6)
            } else {
                (a2, k2)
            }
        }),
    decreases t - k,
{
    if k + 6 <= t && retry_at(dialect, replies, a, k) {
        lemma_attempt_at_next(dialect, replies, a + 1, k + 6, t);
    } else if k + 6 <= t + 1 && retry_at(dialect, replies, a, k) {
        assert(attempt_at(dialect, replies, a + 1, k + 6, t + 1) == (a + 1, k + 6));
    }
}

proof fn lemma_batch_request(dialect: Dialect, n: usize, replies: Seq<ConnReply>, t: nat)
    requires
        n > 0,
        t <= replies.len(),
    ensures
        ({
            let (a, k) = attempt_at(dialect, replies, 0, 0, t);
            batch_request(dialect, n, replies, t) == phase_request(dialect, replies, a, k, t)
        }),
{
    lemma_attempt_at(dialect, n, replies, 0, 0, t);
    let (a, k) = attempt_at(dialect, replies, 0, 0, t);
    let s = replies.take(t as int);
    if k < t {
        assert(s[k as int] == replies[k as int]);
    }
    if k + 1 < t {
        assert(s[k + 1int] == replies[k + 1int]);
    }
    if k + 2 < t {
        assert(s[k + 2int] == replies[k + 2int]);
    }
    if k + 3 < t {
        assert(s[k + 3int] == replies[k + 3int]);
    }
    assert(write_batch_spec(dialect, n, s) == attempt_spec(dialect, n, s, a, k));
}

proof fn lemma_holds(dialect: Dialect, n: usize, replies: Seq<ConnReply>, t: nat)
    requires
        n > 0,
        t <= replies.len(),
        forall|u: nat| u < t ==> (#[trigger] batch_request(dialect, n, replies, u)) is Some,
    ensures
        ({
            let (a, k) = attempt_at(dialect, replies, 0, 0, t);
            holds_connection(dialect, n, replies, t) == attempt_holds(replies, k, t)
        }),
    decreases t,
{
    if t > 0 {
        let u = (t - 1) as nat;
        lemma_holds(dialect, n, replies, u);
        lemma_batch_request(dialect, n, replies, u);
        lemma_attempt_at(dialect, n, replies, 0, 0, u);
        lemma_attempt_at_next(dialect, replies, 0, 0, u);
        assert(batch_request(dialect, n, replies, u) is Some);
    }
}

/// Writing a batch checks out at most one connection at a time and gives
/// every connection it checked out back exactly once: it asks for a
/// connection only while it holds none, acts on one (begin, run, commit,
/// rollback, close) only while it holds one, and gives its result only once
/// it holds none, whatever the host answered along the way, retries
/// included.
pub proof fn write_batch_closes_every_connection(dialect: Dialect, n: usize, replies: Seq<ConnReply>, t: nat)
    requires
        t <= replies.len(),
        forall|u: nat| u < t ==> (#[trigger] batch_request(dialect, n, replies, u)) is Some,
    ensures
        batch_request(dialect, n, replies, t) == Some(ConnRequest::Acquire) ==> !holds_connection(
            dialect,
            n,
            replies,
            t,
        ),
        batch_request(dialect, n, replies, t) matches Some(r) && uses_connection(r) ==> holds_connection(
            dialect,
            n,
            replies,
            t,
        ),
        batch_request(dialect, n, replies, t) is None ==> !holds_connection(dialect, n, replies, t),
{
    if n == 0 {
        if t > 0 {
            assert(batch_request(dialect, n, replies, 0) is Some);
        }
    } else {
        lemma_holds(dialect, n, replies, t);
        lemma_batch_request(dialect, n, replies, t);
    }
}

} // verus!
