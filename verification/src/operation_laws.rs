//! What the storage operations are for, stated over every exchange with the
//! host: which conversation is reused, which messages a history holds, which
//! summaries a fact carries, and that every stored fact and triple is
//! complete.

use vstd::prelude::*;

use crate::connection::{BindView, DbRequestView, Outcome, StatementView, base64_standard};
use crate::drivers::mysql::{
    SQL_CONVERSATION_INSERT, SQL_FACT_MENTION_INSERT, SQL_FACT_UPSERT, SQL_KNOWLEDGE_GRAPH_UPSERT, SQL_OBJECT_INSERT,
    SQL_PREDICATE_INSERT, attach_summaries, candidates_of, conversation_create_spec, entity_fact_create_spec,
    entity_fact_get_by_ids_spec, fact_item_spec, facts_from_spec, first_with_id_from, knowledge_graph_create_spec,
    summary_of, triple_entity_spec, triple_item_spec, triples_from_spec,
};
use crate::drivers::{DriverCallView, DriverOutput, RowsReply, le_bytes, uniq_key};
use crate::json::{JsonValue, first_id, json_get, json_str_field, json_str_or, read_id_spec};
use crate::manager::{CallReply, ManagerRequestView, conversation_history_spec};
use crate::models::{CandidateFactRowView, FactIdView, FactSummaryView, HostStorageError};

verus! {

/// The minutes the elapsed-time row reports, when it reports them as an
/// integer.
pub open spec fn reported_minutes(row: JsonValue) -> Option<i64> {
    match json_get(row, "minutes_since_activity"@) {
        Some(JsonValue::Number(n)) => n.int,
        _ => None,
    }
}

/// A session's latest conversation is reused exactly when its last
/// activity lies at most `timeout_minutes` minutes back (zero minutes
/// included): its id is the result and nothing is inserted. Otherwise the
/// next statement inserts a new conversation for the session.
pub proof fn conversation_reused_within_timeout(
    session_id: i64,
    timeout_minutes: i64,
    rows: Seq<RowsReply>,
    uuid: Seq<char>,
    minutes: i64,
)
    requires
        rows.len() == 2,
        rows[0] matches Ok(existing) && existing@.len() > 0 && json_str_field(existing@[0], "last_activity"@) is Some,
        rows[1] matches Ok(elapsed) && elapsed@.len() > 0 && reported_minutes(elapsed@[0]) == Some(minutes),
    ensures
        minutes <= timeout_minutes ==> conversation_create_spec(session_id, timeout_minutes, rows, uuid)
            == Outcome::<DbRequestView, Option<i64>>::Finish(read_id_spec(rows[0]->Ok_0@[0], "id"@), 2, 0),
        minutes > timeout_minutes ==> conversation_create_spec(session_id, timeout_minutes, rows, uuid)
            == Outcome::<DbRequestView, Option<i64>>::Need(
            DbRequestView::Execute(
                StatementView {
                    sql: SQL_CONVERSATION_INSERT@,
                    binds: seq![BindView::Text(uuid), BindView::Int(session_id)],
                },
            ),
        ),
{
}

/// A session's history is exactly the messages that reading its current
/// conversation gives, all of them and in their order; the messages are read
/// from the conversation whose id the conversation lookup gave.
pub proof fn history_is_every_message_read(
    session_id: Seq<char>,
    calls: Seq<CallReply>,
    conversation: i64,
    messages: Vec<(String, String)>,
)
    requires
        calls.len() == 3,
        calls[0] is Ok,
        calls[1] == Ok::<DriverOutput, HostStorageError>(DriverOutput::Id(Some(conversation))),
        calls[2] == Ok::<DriverOutput, HostStorageError>(DriverOutput::Messages(messages)),
    ensures
        conversation_history_spec(session_id, calls.take(2)) == Outcome::<
            ManagerRequestView,
            Seq<(Seq<char>, Seq<char>)>,
        >::Need(ManagerRequestView::Call(DriverCallView::ConversationMessagesRead(conversation))),
        conversation_history_spec(session_id, calls) == Outcome::<
            ManagerRequestView,
            Seq<(Seq<char>, Seq<char>)>,
        >::Finish(messages.deep_view(), 3, 0),
{
    assert(calls.take(2)[0] == calls[0]);
    assert(calls.take(2)[1] == calls[1]);
}

/// The summaries of the summary rows that belong to the fact with id `id`,
/// in row order.
pub open spec fn summaries_of_fact(rows: Seq<JsonValue>, id: FactIdView) -> Seq<FactSummaryView>
    decreases rows.len(),
{
    if rows.len() == 0 {
        seq![]
    } else {
        summaries_of_fact(rows.drop_last(), id) + match summary_of(rows.last()) {
            Some((fact_id, summary)) => if id == FactIdView::Int(fact_id) {
                seq![summary]
            } else {
                seq![]
            },
            None => seq![],
        }
    }
}

/// No fact before the `c`-th has its id.
pub open spec fn first_of_its_id(facts: Seq<CandidateFactRowView>, c: int) -> bool {
    forall|d: int| 0 <= d < c ==> facts[d].id != facts[c].id
}

proof fn lemma_first_with_id(facts: Seq<CandidateFactRowView>, id: i64, k: nat)
    requires
        k <= facts.len(),
    ensures
        match first_with_id_from(facts, id, k) {
            Some(m) => k <= m < facts.len() && facts[m as int].id == FactIdView::Int(id) && forall|d: int|
                k <= d < m ==> facts[d].id != FactIdView::Int(id),
            None => forall|d: int| k <= d < facts.len() ==> facts[d].id != FactIdView::Int(id),
        },
    decreases facts.len() - k,
{
    if k < facts.len() {
        lemma_first_with_id(facts, id, k + 1);
    }
}

proof fn lemma_attach_summaries(facts: Seq<CandidateFactRowView>, rows: Seq<JsonValue>)
    requires
        forall|c: int| 0 <= c < facts.len() ==> (#[trigger] facts[c]).summaries == Seq::<FactSummaryView>::empty(),
    ensures
        attach_summaries(facts, rows).len() == facts.len(),
        forall|c: int|
            0 <= c < facts.len() ==> {
                let r = #[trigger] attach_summaries(facts, rows)[c];
                &&& r.id == facts[c].id
                &&& r.content == facts[c].content
                &&& r.date_created == facts[c].date_created
                &&& r.summaries == if first_of_its_id(facts, c) {
                    summaries_of_fact(rows, facts[c].id)
                } else {
                    Seq::<FactSummaryView>::empty()
                }
            },
    decreases rows.len(),
{
    if rows.len() > 0 {
        let before = rows.drop_last();
        lemma_attach_summaries(facts, before);
        let prev = attach_summaries(facts, before);
        match summary_of(rows.last()) {
            None => {
                assert forall|c: int| 0 <= c < facts.len() implies summaries_of_fact(rows, facts[c].id)
                    == summaries_of_fact(before, facts[c].id) by {
                    assert(summaries_of_fact(before, facts[c].id) + seq![] =~= summaries_of_fact(before, facts[c].id));
                }
            },
            Some((fact_id, summary)) => {
                lemma_first_with_id(prev, fact_id, 0);
                assert forall|d: int| 0 <= d < facts.len() implies #[trigger] prev[d].id == facts[d].id by {
                    assert(prev[d] == attach_summaries(facts, before)[d]);
                }
                match first_with_id_from(prev, fact_id, 0) {
                    None => {
                        assert forall|c: int| 0 <= c < facts.len() implies summaries_of_fact(rows, facts[c].id)
                            == summaries_of_fact(before, facts[c].id) by {
                            assert(prev[c].id == facts[c].id);
                            assert(summaries_of_fact(before, facts[c].id) + seq![] =~= summaries_of_fact(
                                before,
                                facts[c].id,
                            ));
                        }
                    },
                    Some(m) => {
                        let r = attach_summaries(facts, rows);
                        assert(r == prev.update(
                            m as int,
                            CandidateFactRowView { summaries: prev[m as int].summaries.push(summary), ..prev[m as int] },
                        ));
                        assert forall|c: int| 0 <= c < facts.len() implies {
                            let x = #[trigger] attach_summaries(facts, rows)[c];
                            &&& x.id == facts[c].id
                            &&& x.content == facts[c].content
                            &&& x.date_created == facts[c].date_created
                            &&& x.summaries == if first_of_its_id(facts, c) {
                                summaries_of_fact(rows, facts[c].id)
                            } else {
                                Seq::<FactSummaryView>::empty()
                            }
                        } by {
                            assert(prev[c] == attach_summaries(facts, before)[c]);
                            assert(prev[c].id == facts[c].id);
                            assert(prev[m as int].id == facts[m as int].id);
                            if c == m {
                                assert(first_of_its_id(facts, c)) by {
                                    assert forall|d: int| 0 <= d < c implies facts[d].id != facts[c].id by {
                                        assert(prev[d].id == facts[d].id);
                                    }
                                }
                                assert(summaries_of_fact(before, facts[c].id).push(summary) =~= summaries_of_fact(
                                    before,
                                    facts[c].id,
                                ) + seq![summary]);
                            } else {
                                assert(r[c] == prev[c]);
                                if facts[c].id == FactIdView::Int(fact_id) {
                                    assert(c > m);
                                    assert(!first_of_its_id(facts, c)) by {
                                        assert(facts[m as int].id == facts[c].id);
                                    }
                                } else {
                                    assert(summaries_of_fact(before, facts[c].id) + seq![] =~= summaries_of_fact(
                                        before,
                                        facts[c].id,
                                    ));
                                }
                            }
                        }
                    },
                }
            },
        }
    }
}

proof fn lemma_candidates_bare(rows: Seq<JsonValue>)
    ensures
        forall|c: int|
            0 <= c < candidates_of(rows).len() ==> (#[trigger] candidates_of(rows)[c]).summaries == Seq::<
                FactSummaryView,
            >::empty(),
    decreases rows.len(),
{
    if rows.len() > 0 {
        lemma_candidates_bare(rows.drop_last());
    }
}

/// Facts fetched by id carry, each, the summaries of every summary row that
/// names it, in row order, so a fact mentioned in several conversations has
/// them all; the facts themselves are the fact rows read, in order. (A fact
/// listed twice carries its summaries once, on its first listing.)
pub proof fn fetched_facts_carry_all_their_summaries(ids: Seq<FactIdView>, rows: Seq<RowsReply>)
    requires
        ids.len() > 0,
        rows.len() == 2,
        rows[0] matches Ok(found) && found@.len() > 0,
        rows[1] is Ok,
    ensures
        ({
            let bare = candidates_of(rows[0]->Ok_0@);
            let summary_rows = rows[1]->Ok_0@;
            entity_fact_get_by_ids_spec(ids, rows) matches Outcome::Finish(facts, i, j) && i == 2 && j == 0 && facts.len() == bare.len()
                && forall|c: int|
                0 <= c < facts.len() ==> {
                    &&& (#[trigger] facts[c]).id == bare[c].id
                    &&& facts[c].content == bare[c].content
                    &&& facts[c].date_created == bare[c].date_created
                    &&& facts[c].summaries == if first_of_its_id(bare, c) {
                        summaries_of_fact(summary_rows, bare[c].id)
                    } else {
                        Seq::<FactSummaryView>::empty()
                    }
                }
        }),
{
    let bare = candidates_of(rows[0]->Ok_0@);
    lemma_candidates_bare(rows[0]->Ok_0@);
    lemma_attach_summaries(bare, rows[1]->Ok_0@);
}

/// Every fact has a non-empty embedding, every statement up to the end of
/// fact `n`'s share of the exchange succeeded, and every fact's id lookup
/// found a row with an id.
pub open spec fn facts_all_found(embeddings: Seq<Seq<u32>>, rows: Seq<RowsReply>, n: nat) -> bool {
    &&& embeddings.len() >= n
    &&& forall|x: int| 0 <= x < n ==> (#[trigger] embeddings[x]).len() > 0
    &&& rows.len() >= 3 * n
    &&& forall|x: int| 0 <= x < 3 * n ==> (#[trigger] rows[x]) is Ok
    &&& forall|x: int| 0 <= x < n ==> first_id(#[trigger] rows[3 * x + 1]->Ok_0@, "id"@) is Some
}

proof fn lemma_facts_done(
    entity_id: i64,
    facts: Seq<Seq<char>>,
    embeddings: Seq<Seq<u32>>,
    conversation: i64,
    rows: Seq<RowsReply>,
    s: Seq<RowsReply>,
    uuid: Seq<char>,
    k: nat,
)
    requires
        k <= facts.len(),
        facts_all_found(embeddings, rows, facts.len()),
        3 * k <= s.len() <= rows.len(),
        forall|x: int| 0 <= x < s.len() ==> s[x] == rows[x],
    ensures
        facts_from_spec(entity_id, facts, embeddings, Some(conversation), s, uuid, 0, 0, 0) == facts_from_spec(
            entity_id,
            facts,
            embeddings,
            Some(conversation),
            s,
            uuid,
            k,
            3 * k,
            0,
        ),
    decreases k,
{
    if k > 0 {
        let m = (k - 1) as nat;
        lemma_facts_done(entity_id, facts, embeddings, conversation, rows, s, uuid, m);
        let a: int = (3 * m) as int;
        assert(s[a as int] == rows[a as int]);
        assert(s[a + 1] == rows[a + 1]);
        assert(s[a + 2] == rows[a + 2]);
        assert(rows[a as int] is Ok);
        assert(rows[a + 1] is Ok);
        assert(rows[a + 2] is Ok);
        assert(first_id(rows[a + 1]->Ok_0@, "id"@) is Some);
        assert(embeddings[m as int].len() > 0);
        assert(fact_item_spec(
            entity_id,
            facts[m as int],
            embeddings[m as int],
            Some(conversation),
            s,
            uuid,
            3 * m,
            0,
        ) == Outcome::<DbRequestView, ()>::Finish((), 3 * k, 0));
    }
}

/// When a conversation is given and every fact is stored and found again,
/// every fact, not only the first, is stored and linked to the
/// conversation: fact `k`'s share of the exchange starts with the upsert of
/// its text, its embedding's bytes and its text's uniqueness key, and the
/// request that follows its id lookup is the mention binding that fact's id
/// and the conversation; the whole exchange is three statements per fact.
pub proof fn every_stored_fact_is_linked_to_the_conversation(
    entity_id: i64,
    facts: Seq<Seq<char>>,
    embeddings: Seq<Seq<u32>>,
    conversation: i64,
    rows: Seq<RowsReply>,
    uuid: Seq<char>,
    k: int,
)
    requires
        0 <= k < facts.len(),
        facts_all_found(embeddings, rows, facts.len()),
    ensures
        entity_fact_create_spec(entity_id, facts, embeddings, Some(conversation), rows.take(3 * k), uuid)
            == Outcome::<DbRequestView, ()>::Need(
            DbRequestView::Execute(
                StatementView {
                    sql: SQL_FACT_UPSERT@,
                    binds: seq![
                        BindView::Text(uuid),
                        BindView::Int(entity_id),
                        BindView::Text(facts[k]),
                        BindView::Bytes(base64_standard(le_bytes(embeddings[k]))),
                        BindView::Text(uniq_key(seq![facts[k]])),
                    ],
                },
            ),
        ),
        entity_fact_create_spec(entity_id, facts, embeddings, Some(conversation), rows.take(3 * k + 2), uuid)
            == Outcome::<DbRequestView, ()>::Need(
            DbRequestView::Execute(
                StatementView {
                    sql: SQL_FACT_MENTION_INSERT@,
                    binds: seq![
                        BindView::Text(uuid),
                        BindView::Int(entity_id),
                        BindView::Int(first_id(rows[3 * k + 1]->Ok_0@, "id"@)->0),
                        BindView::Int(conversation),
                    ],
                },
            ),
        ),
        entity_fact_create_spec(entity_id, facts, embeddings, Some(conversation), rows, uuid) == Outcome::<
            DbRequestView,
            (),
        >::Finish((), 3 * facts.len(), 0),
{
    lemma_facts_done(entity_id, facts, embeddings, conversation, rows, rows.take(3 * k), uuid, k as nat);
    let s = rows.take(3 * k + 2);
    lemma_facts_done(entity_id, facts, embeddings, conversation, rows, s, uuid, k as nat);
    assert(s[3 * k] == rows[3 * k]);
    assert(s[3 * k + 1] == rows[3 * k + 1]);
    assert(rows[3 * k] is Ok);
    assert(rows[3 * k + 1] is Ok);
    assert(first_id(rows[3 * k + 1]->Ok_0@, "id"@) is Some);
    assert(embeddings[k].len() > 0);
    lemma_facts_done(entity_id, facts, embeddings, conversation, rows, rows, uuid, facts.len());
}

/// Every statement up to the end of triple `n`'s share of the exchange
/// succeeded, and every id lookup (subject, predicate, object) found a row
/// with an id.
pub open spec fn triples_all_found(rows: Seq<RowsReply>, n: nat) -> bool {
    &&& rows.len() >= 7 * n
    &&& forall|x: int| 0 <= x < 7 * n ==> (#[trigger] rows[x]) is Ok
    &&& forall|x: int|
        0 <= x < n ==> {
            &&& first_id(#[trigger] rows[7 * x + 1]->Ok_0@, "id"@) is Some
            &&& first_id(rows[7 * x + 3]->Ok_0@, "id"@) is Some
            &&& first_id(rows[7 * x + 5]->Ok_0@, "id"@) is Some
        }
}

proof fn lemma_triples_done(
    entity_id: i64,
    triples: Seq<JsonValue>,
    rows: Seq<RowsReply>,
    s: Seq<RowsReply>,
    uuid: Seq<char>,
    k: nat,
)
    requires
        k <= triples.len(),
        triples_all_found(rows, triples.len()),
        7 * k <= s.len() <= rows.len(),
        forall|x: int| 0 <= x < s.len() ==> s[x] == rows[x],
    ensures
        triples_from_spec(entity_id, triples, s, uuid, 0, 0, 0) == triples_from_spec(
            entity_id,
            triples,
            s,
            uuid,
            k,
            7 * k,
            0,
        ),
    decreases k,
{
    if k > 0 {
        let m = (k - 1) as nat;
        lemma_triples_done(entity_id, triples, rows, s, uuid, m);
        let a: int = (7 * m) as int;
        assert forall|x: int| a <= x < a + 7 implies s[x] == rows[x] && (#[trigger] rows[x]) is Ok by {}
        assert(first_id(rows[a + 1]->Ok_0@, "id"@) is Some);
        assert(first_id(rows[a + 3]->Ok_0@, "id"@) is Some);
        assert(first_id(rows[a + 5]->Ok_0@, "id"@) is Some);
        assert(s[a] is Ok && s[a + 1] is Ok && s[a + 2] is Ok && s[a + 3] is Ok && s[a + 4] is Ok && s[a + 5] is Ok
            && s[a + 6] is Ok);
        assert(triple_item_spec(entity_id, triples[m as int], s, uuid, 7 * m, 0) == Outcome::<DbRequestView, ()>::Finish(
            (),
            7 * k,
            0,
        ));
    }
}

/// Every semantic triple is recorded whole: when every lookup finds an id,
/// the request that follows triple `k`'s subject lookup stores its
/// predicate under the triple's own predicate text (its `predicate`
/// string, empty when missing) and that text's uniqueness key; the one that
/// follows the predicate lookup stores its object under the object's name,
/// type and their key; the one that follows the object lookup links the
/// three ids found to the entity. The whole exchange is seven statements per
/// triple.
pub proof fn every_predicate_is_stored_with_its_text(
    entity_id: i64,
    triples: Seq<JsonValue>,
    rows: Seq<RowsReply>,
    uuid: Seq<char>,
    k: int,
)
    requires
        0 <= k < triples.len(),
        triples_all_found(rows, triples.len()),
    ensures
        ({
            let predicate = json_str_or(triples[k], "predicate"@, seq![]);
            knowledge_graph_create_spec(entity_id, triples, rows.take(7 * k + 2), uuid) == Outcome::<
                DbRequestView,
                (),
            >::Need(
                DbRequestView::Execute(
                    StatementView {
                        sql: SQL_PREDICATE_INSERT@,
                        binds: seq![BindView::Text(uuid), BindView::Text(predicate), BindView::Text(uniq_key(seq![predicate]))],
                    },
                ),
            )
        }),
        ({
            let (name, kind) = triple_entity_spec(json_get(triples[k], "object"@));
            knowledge_graph_create_spec(entity_id, triples, rows.take(7 * k + 4), uuid) == Outcome::<
                DbRequestView,
                (),
            >::Need(
                DbRequestView::Execute(
                    StatementView {
                        sql: SQL_OBJECT_INSERT@,
                        binds: seq![
                            BindView::Text(uuid),
                            BindView::Text(name),
                            BindView::Text(kind),
                            BindView::Text(uniq_key(seq![name, kind])),
                        ],
                    },
                ),
            )
        }),
        knowledge_graph_create_spec(entity_id, triples, rows.take(7 * k + 6), uuid) == Outcome::<DbRequestView, ()>::Need(
            DbRequestView::Execute(
                StatementView {
                    sql: SQL_KNOWLEDGE_GRAPH_UPSERT@,
                    binds: seq![
                        BindView::Text(uuid),
                        BindView::Int(entity_id),
                        BindView::Int(first_id(rows[7 * k + 1]->Ok_0@, "id"@)->0),
                        BindView::Int(first_id(rows[7 * k + 3]->Ok_0@, "id"@)->0),
                        BindView::Int(first_id(rows[7 * k + 5]->Ok_0@, "id"@)->0),
                    ],
                },
            ),
        ),
        knowledge_graph_create_spec(entity_id, triples, rows, uuid) == Outcome::<DbRequestView, ()>::Finish(
            (),
            7 * triples.len(),
            0,
        ),
{
    let s = rows.take(7 * k + 2);
    lemma_triples_done(entity_id, triples, rows, s, uuid, k as nat);
    assert(s[7 * k] == rows[7 * k]);
    assert(s[7 * k + 1] == rows[7 * k + 1]);
    assert(rows[7 * k] is Ok);
    assert(rows[7 * k + 1] is Ok);
    assert(first_id(rows[7 * k + 1]->Ok_0@, "id"@) is Some);
    let predicate = json_str_or(triples[k], "predicate"@, seq![]);
    assert(seq![BindView::Text(uuid), BindView::Text(predicate)].push(BindView::Text(uniq_key(seq![predicate])))
        =~= seq![BindView::Text(uuid), BindView::Text(predicate), BindView::Text(uniq_key(seq![predicate]))]);
    assert forall|x: int| 7 * k <= x < 7 * k + 6 implies (#[trigger] rows[x]) is Ok by {}
    assert(first_id(rows[7 * k + 3]->Ok_0@, "id"@) is Some);
    assert(first_id(rows[7 * k + 5]->Ok_0@, "id"@) is Some);
    let (name, kind) = triple_entity_spec(json_get(triples[k], "object"@));
    assert(seq![BindView::Text(uuid), BindView::Text(name), BindView::Text(kind)].push(
        BindView::Text(uniq_key(seq![name, kind])),
    ) =~= seq![
        BindView::Text(uuid),
        BindView::Text(name),
        BindView::Text(kind),
        BindView::Text(uniq_key(seq![name, kind])),
    ]);
    let s4 = rows.take(7 * k + 4);
    lemma_triples_done(entity_id, triples, rows, s4, uuid, k as nat);
    assert forall|x: int| 7 * k <= x < 7 * k + 4 implies s4[x] == rows[x] by {}
    let s6 = rows.take(7 * k + 6);
    lemma_triples_done(entity_id, triples, rows, s6, uuid, k as nat);
    assert forall|x: int| 7 * k <= x < 7 * k + 6 implies s6[x] == rows[x] by {}
    lemma_triples_done(entity_id, triples, rows, rows, uuid, triples.len());
}

} // verus!
