//! The storage manager's logic: which driver serves a dialect, how a write
//! batch's operations turn into driver calls, and how the read operations
//! chain their calls. Each flow is a step function over the replies so far:
//! `calls` holds the outputs of the driver calls made, in order, and
//! `embeddings` the embedder's answers, in order.

use vstd::prelude::*;

use crate::connection::{Outcome, Step, StepView, outcome_step};
use crate::dialect::Dialect;
use crate::drivers::{DriverCall, DriverCallView, DriverOutput, DriverOutputView, stops, then};
use crate::json::{
    JsonNumber, JsonValue, json_array_field, json_get, json_str_field, json_str_or,
};
use crate::models::{
    CandidateFactRow, CandidateFactRowView, EmbeddingRow, EmbeddingRowView, ErrorView, FactId, FactIdView,
    HostStorageError, WriteOp,
};

verus! {

/// The SQL driver that serves a dialect.
#[derive(Debug, Clone, Copy, PartialEq, Eq, Structural)]
pub enum Driver {
    Sqlite,
    Postgresql,
    Mysql,
}

/// SQLite has its own driver, PostgreSQL and CockroachDB share one, MySQL
/// has its own.
pub open spec fn driver_for_spec(d: Dialect) -> Driver {
    match d {
        Dialect::Sqlite => Driver::Sqlite,
        Dialect::Postgresql | Dialect::Cockroachdb => Driver::Postgresql,
        Dialect::Mysql => Driver::Mysql,
    }
}

pub fn driver_for(d: Dialect) -> (r: Driver)
    ensures
        r == driver_for_spec(d),
{
    match d {
        Dialect::Sqlite => Driver::Sqlite,
        Dialect::Postgresql | Dialect::Cockroachdb => Driver::Postgresql,
        Dialect::Mysql => Driver::Mysql,
    }
}

/// What a manager flow asks of its host: a driver call on the current
/// connection, or embeddings of some texts.
#[derive(Debug)]
pub enum ManagerRequest<'a> {
    Call(DriverCall<'a>),
    Embed(Vec<String>),
}

pub enum ManagerRequestView {
    Call(DriverCallView),
    Embed(Seq<Seq<char>>),
}

impl<'a> DeepView for ManagerRequest<'a> {
    type V = ManagerRequestView;

    open spec fn deep_view(&self) -> ManagerRequestView {
        match self {
            ManagerRequest::Call(c) => ManagerRequestView::Call(c.deep_view()),
            ManagerRequest::Embed(t) => ManagerRequestView::Embed(t.deep_view()),
        }
    }
}

pub type CallReply = Result<DriverOutput, HostStorageError>;

/// The replies so far: the driver calls' outputs and the embedder's
/// answers (one embedding, as `f32` bits, per text asked for; an embedder
/// that is not wired up answers with none).
#[derive(Debug)]
pub struct ManagerReplies {
    pub calls: Vec<CallReply>,
    pub embeddings: Vec<Vec<Vec<u32>>>,
}

/// Driver call `call` is the `i`-th of the flow.
pub open spec fn call_step(calls: Seq<CallReply>, i: nat, j: nat, call: DriverCallView) -> Outcome<
    ManagerRequestView,
    DriverOutputView,
> {
    if i >= calls.len() {
        Outcome::Need(ManagerRequestView::Call(call))
    } else {
        match calls[i as int] {
            Ok(o) => Outcome::Finish(o.deep_view(), i + 1, j),
            Err(e) => Outcome::Fail(e.deep_view()),
        }
    }
}

/// Embedding `texts` is the `j`-th request to the embedder.
pub open spec fn embed_step(embeddings: Seq<Vec<Vec<u32>>>, i: nat, j: nat, texts: Seq<Seq<char>>) -> Outcome<
    ManagerRequestView,
    Seq<Seq<u32>>,
> {
    if j >= embeddings.len() {
        Outcome::Need(ManagerRequestView::Embed(texts))
    } else {
        Outcome::Finish(embeddings[j as int].deep_view(), i, j + 1)
    }
}

fn run_driver_call<'a, 'b, T: DeepView>(replies: &'b ManagerReplies, i: usize, j: usize, call: DriverCall<'a>) -> (r:
    Result<(&'b DriverOutput, usize, usize), Step<ManagerRequest<'a>, T>>)
    ensures
        match r {
            Ok((o, i2, j2)) => call_step(replies.calls@, i as nat, j as nat, call.deep_view())
                == Outcome::<ManagerRequestView, DriverOutputView>::Finish(o.deep_view(), i2 as nat, j2 as nat),
            Err(s) => stops(s.deep_view(), call_step(replies.calls@, i as nat, j as nat, call.deep_view())),
        },
{
    if i >= replies.calls.len() {
        return Err(Step::Run(ManagerRequest::Call(call)));
    }
    match &replies.calls[i] {
        Ok(o) => Ok((o, i + 1, j)),
        Err(e) => Err(Step::Done(Err(e.duplicate()))),
    }
}

fn run_embed<'a, 'b, T: DeepView>(replies: &'b ManagerReplies, i: usize, j: usize, texts: Vec<String>) -> (r: Result<
    (&'b Vec<Vec<u32>>, usize, usize),
    Step<ManagerRequest<'a>, T>,
>)
    ensures
        match r {
            Ok((e, i2, j2)) => embed_step(replies.embeddings@, i as nat, j as nat, texts.deep_view())
                == Outcome::<ManagerRequestView, Seq<Seq<u32>>>::Finish(e.deep_view(), i2 as nat, j2 as nat),
            Err(s) => stops(s.deep_view(), embed_step(replies.embeddings@, i as nat, j as nat, texts.deep_view())),
        },
{
    if j >= replies.embeddings.len() {
        return Err(Step::Run(ManagerRequest::Embed(texts)));
    }
    Ok((&replies.embeddings[j], i, j + 1))
}

/// The id an id-returning call gave, if any.
pub open spec fn id_of(o: DriverOutputView) -> Option<i64> {
    match o {
        DriverOutputView::Id(id) => id,
        _ => None,
    }
}

/// The id an id-returning call gave, 0 when there is none.
pub open spec fn id_or_zero(o: DriverOutputView) -> i64 {
    match id_of(o) {
        Some(n) => n,
        None => 0,
    }
}

fn output_id(o: &DriverOutput) -> (r: Option<i64>)
    ensures
        r == id_of(o.deep_view()),
{
    match o {
        DriverOutput::Id(id) => *id,
        _ => None,
    }
}

fn output_id_or_zero(o: &DriverOutput) -> (r: i64)
    ensures
        r == id_or_zero(o.deep_view()),
{
    match o {
        DriverOutput::Id(Some(n)) => *n,
        _ => 0,
    }
}

pub const OP_CONVERSATION_MESSAGE_CREATE: &'static str = "conversation_message.create";
pub const OP_ENTITY_FACT_CREATE: &'static str = "entity_fact.create";
pub const OP_KNOWLEDGE_GRAPH_CREATE: &'static str = "knowledge_graph.create";
pub const OP_PROCESS_ATTRIBUTE_CREATE: &'static str = "process_attribute.create";
pub const OP_CONVERSATION_UPDATE: &'static str = "conversation.update";
pub const OP_UPSERT_FACT: &'static str = "upsert_fact";
pub const UNSUPPORTED_OP_CODE: &'static str = "UNSUPPORTED_OP";
pub const UNSUPPORTED_OP_PREFIX: &'static str = "unsupported write op type: ";

/// Minutes of inactivity after which a session's conversation is not reused.
pub const CONVERSATION_TIMEOUT_MINUTES: i64 = 30;

/// The strings among `items`, in order.
pub open spec fn strings_of(items: Seq<JsonValue>) -> Seq<Seq<char>>
    decreases items.len(),
{
    if items.len() == 0 {
        seq![]
    } else {
        strings_of(items.drop_last()) + match items.last() {
            JsonValue::Str(s) => seq![s@],
            _ => seq![],
        }
    }
}

/// The numbers among `items`, each as the bits of an `f32`, in order.
pub open spec fn singles_of(items: Seq<JsonValue>) -> Seq<u32>
    decreases items.len(),
{
    if items.len() == 0 {
        seq![]
    } else {
        singles_of(items.drop_last()) + match items.last() {
            JsonValue::Number(n) => seq![n.float_to_single],
            _ => seq![],
        }
    }
}

/// Caller-given embeddings: each array's numbers; anything else is empty.
pub open spec fn embeddings_of(raw: Seq<JsonValue>) -> Seq<Seq<u32>> {
    raw.map_values(
        |e: JsonValue|
            match e {
                JsonValue::Array(items) => singles_of(items@),
                _ => seq![],
            },
    )
}

/// The attribute strings of a payload: an array's strings, or an object's
/// string values in field order; otherwise none.
pub open spec fn attributes_of(payload: JsonValue) -> Seq<Seq<char>> {
    match json_get(payload, "attributes"@) {
        Some(JsonValue::Array(items)) => strings_of(items@),
        Some(JsonValue::Object(fields)) => strings_of(fields@.map_values(|f: (String, JsonValue)| f.1)),
        _ => seq![],
    }
}

fn strings_from(items: &Vec<JsonValue>) -> (r: Vec<String>)
    ensures
        r.deep_view() == strings_of(items@),
{
    let mut out: Vec<String> = Vec::new();
    let mut i: usize = 0;
    while i < items.len()
        invariant
            0 <= i <= items.len(),
            out.deep_view() == strings_of(items@.take(i as int)),
        decreases items.len() - i,
    {
        proof {
            assert(items@.take(i + 1).drop_last() =~= items@.take(i as int));
        }
        match &items[i] {
            JsonValue::Str(s) => {
                let ghost before = out;
                let c = s.clone();
                out.push(c);
                proof {
                    crate::drivers::lemma_deep_view_push(before, out, c);
                }
            },
            _ => {},
        }
        assert(out.deep_view() =~= strings_of(items@.take(i + 1)));
        i = i + 1;
    }
    assert(items@.take(items.len() as int) =~= items@);
    out
}

fn singles_from(items: &Vec<JsonValue>) -> (r: Vec<u32>)
    ensures
        r@ == singles_of(items@),
{
    let mut out: Vec<u32> = Vec::new();
    let mut i: usize = 0;
    while i < items.len()
        invariant
            0 <= i <= items.len(),
            out@ == singles_of(items@.take(i as int)),
        decreases items.len() - i,
    {
        proof {
            assert(items@.take(i + 1).drop_last() =~= items@.take(i as int));
        }
        match &items[i] {
            JsonValue::Number(n) => {
                out.push(n.float_to_single);
            },
            _ => {},
        }
        assert(out@ =~= singles_of(items@.take(i + 1)));
        i = i + 1;
    }
    assert(items@.take(items.len() as int) =~= items@);
    out
}

fn embeddings_from(raw: &Vec<JsonValue>) -> (r: Vec<Vec<u32>>)
    ensures
        r.deep_view() == embeddings_of(raw@),
{
    let mut out: Vec<Vec<u32>> = Vec::new();
    let mut i: usize = 0;
    while i < raw.len()
        invariant
            0 <= i <= raw.len(),
            out.deep_view() == embeddings_of(raw@.take(i as int)),
        decreases raw.len() - i,
    {
        let e = match &raw[i] {
            JsonValue::Array(items) => singles_from(items),
            _ => Vec::new(),
        };
        let ghost before = out;
        out.push(e);
        proof {
            crate::drivers::lemma_deep_view_push(before, out, e);
            assert(e.deep_view() =~= e@);
        }
        assert(out.deep_view() =~= embeddings_of(raw@.take(i + 1)));
        i = i + 1;
    }
    assert(raw@.take(raw.len() as int) =~= raw@);
    out
}

fn attributes_from(payload: &JsonValue) -> (r: Vec<String>)
    ensures
        r.deep_view() == attributes_of(*payload),
{
    match payload.get("attributes") {
        Some(JsonValue::Array(items)) => strings_from(items),
        Some(JsonValue::Object(fields)) => {
            let mut out: Vec<String> = Vec::new();
            let mut i: usize = 0;
            let ghost values = fields@.map_values(|f: (String, JsonValue)| f.1);
            while i < fields.len()
                invariant
                    0 <= i <= fields.len(),
                    values == fields@.map_values(|f: (String, JsonValue)| f.1),
                    out.deep_view() == strings_of(values.take(i as int)),
                decreases fields.len() - i,
            {
                proof {
                    assert(values.take(i + 1).drop_last() =~= values.take(i as int));
                    assert(values.take(i + 1).last() == fields@[i as int].1);
                }
                match &fields[i].1 {
                    JsonValue::Str(s) => {
                        let ghost before = out;
                        let c = s.clone();
                        out.push(c);
                        proof {
                            crate::drivers::lemma_deep_view_push(before, out, c);
                        }
                    },
                    _ => {},
                }
                assert(out.deep_view() =~= strings_of(values.take(i + 1)));
                i = i + 1;
            }
            assert(values.take(fields.len() as int) =~= values);
            out
        },
        _ => Vec::new(),
    }
}

/// Type of the outcome of a manager flow.
pub type Flow<T> = Outcome<ManagerRequestView, T>;

/// One message of `conversation_message.create` per element of `messages`,
/// from the `k`-th on; a missing role or content is empty.
pub open spec fn message_calls_spec(
    conversation_id: i64,
    messages: Seq<JsonValue>,
    calls: Seq<CallReply>,
    k: nat,
    i: nat,
    j: nat,
) -> Flow<()>
    decreases messages.len() - k,
{
    if k >= messages.len() {
        Outcome::Finish((), i, j)
    } else {
        let m = messages[k as int];
        match call_step(
            calls,
            i,
            j,
            DriverCallView::ConversationMessageCreate(
                conversation_id,
                json_str_or(m, "role"@, seq![]),
                json_str_or(m, "content"@, seq![]),
            ),
        ) {
            Outcome::Finish(_, i2, j2) => message_calls_spec(conversation_id, messages, calls, k + 1, i2, j2),
            Outcome::Need(r) => Outcome::Need(r),
            Outcome::Fail(e) => Outcome::Fail(e),
        }
    }
}

/// The session named by the payload's `conversation_id` (empty if missing),
/// created if need be, and its current conversation.
pub open spec fn session_conversation_spec(payload: JsonValue, calls: Seq<CallReply>, i: nat, j: nat) -> Flow<i64> {
    then(
        call_step(calls, i, j, DriverCallView::SessionCreate(json_str_or(payload, "conversation_id"@, seq![]), None, None)),
        |s: DriverOutputView, i1: nat, j1: nat|
            then(
                call_step(calls, i1, j1, DriverCallView::ConversationCreate(id_or_zero(s), CONVERSATION_TIMEOUT_MINUTES)),
                |c: DriverOutputView, i2: nat, j2: nat| Outcome::Finish(id_or_zero(c), i2, j2),
            ),
    )
}

/// `conversation_message.create`: the messages are stored in the session's
/// current conversation.
pub open spec fn message_create_op_spec(payload: JsonValue, calls: Seq<CallReply>, i: nat, j: nat) -> Flow<()> {
    then(
        session_conversation_spec(payload, calls, i, j),
        |conv: i64, i2: nat, j2: nat|
            match json_array_field(payload, "messages"@) {
                Some(messages) => message_calls_spec(conv, messages, calls, 0, i2, j2),
                None => Outcome::Finish((), i2, j2),
            },
    )
}

pub open spec fn fact_create_call_spec(
    entity_id: i64,
    facts: Seq<Seq<char>>,
    embeddings: Seq<Seq<u32>>,
    conversation_id: Option<i64>,
    calls: Seq<CallReply>,
    i: nat,
    j: nat,
) -> Flow<()> {
    then(
        call_step(calls, i, j, DriverCallView::EntityFactCreate(entity_id, facts, embeddings, conversation_id)),
        |_o: DriverOutputView, i1: nat, j1: nat| Outcome::Finish((), i1, j1),
    )
}

/// The rest of `entity_fact.create` once the embeddings are known: a
/// non-empty `conversation_id` names a session of the entity whose current
/// conversation the facts are linked to.
pub open spec fn fact_create_rest_spec(
    payload: JsonValue,
    entity_id: i64,
    facts: Seq<Seq<char>>,
    embeddings: Seq<Seq<u32>>,
    calls: Seq<CallReply>,
    i: nat,
    j: nat,
) -> Flow<()> {
    match json_str_field(payload, "conversation_id"@) {
        Some(conv) => if conv.len() > 0 {
            then(
                call_step(calls, i, j, DriverCallView::SessionCreate(conv, Some(entity_id), None)),
                |s: DriverOutputView, i1: nat, j1: nat|
                    then(
                        call_step(
                            calls,
                            i1,
                            j1,
                            DriverCallView::ConversationCreate(id_or_zero(s), CONVERSATION_TIMEOUT_MINUTES),
                        ),
                        |c: DriverOutputView, i2: nat, j2: nat|
                            fact_create_call_spec(entity_id, facts, embeddings, id_of(c), calls, i2, j2),
                    ),
            )
        } else {
            fact_create_call_spec(entity_id, facts, embeddings, None, calls, i, j)
        },
        None => fact_create_call_spec(entity_id, facts, embeddings, None, calls, i, j),
    }
}

/// The fact strings of a payload.
pub open spec fn facts_of(payload: JsonValue) -> Seq<Seq<char>> {
    match json_array_field(payload, "facts"@) {
        Some(items) => strings_of(items),
        None => seq![],
    }
}

/// `entity_fact.create`: the facts are stored for the entity, with the
/// caller's embeddings if the payload has `fact_embeddings`, else with the
/// embedder's (asked only when there are facts).
pub open spec fn fact_create_op_spec(
    payload: JsonValue,
    calls: Seq<CallReply>,
    embeddings: Seq<Vec<Vec<u32>>>,
    i: nat,
    j: nat,
) -> Flow<()> {
    then(
        call_step(calls, i, j, DriverCallView::EntityCreate(json_str_or(payload, "entity_id"@, seq![]))),
        |e: DriverOutputView, i1: nat, j1: nat|
            match json_array_field(payload, "fact_embeddings"@) {
                Some(raw) => fact_create_rest_spec(
                    payload,
                    id_or_zero(e),
                    facts_of(payload),
                    embeddings_of(raw),
                    calls,
                    i1,
                    j1,
                ),
                None => if facts_of(payload).len() > 0 {
                    then(
                        embed_step(embeddings, i1, j1, facts_of(payload)),
                        |embs: Seq<Seq<u32>>, i2: nat, j2: nat|
                            fact_create_rest_spec(payload, id_or_zero(e), facts_of(payload), embs, calls, i2, j2),
                    )
                } else {
                    fact_create_rest_spec(payload, id_or_zero(e), facts_of(payload), seq![], calls, i1, j1)
                },
            },
    )
}

/// The triples of a payload.
pub open spec fn triples_of(payload: JsonValue) -> Seq<JsonValue> {
    match json_array_field(payload, "semantic_triples"@) {
        Some(t) => t,
        None => seq![],
    }
}

/// `knowledge_graph.create`: the triples are recorded for the entity.
pub open spec fn knowledge_graph_op_spec(payload: JsonValue, calls: Seq<CallReply>, i: nat, j: nat) -> Flow<()> {
    then(
        call_step(calls, i, j, DriverCallView::EntityCreate(json_str_or(payload, "entity_id"@, seq![]))),
        |e: DriverOutputView, i1: nat, j1: nat|
            then(
                call_step(calls, i1, j1, DriverCallView::KnowledgeGraphCreate(id_or_zero(e), triples_of(payload))),
                |_o: DriverOutputView, i2: nat, j2: nat| Outcome::Finish((), i2, j2),
            ),
    )
}

/// `process_attribute.create`: the attributes are recorded for the process.
pub open spec fn process_attribute_op_spec(payload: JsonValue, calls: Seq<CallReply>, i: nat, j: nat) -> Flow<()> {
    then(
        call_step(calls, i, j, DriverCallView::ProcessCreate(json_str_or(payload, "process_id"@, seq![]))),
        |p: DriverOutputView, i1: nat, j1: nat|
            then(
                call_step(
                    calls,
                    i1,
                    j1,
                    DriverCallView::ProcessAttributeCreate(id_or_zero(p), attributes_of(payload)),
                ),
                |_o: DriverOutputView, i2: nat, j2: nat| Outcome::Finish((), i2, j2),
            ),
    )
}

/// `conversation.update`: the session's current conversation gets the
/// payload's summary (empty if missing).
pub open spec fn conversation_update_op_spec(payload: JsonValue, calls: Seq<CallReply>, i: nat, j: nat) -> Flow<()> {
    then(
        session_conversation_spec(payload, calls, i, j),
        |conv: i64, i2: nat, j2: nat|
            then(
                call_step(
                    calls,
                    i2,
                    j2,
                    DriverCallView::ConversationUpdate(conv, json_str_or(payload, "summary"@, seq![])),
                ),
                |_o: DriverOutputView, i3: nat, j3: nat| Outcome::Finish((), i3, j3),
            ),
    )
}

/// `upsert_fact`: a string `content` is embedded and stored with its
/// embedding, or without one when the embedder gives none or an empty one.
pub open spec fn upsert_fact_op_spec(
    payload: JsonValue,
    calls: Seq<CallReply>,
    embeddings: Seq<Vec<Vec<u32>>>,
    i: nat,
    j: nat,
) -> Flow<()> {
    then(
        call_step(calls, i, j, DriverCallView::EntityCreate(json_str_or(payload, "entity_id"@, seq![]))),
        |e: DriverOutputView, i1: nat, j1: nat|
            match json_str_field(payload, "content"@) {
                None => Outcome::Finish((), i1, j1),
                Some(content) => then(
                    embed_step(embeddings, i1, j1, seq![content]),
                    |embs: Seq<Seq<u32>>, i2: nat, j2: nat|
                        if embs.len() > 0 && embs[0].len() > 0 {
                            fact_create_call_spec(id_or_zero(e), seq![content], seq![embs[0]], None, calls, i2, j2)
                        } else {
                            then(
                                call_step(
                                    calls,
                                    i2,
                                    j2,
                                    DriverCallView::EntityFactCreateWithoutEmbedding(id_or_zero(e), content),
                                ),
                                |_o: DriverOutputView, i3: nat, j3: nat| Outcome::Finish((), i3, j3),
                            )
                        },
                ),
            },
    )
}

/// The error for an operation type that no rule handles.
pub open spec fn unsupported_op_error(op_type: Seq<char>) -> ErrorView {
    ErrorView { code: UNSUPPORTED_OP_CODE@, message: UNSUPPORTED_OP_PREFIX@ + op_type }
}

/// One write operation, chosen by its type.
pub open spec fn op_spec(
    op_type: Seq<char>,
    payload: JsonValue,
    calls: Seq<CallReply>,
    embeddings: Seq<Vec<Vec<u32>>>,
    i: nat,
    j: nat,
) -> Flow<()> {
    if op_type == OP_CONVERSATION_MESSAGE_CREATE@ {
        message_create_op_spec(payload, calls, i, j)
    } else if op_type == OP_ENTITY_FACT_CREATE@ {
        fact_create_op_spec(payload, calls, embeddings, i, j)
    } else if op_type == OP_KNOWLEDGE_GRAPH_CREATE@ {
        knowledge_graph_op_spec(payload, calls, i, j)
    } else if op_type == OP_PROCESS_ATTRIBUTE_CREATE@ {
        process_attribute_op_spec(payload, calls, i, j)
    } else if op_type == OP_CONVERSATION_UPDATE@ {
        conversation_update_op_spec(payload, calls, i, j)
    } else if op_type == OP_UPSERT_FACT@ {
        upsert_fact_op_spec(payload, calls, embeddings, i, j)
    } else {
        Outcome::Fail(unsupported_op_error(op_type))
    }
}

/// The operations from the `k`-th on, one after another; the first failure
/// ends the batch.
pub open spec fn ops_from_spec(
    ops: Seq<WriteOp>,
    calls: Seq<CallReply>,
    embeddings: Seq<Vec<Vec<u32>>>,
    k: nat,
    i: nat,
    j: nat,
) -> Flow<()>
    decreases ops.len() - k,
{
    if k >= ops.len() {
        Outcome::Finish((), i, j)
    } else {
        match op_spec(ops[k as int].op_type@, ops[k as int].payload, calls, embeddings, i, j) {
            Outcome::Finish(_, i2, j2) => ops_from_spec(ops, calls, embeddings, k + 1, i2, j2),
            Outcome::Need(r) => Outcome::Need(r),
            Outcome::Fail(e) => Outcome::Fail(e),
        }
    }
}

pub open spec fn execute_batch_ops_spec(ops: Seq<WriteOp>, calls: Seq<CallReply>, embeddings: Seq<Vec<Vec<u32>>>) -> Flow<
    (),
> {
    ops_from_spec(ops, calls, embeddings, 0, 0, 0)
}

/// The result of a sub-flow, for the exec code: its value and where the
/// replies stand, or the step at which it stops.
pub open spec fn flow_result<'a, T, A: DeepView>(
    r: Result<(A, usize, usize), Step<ManagerRequest<'a>, T>>,
    o: Flow<A::V>,
) -> bool where T: DeepView {
    match r {
        Ok((a, i2, j2)) => o == Outcome::<ManagerRequestView, A::V>::Finish(a.deep_view(), i2 as nat, j2 as nat),
        Err(s) => stops(s.deep_view(), o),
    }
}

fn session_conversation<'a>(payload: &'a JsonValue, replies: &ManagerReplies, i: usize, j: usize) -> (r: Result<
    (i64, usize, usize),
    Step<ManagerRequest<'a>, ()>,
>)
    ensures
        flow_result(r, session_conversation_spec(*payload, replies.calls@, i as nat, j as nat)),
{
    proof {
        reveal_strlit("");
        assert(""@ =~= Seq::<char>::empty());
    }
    let conv_id = payload.str_field_or("conversation_id", "");
    let (s, i1, j1) = match run_driver_call(replies, i, j, DriverCall::SessionCreate(conv_id, None, None)) {
        Ok(x) => x,
        Err(st) => return Err(st),
    };
    let session_id = output_id_or_zero(s);
    let (c, i2, j2) = match run_driver_call(
        replies,
        i1,
        j1,
        DriverCall::ConversationCreate(session_id, CONVERSATION_TIMEOUT_MINUTES),
    ) {
        Ok(x) => x,
        Err(st) => return Err(st),
    };
    Ok((output_id_or_zero(c), i2, j2))
}

fn message_create_op<'a>(payload: &'a JsonValue, replies: &ManagerReplies, i: usize, j: usize) -> (r: Result<
    ((), usize, usize),
    Step<ManagerRequest<'a>, ()>,
>)
    ensures
        flow_result(r, message_create_op_spec(*payload, replies.calls@, i as nat, j as nat)),
{
    proof {
        reveal_strlit("");
        assert(""@ =~= Seq::<char>::empty());
    }
    let (conv, i1, j1) = match session_conversation(payload, replies, i, j) {
        Ok(x) => x,
        Err(st) => return Err(st),
    };
    match payload.array_field("messages") {
        None => Ok(((), i1, j1)),
        Some(messages) => {
            let mut k: usize = 0;
            let mut ii = i1;
            let mut jj = j1;
            while k < messages.len()
                invariant
                    0 <= k <= messages.len(),
                    ""@ == Seq::<char>::empty(),
                    message_create_op_spec(*payload, replies.calls@, i as nat, j as nat)
                        == message_calls_spec(conv, messages@, replies.calls@, k as nat, ii as nat, jj as nat),
                decreases messages.len() - k,
            {
                let m = &messages[k];
                let role = m.str_field_or("role", "");
                let content = m.str_field_or("content", "");
                match run_driver_call(replies, ii, jj, DriverCall::ConversationMessageCreate(conv, role, content)) {
                    Ok((_, i2, j2)) => {
                        ii = i2;
                        jj = j2;
                    },
                    Err(st) => return Err(st),
                }
                k = k + 1;
            }
            Ok(((), ii, jj))
        },
    }
}

fn fact_create_call<'a>(
    entity_id: i64,
    facts: Vec<String>,
    embeddings: Vec<Vec<u32>>,
    conversation_id: Option<i64>,
    replies: &ManagerReplies,
    i: usize,
    j: usize,
) -> (r: Result<((), usize, usize), Step<ManagerRequest<'a>, ()>>)
    ensures
        flow_result(
            r,
            fact_create_call_spec(
                entity_id,
                facts.deep_view(),
                embeddings.deep_view(),
                conversation_id,
                replies.calls@,
                i as nat,
                j as nat,
            ),
        ),
{
    match run_driver_call(replies, i, j, DriverCall::EntityFactCreate(entity_id, facts, embeddings, conversation_id)) {
        Ok((_, i1, j1)) => Ok(((), i1, j1)),
        Err(st) => Err(st),
    }
}

fn fact_create_rest<'a>(
    payload: &'a JsonValue,
    entity_id: i64,
    facts: Vec<String>,
    embeddings: Vec<Vec<u32>>,
    replies: &ManagerReplies,
    i: usize,
    j: usize,
) -> (r: Result<((), usize, usize), Step<ManagerRequest<'a>, ()>>)
    ensures
        flow_result(
            r,
            fact_create_rest_spec(
                *payload,
                entity_id,
                facts.deep_view(),
                embeddings.deep_view(),
                replies.calls@,
                i as nat,
                j as nat,
            ),
        ),
{
    match payload.str_field("conversation_id") {
        Some(conv) => {
            if !conv.is_empty() {
                let (s, i1, j1) = match run_driver_call(
                    replies,
                    i,
                    j,
                    DriverCall::SessionCreate(String::from_str(conv), Some(entity_id), None),
                ) {
                    Ok(x) => x,
                    Err(st) => return Err(st),
                };
                let (c, i2, j2) = match run_driver_call(
                    replies,
                    i1,
                    j1,
                    DriverCall::ConversationCreate(output_id_or_zero(s), CONVERSATION_TIMEOUT_MINUTES),
                ) {
                    Ok(x) => x,
                    Err(st) => return Err(st),
                };
                fact_create_call(entity_id, facts, embeddings, output_id(c), replies, i2, j2)
            } else {
                fact_create_call(entity_id, facts, embeddings, None, replies, i, j)
            }
        },
        None => fact_create_call(entity_id, facts, embeddings, None, replies, i, j),
    }
}

fn fact_create_op<'a>(payload: &'a JsonValue, replies: &ManagerReplies, i: usize, j: usize) -> (r: Result<
    ((), usize, usize),
    Step<ManagerRequest<'a>, ()>,
>)
    ensures
        flow_result(r, fact_create_op_spec(*payload, replies.calls@, replies.embeddings@, i as nat, j as nat)),
{
    proof {
        reveal_strlit("");
        assert(""@ =~= Seq::<char>::empty());
    }
    let entity = payload.str_field_or("entity_id", "");
    let (e, i1, j1) = match run_driver_call(replies, i, j, DriverCall::EntityCreate(entity)) {
        Ok(x) => x,
        Err(st) => return Err(st),
    };
    let entity_id = output_id_or_zero(e);
    let facts: Vec<String> = match payload.array_field("facts") {
        Some(items) => strings_from(items),
        None => Vec::new(),
    };
    assert(facts.deep_view() == facts_of(*payload));
    match payload.array_field("fact_embeddings") {
        Some(raw) => {
            let embeddings = embeddings_from(raw);
            fact_create_rest(payload, entity_id, facts, embeddings, replies, i1, j1)
        },
        None => {
            if facts.len() > 0 {
                let texts = duplicate_strings(&facts);
                let (embs, i2, j2) = match run_embed(replies, i1, j1, texts) {
                    Ok(x) => x,
                    Err(st) => return Err(st),
                };
                let embeddings = duplicate_embeddings(embs);
                fact_create_rest(payload, entity_id, facts, embeddings, replies, i2, j2)
            } else {
                let embeddings: Vec<Vec<u32>> = Vec::new();
                assert(embeddings.deep_view() =~= seq![]);
                fact_create_rest(payload, entity_id, facts, embeddings, replies, i1, j1)
            }
        },
    }
}

fn duplicate_strings(v: &Vec<String>) -> (r: Vec<String>)
    ensures
        r.deep_view() == v.deep_view(),
{
    let mut out: Vec<String> = Vec::new();
    let mut i: usize = 0;
    while i < v.len()
        invariant
            0 <= i <= v.len(),
            out.deep_view() == v.deep_view().take(i as int),
        decreases v.len() - i,
    {
        let c = v[i].clone();
        let ghost before = out;
        out.push(c);
        proof {
            crate::drivers::lemma_deep_view_push(before, out, c);
        }
        assert(out.deep_view() =~= v.deep_view().take(i + 1));
        i = i + 1;
    }
    assert(v.deep_view().take(v.len() as int) =~= v.deep_view());
    out
}

fn duplicate_u32s(v: &Vec<u32>) -> (r: Vec<u32>)
    ensures
        r@ == v@,
{
    let mut out: Vec<u32> = Vec::new();
    let mut i: usize = 0;
    while i < v.len()
        invariant
            0 <= i <= v.len(),
            out@ == v@.take(i as int),
        decreases v.len() - i,
    {
        out.push(v[i]);
        assert(out@ =~= v@.take(i + 1));
        i = i + 1;
    }
    assert(v@.take(v.len() as int) =~= v@);
    out
}

fn duplicate_embeddings(v: &Vec<Vec<u32>>) -> (r: Vec<Vec<u32>>)
    ensures
        r.deep_view() == v.deep_view(),
{
    let mut out: Vec<Vec<u32>> = Vec::new();
    let mut i: usize = 0;
    while i < v.len()
        invariant
            0 <= i <= v.len(),
            out.deep_view() == v.deep_view().take(i as int),
        decreases v.len() - i,
    {
        let c = duplicate_u32s(&v[i]);
        let ghost before = out;
        out.push(c);
        proof {
            crate::drivers::lemma_deep_view_push(before, out, c);
            assert(c.deep_view() =~= v@[i as int].deep_view());
        }
        assert(out.deep_view() =~= v.deep_view().take(i + 1));
        i = i + 1;
    }
    assert(v.deep_view().take(v.len() as int) =~= v.deep_view());
    out
}

fn knowledge_graph_op<'a>(payload: &'a JsonValue, replies: &ManagerReplies, i: usize, j: usize) -> (r: Result<
    ((), usize, usize),
    Step<ManagerRequest<'a>, ()>,
>)
    ensures
        flow_result(r, knowledge_graph_op_spec(*payload, replies.calls@, i as nat, j as nat)),
{
    proof {
        reveal_strlit("");
        assert(""@ =~= Seq::<char>::empty());
    }
    let entity = payload.str_field_or("entity_id", "");
    let (e, i1, j1) = match run_driver_call(replies, i, j, DriverCall::EntityCreate(entity)) {
        Ok(x) => x,
        Err(st) => return Err(st),
    };
    let triples = payload.array_field("semantic_triples");
    match run_driver_call(replies, i1, j1, DriverCall::KnowledgeGraphCreate(output_id_or_zero(e), triples)) {
        Ok((_, i2, j2)) => Ok(((), i2, j2)),
        Err(st) => Err(st),
    }
}

fn process_attribute_op<'a>(payload: &'a JsonValue, replies: &ManagerReplies, i: usize, j: usize) -> (r: Result<
    ((), usize, usize),
    Step<ManagerRequest<'a>, ()>,
>)
    ensures
        flow_result(r, process_attribute_op_spec(*payload, replies.calls@, i as nat, j as nat)),
{
    proof {
        reveal_strlit("");
        assert(""@ =~= Seq::<char>::empty());
    }
    let process = payload.str_field_or("process_id", "");
    let (p, i1, j1) = match run_driver_call(replies, i, j, DriverCall::ProcessCreate(process)) {
        Ok(x) => x,
        Err(st) => return Err(st),
    };
    let attributes = attributes_from(payload);
    match run_driver_call(replies, i1, j1, DriverCall::ProcessAttributeCreate(output_id_or_zero(p), attributes)) {
        Ok((_, i2, j2)) => Ok(((), i2, j2)),
        Err(st) => Err(st),
    }
}

fn conversation_update_op<'a>(payload: &'a JsonValue, replies: &ManagerReplies, i: usize, j: usize) -> (r: Result<
    ((), usize, usize),
    Step<ManagerRequest<'a>, ()>,
>)
    ensures
        flow_result(r, conversation_update_op_spec(*payload, replies.calls@, i as nat, j as nat)),
{
    proof {
        reveal_strlit("");
        assert(""@ =~= Seq::<char>::empty());
    }
    let (conv, i1, j1) = match session_conversation(payload, replies, i, j) {
        Ok(x) => x,
        Err(st) => return Err(st),
    };
    let summary = payload.str_field_or("summary", "");
    match run_driver_call(replies, i1, j1, DriverCall::ConversationUpdate(conv, summary)) {
        Ok((_, i2, j2)) => Ok(((), i2, j2)),
        Err(st) => Err(st),
    }
}

fn upsert_fact_op<'a>(payload: &'a JsonValue, replies: &ManagerReplies, i: usize, j: usize) -> (r: Result<
    ((), usize, usize),
    Step<ManagerRequest<'a>, ()>,
>)
    ensures
        flow_result(r, upsert_fact_op_spec(*payload, replies.calls@, replies.embeddings@, i as nat, j as nat)),
{
    proof {
        reveal_strlit("");
        assert(""@ =~= Seq::<char>::empty());
    }
    let entity = payload.str_field_or("entity_id", "");
    let (e, i1, j1) = match run_driver_call(replies, i, j, DriverCall::EntityCreate(entity)) {
        Ok(x) => x,
        Err(st) => return Err(st),
    };
    let entity_id = output_id_or_zero(e);
    match payload.str_field("content") {
        None => Ok(((), i1, j1)),
        Some(content) => {
            let texts = vec![String::from_str(content)];
            assert(texts.deep_view() =~= seq![content@]);
            let (embs, i2, j2) = match run_embed(replies, i1, j1, texts) {
                Ok(x) => x,
                Err(st) => return Err(st),
            };
            if embs.len() > 0 && embs[0].len() > 0 {
                let facts = vec![String::from_str(content)];
                let embeddings = vec![duplicate_u32s(&embs[0])];
                assert(facts.deep_view() =~= seq![content@]);
                assert(embeddings.deep_view() =~= seq![embs.deep_view()[0]]);
                fact_create_call(entity_id, facts, embeddings, None, replies, i2, j2)
            } else {
                match run_driver_call(
                    replies,
                    i2,
                    j2,
                    DriverCall::EntityFactCreateWithoutEmbedding(entity_id, String::from_str(content)),
                ) {
                    Ok((_, i3, j3)) => Ok(((), i3, j3)),
                    Err(st) => Err(st),
                }
            }
        },
    }
}

fn run_op<'a>(op: &'a WriteOp, replies: &ManagerReplies, i: usize, j: usize) -> (r: Result<
    ((), usize, usize),
    Step<ManagerRequest<'a>, ()>,
>)
    ensures
        flow_result(r, op_spec(op.op_type@, op.payload, replies.calls@, replies.embeddings@, i as nat, j as nat)),
{
    let t = &op.op_type;
    if *t == String::from_str(OP_CONVERSATION_MESSAGE_CREATE) {
        message_create_op(&op.payload, replies, i, j)
    } else if *t == String::from_str(OP_ENTITY_FACT_CREATE) {
        fact_create_op(&op.payload, replies, i, j)
    } else if *t == String::from_str(OP_KNOWLEDGE_GRAPH_CREATE) {
        knowledge_graph_op(&op.payload, replies, i, j)
    } else if *t == String::from_str(OP_PROCESS_ATTRIBUTE_CREATE) {
        process_attribute_op(&op.payload, replies, i, j)
    } else if *t == String::from_str(OP_CONVERSATION_UPDATE) {
        conversation_update_op(&op.payload, replies, i, j)
    } else if *t == String::from_str(OP_UPSERT_FACT) {
        upsert_fact_op(&op.payload, replies, i, j)
    } else {
        let mut message = String::from_str(UNSUPPORTED_OP_PREFIX);
        message.append(t.as_str());
        Err(Step::Done(Err(HostStorageError::new(String::from_str(UNSUPPORTED_OP_CODE), message))))
    }
}

/// Runs a batch's operations in order on one connection: one step.
pub fn execute_batch_ops<'a>(ops: &'a Vec<WriteOp>, replies: &ManagerReplies) -> (r: Step<ManagerRequest<'a>, ()>)
    ensures
        r.deep_view() == outcome_step(execute_batch_ops_spec(ops@, replies.calls@, replies.embeddings@)),
{
    let mut k: usize = 0;
    let mut i: usize = 0;
    let mut j: usize = 0;
    while k < ops.len()
        invariant
            0 <= k <= ops.len(),
            execute_batch_ops_spec(ops@, replies.calls@, replies.embeddings@) == ops_from_spec(
                ops@,
                replies.calls@,
                replies.embeddings@,
                k as nat,
                i as nat,
                j as nat,
            ),
        decreases ops.len() - k,
    {
        match run_op(&ops[k], replies, i, j) {
            Ok((_, i2, j2)) => {
                i = i2;
                j = j2;
            },
            Err(st) => return st,
        }
        k = k + 1;
    }
    Step::Done(Ok(()))
}

/// The messages a call gave; none if it gave something else.
pub open spec fn messages_in(o: DriverOutputView) -> Seq<(Seq<char>, Seq<char>)> {
    match o {
        DriverOutputView::Messages(m) => m,
        _ => seq![],
    }
}

pub open spec fn embedding_rows_in(o: DriverOutputView) -> Seq<EmbeddingRowView> {
    match o {
        DriverOutputView::Embeddings(e) => e,
        _ => seq![],
    }
}

pub open spec fn facts_in(o: DriverOutputView) -> Seq<CandidateFactRowView> {
    match o {
        DriverOutputView::Facts(f) => f,
        _ => seq![],
    }
}

/// The conversation history of a session: the session (created if need
/// be), its current conversation (created if need be), and its messages.
pub open spec fn conversation_history_spec(session_id: Seq<char>, calls: Seq<CallReply>) -> Flow<
    Seq<(Seq<char>, Seq<char>)>,
> {
    then(
        call_step(calls, 0, 0, DriverCallView::SessionCreate(session_id, None, None)),
        |s: DriverOutputView, i1: nat, j1: nat|
            then(
                call_step(calls, i1, j1, DriverCallView::ConversationCreate(id_or_zero(s), CONVERSATION_TIMEOUT_MINUTES)),
                |c: DriverOutputView, i2: nat, j2: nat|
                    then(
                        call_step(calls, i2, j2, DriverCallView::ConversationMessagesRead(id_or_zero(c))),
                        |m: DriverOutputView, i3: nat, j3: nat| Outcome::Finish(messages_in(m), i3, j3),
                    ),
            ),
    )
}

fn copy_messages(m: &Vec<(String, String)>) -> (r: Vec<(String, String)>)
    ensures
        r.deep_view() == m.deep_view(),
{
    let mut out: Vec<(String, String)> = Vec::new();
    let mut i: usize = 0;
    while i < m.len()
        invariant
            0 <= i <= m.len(),
            out.deep_view() == m.deep_view().take(i as int),
        decreases m.len() - i,
    {
        let x = (m[i].0.clone(), m[i].1.clone());
        let ghost before = out;
        out.push(x);
        proof {
            crate::drivers::lemma_deep_view_push(before, out, x);
        }
        assert(out.deep_view() =~= m.deep_view().take(i + 1));
        i = i + 1;
    }
    assert(m.deep_view().take(m.len() as int) =~= m.deep_view());
    out
}

/// One step of reading a session's conversation history as `(role, content)`
/// pairs.
pub fn get_conversation_history<'a>(session_id: &str, replies: &ManagerReplies) -> (r: Step<
    ManagerRequest<'a>,
    Vec<(String, String)>,
>)
    ensures
        r.deep_view() == outcome_step(conversation_history_spec(session_id@, replies.calls@)),
{
    let (s, i1, j1) = match run_driver_call(
        replies,
        0,
        0,
        DriverCall::SessionCreate(String::from_str(session_id), None, None),
    ) {
        Ok(x) => x,
        Err(st) => return st,
    };
    let (c, i2, j2) = match run_driver_call(
        replies,
        i1,
        j1,
        DriverCall::ConversationCreate(output_id_or_zero(s), CONVERSATION_TIMEOUT_MINUTES),
    ) {
        Ok(x) => x,
        Err(st) => return st,
    };
    let (m, _, _) = match run_driver_call(
        replies,
        i2,
        j2,
        DriverCall::ConversationMessagesRead(output_id_or_zero(c)),
    ) {
        Ok(x) => x,
        Err(st) => return st,
    };
    match m {
        DriverOutput::Messages(msgs) => Step::Done(Ok(copy_messages(msgs))),
        _ => {
            let none: Vec<(String, String)> = Vec::new();
            assert(none.deep_view() =~= seq![]);
            Step::Done(Ok(none))
        },
    }
}

/// The embeddings of an entity's recent facts; an unknown entity has none.
pub open spec fn fetch_embeddings_spec(entity_id: Seq<char>, limit: usize, calls: Seq<CallReply>) -> Flow<
    Seq<EmbeddingRowView>,
> {
    then(
        call_step(calls, 0, 0, DriverCallView::EntityGetId(entity_id)),
        |e: DriverOutputView, i1: nat, j1: nat|
            match id_of(e) {
                Some(id) => then(
                    call_step(calls, i1, j1, DriverCallView::EntityFactGetEmbeddings(id, limit)),
                    |r: DriverOutputView, i2: nat, j2: nat| Outcome::Finish(embedding_rows_in(r), i2, j2),
                ),
                None => Outcome::Finish(seq![], i1, j1),
            },
    )
}

/// One step of fetching at most `limit` fact embeddings of an entity.
pub fn fetch_embeddings<'a>(entity_id: &str, limit: usize, replies: &ManagerReplies) -> (r: Step<
    ManagerRequest<'a>,
    Vec<EmbeddingRow>,
>)
    ensures
        r.deep_view() == outcome_step(fetch_embeddings_spec(entity_id@, limit, replies.calls@)),
{
    let (e, i1, j1) = match run_driver_call(replies, 0, 0, DriverCall::EntityGetId(String::from_str(entity_id))) {
        Ok(x) => x,
        Err(st) => return st,
    };
    match output_id(e) {
        None => {
            let none: Vec<EmbeddingRow> = Vec::new();
            assert(none.deep_view() =~= seq![]);
            Step::Done(Ok(none))
        },
        Some(id) => {
            let (rows, _, _) = match run_driver_call(replies, i1, j1, DriverCall::EntityFactGetEmbeddings(id, limit)) {
                Ok(x) => x,
                Err(st) => return st,
            };
            let mut out: Vec<EmbeddingRow> = Vec::new();
            match rows {
                DriverOutput::Embeddings(v) => {
                    let mut i: usize = 0;
                    while i < v.len()
                        invariant
                            0 <= i <= v.len(),
                            out.deep_view() == v.deep_view().take(i as int),
                        decreases v.len() - i,
                    {
                        let x = v[i].duplicate();
                        let ghost before = out;
                        out.push(x);
                        proof {
                            crate::drivers::lemma_deep_view_push(before, out, x);
                        }
                        assert(out.deep_view() =~= v.deep_view().take(i + 1));
                        i = i + 1;
                    }
                    assert(v.deep_view().take(v.len() as int) =~= v.deep_view());
                },
                _ => {
                    assert(out.deep_view() =~= seq![]);
                },
            }
            Step::Done(Ok(out))
        },
    }
}

/// The facts with the given ids, with their summaries.
pub open spec fn fetch_facts_by_ids_spec(ids: Seq<FactIdView>, calls: Seq<CallReply>) -> Flow<
    Seq<CandidateFactRowView>,
> {
    then(
        call_step(calls, 0, 0, DriverCallView::EntityFactGetByIds(ids)),
        |f: DriverOutputView, i1: nat, j1: nat| Outcome::Finish(facts_in(f), i1, j1),
    )
}

/// One step of fetching facts by id.
pub fn fetch_facts_by_ids<'a>(ids: &Vec<FactId>, replies: &ManagerReplies) -> (r: Step<
    ManagerRequest<'a>,
    Vec<CandidateFactRow>,
>)
    ensures
        r.deep_view() == outcome_step(fetch_facts_by_ids_spec(ids.deep_view(), replies.calls@)),
{
    let mut id_list: Vec<FactId> = Vec::new();
    let mut i: usize = 0;
    while i < ids.len()
        invariant
            0 <= i <= ids.len(),
            id_list.deep_view() == ids.deep_view().take(i as int),
        decreases ids.len() - i,
    {
        let x = ids[i].duplicate();
        let ghost before = id_list;
        id_list.push(x);
        proof {
            crate::drivers::lemma_deep_view_push(before, id_list, x);
        }
        assert(id_list.deep_view() =~= ids.deep_view().take(i + 1));
        i = i + 1;
    }
    assert(ids.deep_view().take(ids.len() as int) =~= ids.deep_view());
    let (f, _, _) = match run_driver_call(replies, 0, 0, DriverCall::EntityFactGetByIds(id_list)) {
        Ok(x) => x,
        Err(st) => return st,
    };
    let mut out: Vec<CandidateFactRow> = Vec::new();
    match f {
        DriverOutput::Facts(v) => {
            let mut i: usize = 0;
            while i < v.len()
                invariant
                    0 <= i <= v.len(),
                    out.deep_view() == v.deep_view().take(i as int),
                decreases v.len() - i,
            {
                let x = v[i].duplicate();
                let ghost before = out;
                out.push(x);
                proof {
                    crate::drivers::lemma_deep_view_push(before, out, x);
                }
                assert(out.deep_view() =~= v.deep_view().take(i + 1));
                i = i + 1;
            }
            assert(v.deep_view().take(v.len() as int) =~= v.deep_view());
        },
        _ => {
            assert(out.deep_view() =~= seq![]);
        },
    }
    Step::Done(Ok(out))
}

} // verus!
