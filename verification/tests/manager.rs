use memori_storage::connection::Step;
use memori_storage::drivers::{DriverCall, DriverOutput};
use memori_storage::json::{JsonNumber, JsonValue};
use memori_storage::manager::{
    execute_batch_ops, fetch_embeddings, fetch_facts_by_ids, get_conversation_history, ManagerReplies, ManagerRequest,
};
use memori_storage::models::{CandidateFactRow, EmbeddingRow, FactId, HostStorageError, WriteOp};

fn num(n: i64) -> JsonValue {
    JsonValue::Number(JsonNumber {
        int: Some(n),
        uint: if n >= 0 { Some(n as u64) } else { None },
        float_to_int: n as f64 as i64,
        float_to_single: (n as f64 as f32).to_bits(),
    })
}

fn float(f: f64) -> JsonValue {
    JsonValue::Number(JsonNumber { int: None, uint: None, float_to_int: f as i64, float_to_single: (f as f32).to_bits() })
}

fn obj(fields: Vec<(&str, JsonValue)>) -> JsonValue {
    JsonValue::Object(fields.into_iter().map(|(k, v)| (k.to_string(), v)).collect())
}

fn s(v: &str) -> JsonValue {
    JsonValue::Str(v.to_string())
}

fn arr(items: Vec<JsonValue>) -> JsonValue {
    JsonValue::Array(items)
}

fn op(op_type: &str, payload: JsonValue) -> WriteOp {
    WriteOp { op_type: op_type.to_string(), payload }
}

fn describe(c: &DriverCall) -> String {
    match c {
        DriverCall::EntityCreate(e) => format!("entity_create({e})"),
        DriverCall::EntityGetId(e) => format!("entity_get_id({e})"),
        DriverCall::ProcessCreate(p) => format!("process_create({p})"),
        DriverCall::SessionCreate(u, e, p) => format!("session_create({u},{e:?},{p:?})"),
        DriverCall::ConversationCreate(s, t) => format!("conversation_create({s},{t})"),
        DriverCall::ConversationUpdate(c, s) => format!("conversation_update({c},{s})"),
        DriverCall::ConversationMessageCreate(c, r, t) => format!("message_create({c},{r},{t})"),
        DriverCall::ConversationMessagesRead(c) => format!("messages_read({c})"),
        DriverCall::EntityFactCreate(e, f, v, c) => format!("fact_create({e},{f:?},{v:?},{c:?})"),
        DriverCall::EntityFactCreateWithoutEmbedding(e, c) => format!("fact_create_plain({e},{c})"),
        DriverCall::EntityFactGetEmbeddings(e, l) => format!("get_embeddings({e},{l})"),
        DriverCall::EntityFactGetByIds(ids) => format!("get_by_ids({})", ids.len()),
        DriverCall::KnowledgeGraphCreate(e, t) => format!("knowledge_graph({e},{})", t.as_ref().map_or(0, |v| v.len())),
        DriverCall::ProcessAttributeCreate(p, a) => format!("attributes({p},{a:?})"),
        DriverCall::SchemaVersionRead => "schema_read".to_string(),
        DriverCall::SchemaVersionDelete => "schema_delete".to_string(),
        DriverCall::SchemaVersionCreate(n) => format!("schema_create({n})"),
    }
}

/// Answers id-returning calls with increasing ids from 100.
fn ids_from_100(n: usize, c: &DriverCall) -> Result<DriverOutput, HostStorageError> {
    match c {
        DriverCall::EntityCreate(_)
        | DriverCall::ProcessCreate(_)
        | DriverCall::SessionCreate(..)
        | DriverCall::ConversationCreate(..)
        | DriverCall::EntityGetId(_) => Ok(DriverOutput::Id(Some(100 + n as i64))),
        _ => Ok(DriverOutput::Nothing),
    }
}

struct Batch {
    result: Result<(), HostStorageError>,
    calls: Vec<String>,
    embedded: Vec<Vec<String>>,
}

fn run_batch(
    ops: &Vec<WriteOp>,
    mut answer: impl FnMut(usize, &DriverCall) -> Result<DriverOutput, HostStorageError>,
    mut embed: impl FnMut(&Vec<String>) -> Vec<Vec<u32>>,
) -> Batch {
    let mut replies = ManagerReplies { calls: vec![], embeddings: vec![] };
    let mut calls = vec![];
    let mut embedded = vec![];
    for _ in 0..1000 {
        match execute_batch_ops(ops, &replies) {
            Step::Run(ManagerRequest::Call(c)) => {
                let r = answer(calls.len(), &c);
                calls.push(describe(&c));
                replies.calls.push(r);
            }
            Step::Run(ManagerRequest::Embed(texts)) => {
                replies.embeddings.push(embed(&texts));
                embedded.push(texts);
            }
            Step::Done(result) => return Batch { result, calls, embedded },
        }
    }
    panic!("batch did not finish");
}

fn no_embedder(_: &Vec<String>) -> Vec<Vec<u32>> {
    vec![]
}

#[test]
fn empty_batch_does_nothing() {
    let b = run_batch(&vec![], ids_from_100, no_embedder);
    assert!(b.result.is_ok());
    assert!(b.calls.is_empty());
}

#[test]
fn conversation_messages_go_to_the_current_conversation() {
    let ops = vec![op(
        "conversation_message.create",
        obj(vec![
            ("conversation_id", s("sess-1")),
            ("messages", arr(vec![obj(vec![("role", s("user")), ("content", s("hi"))]), obj(vec![("content", num(3))])])),
        ]),
    )];
    let b = run_batch(&ops, ids_from_100, no_embedder);
    assert!(b.result.is_ok());
    assert_eq!(
        b.calls,
        vec![
            "session_create(sess-1,None,None)",
            "conversation_create(100,30)",
            "message_create(101,user,hi)",
            "message_create(101,,)",
        ]
    );
}

#[test]
fn missing_ids_become_zero() {
    let ops = vec![op("conversation.update", obj(vec![("summary", s("talked"))]))];
    let b = run_batch(&ops, |_, _| Ok(DriverOutput::Id(None)), no_embedder);
    assert_eq!(
        b.calls,
        vec!["session_create(,None,None)", "conversation_create(0,30)", "conversation_update(0,talked)"]
    );
}

#[test]
fn facts_use_caller_embeddings() {
    let ops = vec![op(
        "entity_fact.create",
        obj(vec![
            ("entity_id", s("u1")),
            ("facts", arr(vec![s("a"), num(1), s("b")])),
            ("fact_embeddings", arr(vec![arr(vec![float(0.5), s("x"), num(2)]), s("bad")])),
            ("conversation_id", s("c9")),
        ]),
    )];
    let b = run_batch(&ops, ids_from_100, |_| panic!("the embedder is not asked"));
    assert!(b.result.is_ok());
    let half = 0.5f32.to_bits();
    let two = 2.0f32.to_bits();
    assert_eq!(
        b.calls,
        vec![
            "entity_create(u1)".to_string(),
            "session_create(c9,Some(100),None)".to_string(),
            "conversation_create(101,30)".to_string(),
            format!("fact_create(100,[\"a\", \"b\"],[[{half}, {two}], []],Some(102))"),
        ]
    );
}

#[test]
fn facts_without_embeddings_ask_the_embedder() {
    let ops = vec![op("entity_fact.create", obj(vec![("entity_id", s("u1")), ("facts", arr(vec![s("a")]))]))];
    let b = run_batch(&ops, ids_from_100, |texts| texts.iter().map(|_| vec![7u32]).collect());
    assert_eq!(b.embedded, vec![vec!["a".to_string()]]);
    assert_eq!(b.calls, vec!["entity_create(u1)", "fact_create(100,[\"a\"],[[7]],None)"]);
    // Without facts the embedder is not asked; an empty conversation id links nothing.
    let ops = vec![op("entity_fact.create", obj(vec![("conversation_id", s(""))]))];
    let b = run_batch(&ops, ids_from_100, |_| panic!("the embedder is not asked"));
    assert_eq!(b.calls, vec!["entity_create()", "fact_create(100,[],[],None)"]);
}

#[test]
fn knowledge_graph_and_attributes() {
    let ops = vec![
        op(
            "knowledge_graph.create",
            obj(vec![("entity_id", s("u1")), ("semantic_triples", arr(vec![obj(vec![]), obj(vec![])]))]),
        ),
        op("process_attribute.create", obj(vec![("process_id", s("p")), ("attributes", arr(vec![s("x"), num(1)]))])),
        op(
            "process_attribute.create",
            obj(vec![("attributes", obj(vec![("k1", s("v1")), ("k2", JsonValue::Null), ("k3", s("v3"))]))]),
        ),
        op("process_attribute.create", obj(vec![("attributes", s("nope"))])),
    ];
    let b = run_batch(&ops, ids_from_100, no_embedder);
    assert!(b.result.is_ok());
    assert_eq!(
        b.calls,
        vec![
            "entity_create(u1)",
            "knowledge_graph(100,2)",
            "process_create(p)",
            "attributes(102,[\"x\"])",
            "process_create()",
            "attributes(104,[\"v1\", \"v3\"])",
            "process_create()",
            "attributes(106,[])",
        ]
    );
}

#[test]
fn upsert_fact_embeds_its_content() {
    let ops = vec![op("upsert_fact", obj(vec![("entity_id", s("u")), ("content", s("sky is blue"))]))];
    let b = run_batch(&ops, ids_from_100, |_| vec![vec![1, 2]]);
    assert_eq!(b.embedded, vec![vec!["sky is blue".to_string()]]);
    assert_eq!(b.calls, vec!["entity_create(u)", "fact_create(100,[\"sky is blue\"],[[1, 2]],None)"]);
    // No embedder, or an empty embedding: stored without one.
    let b = run_batch(&ops, ids_from_100, no_embedder);
    assert_eq!(b.calls, vec!["entity_create(u)", "fact_create_plain(100,sky is blue)"]);
    let b = run_batch(&ops, ids_from_100, |_| vec![vec![]]);
    assert_eq!(b.calls, vec!["entity_create(u)", "fact_create_plain(100,sky is blue)"]);
    // Without string content only the entity is created.
    let ops = vec![op("upsert_fact", obj(vec![("entity_id", s("u")), ("content", num(1))]))];
    let b = run_batch(&ops, ids_from_100, |_| panic!("the embedder is not asked"));
    assert_eq!(b.calls, vec!["entity_create(u)"]);
}

#[test]
fn unknown_op_fails_the_batch() {
    let ops = vec![
        op("upsert_fact", obj(vec![])),
        op("entity.delete", obj(vec![])),
        op("upsert_fact", obj(vec![])),
    ];
    let b = run_batch(&ops, ids_from_100, no_embedder);
    let e = b.result.unwrap_err();
    assert_eq!(e.code, "UNSUPPORTED_OP");
    assert_eq!(e.message, "unsupported write op type: entity.delete");
    assert_eq!(b.calls, vec!["entity_create()"]);
}

#[test]
fn a_failed_call_fails_the_batch() {
    let ops = vec![
        op("conversation.update", obj(vec![])),
        op("upsert_fact", obj(vec![])),
    ];
    let b = run_batch(
        &ops,
        |n, c| if n == 1 { Err(HostStorageError::new("40001".to_string(), "retry".to_string())) } else { ids_from_100(n, c) },
        no_embedder,
    );
    assert_eq!(b.result.unwrap_err().code, "40001");
    assert_eq!(b.calls.len(), 2);
}

fn run_read<T>(
    mut step: impl FnMut(&ManagerReplies) -> Step<ManagerRequest<'static>, T>,
    mut answer: impl FnMut(usize, &DriverCall) -> Result<DriverOutput, HostStorageError>,
) -> (Result<T, HostStorageError>, Vec<String>) {
    let mut replies = ManagerReplies { calls: vec![], embeddings: vec![] };
    let mut calls = vec![];
    for _ in 0..100 {
        match step(&replies) {
            Step::Run(ManagerRequest::Call(c)) => {
                let r = answer(calls.len(), &c);
                calls.push(describe(&c));
                replies.calls.push(r);
            }
            Step::Run(ManagerRequest::Embed(_)) => panic!("reads do not embed"),
            Step::Done(result) => return (result, calls),
        }
    }
    panic!("read did not finish");
}

#[test]
fn conversation_history_reads_the_current_conversation() {
    let (r, calls) = run_read(
        |replies| get_conversation_history("sess", replies),
        |n, c| match c {
            DriverCall::ConversationMessagesRead(_) => {
                Ok(DriverOutput::Messages(vec![("user".to_string(), "hi".to_string())]))
            }
            _ => ids_from_100(n, c),
        },
    );
    assert_eq!(r.unwrap(), vec![("user".to_string(), "hi".to_string())]);
    assert_eq!(calls, vec!["session_create(sess,None,None)", "conversation_create(100,30)", "messages_read(101)"]);
}

#[test]
fn embeddings_of_an_unknown_entity_are_empty() {
    let (r, calls) = run_read(|replies| fetch_embeddings("nobody", 10, replies), |_, _| Ok(DriverOutput::Id(None)));
    assert!(r.unwrap().is_empty());
    assert_eq!(calls, vec!["entity_get_id(nobody)"]);
    let (r, calls) = run_read(
        |replies| fetch_embeddings("u", 10, replies),
        |n, c| match c {
            DriverCall::EntityFactGetEmbeddings(..) => Ok(DriverOutput::Embeddings(vec![EmbeddingRow {
                id: FactId::Int(5),
                content_embedding_b64: Some("AAAA".to_string()),
            }])),
            _ => ids_from_100(n, c),
        },
    );
    let rows = r.unwrap();
    assert_eq!(rows.len(), 1);
    assert_eq!(rows[0].content_embedding_b64.as_deref(), Some("AAAA"));
    assert_eq!(calls, vec!["entity_get_id(u)", "get_embeddings(100,10)"]);
}

#[test]
fn facts_by_ids_pass_through() {
    let ids = vec![FactId::Int(1), FactId::String("x".to_string())];
    let (r, calls) = run_read(
        |replies| fetch_facts_by_ids(&ids, replies),
        |_, _| {
            Ok(DriverOutput::Facts(vec![CandidateFactRow {
                id: FactId::Int(1),
                content: "c".to_string(),
                date_created: "d".to_string(),
                summaries: vec![],
            }]))
        },
    );
    assert_eq!(r.unwrap()[0].content, "c");
    assert_eq!(calls, vec!["get_by_ids(2)"]);
}

#[test]
fn read_errors_are_returned() {
    let (r, _) = run_read(
        |replies| get_conversation_history("s", replies),
        |_, _| Err(HostStorageError::new("E".to_string(), "m".to_string())),
    );
    assert_eq!(r.unwrap_err().message, "m");
}
