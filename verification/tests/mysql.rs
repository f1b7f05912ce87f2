use memori_storage::connection::{DbReplies, DbRequest, SqlBind, Statement, Step};
use memori_storage::drivers::mysql::run_call;
use memori_storage::drivers::{generate_uniq, DriverCall, DriverOutput};
use memori_storage::json::{JsonNumber, JsonValue};
use memori_storage::models::{FactId, HostStorageError};

fn num(n: i64) -> JsonValue {
    JsonValue::Number(JsonNumber {
        int: Some(n),
        uint: if n >= 0 { Some(n as u64) } else { None },
        float_to_int: n as f64 as i64,
        float_to_single: (n as f64 as f32).to_bits(),
    })
}

fn obj(fields: Vec<(&str, JsonValue)>) -> JsonValue {
    JsonValue::Object(fields.into_iter().map(|(k, v)| (k.to_string(), v)).collect())
}

fn s(v: &str) -> JsonValue {
    JsonValue::Str(v.to_string())
}

fn text(v: &str) -> String {
    format!("T:{v}")
}

/// Renders a bind for comparison.
fn bind(b: &SqlBind) -> String {
    match b {
        SqlBind::Null => "NULL".to_string(),
        SqlBind::Int(n) => format!("I:{n}"),
        SqlBind::Text(t) => text(t),
        SqlBind::Bytes(t) => format!("B:{t}"),
    }
}

fn binds(st: &Statement) -> Vec<String> {
    st.binds.iter().map(bind).collect()
}

struct Run {
    result: Result<DriverOutput, HostStorageError>,
    statements: Vec<Statement>,
}

/// Runs a driver call to its end; `db` answers the n-th statement.
fn run(call: &DriverCall, mut db: impl FnMut(usize, &Statement) -> Result<Vec<JsonValue>, HostStorageError>) -> Run {
    let mut replies = DbReplies { rows: vec![] };
    let mut statements = vec![];
    for _ in 0..1000 {
        let uuid = format!("uuid-{}", statements.len());
        match run_call(call, &replies, &uuid) {
            Step::Run(DbRequest::Execute(st)) => {
                let r = db(statements.len(), &st);
                statements.push(st);
                replies.rows.push(r);
            }
            Step::Done(result) => return Run { result, statements },
        }
    }
    panic!("driver call did not finish");
}

/// The uniqueness key of `terms`, as a text bind.
fn key(terms: &[&str]) -> String {
    text(&generate_uniq(&terms.iter().map(|t| t.to_string()).collect()))
}

fn id_of(r: &Result<DriverOutput, HostStorageError>) -> Option<i64> {
    match r {
        Ok(DriverOutput::Id(id)) => *id,
        other => panic!("not an id: {other:?}"),
    }
}

fn host_error() -> HostStorageError {
    HostStorageError::new("42000".to_string(), "syntax".to_string())
}

#[test]
fn schema_version_statements() {
    let r = run(&DriverCall::SchemaVersionRead, |_, _| Ok(vec![obj(vec![("num", num(3))])]));
    assert_eq!(id_of(&r.result), Some(3));
    assert_eq!(r.statements[0].sql, "SELECT num FROM memori_schema_version");
    let r = run(&DriverCall::SchemaVersionRead, |_, _| Ok(vec![]));
    assert_eq!(id_of(&r.result), None);
    let r = run(&DriverCall::SchemaVersionCreate(5), |_, _| Ok(vec![]));
    assert!(matches!(r.result, Ok(DriverOutput::Nothing)));
    assert_eq!(r.statements[0].sql, "INSERT INTO memori_schema_version(num) VALUES (?)");
    assert_eq!(binds(&r.statements[0]), vec!["I:5"]);
    let r = run(&DriverCall::SchemaVersionDelete, |_, _| Ok(vec![]));
    assert_eq!(r.statements[0].sql, "DELETE FROM memori_schema_version");
}

#[test]
fn entity_create_inserts_then_selects() {
    let r = run(&DriverCall::EntityCreate("user-1".to_string()), |n, _| {
        if n == 1 { Ok(vec![obj(vec![("id", num(7))])]) } else { Ok(vec![]) }
    });
    assert_eq!(id_of(&r.result), Some(7));
    assert_eq!(r.statements.len(), 2);
    assert_eq!(r.statements[0].sql, "INSERT IGNORE INTO memori_entity(uuid, external_id) VALUES (?, ?)");
    assert_eq!(binds(&r.statements[0]), vec![text("uuid-0"), text("user-1")]);
    assert_eq!(r.statements[1].sql, "SELECT id FROM memori_entity WHERE external_id = ?");
    assert_eq!(binds(&r.statements[1]), vec![text("user-1")]);
}

#[test]
fn entity_get_id_reads_string_ids() {
    let r = run(&DriverCall::EntityGetId("e".to_string()), |_, _| Ok(vec![obj(vec![("id", s("123"))])]));
    assert_eq!(id_of(&r.result), Some(123));
    assert_eq!(r.statements.len(), 1);
}

#[test]
fn process_and_session_create() {
    let r = run(&DriverCall::ProcessCreate("p".to_string()), |n, _| {
        if n == 1 { Ok(vec![obj(vec![("id", num(2))])]) } else { Ok(vec![]) }
    });
    assert_eq!(id_of(&r.result), Some(2));
    assert_eq!(r.statements[0].sql, "INSERT IGNORE INTO memori_process(uuid, external_id) VALUES (?, ?)");
    let r = run(&DriverCall::SessionCreate("s-uuid".to_string(), Some(4), None), |n, _| {
        if n == 1 { Ok(vec![obj(vec![("id", num(8))])]) } else { Ok(vec![]) }
    });
    assert_eq!(id_of(&r.result), Some(8));
    assert_eq!(
        r.statements[0].sql,
        "INSERT IGNORE INTO memori_session(uuid, entity_id, process_id) VALUES (?, ?, ?)"
    );
    assert_eq!(binds(&r.statements[0]), vec![text("s-uuid"), "I:4".to_string(), "NULL".to_string()]);
    assert_eq!(binds(&r.statements[1]), vec![text("s-uuid")]);
}

#[test]
fn errors_end_the_call() {
    let r = run(&DriverCall::EntityCreate("x".to_string()), |_, _| Err(host_error()));
    assert_eq!(r.statements.len(), 1);
    let e = r.result.unwrap_err();
    assert_eq!(e.code, "42000");
    assert_eq!(e.message, "syntax");
}

fn activity(last: JsonValue) -> Vec<JsonValue> {
    vec![obj(vec![("id", num(3)), ("last_activity", last)])]
}

#[test]
fn active_conversation_is_reused() {
    let r = run(&DriverCall::ConversationCreate(10, 30), |n, _| match n {
        0 => Ok(activity(s("2024-01-01 10:00:00"))),
        1 => Ok(vec![obj(vec![("minutes_since_activity", num(30))])]),
        _ => panic!("no more statements expected"),
    });
    assert_eq!(id_of(&r.result), Some(3));
    assert_eq!(r.statements.len(), 2);
    assert_eq!(binds(&r.statements[0]), vec!["I:10"]);
    assert_eq!(
        r.statements[1].sql,
        "SELECT TIMESTAMPDIFF(MINUTE, ?, CURRENT_TIMESTAMP) as minutes_since_activity"
    );
    assert_eq!(binds(&r.statements[1]), vec![text("2024-01-01 10:00:00")]);
}

#[test]
fn stale_conversation_is_replaced() {
    let r = run(&DriverCall::ConversationCreate(10, 30), |n, _| match n {
        0 => Ok(activity(s("2024-01-01 10:00:00"))),
        1 => Ok(vec![obj(vec![("minutes_since_activity", num(31))])]),
        2 => Ok(vec![]),
        3 => Ok(vec![obj(vec![("id", num(9))])]),
        _ => panic!("no more statements expected"),
    });
    assert_eq!(id_of(&r.result), Some(9));
    assert_eq!(r.statements.len(), 4);
    assert_eq!(r.statements[2].sql, "INSERT IGNORE INTO memori_conversation(uuid, session_id) VALUES (?, ?)");
    assert_eq!(binds(&r.statements[2]), vec![text("uuid-2"), "I:10".to_string()]);
    assert_eq!(r.statements[3].sql, "SELECT id FROM memori_conversation WHERE session_id = ?");
}

#[test]
fn conversation_is_created_without_usable_activity() {
    // No conversation yet.
    let r = run(&DriverCall::ConversationCreate(1, 30), |n, _| {
        if n == 2 { Ok(vec![obj(vec![("id", num(4))])]) } else { Ok(vec![]) }
    });
    assert_eq!(id_of(&r.result), Some(4));
    assert_eq!(r.statements.len(), 3);
    // A last activity that is not text.
    let r = run(&DriverCall::ConversationCreate(1, 30), |n, _| match n {
        0 => Ok(activity(JsonValue::Null)),
        2 => Ok(vec![obj(vec![("id", num(5))])]),
        _ => Ok(vec![]),
    });
    assert_eq!(id_of(&r.result), Some(5));
    assert_eq!(r.statements.len(), 3);
    // No elapsed minutes reported: treated as too long ago.
    let r = run(&DriverCall::ConversationCreate(1, 30), |n, _| match n {
        0 => Ok(activity(s("t"))),
        1 => Ok(vec![obj(vec![])]),
        3 => Ok(vec![obj(vec![("id", num(6))])]),
        _ => Ok(vec![]),
    });
    assert_eq!(id_of(&r.result), Some(6));
    assert_eq!(r.statements.len(), 4);
}

#[test]
fn empty_summary_sends_nothing() {
    let r = run(&DriverCall::ConversationUpdate(5, String::new()), |_, _| panic!("no statement expected"));
    assert!(matches!(r.result, Ok(DriverOutput::Nothing)));
    let r = run(&DriverCall::ConversationUpdate(5, "sum".to_string()), |_, _| Ok(vec![]));
    assert_eq!(r.statements[0].sql, "UPDATE memori_conversation SET summary = ? WHERE id = ?");
    assert_eq!(binds(&r.statements[0]), vec![text("sum"), "I:5".to_string()]);
}

#[test]
fn message_is_stored_as_text() {
    let r = run(&DriverCall::ConversationMessageCreate(2, "user".to_string(), "hi".to_string()), |_, _| Ok(vec![]));
    assert_eq!(
        r.statements[0].sql,
        "INSERT INTO memori_conversation_message(uuid, conversation_id, role, type, content) VALUES (?, ?, ?, ?, ?)"
    );
    assert_eq!(
        binds(&r.statements[0]),
        vec![text("uuid-0"), "I:2".to_string(), text("user"), text("text"), text("hi")]
    );
}

#[test]
fn messages_without_role_or_content_are_skipped() {
    let rows = || {
        vec![
            obj(vec![("role", s("user")), ("content", s("hi"))]),
            obj(vec![("role", s("user"))]),
            obj(vec![("role", num(1)), ("content", s("x"))]),
            obj(vec![("role", s("assistant")), ("content", s("hello"))]),
        ]
    };
    let r = run(&DriverCall::ConversationMessagesRead(2), move |_, _| Ok(rows()));
    match r.result {
        Ok(DriverOutput::Messages(m)) => assert_eq!(
            m,
            vec![("user".to_string(), "hi".to_string()), ("assistant".to_string(), "hello".to_string())]
        ),
        other => panic!("{other:?}"),
    }
    assert_eq!(
        r.statements[0].sql,
        "SELECT role, content FROM memori_conversation_message WHERE conversation_id = ? ORDER BY id"
    );
}

#[test]
fn facts_with_embeddings_are_upserted_and_linked() {
    let call = DriverCall::EntityFactCreate(
        7,
        vec!["likes tea".to_string(), "no vector".to_string(), "no entry".to_string()],
        vec![vec![1.0f32.to_bits()], vec![]],
        Some(5),
    );
    let r = run(&call, |n, _| if n == 1 { Ok(vec![obj(vec![("id", num(11))])]) } else { Ok(vec![]) });
    assert!(matches!(r.result, Ok(DriverOutput::Nothing)));
    assert_eq!(r.statements.len(), 3);
    assert!(r.statements[0].sql.starts_with("INSERT INTO memori_entity_fact("));
    assert!(r.statements[0].sql.ends_with("ON DUPLICATE KEY UPDATE num_times = num_times + 1, date_last_time = CURRENT_TIMESTAMP"));
    assert_eq!(
        binds(&r.statements[0]),
        vec![text("uuid-0"), "I:7".to_string(), text("likes tea"), "B:AACAPw==".to_string(), key(&["likes tea"])]
    );
    assert_eq!(r.statements[1].sql, "SELECT id FROM memori_entity_fact WHERE entity_id = ? AND uniq = ?");
    assert_eq!(binds(&r.statements[1]), vec!["I:7".to_string(), key(&["likes tea"])]);
    assert_eq!(
        r.statements[2].sql,
        "INSERT IGNORE INTO memori_entity_fact_mention(uuid, entity_id, fact_id, conversation_id) VALUES (?, ?, ?, ?)"
    );
    assert_eq!(binds(&r.statements[2]), vec![text("uuid-2"), "I:7".to_string(), "I:11".to_string(), "I:5".to_string()]);
}

#[test]
fn facts_without_conversation_are_only_upserted() {
    let call = DriverCall::EntityFactCreate(7, vec!["a".to_string(), "b".to_string()], vec![vec![0], vec![0, 0]], None);
    let r = run(&call, |_, _| Ok(vec![]));
    assert_eq!(r.statements.len(), 2);
    assert_eq!(binds(&r.statements[1])[4], key(&["b"]));
    // A fact whose id cannot be read again is not linked.
    let call = DriverCall::EntityFactCreate(7, vec!["a".to_string()], vec![vec![0]], Some(1));
    let r = run(&call, |_, _| Ok(vec![]));
    assert_eq!(r.statements.len(), 2);
}

#[test]
fn fact_without_embedding_has_empty_blob() {
    let r = run(&DriverCall::EntityFactCreateWithoutEmbedding(3, "fact".to_string()), |_, _| Ok(vec![]));
    assert_eq!(
        binds(&r.statements[0]),
        vec![text("uuid-0"), "I:3".to_string(), text("fact"), "B:".to_string(), key(&["fact"])]
    );
}

#[test]
fn embeddings_rows_need_an_id_and_a_vector() {
    let r = run(&DriverCall::EntityFactGetEmbeddings(2, 50), |_, _| {
        Ok(vec![
            obj(vec![("id", num(1)), ("content_embedding", s("AAA="))]),
            obj(vec![("id", num(2)), ("content_embedding", s(""))]),
            obj(vec![("content_embedding", s("CCC="))]),
            obj(vec![("id", s("4")), ("content_embedding", s("DDD="))]),
            obj(vec![("id", num(5))]),
        ])
    });
    match r.result {
        Ok(DriverOutput::Embeddings(rows)) => {
            assert_eq!(rows.len(), 2);
            assert!(matches!(rows[0].id, FactId::Int(1)));
            assert_eq!(rows[0].content_embedding_b64.as_deref(), Some("AAA="));
            assert!(matches!(rows[1].id, FactId::Int(4)));
            assert_eq!(rows[1].content_embedding_b64.as_deref(), Some("DDD="));
        }
        other => panic!("{other:?}"),
    }
    assert_eq!(binds(&r.statements[0]), vec!["I:2", "I:50"]);
    assert!(r.statements[0].sql.ends_with("ORDER BY date_last_time DESC, num_times DESC, id DESC LIMIT ?"));
}

#[test]
fn facts_by_ids_carry_their_summaries() {
    let ids = vec![FactId::Int(1), FactId::String("2".to_string())];
    let r = run(&DriverCall::EntityFactGetByIds(ids), |n, _| match n {
        0 => Ok(vec![
            obj(vec![("id", num(1)), ("content", s("c1")), ("date_created", s("d1"))]),
            obj(vec![("id", s("2")), ("content", s("c2"))]),
            obj(vec![("id", num(3))]),
        ]),
        1 => Ok(vec![
            obj(vec![("fact_id", num(2)), ("content", s("s2")), ("date_created", s("sd"))]),
            obj(vec![("fact_id", num(1)), ("content", s("s1"))]),
            obj(vec![("fact_id", num(9)), ("content", s("lost"))]),
            obj(vec![("fact_id", num(1))]),
        ]),
        _ => panic!("no more statements expected"),
    });
    assert_eq!(
        r.statements[0].sql,
        "SELECT id, content, date_created FROM memori_entity_fact WHERE id IN (?,?)"
    );
    assert_eq!(binds(&r.statements[0]), vec!["I:1".to_string(), text("2")]);
    assert!(r.statements[1].sql.contains("WHERE m.fact_id IN (?,?) AND c.summary IS NOT NULL AND c.summary <> ''"));
    match r.result {
        Ok(DriverOutput::Facts(facts)) => {
            assert_eq!(facts.len(), 2);
            assert_eq!(facts[0].content, "c1");
            assert_eq!(facts[0].date_created, "d1");
            assert_eq!(facts[0].summaries.len(), 1);
            assert_eq!(facts[0].summaries[0].content, "s1");
            assert_eq!(facts[0].summaries[0].date_created, "");
            assert_eq!(facts[1].content, "c2");
            assert_eq!(facts[1].date_created, "");
            assert_eq!(facts[1].summaries[0].content, "s2");
            assert_eq!(facts[1].summaries[0].date_created, "sd");
        }
        other => panic!("{other:?}"),
    }
}

#[test]
fn facts_by_ids_edge_cases() {
    let r = run(&DriverCall::EntityFactGetByIds(vec![]), |_, _| panic!("no statement expected"));
    assert!(matches!(r.result, Ok(DriverOutput::Facts(ref f)) if f.is_empty()));
    let r = run(&DriverCall::EntityFactGetByIds(vec![FactId::Int(1)]), |_, _| Ok(vec![]));
    assert_eq!(r.statements.len(), 1);
    assert_eq!(r.statements[0].sql, "SELECT id, content, date_created FROM memori_entity_fact WHERE id IN (?)");
    assert!(matches!(r.result, Ok(DriverOutput::Facts(ref f)) if f.is_empty()));
}

#[test]
fn knowledge_graph_records_triples() {
    let triples = vec![
        obj(vec![
            ("subject", s("alice")),
            ("predicate", s("likes")),
            ("object", obj(vec![("name", s("tea")), ("type", s("drink"))])),
        ]),
        obj(vec![("subject", obj(vec![])), ("object", num(1))]),
    ];
    let r = run(&DriverCall::KnowledgeGraphCreate(4, Some(&triples)), |n, st| {
        if st.sql.starts_with("SELECT") { Ok(vec![obj(vec![("id", num(100 + n as i64))])]) } else { Ok(vec![]) }
    });
    assert!(matches!(r.result, Ok(DriverOutput::Nothing)));
    assert_eq!(r.statements.len(), 14);
    assert_eq!(r.statements[0].sql, "INSERT IGNORE INTO memori_subject(uuid, name, type, uniq) VALUES (?, ?, ?, ?)");
    assert_eq!(
        binds(&r.statements[0]),
        vec![text("uuid-0"), text("alice"), text("entity"), key(&["alice", "entity"])]
    );
    assert_eq!(binds(&r.statements[1]), vec![key(&["alice", "entity"])]);
    assert_eq!(r.statements[2].sql, "INSERT IGNORE INTO memori_predicate(uuid, content, uniq) VALUES (?, ?, ?)");
    assert_eq!(r.statements[4].sql, "INSERT IGNORE INTO memori_object(uuid, name, type, uniq) VALUES (?, ?, ?, ?)");
    assert_eq!(binds(&r.statements[4]), vec![text("uuid-4"), text("tea"), text("drink"), key(&["tea", "drink"])]);
    assert!(r.statements[6].sql.starts_with("INSERT INTO memori_knowledge_graph("));
    assert_eq!(
        binds(&r.statements[6]),
        vec![text("uuid-6"), "I:4".to_string(), "I:101".to_string(), "I:103".to_string(), "I:105".to_string()]
    );
}

#[test]
fn triple_without_subject_id_is_skipped() {
    let triples = vec![obj(vec![("subject", s("a")), ("predicate", s("p")), ("object", s("b"))])];
    let r = run(&DriverCall::KnowledgeGraphCreate(4, Some(&triples)), |_, _| Ok(vec![]));
    assert!(matches!(r.result, Ok(DriverOutput::Nothing)));
    assert_eq!(r.statements.len(), 2);
    let r = run(&DriverCall::KnowledgeGraphCreate(4, None), |_, _| panic!("no statement expected"));
    assert!(matches!(r.result, Ok(DriverOutput::Nothing)));
}

#[test]
fn process_attributes_are_upserted() {
    let r = run(&DriverCall::ProcessAttributeCreate(6, vec!["fast".to_string(), "kind".to_string()]), |_, _| Ok(vec![]));
    assert_eq!(binds(&r.statements[0])[3], key(&["fast"]));
    assert_eq!(r.statements.len(), 2);
    assert!(r.statements[0].sql.starts_with("INSERT INTO memori_process_attribute("));
    assert_eq!(binds(&r.statements[1]), vec![text("uuid-1"), "I:6".to_string(), text("kind"), key(&["kind"])]);
}
