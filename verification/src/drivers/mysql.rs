//! The statements that the MySQL driver sends, and how it reads the replies.
//!
//! Each operation is a step function: given the replies received so far
//! (`replies`) and a fresh UUID for any row it inserts now (`fresh_uuid`),
//! it returns the next request for the host or the operation's result. Its
//! contract is the exchange itself, written as a spec function.

use vstd::prelude::*;

use crate::connection::{
    BindView, DbReplies, DbRequest, DbRequestView, Outcome, SqlBind, StepView, Step, outcome_step,
};
use crate::connection::base64_standard;
use crate::drivers::{
    DriverCall, DriverCallView, DriverOutput, DriverOutputView, RowsReply, call_fits, embeddings_fit, map_output, embedding_to_bytes, exec_step, le_bytes, lemma_deep_view_push, lemma_le_bytes_len, run_statement, generate_uniq,
    statement, stmt, text, then, key_step, hex_text,
};
use crate::json::{
    JsonValue, first_id, first_row_id, json_get, json_str_field, json_str_or, read_id, read_id_spec,
};
use crate::models::{
    ErrorView, HostStorageError, CandidateFactRow, CandidateFactRowView, EmbeddingRow, EmbeddingRowView, FactId, FactIdView, FactSummary,
    FactSummaryView,
};

verus! {

pub const SQL_SCHEMA_VERSION_READ: &'static str = "SELECT num FROM memori_schema_version";
pub const SQL_SCHEMA_VERSION_DELETE: &'static str = "DELETE FROM memori_schema_version";
pub const SQL_SCHEMA_VERSION_CREATE: &'static str = "INSERT INTO memori_schema_version(num) VALUES (?)";
pub const SQL_ENTITY_GET_ID: &'static str = "SELECT id FROM memori_entity WHERE external_id = ?";
pub const SQL_ENTITY_INSERT: &'static str = "INSERT IGNORE INTO memori_entity(uuid, external_id) VALUES (?, ?)";
pub const SQL_PROCESS_INSERT: &'static str = "INSERT IGNORE INTO memori_process(uuid, external_id) VALUES (?, ?)";
pub const SQL_PROCESS_GET_ID: &'static str = "SELECT id FROM memori_process WHERE external_id = ?";
pub const SQL_SESSION_INSERT: &'static str = "INSERT IGNORE INTO memori_session(uuid, entity_id, process_id) VALUES (?, ?, ?)";
pub const SQL_SESSION_GET_ID: &'static str = "SELECT id FROM memori_session WHERE uuid = ?";
pub const SQL_CONVERSATION_LAST_ACTIVITY: &'static str = "SELECT c.id, COALESCE(MAX(m.date_created), c.date_created) as last_activity \
     FROM memori_conversation c \
     LEFT JOIN memori_conversation_message m ON m.conversation_id = c.id \
     WHERE c.session_id = ? GROUP BY c.id, c.date_created";
pub const SQL_MINUTES_SINCE_ACTIVITY: &'static str = "SELECT TIMESTAMPDIFF(MINUTE, ?, CURRENT_TIMESTAMP) as minutes_since_activity";
pub const SQL_CONVERSATION_INSERT: &'static str = "INSERT IGNORE INTO memori_conversation(uuid, session_id) VALUES (?, ?)";
pub const SQL_CONVERSATION_GET_ID: &'static str = "SELECT id FROM memori_conversation WHERE session_id = ?";
pub const SQL_CONVERSATION_UPDATE: &'static str = "UPDATE memori_conversation SET summary = ? WHERE id = ?";
pub const SQL_MESSAGE_INSERT: &'static str = "INSERT INTO memori_conversation_message(uuid, conversation_id, role, type, content) VALUES (?, ?, ?, ?, ?)";
pub const SQL_MESSAGES_READ: &'static str = "SELECT role, content FROM memori_conversation_message WHERE conversation_id = ? ORDER BY id";
pub const MESSAGE_TYPE_TEXT: &'static str = "text";

/// The id of the first row, after an insert and a select.
pub open spec fn insert_then_id_spec(
    rows: Seq<RowsReply>,
    i: nat,
    insert: crate::connection::StatementView,
    select: crate::connection::StatementView,
) -> Outcome<DbRequestView, Option<i64>> {
    then(
        exec_step(rows, i, 0, insert),
        |_r: Seq<JsonValue>, i1: nat, j1: nat|
            then(
                exec_step(rows, i1, j1, select),
                |found: Seq<JsonValue>, i2: nat, j2: nat|
                    Outcome::Finish(first_id(found, "id"@), i2, j2),
            ),
    )
}

fn insert_then_id(
    replies: &DbReplies,
    i: usize,
    insert: crate::connection::Statement,
    select: crate::connection::Statement,
) -> (r: Result<(Option<i64>, usize), Step<DbRequest, Option<i64>>>)
    ensures
        match r {
            Ok((id, i2)) => insert_then_id_spec(replies.rows@, i as nat, insert.deep_view(), select.deep_view())
                == Outcome::<DbRequestView, Option<i64>>::Finish(id, i2 as nat, 0),
            Err(s) => s.deep_view() == outcome_step(
                insert_then_id_spec(replies.rows@, i as nat, insert.deep_view(), select.deep_view()),
            ),
        },
{
    let ghost ins = insert.deep_view();
    let ghost sel = select.deep_view();
    let (_, i1, j1) = match run_statement(replies, i, 0, insert) {
        Ok(x) => x,
        Err(s) => return Err(s),
    };
    let (found, i2, j2) = match run_statement(replies, i1, j1, select) {
        Ok(x) => x,
        Err(s) => return Err(s),
    };
    assert(j2 == 0);
    Ok((first_row_id(found, "id"), i2))
}

pub open spec fn schema_version_read_spec(rows: Seq<RowsReply>) -> Outcome<DbRequestView, Option<i64>> {
    then(
        exec_step(rows, 0, 0, stmt(SQL_SCHEMA_VERSION_READ@, seq![])),
        |found: Seq<JsonValue>, i: nat, j: nat| Outcome::Finish(first_id(found, "num"@), i, j),
    )
}

/// Reads the schema version: the `num` of the first row, if any.
pub fn schema_version_read(replies: &DbReplies) -> (r: Step<DbRequest, Option<i64>>)
    ensures
        r.deep_view() == outcome_step(schema_version_read_spec(replies.rows@)),
{
    let st = statement(SQL_SCHEMA_VERSION_READ, Vec::new());
    assert(st.deep_view().binds =~= seq![]);
    match run_statement(replies, 0, 0, st) {
        Ok((found, _, _)) => Step::Done(Ok(first_row_id(found, "num"))),
        Err(s) => s,
    }
}

pub open spec fn single_statement_spec(rows: Seq<RowsReply>, st: crate::connection::StatementView) -> Outcome<
    DbRequestView,
    (),
> {
    then(exec_step(rows, 0, 0, st), |_r: Seq<JsonValue>, i: nat, j: nat| Outcome::Finish((), i, j))
}

fn single_statement(replies: &DbReplies, st: crate::connection::Statement) -> (r: Step<DbRequest, ()>)
    ensures
        r.deep_view() == outcome_step(single_statement_spec(replies.rows@, st.deep_view())),
{
    let ghost sv = st.deep_view();
    match run_statement(replies, 0, 0, st) {
        Ok(_) => Step::Done(Ok(())),
        Err(s) => s,
    }
}

/// Deletes the schema version rows.
pub fn schema_version_delete(replies: &DbReplies) -> (r: Step<DbRequest, ()>)
    ensures
        r.deep_view() == outcome_step(
            single_statement_spec(replies.rows@, stmt(SQL_SCHEMA_VERSION_DELETE@, seq![])),
        ),
{
    let st = statement(SQL_SCHEMA_VERSION_DELETE, Vec::new());
    assert(st.deep_view().binds =~= seq![]);
    single_statement(replies, st)
}

/// Records schema version `num`.
pub fn schema_version_create(num: i64, replies: &DbReplies) -> (r: Step<DbRequest, ()>)
    ensures
        r.deep_view() == outcome_step(
            single_statement_spec(replies.rows@, stmt(SQL_SCHEMA_VERSION_CREATE@, seq![BindView::Int(num)])),
        ),
{
    let st = statement(SQL_SCHEMA_VERSION_CREATE, vec![SqlBind::Int(num)]);
    assert(st.deep_view().binds =~= seq![BindView::Int(num)]);
    single_statement(replies, st)
}

pub open spec fn entity_get_id_spec(external_id: Seq<char>, rows: Seq<RowsReply>) -> Outcome<
    DbRequestView,
    Option<i64>,
> {
    then(
        exec_step(rows, 0, 0, stmt(SQL_ENTITY_GET_ID@, seq![BindView::Text(external_id)])),
        |found: Seq<JsonValue>, i: nat, j: nat| Outcome::Finish(first_id(found, "id"@), i, j),
    )
}

/// Looks up the internal id of the entity with this external id.
pub fn entity_get_id(external_id: &str, replies: &DbReplies) -> (r: Step<DbRequest, Option<i64>>)
    ensures
        r.deep_view() == outcome_step(entity_get_id_spec(external_id@, replies.rows@)),
{
    let st = statement(SQL_ENTITY_GET_ID, vec![text(external_id)]);
    assert(st.deep_view().binds =~= seq![BindView::Text(external_id@)]);
    match run_statement(replies, 0, 0, st) {
        Ok((found, _, _)) => Step::Done(Ok(first_row_id(found, "id"))),
        Err(s) => s,
    }
}

pub open spec fn entity_create_spec(external_id: Seq<char>, rows: Seq<RowsReply>, uuid: Seq<char>) -> Outcome<
    DbRequestView,
    Option<i64>,
> {
    insert_then_id_spec(
        rows,
        0,
        stmt(SQL_ENTITY_INSERT@, seq![BindView::Text(uuid), BindView::Text(external_id)]),
        stmt(SQL_ENTITY_GET_ID@, seq![BindView::Text(external_id)]),
    )
}

/// Creates the entity unless it exists, then reads its id.
pub fn entity_create(external_id: &str, replies: &DbReplies, fresh_uuid: &str) -> (r: Step<DbRequest, Option<i64>>)
    ensures
        r.deep_view() == outcome_step(entity_create_spec(external_id@, replies.rows@, fresh_uuid@)),
{
    let ins = statement(SQL_ENTITY_INSERT, vec![text(fresh_uuid), text(external_id)]);
    let sel = statement(SQL_ENTITY_GET_ID, vec![text(external_id)]);
    assert(ins.deep_view().binds =~= seq![BindView::Text(fresh_uuid@), BindView::Text(external_id@)]);
    assert(sel.deep_view().binds =~= seq![BindView::Text(external_id@)]);
    match insert_then_id(replies, 0, ins, sel) {
        Ok((id, _)) => Step::Done(Ok(id)),
        Err(s) => s,
    }
}

pub open spec fn process_create_spec(external_id: Seq<char>, rows: Seq<RowsReply>, uuid: Seq<char>) -> Outcome<
    DbRequestView,
    Option<i64>,
> {
    insert_then_id_spec(
        rows,
        0,
        stmt(SQL_PROCESS_INSERT@, seq![BindView::Text(uuid), BindView::Text(external_id)]),
        stmt(SQL_PROCESS_GET_ID@, seq![BindView::Text(external_id)]),
    )
}

/// Creates the process unless it exists, then reads its id.
pub fn process_create(external_id: &str, replies: &DbReplies, fresh_uuid: &str) -> (r: Step<DbRequest, Option<i64>>)
    ensures
        r.deep_view() == outcome_step(process_create_spec(external_id@, replies.rows@, fresh_uuid@)),
{
    let ins = statement(SQL_PROCESS_INSERT, vec![text(fresh_uuid), text(external_id)]);
    let sel = statement(SQL_PROCESS_GET_ID, vec![text(external_id)]);
    assert(ins.deep_view().binds =~= seq![BindView::Text(fresh_uuid@), BindView::Text(external_id@)]);
    assert(sel.deep_view().binds =~= seq![BindView::Text(external_id@)]);
    match insert_then_id(replies, 0, ins, sel) {
        Ok((id, _)) => Step::Done(Ok(id)),
        Err(s) => s,
    }
}

pub open spec fn session_create_spec(
    uuid: Seq<char>,
    entity_id: Option<i64>,
    process_id: Option<i64>,
    rows: Seq<RowsReply>,
) -> Outcome<DbRequestView, Option<i64>> {
    insert_then_id_spec(
        rows,
        0,
        stmt(
            SQL_SESSION_INSERT@,
            seq![
                BindView::Text(uuid),
                crate::connection::id_or_null_view(entity_id),
                crate::connection::id_or_null_view(process_id),
            ],
        ),
        stmt(SQL_SESSION_GET_ID@, seq![BindView::Text(uuid)]),
    )
}

/// Creates the session with this UUID unless it exists, then reads its id.
pub fn session_create(uuid: &str, entity_id: Option<i64>, process_id: Option<i64>, replies: &DbReplies) -> (r:
    Step<DbRequest, Option<i64>>)
    ensures
        r.deep_view() == outcome_step(session_create_spec(uuid@, entity_id, process_id, replies.rows@)),
{
    let ins = statement(
        SQL_SESSION_INSERT,
        vec![text(uuid), SqlBind::id_or_null(entity_id), SqlBind::id_or_null(process_id)],
    );
    let sel = statement(SQL_SESSION_GET_ID, vec![text(uuid)]);
    assert(ins.deep_view().binds =~= seq![
        BindView::Text(uuid@),
        crate::connection::id_or_null_view(entity_id),
        crate::connection::id_or_null_view(process_id),
    ]);
    assert(sel.deep_view().binds =~= seq![BindView::Text(uuid@)]);
    match insert_then_id(replies, 0, ins, sel) {
        Ok((id, _)) => Step::Done(Ok(id)),
        Err(s) => s,
    }
}

/// Minutes since the conversation's last activity, as the host reports them;
/// a missing or non-numeric value counts as the longest possible time.
pub open spec fn minutes_since_spec(row: JsonValue) -> i64 {
    match json_get(row, "minutes_since_activity"@) {
        Some(JsonValue::Number(n)) => match n.int {
            Some(m) => m,
            None => n.float_to_int,
        },
        _ => i64::MAX,
    }
}

fn minutes_since(row: &JsonValue) -> (r: i64)
    ensures
        r == minutes_since_spec(*row),
{
    match row.get("minutes_since_activity") {
        Some(JsonValue::Number(n)) => match n.int {
            Some(m) => m,
            None => n.float_to_int,
        },
        _ => i64::MAX,
    }
}

pub open spec fn conversation_insert_spec(session_id: i64, rows: Seq<RowsReply>, i: nat, uuid: Seq<char>) -> Outcome<
    DbRequestView,
    Option<i64>,
> {
    insert_then_id_spec(
        rows,
        i,
        stmt(SQL_CONVERSATION_INSERT@, seq![BindView::Text(uuid), BindView::Int(session_id)]),
        stmt(SQL_CONVERSATION_GET_ID@, seq![BindView::Int(session_id)]),
    )
}

/// The session's conversation is reused when its last activity lies no more
/// than `timeout_minutes` minutes back; otherwise a new one is created.
pub open spec fn conversation_create_spec(
    session_id: i64,
    timeout_minutes: i64,
    rows: Seq<RowsReply>,
    uuid: Seq<char>,
) -> Outcome<DbRequestView, Option<i64>> {
    then(
        exec_step(rows, 0, 0, stmt(SQL_CONVERSATION_LAST_ACTIVITY@, seq![BindView::Int(session_id)])),
        |existing: Seq<JsonValue>, i1: nat, j1: nat|
            if existing.len() > 0 && json_str_field(existing[0], "last_activity"@) is Some {
                then(
                    exec_step(
                        rows,
                        i1,
                        j1,
                        stmt(
                            SQL_MINUTES_SINCE_ACTIVITY@,
                            seq![BindView::Text(json_str_field(existing[0], "last_activity"@)->0)],
                        ),
                    ),
                    |elapsed: Seq<JsonValue>, i2: nat, j2: nat|
                        if elapsed.len() > 0 && minutes_since_spec(elapsed[0]) <= timeout_minutes {
                            Outcome::Finish(read_id_spec(existing[0], "id"@), i2, j2)
                        } else {
                            conversation_insert_spec(session_id, rows, i2, uuid)
                        },
                )
            } else {
                conversation_insert_spec(session_id, rows, i1, uuid)
            },
    )
}

fn conversation_insert(session_id: i64, replies: &DbReplies, i: usize, fresh_uuid: &str) -> (r: Step<
    DbRequest,
    Option<i64>,
>)
    ensures
        r.deep_view() == outcome_step(conversation_insert_spec(session_id, replies.rows@, i as nat, fresh_uuid@)),
{
    let ins = statement(SQL_CONVERSATION_INSERT, vec![text(fresh_uuid), SqlBind::Int(session_id)]);
    let sel = statement(SQL_CONVERSATION_GET_ID, vec![SqlBind::Int(session_id)]);
    assert(ins.deep_view().binds =~= seq![BindView::Text(fresh_uuid@), BindView::Int(session_id)]);
    assert(sel.deep_view().binds =~= seq![BindView::Int(session_id)]);
    match insert_then_id(replies, i, ins, sel) {
        Ok((id, _)) => Step::Done(Ok(id)),
        Err(s) => s,
    }
}

/// Finds the session's conversation if it is still active, else creates one.
pub fn conversation_create(session_id: i64, timeout_minutes: i64, replies: &DbReplies, fresh_uuid: &str) -> (r:
    Step<DbRequest, Option<i64>>)
    ensures
        r.deep_view() == outcome_step(
            conversation_create_spec(session_id, timeout_minutes, replies.rows@, fresh_uuid@),
        ),
{
    let st = statement(SQL_CONVERSATION_LAST_ACTIVITY, vec![SqlBind::Int(session_id)]);
    assert(st.deep_view().binds =~= seq![BindView::Int(session_id)]);
    let (existing, i1, j1) = match run_statement(replies, 0, 0, st) {
        Ok(x) => x,
        Err(s) => return s,
    };
    if existing.len() > 0 {
        let row = &existing[0];
        if let Some(last_activity) = row.str_field("last_activity") {
            let st2 = statement(SQL_MINUTES_SINCE_ACTIVITY, vec![text(last_activity)]);
            assert(st2.deep_view().binds =~= seq![BindView::Text(last_activity@)]);
            let (elapsed, i2, j2) = match run_statement(replies, i1, j1, st2) {
                Ok(x) => x,
                Err(s) => return s,
            };
            if elapsed.len() > 0 {
                let minutes = minutes_since(&elapsed[0]);
                if minutes <= timeout_minutes {
                    return Step::Done(Ok(read_id(row, "id")));
                }
            }
            return conversation_insert(session_id, replies, i2, fresh_uuid);
        }
    }
    conversation_insert(session_id, replies, i1, fresh_uuid)
}

/// Sets the conversation's summary; an empty summary changes nothing and
/// sends nothing.
pub open spec fn conversation_update_spec(id: i64, summary: Seq<char>, rows: Seq<RowsReply>) -> Outcome<
    DbRequestView,
    (),
> {
    if summary.len() == 0 {
        Outcome::Finish((), 0, 0)
    } else {
        single_statement_spec(
            rows,
            stmt(SQL_CONVERSATION_UPDATE@, seq![BindView::Text(summary), BindView::Int(id)]),
        )
    }
}

pub fn conversation_update(id: i64, summary: &str, replies: &DbReplies) -> (r: Step<DbRequest, ()>)
    ensures
        r.deep_view() == outcome_step(conversation_update_spec(id, summary@, replies.rows@)),
{
    if summary.is_empty() {
        return Step::Done(Ok(()));
    }
    let st = statement(SQL_CONVERSATION_UPDATE, vec![text(summary), SqlBind::Int(id)]);
    assert(st.deep_view().binds =~= seq![BindView::Text(summary@), BindView::Int(id)]);
    single_statement(replies, st)
}

pub open spec fn conversation_message_create_spec(
    conversation_id: i64,
    role: Seq<char>,
    content: Seq<char>,
    rows: Seq<RowsReply>,
    uuid: Seq<char>,
) -> Outcome<DbRequestView, ()> {
    single_statement_spec(
        rows,
        stmt(
            SQL_MESSAGE_INSERT@,
            seq![
                BindView::Text(uuid),
                BindView::Int(conversation_id),
                BindView::Text(role),
                BindView::Text(MESSAGE_TYPE_TEXT@),
                BindView::Text(content),
            ],
        ),
    )
}

/// Stores one text message of the conversation.
pub fn conversation_message_create(
    conversation_id: i64,
    role: &str,
    content: &str,
    replies: &DbReplies,
    fresh_uuid: &str,
) -> (r: Step<DbRequest, ()>)
    ensures
        r.deep_view() == outcome_step(
            conversation_message_create_spec(conversation_id, role@, content@, replies.rows@, fresh_uuid@),
        ),
{
    let st = statement(
        SQL_MESSAGE_INSERT,
        vec![text(fresh_uuid), SqlBind::Int(conversation_id), text(role), text(MESSAGE_TYPE_TEXT), text(content)],
    );
    assert(st.deep_view().binds =~= seq![
        BindView::Text(fresh_uuid@),
        BindView::Int(conversation_id),
        BindView::Text(role@),
        BindView::Text(MESSAGE_TYPE_TEXT@),
        BindView::Text(content@),
    ]);
    single_statement(replies, st)
}

/// A row's `(role, content)`, when both are strings.
pub open spec fn message_of(row: JsonValue) -> Option<(Seq<char>, Seq<char>)> {
    match (json_str_field(row, "role"@), json_str_field(row, "content"@)) {
        (Some(role), Some(content)) => Some((role, content)),
        _ => None,
    }
}

/// The `(role, content)` of every row that has both, in row order.
pub open spec fn messages_of(rows: Seq<JsonValue>) -> Seq<(Seq<char>, Seq<char>)>
    decreases rows.len(),
{
    if rows.len() == 0 {
        seq![]
    } else {
        messages_of(rows.drop_last()) + match message_of(rows.last()) {
            Some(m) => seq![m],
            None => seq![],
        }
    }
}

fn messages_from_rows(rows: &Vec<JsonValue>) -> (r: Vec<(String, String)>)
    ensures
        r.deep_view() == messages_of(rows@),
{
    let mut out: Vec<(String, String)> = Vec::new();
    let mut i: usize = 0;
    while i < rows.len()
        invariant
            0 <= i <= rows.len(),
            out.deep_view() == messages_of(rows@.take(i as int)),
        decreases rows.len() - i,
    {
        let row = &rows[i];
        proof {
            assert(rows@.take(i + 1).drop_last() =~= rows@.take(i as int));
            assert(rows@.take(i + 1).last() == *row);
        }
        match (row.str_field("role"), row.str_field("content")) {
            (Some(role), Some(content)) => {
                out.push((String::from_str(role), String::from_str(content)));
            },
            _ => {},
        }
        assert(out.deep_view() =~= messages_of(rows@.take(i + 1)));
        i = i + 1;
    }
    assert(rows@.take(rows.len() as int) =~= rows@);
    out
}

pub open spec fn conversation_messages_read_spec(conversation_id: i64, rows: Seq<RowsReply>) -> Outcome<
    DbRequestView,
    Seq<(Seq<char>, Seq<char>)>,
> {
    then(
        exec_step(rows, 0, 0, stmt(SQL_MESSAGES_READ@, seq![BindView::Int(conversation_id)])),
        |found: Seq<JsonValue>, i: nat, j: nat| Outcome::Finish(messages_of(found), i, j),
    )
}

/// Reads the conversation's messages in order.
pub fn conversation_messages_read(conversation_id: i64, replies: &DbReplies) -> (r: Step<
    DbRequest,
    Vec<(String, String)>,
>)
    ensures
        r.deep_view() == outcome_step(conversation_messages_read_spec(conversation_id, replies.rows@)),
{
    let st = statement(SQL_MESSAGES_READ, vec![SqlBind::Int(conversation_id)]);
    assert(st.deep_view().binds =~= seq![BindView::Int(conversation_id)]);
    match run_statement(replies, 0, 0, st) {
        Ok((found, _, _)) => Step::Done(Ok(messages_from_rows(found))),
        Err(s) => s,
    }
}

pub const SQL_FACT_UPSERT: &'static str = "INSERT INTO memori_entity_fact(uuid, entity_id, content, content_embedding, num_times, date_last_time, uniq) \
     VALUES (?, ?, ?, ?, 1, CURRENT_TIMESTAMP, ?) \
     ON DUPLICATE KEY UPDATE num_times = num_times + 1, date_last_time = CURRENT_TIMESTAMP";
pub const SQL_FACT_GET_ID: &'static str = "SELECT id FROM memori_entity_fact WHERE entity_id = ? AND uniq = ?";
pub const SQL_FACT_MENTION_INSERT: &'static str = "INSERT IGNORE INTO memori_entity_fact_mention(uuid, entity_id, fact_id, conversation_id) VALUES (?, ?, ?, ?)";

/// The embedding given for fact `i`; a missing one is empty.
pub open spec fn embedding_at(embeddings: Seq<Seq<u32>>, i: int) -> Seq<u32> {
    if 0 <= i < embeddings.len() {
        embeddings[i]
    } else {
        seq![]
    }
}

/// One fact: skipped when its embedding is empty; otherwise upserted under
/// the uniqueness key of its text, and, when a conversation is given,
/// linked to it as a mention once its id is found.
pub open spec fn fact_item_spec(
    entity_id: i64,
    fact: Seq<char>,
    embedding: Seq<u32>,
    conversation_id: Option<i64>,
    rows: Seq<RowsReply>,
    uuid: Seq<char>,
    i: nat,
    j: nat,
) -> Outcome<DbRequestView, ()> {
    if embedding.len() == 0 {
        Outcome::Finish((), i, j)
    } else {
        then(
            key_step(i, j, seq![fact]),
            |key: Seq<char>, i1: nat, j1: nat|
                then(
                    exec_step(
                        rows,
                        i1,
                        j1,
                        stmt(
                            SQL_FACT_UPSERT@,
                            seq![
                                BindView::Text(uuid),
                                BindView::Int(entity_id),
                                BindView::Text(fact),
                                BindView::Bytes(base64_standard(le_bytes(embedding))),
                                BindView::Text(key),
                            ],
                        ),
                    ),
                    |_r: Seq<JsonValue>, i2: nat, j2: nat|
                        match conversation_id {
                            None => Outcome::Finish((), i2, j2),
                            Some(conv) => then(
                                exec_step(
                                    rows,
                                    i2,
                                    j2,
                                    stmt(SQL_FACT_GET_ID@, seq![BindView::Int(entity_id), BindView::Text(key)]),
                                ),
                                |found: Seq<JsonValue>, i3: nat, j3: nat|
                                    match first_id(found, "id"@) {
                                        None => Outcome::Finish((), i3, j3),
                                        Some(fact_id) => then(
                                            exec_step(
                                                rows,
                                                i3,
                                                j3,
                                                stmt(
                                                    SQL_FACT_MENTION_INSERT@,
                                                    seq![
                                                        BindView::Text(uuid),
                                                        BindView::Int(entity_id),
                                                        BindView::Int(fact_id),
                                                        BindView::Int(conv),
                                                    ],
                                                ),
                                            ),
                                            |_m: Seq<JsonValue>, i4: nat, j4: nat| Outcome::Finish((), i4, j4),
                                        ),
                                    },
                            ),
                        },
                ),
        )
    }
}

/// The facts from the `k`-th on, one after another.
pub open spec fn facts_from_spec(
    entity_id: i64,
    facts: Seq<Seq<char>>,
    embeddings: Seq<Seq<u32>>,
    conversation_id: Option<i64>,
    rows: Seq<RowsReply>,
    uuid: Seq<char>,
    k: nat,
    i: nat,
    j: nat,
) -> Outcome<DbRequestView, ()>
    decreases facts.len() - k,
{
    if k >= facts.len() {
        Outcome::Finish((), i, j)
    } else {
        match fact_item_spec(
            entity_id,
            facts[k as int],
            embedding_at(embeddings, k as int),
            conversation_id,
            rows,
            uuid,
            i,
            j,
        ) {
            Outcome::Finish(_, i2, j2) => facts_from_spec(
                entity_id,
                facts,
                embeddings,
                conversation_id,
                rows,
                uuid,
                k + 1,
                i2,
                j2,
            ),
            Outcome::Need(r) => Outcome::Need(r),
            Outcome::Fail(e) => Outcome::Fail(e),
        }
    }
}

pub open spec fn entity_fact_create_spec(
    entity_id: i64,
    facts: Seq<Seq<char>>,
    embeddings: Seq<Seq<u32>>,
    conversation_id: Option<i64>,
    rows: Seq<RowsReply>,
    uuid: Seq<char>,
) -> Outcome<DbRequestView, ()> {
    facts_from_spec(entity_id, facts, embeddings, conversation_id, rows, uuid, 0, 0, 0)
}

fn fact_item(
    entity_id: i64,
    fact: &String,
    embedding: &Vec<u32>,
    conversation_id: Option<i64>,
    replies: &DbReplies,
    fresh_uuid: &str,
    i: usize,
    j: usize,
) -> (r: Result<(usize, usize), Step<DbRequest, ()>>)
    requires
        embedding@.len() <= usize::MAX / 8,
    ensures
        match r {
            Ok((i2, j2)) => fact_item_spec(
                entity_id,
                fact@,
                embedding@,
                conversation_id,
                replies.rows@,
                fresh_uuid@,
                i as nat,
                j as nat,
            ) == Outcome::<DbRequestView, ()>::Finish((), i2 as nat, j2 as nat),
            Err(s) => !(fact_item_spec(
                entity_id,
                fact@,
                embedding@,
                conversation_id,
                replies.rows@,
                fresh_uuid@,
                i as nat,
                j as nat,
            ) is Finish) && s.deep_view() == outcome_step(
                fact_item_spec(
                    entity_id,
                    fact@,
                    embedding@,
                    conversation_id,
                    replies.rows@,
                    fresh_uuid@,
                    i as nat,
                    j as nat,
                ),
            ),
        },
{
    if embedding.len() == 0 {
        return Ok((i, j));
    }
    let bytes = embedding_to_bytes(embedding);
    let terms = vec![fact.clone()];
    assert(terms.deep_view() =~= seq![fact@]);
    let (key, i1, j1) = (generate_uniq(&terms), i, j);
    let blob = SqlBind::bytes(bytes.as_slice());
    let st = statement(
        SQL_FACT_UPSERT,
        vec![text(fresh_uuid), SqlBind::Int(entity_id), SqlBind::Text(fact.clone()), blob, SqlBind::Text(key.clone())],
    );
    assert(st.deep_view().binds =~= seq![
        BindView::Text(fresh_uuid@),
        BindView::Int(entity_id),
        BindView::Text(fact@),
        BindView::Bytes(base64_standard(le_bytes(embedding@))),
        BindView::Text(key@),
    ]);
    let (_, i2, j2) = match run_statement(replies, i1, j1, st) {
        Ok(x) => x,
        Err(s) => return Err(s),
    };
    match conversation_id {
        None => Ok((i2, j2)),
        Some(conv) => {
            let sel = statement(SQL_FACT_GET_ID, vec![SqlBind::Int(entity_id), SqlBind::Text(key.clone())]);
            assert(sel.deep_view().binds =~= seq![BindView::Int(entity_id), BindView::Text(key@)]);
            let (found, i3, j3) = match run_statement(replies, i2, j2, sel) {
                Ok(x) => x,
                Err(s) => return Err(s),
            };
            match first_row_id(found, "id") {
                None => Ok((i3, j3)),
                Some(fact_id) => {
                    let ins = statement(
                        SQL_FACT_MENTION_INSERT,
                        vec![text(fresh_uuid), SqlBind::Int(entity_id), SqlBind::Int(fact_id), SqlBind::Int(conv)],
                    );
                    assert(ins.deep_view().binds =~= seq![
                        BindView::Text(fresh_uuid@),
                        BindView::Int(entity_id),
                        BindView::Int(fact_id),
                        BindView::Int(conv),
                    ]);
                    match run_statement(replies, i3, j3, ins) {
                        Ok((_, i4, j4)) => Ok((i4, j4)),
                        Err(s) => Err(s),
                    }
                },
            }
        },
    }
}

/// Stores each fact that has a non-empty embedding, and links it to the
/// conversation when one is given.
pub fn entity_fact_create(
    entity_id: i64,
    facts: &Vec<String>,
    embeddings: &Vec<Vec<u32>>,
    conversation_id: Option<i64>,
    replies: &DbReplies,
    fresh_uuid: &str,
) -> (r: Step<DbRequest, ()>)
    requires
        embeddings_fit(embeddings.deep_view()),
    ensures
        r.deep_view() == outcome_step(
            entity_fact_create_spec(
                entity_id,
                facts.deep_view(),
                embeddings.deep_view(),
                conversation_id,
                replies.rows@,
                fresh_uuid@,
            ),
        ),
{
    let empty: Vec<u32> = Vec::new();
    let mut k: usize = 0;
    let mut i: usize = 0;
    let mut j: usize = 0;
    while k < facts.len()
        invariant
            0 <= k <= facts.len(),
            embeddings_fit(embeddings.deep_view()),
            empty@ == Seq::<u32>::empty(),
            entity_fact_create_spec(
                entity_id,
                facts.deep_view(),
                embeddings.deep_view(),
                conversation_id,
                replies.rows@,
                fresh_uuid@,
            ) == facts_from_spec(
                entity_id,
                facts.deep_view(),
                embeddings.deep_view(),
                conversation_id,
                replies.rows@,
                fresh_uuid@,
                k as nat,
                i as nat,
                j as nat,
            ),
        decreases facts.len() - k,
    {
        let embedding: &Vec<u32> = if k < embeddings.len() {
            &embeddings[k]
        } else {
            &empty
        };
        assert(embedding@ == embedding_at(embeddings.deep_view(), k as int));
        assert(facts.deep_view()[k as int] == facts[k as int]@);
        match fact_item(entity_id, &facts[k], embedding, conversation_id, replies, fresh_uuid, i, j) {
            Ok((i2, j2)) => {
                i = i2;
                j = j2;
            },
            Err(s) => return s,
        }
        k = k + 1;
    }
    Step::Done(Ok(()))
}

pub open spec fn entity_fact_create_without_embedding_spec(
    entity_id: i64,
    content: Seq<char>,
    rows: Seq<RowsReply>,
    uuid: Seq<char>,
) -> Outcome<DbRequestView, ()> {
    then(
        key_step(0, 0, seq![content]),
        |key: Seq<char>, i1: nat, j1: nat|
            then(
                exec_step(
                    rows,
                    i1,
                    j1,
                    stmt(
                        SQL_FACT_UPSERT@,
                        seq![
                            BindView::Text(uuid),
                            BindView::Int(entity_id),
                            BindView::Text(content),
                            BindView::Bytes(base64_standard(seq![])),
                            BindView::Text(key),
                        ],
                    ),
                ),
                |_r: Seq<JsonValue>, i2: nat, j2: nat| Outcome::Finish((), i2, j2),
            ),
    )
}

/// Stores a fact with an empty embedding.
pub fn entity_fact_create_without_embedding(
    entity_id: i64,
    content: &str,
    replies: &DbReplies,
    fresh_uuid: &str,
) -> (r: Step<DbRequest, ()>)
    ensures
        r.deep_view() == outcome_step(
            entity_fact_create_without_embedding_spec(
                entity_id,
                content@,
                replies.rows@,
                fresh_uuid@,
            ),
        ),
{
    let terms = vec![String::from_str(content)];
    assert(terms.deep_view() =~= seq![content@]);
    let (key, i1, j1) = (generate_uniq(&terms), 0, 0);
    let no_bytes: Vec<u8> = Vec::new();
    let blob = SqlBind::bytes(no_bytes.as_slice());
    assert(no_bytes@ =~= seq![]);
    let st = statement(
        SQL_FACT_UPSERT,
        vec![text(fresh_uuid), SqlBind::Int(entity_id), text(content), blob, SqlBind::Text(key.clone())],
    );
    assert(st.deep_view().binds =~= seq![
        BindView::Text(fresh_uuid@),
        BindView::Int(entity_id),
        BindView::Text(content@),
        BindView::Bytes(base64_standard(seq![])),
        BindView::Text(key@),
    ]);
    match run_statement(replies, i1, j1, st) {
        Ok(_) => Step::Done(Ok(())),
        Err(s) => s,
    }
}

pub const SQL_FACT_EMBEDDINGS: &'static str = "SELECT id, content_embedding FROM memori_entity_fact \
     WHERE entity_id = ? ORDER BY date_last_time DESC, num_times DESC, id DESC LIMIT ?";

/// A row's embedding entry: rows without an id or with an empty or missing
/// embedding text are left out.
pub open spec fn embedding_row_of(row: JsonValue) -> Option<EmbeddingRowView> {
    match (read_id_spec(row, "id"@), json_str_field(row, "content_embedding"@)) {
        (Some(id), Some(b64)) => if b64.len() > 0 {
            Some(EmbeddingRowView { id: FactIdView::Int(id), content_embedding_b64: Some(b64) })
        } else {
            None
        },
        _ => None,
    }
}

pub open spec fn embedding_rows_of(rows: Seq<JsonValue>) -> Seq<EmbeddingRowView>
    decreases rows.len(),
{
    if rows.len() == 0 {
        seq![]
    } else {
        embedding_rows_of(rows.drop_last()) + match embedding_row_of(rows.last()) {
            Some(e) => seq![e],
            None => seq![],
        }
    }
}

fn embedding_rows_from(rows: &Vec<JsonValue>) -> (r: Vec<EmbeddingRow>)
    ensures
        r.deep_view() == embedding_rows_of(rows@),
{
    let mut out: Vec<EmbeddingRow> = Vec::new();
    let mut i: usize = 0;
    while i < rows.len()
        invariant
            0 <= i <= rows.len(),
            out.deep_view() == embedding_rows_of(rows@.take(i as int)),
        decreases rows.len() - i,
    {
        let row = &rows[i];
        proof {
            assert(rows@.take(i + 1).drop_last() =~= rows@.take(i as int));
            assert(rows@.take(i + 1).last() == *row);
        }
        match (read_id(row, "id"), row.str_field("content_embedding")) {
            (Some(id), Some(b64)) => {
                if !b64.is_empty() {
                    out.push(EmbeddingRow { id: FactId::Int(id), content_embedding_b64: Some(String::from_str(b64)) });
                }
            },
            _ => {},
        }
        assert(out.deep_view() =~= embedding_rows_of(rows@.take(i + 1)));
        i = i + 1;
    }
    assert(rows@.take(rows.len() as int) =~= rows@);
    out
}

pub open spec fn entity_fact_get_embeddings_spec(entity_id: i64, limit: usize, rows: Seq<RowsReply>) -> Outcome<
    DbRequestView,
    Seq<EmbeddingRowView>,
> {
    then(
        exec_step(
            rows,
            0,
            0,
            stmt(SQL_FACT_EMBEDDINGS@, seq![BindView::Int(entity_id), BindView::Int(limit as i64)]),
        ),
        |found: Seq<JsonValue>, i: nat, j: nat| Outcome::Finish(embedding_rows_of(found), i, j),
    )
}

/// Reads the entity's most recent facts' embeddings, at most `limit` rows.
pub fn entity_fact_get_embeddings(entity_id: i64, limit: usize, replies: &DbReplies) -> (r: Step<
    DbRequest,
    Vec<EmbeddingRow>,
>)
    ensures
        r.deep_view() == outcome_step(entity_fact_get_embeddings_spec(entity_id, limit, replies.rows@)),
{
    let st = statement(SQL_FACT_EMBEDDINGS, vec![SqlBind::Int(entity_id), SqlBind::Int(limit as i64)]);
    assert(st.deep_view().binds =~= seq![BindView::Int(entity_id), BindView::Int(limit as i64)]);
    match run_statement(replies, 0, 0, st) {
        Ok((found, _, _)) => Step::Done(Ok(embedding_rows_from(found))),
        Err(s) => s,
    }
}

pub const SQL_FACTS_BY_IDS_HEAD: &'static str = "SELECT id, content, date_created FROM memori_entity_fact WHERE id IN (";
pub const SQL_FACTS_BY_IDS_TAIL: &'static str = ")";
pub const SQL_SUMMARIES_BY_IDS_HEAD: &'static str = "SELECT m.fact_id, c.summary AS content, COALESCE(c.date_updated, c.date_created) AS date_created \
     FROM memori_entity_fact_mention m \
     JOIN memori_conversation c ON c.id = m.conversation_id \
     WHERE m.fact_id IN (";
pub const SQL_SUMMARIES_BY_IDS_TAIL: &'static str = ") AND c.summary IS NOT NULL AND c.summary <> ''";
pub const PLACEHOLDER: &'static str = "?";
pub const PLACEHOLDER_SEPARATOR: &'static str = ",";

/// `n` placeholders `?` joined by `,`.
pub open spec fn placeholders(n: nat) -> Seq<char>
    decreases n,
{
    if n == 0 {
        seq![]
    } else if n == 1 {
        PLACEHOLDER@
    } else {
        placeholders((n - 1) as nat) + PLACEHOLDER_SEPARATOR@ + PLACEHOLDER@
    }
}

/// The bind of a fact id: an integer id as an integer, a string id as text.
pub open spec fn fact_id_bind(id: FactIdView) -> BindView {
    match id {
        FactIdView::Int(n) => BindView::Int(n),
        FactIdView::Text(s) => BindView::Text(s),
    }
}

pub open spec fn fact_id_binds(ids: Seq<FactIdView>) -> Seq<BindView> {
    ids.map_values(|id: FactIdView| fact_id_bind(id))
}

/// A fact row as a candidate: rows without an id or a string content are
/// left out; a missing date is empty.
pub open spec fn candidate_of(row: JsonValue) -> Option<CandidateFactRowView> {
    match (read_id_spec(row, "id"@), json_str_field(row, "content"@)) {
        (Some(id), Some(content)) => Some(
            CandidateFactRowView {
                id: FactIdView::Int(id),
                content,
                date_created: match json_str_field(row, "date_created"@) {
                    Some(d) => d,
                    None => seq![],
                },
                summaries: seq![],
            },
        ),
        _ => None,
    }
}

pub open spec fn candidates_of(rows: Seq<JsonValue>) -> Seq<CandidateFactRowView>
    decreases rows.len(),
{
    if rows.len() == 0 {
        seq![]
    } else {
        candidates_of(rows.drop_last()) + match candidate_of(rows.last()) {
            Some(c) => seq![c],
            None => seq![],
        }
    }
}

/// A summary row: the fact it belongs to and the summary; rows without a
/// fact id or a string content are left out; a missing date is empty.
pub open spec fn summary_of(row: JsonValue) -> Option<(i64, FactSummaryView)> {
    match (read_id_spec(row, "fact_id"@), json_str_field(row, "content"@)) {
        (Some(fact_id), Some(content)) => Some(
            (
                fact_id,
                FactSummaryView {
                    content,
                    date_created: match json_str_field(row, "date_created"@) {
                        Some(d) => d,
                        None => seq![],
                    },
                },
            ),
        ),
        _ => None,
    }
}

/// The index of the first candidate at or after `k` with integer id `id`.
pub open spec fn first_with_id_from(facts: Seq<CandidateFactRowView>, id: i64, k: nat) -> Option<nat>
    decreases facts.len() - k,
{
    if k >= facts.len() {
        None
    } else if facts[k as int].id == FactIdView::Int(id) {
        Some(k)
    } else {
        first_with_id_from(facts, id, k + 1)
    }
}

/// Each summary row, in order, is appended to the summaries of the first
/// candidate with its fact id; a summary whose fact is not among the
/// candidates is dropped.
pub open spec fn attach_summaries(facts: Seq<CandidateFactRowView>, rows: Seq<JsonValue>) -> Seq<
    CandidateFactRowView,
>
    decreases rows.len(),
{
    if rows.len() == 0 {
        facts
    } else {
        let prev = attach_summaries(facts, rows.drop_last());
        match summary_of(rows.last()) {
            None => prev,
            Some((fact_id, summary)) => match first_with_id_from(prev, fact_id, 0) {
                None => prev,
                Some(k) => prev.update(
                    k as int,
                    CandidateFactRowView { summaries: prev[k as int].summaries.push(summary), ..prev[k as int] },
                ),
            },
        }
    }
}

pub open spec fn entity_fact_get_by_ids_spec(ids: Seq<FactIdView>, rows: Seq<RowsReply>) -> Outcome<
    DbRequestView,
    Seq<CandidateFactRowView>,
> {
    if ids.len() == 0 {
        Outcome::Finish(seq![], 0, 0)
    } else {
        then(
            exec_step(
                rows,
                0,
                0,
                stmt(
                    SQL_FACTS_BY_IDS_HEAD@ + placeholders(ids.len()) + SQL_FACTS_BY_IDS_TAIL@,
                    fact_id_binds(ids),
                ),
            ),
            |found: Seq<JsonValue>, i1: nat, j1: nat|
                if found.len() == 0 {
                    Outcome::Finish(seq![], i1, j1)
                } else {
                    then(
                        exec_step(
                            rows,
                            i1,
                            j1,
                            stmt(
                                SQL_SUMMARIES_BY_IDS_HEAD@ + placeholders(ids.len()) + SQL_SUMMARIES_BY_IDS_TAIL@,
                                fact_id_binds(ids),
                            ),
                        ),
                        |summary_rows: Seq<JsonValue>, i2: nat, j2: nat|
                            Outcome::Finish(attach_summaries(candidates_of(found), summary_rows), i2, j2),
                    )
                },
        )
    }
}

fn placeholder_list(n: usize) -> (r: String)
    requires
        n >= 1,
    ensures
        r@ == placeholders(n as nat),
{
    let mut out = String::from_str(PLACEHOLDER);
    let mut k: usize = 1;
    while k < n
        invariant
            1 <= k <= n,
            out@ == placeholders(k as nat),
        decreases n - k,
    {
        out.append(PLACEHOLDER_SEPARATOR);
        out.append(PLACEHOLDER);
        k = k + 1;
    }
    out
}

fn fact_id_bind_list(ids: &Vec<FactId>) -> (r: Vec<SqlBind>)
    ensures
        r.deep_view() == fact_id_binds(ids.deep_view()),
{
    let mut out: Vec<SqlBind> = Vec::new();
    let mut i: usize = 0;
    while i < ids.len()
        invariant
            0 <= i <= ids.len(),
            out.deep_view() == fact_id_binds(ids.deep_view().take(i as int)),
        decreases ids.len() - i,
    {
        let b = match &ids[i] {
            FactId::Int(n) => SqlBind::Int(*n),
            FactId::String(s) => SqlBind::Text(s.clone()),
        };
        let ghost before = out;
        out.push(b);
        proof {
            lemma_deep_view_push(before, out, b);
            assert(b.deep_view() == fact_id_bind(ids.deep_view()[i as int]));
        }
        assert(out.deep_view() =~= fact_id_binds(ids.deep_view().take(i + 1)));
        i = i + 1;
    }
    assert(ids.deep_view().take(ids.len() as int) =~= ids.deep_view());
    out
}

fn duplicate_binds(binds: &Vec<SqlBind>) -> (r: Vec<SqlBind>)
    ensures
        r.deep_view() == binds.deep_view(),
{
    let mut out: Vec<SqlBind> = Vec::new();
    let mut i: usize = 0;
    while i < binds.len()
        invariant
            0 <= i <= binds.len(),
            out.deep_view() == binds.deep_view().take(i as int),
        decreases binds.len() - i,
    {
        let b = binds[i].duplicate();
        let ghost before = out;
        out.push(b);
        proof {
            lemma_deep_view_push(before, out, b);
        }
        assert(out.deep_view() =~= binds.deep_view().take(i + 1));
        i = i + 1;
    }
    assert(binds.deep_view().take(binds.len() as int) =~= binds.deep_view());
    out
}

fn candidates_from(rows: &Vec<JsonValue>) -> (r: Vec<CandidateFactRow>)
    ensures
        r.deep_view() == candidates_of(rows@),
{
    let mut out: Vec<CandidateFactRow> = Vec::new();
    let mut i: usize = 0;
    while i < rows.len()
        invariant
            0 <= i <= rows.len(),
            out.deep_view() == candidates_of(rows@.take(i as int)),
        decreases rows.len() - i,
    {
        let row = &rows[i];
        proof {
            assert(rows@.take(i + 1).drop_last() =~= rows@.take(i as int));
            assert(rows@.take(i + 1).last() == *row);
        }
        match (read_id(row, "id"), row.str_field("content")) {
            (Some(id), Some(content)) => {
                let date = match row.str_field("date_created") {
                    Some(d) => String::from_str(d),
                    None => String::new(),
                };
                let summaries: Vec<FactSummary> = Vec::new();
                assert(summaries.deep_view() =~= seq![]);
                out.push(
                    CandidateFactRow { id: FactId::Int(id), content: String::from_str(content), date_created: date, summaries },
                );
            },
            _ => {},
        }
        assert(out.deep_view() =~= candidates_of(rows@.take(i + 1)));
        i = i + 1;
    }
    assert(rows@.take(rows.len() as int) =~= rows@);
    out
}

fn first_with_id(facts: &Vec<CandidateFactRow>, id: i64) -> (r: Option<usize>)
    ensures
        match r {
            Some(k) => first_with_id_from(facts.deep_view(), id, 0) == Some(k as nat) && k < facts.len(),
            None => first_with_id_from(facts.deep_view(), id, 0) is None,
        },
{
    let mut k: usize = 0;
    while k < facts.len()
        invariant
            0 <= k <= facts.len(),
            first_with_id_from(facts.deep_view(), id, 0) == first_with_id_from(facts.deep_view(), id, k as nat),
        decreases facts.len() - k,
    {
        let matches = match &facts[k].id {
            FactId::Int(n) => *n == id,
            FactId::String(_) => false,
        };
        assert(facts.deep_view()[k as int] == facts[k as int].deep_view());
        if matches {
            return Some(k);
        }
        k = k + 1;
    }
    None
}

fn attach_summaries_exec(facts: &mut Vec<CandidateFactRow>, rows: &Vec<JsonValue>)
    ensures
        final(facts).deep_view() == attach_summaries(old(facts).deep_view(), rows@),
{
    let ghost start = facts.deep_view();
    let mut i: usize = 0;
    while i < rows.len()
        invariant
            0 <= i <= rows.len(),
            start == old(facts).deep_view(),
            facts.deep_view() == attach_summaries(start, rows@.take(i as int)),
        decreases rows.len() - i,
    {
        let row = &rows[i];
        proof {
            assert(rows@.take(i + 1).drop_last() =~= rows@.take(i as int));
            assert(rows@.take(i + 1).last() == *row);
        }
        match (read_id(row, "fact_id"), row.str_field("content")) {
            (Some(fact_id), Some(content)) => {
                let date = match row.str_field("date_created") {
                    Some(d) => String::from_str(d),
                    None => String::new(),
                };
                match first_with_id(facts, fact_id) {
                    Some(k) => {
                        let ghost before = facts.deep_view();
                        let ghost before_vec = *facts;
                        let ghost row_before = facts@[k as int];
                        let summary = FactSummary { content: String::from_str(content), date_created: date };
                        let ghost sv = summary.deep_view();
                        let ghost old_summaries = facts@[k as int].summaries;
                        facts[k].summaries.push(summary);
                        proof {
                            let row_after = facts@[k as int];
                            lemma_deep_view_push(old_summaries, row_after.summaries, summary);
                            assert(row_after.deep_view() == CandidateFactRowView {
                                summaries: before[k as int].summaries.push(sv),
                                ..before[k as int]
                            });
                            assert(facts.deep_view() =~= before.update(
                                k as int,
                                CandidateFactRowView { summaries: before[k as int].summaries.push(sv), ..before[k as int] },
                            ));
                        }
                    },
                    None => {},
                }
            },
            _ => {},
        }
        assert(facts.deep_view() =~= attach_summaries(start, rows@.take(i + 1)));
        i = i + 1;
    }
    assert(rows@.take(rows.len() as int) =~= rows@);
}

/// Fetches the facts with these ids, each with the summaries of the
/// conversations that mention it. No id, no statement.
pub fn entity_fact_get_by_ids(ids: &Vec<FactId>, replies: &DbReplies) -> (r: Step<DbRequest, Vec<CandidateFactRow>>)
    ensures
        r.deep_view() == outcome_step(entity_fact_get_by_ids_spec(ids.deep_view(), replies.rows@)),
{
    if ids.len() == 0 {
        let none: Vec<CandidateFactRow> = Vec::new();
        assert(none.deep_view() =~= seq![]);
        return Step::Done(Ok(none));
    }
    let marks = placeholder_list(ids.len());
    let binds = fact_id_bind_list(ids);
    let mut sql = String::from_str(SQL_FACTS_BY_IDS_HEAD);
    sql.append(marks.as_str());
    sql.append(SQL_FACTS_BY_IDS_TAIL);
    let st = crate::connection::Statement { sql, binds: duplicate_binds(&binds) };
    let (found, i1, j1) = match run_statement(replies, 0, 0, st) {
        Ok(x) => x,
        Err(s) => return s,
    };
    if found.len() == 0 {
        let none: Vec<CandidateFactRow> = Vec::new();
        assert(none.deep_view() =~= seq![]);
        return Step::Done(Ok(none));
    }
    let mut facts = candidates_from(found);
    let mut sql2 = String::from_str(SQL_SUMMARIES_BY_IDS_HEAD);
    sql2.append(marks.as_str());
    sql2.append(SQL_SUMMARIES_BY_IDS_TAIL);
    let st2 = crate::connection::Statement { sql: sql2, binds };
    let (summary_rows, _, _) = match run_statement(replies, i1, j1, st2) {
        Ok(x) => x,
        Err(s) => return s,
    };
    attach_summaries_exec(&mut facts, summary_rows);
    Step::Done(Ok(facts))
}

pub const SQL_SUBJECT_INSERT: &'static str = "INSERT IGNORE INTO memori_subject(uuid, name, type, uniq) VALUES (?, ?, ?, ?)";
pub const SQL_SUBJECT_GET_ID: &'static str = "SELECT id FROM memori_subject WHERE uniq = ?";
pub const SQL_PREDICATE_INSERT: &'static str = "INSERT IGNORE INTO memori_predicate(uuid, content, uniq) VALUES (?, ?, ?)";
pub const SQL_PREDICATE_GET_ID: &'static str = "SELECT id FROM memori_predicate WHERE uniq = ?";
pub const SQL_OBJECT_INSERT: &'static str = "INSERT IGNORE INTO memori_object(uuid, name, type, uniq) VALUES (?, ?, ?, ?)";
pub const SQL_OBJECT_GET_ID: &'static str = "SELECT id FROM memori_object WHERE uniq = ?";
pub const SQL_KNOWLEDGE_GRAPH_UPSERT: &'static str = "INSERT INTO memori_knowledge_graph(uuid, entity_id, subject_id, predicate_id, object_id, num_times, date_last_time) \
     VALUES (?, ?, ?, ?, ?, 1, CURRENT_TIMESTAMP) \
     ON DUPLICATE KEY UPDATE num_times = num_times + 1, date_last_time = CURRENT_TIMESTAMP";
pub const SQL_PROCESS_ATTRIBUTE_UPSERT: &'static str = "INSERT INTO memori_process_attribute(uuid, process_id, content, num_times, date_last_time, uniq) \
     VALUES (?, ?, ?, 1, CURRENT_TIMESTAMP, ?) \
     ON DUPLICATE KEY UPDATE num_times = num_times + 1, date_last_time = CURRENT_TIMESTAMP";
pub const DEFAULT_ENTITY_TYPE: &'static str = "entity";

/// The `(name, type)` of a triple's subject or object: a plain string names
/// an entity; an object gives `name` (default empty) and `type` (default
/// `entity`); anything else is an unnamed entity.
pub open spec fn triple_entity_spec(v: Option<JsonValue>) -> (Seq<char>, Seq<char>) {
    match v {
        Some(JsonValue::Str(s)) => (s@, DEFAULT_ENTITY_TYPE@),
        Some(JsonValue::Object(fields)) => (
            json_str_or(JsonValue::Object(fields), "name"@, seq![]),
            json_str_or(JsonValue::Object(fields), "type"@, DEFAULT_ENTITY_TYPE@),
        ),
        _ => (seq![], DEFAULT_ENTITY_TYPE@),
    }
}

/// Reads a triple's subject or object.
pub fn read_triple_entity(v: Option<&JsonValue>) -> (r: (String, String))
    ensures
        (r.0@, r.1@) == triple_entity_spec(
            match v {
                Some(x) => Some(*x),
                None => None,
            },
        ),
{
    proof {
        reveal_strlit("");
    }
    match v {
        Some(JsonValue::Str(s)) => (s.clone(), String::from_str(DEFAULT_ENTITY_TYPE)),
        Some(JsonValue::Object(fields)) => {
            let x = v.unwrap();
            (x.str_field_or("name", ""), x.str_field_or("type", DEFAULT_ENTITY_TYPE))
        },
        _ => (String::new(), String::from_str(DEFAULT_ENTITY_TYPE)),
    }
}

/// Upserts a row keyed by the uniqueness key of `terms` and reads its id:
/// the insert gets `prefix` followed by the key, the
/// select looks the key up.
pub open spec fn keyed_upsert_spec(
    rows: Seq<RowsReply>,
    i: nat,
    j: nat,
    terms: Seq<Seq<char>>,
    insert_sql: Seq<char>,
    prefix: Seq<BindView>,
    select_sql: Seq<char>,
) -> Outcome<DbRequestView, Option<i64>> {
    then(
        key_step(i, j, terms),
        |key: Seq<char>, i1: nat, j1: nat|
            then(
                exec_step(rows, i1, j1, stmt(insert_sql, prefix.push(BindView::Text(key)))),
                |_r: Seq<JsonValue>, i2: nat, j2: nat|
                    then(
                        exec_step(rows, i2, j2, stmt(select_sql, seq![BindView::Text(key)])),
                        |found: Seq<JsonValue>, i3: nat, j3: nat| Outcome::Finish(first_id(found, "id"@), i3, j3),
                    ),
            ),
    )
}

fn keyed_upsert(
    replies: &DbReplies,
    i: usize,
    j: usize,
    terms: Vec<String>,
    insert_sql: &str,
    prefix: Vec<SqlBind>,
    select_sql: &str,
) -> (r: Result<(Option<i64>, usize, usize), Step<DbRequest, ()>>)
    ensures
        match r {
            Ok((id, i2, j2)) => keyed_upsert_spec(
                replies.rows@,
                i as nat,
                j as nat,
                terms.deep_view(),
                insert_sql@,
                prefix.deep_view(),
                select_sql@,
            ) == Outcome::<DbRequestView, Option<i64>>::Finish(id, i2 as nat, j2 as nat),
            Err(s) => crate::drivers::stops(
                s.deep_view(),
                keyed_upsert_spec(
                    replies.rows@,
                    i as nat,
                    j as nat,
                    terms.deep_view(),
                    insert_sql@,
                    prefix.deep_view(),
                    select_sql@,
                ),
            ),
        },
{
    let ghost tv = terms.deep_view();
    let (key, i1, j1) = (generate_uniq(&terms), i, j);
    let mut binds = prefix;
    let ghost before = binds;
    let kb = SqlBind::Text(key.clone());
    binds.push(kb);
    proof {
        lemma_deep_view_push(before, binds, kb);
    }
    let ins = statement(insert_sql, binds);
    let (_, i2, j2) = match run_statement(replies, i1, j1, ins) {
        Ok(x) => x,
        Err(s) => return Err(s),
    };
    let sel = statement(select_sql, vec![SqlBind::Text(key.clone())]);
    assert(sel.deep_view().binds =~= seq![BindView::Text(key@)]);
    let (found, i3, j3) = match run_statement(replies, i2, j2, sel) {
        Ok(x) => x,
        Err(s) => return Err(s),
    };
    Ok((first_row_id(found, "id"), i3, j3))
}

/// The fields of a triple: subject `(name, type)`, predicate, object `(name, type)`.
pub open spec fn triple_parts(triple: JsonValue) -> ((Seq<char>, Seq<char>), Seq<char>, (Seq<char>, Seq<char>)) {
    (
        triple_entity_spec(json_get(triple, "subject"@)),
        json_str_or(triple, "predicate"@, seq![]),
        triple_entity_spec(json_get(triple, "object"@)),
    )
}

/// A triple once its subject, predicate and object have ids: it is counted
/// for the entity.
pub open spec fn triple_link_spec(
    entity_id: i64,
    sid: i64,
    pid: i64,
    oid: i64,
    rows: Seq<RowsReply>,
    uuid: Seq<char>,
    i: nat,
    j: nat,
) -> Outcome<DbRequestView, ()> {
    then(
        exec_step(
            rows,
            i,
            j,
            stmt(
                SQL_KNOWLEDGE_GRAPH_UPSERT@,
                seq![
                    BindView::Text(uuid),
                    BindView::Int(entity_id),
                    BindView::Int(sid),
                    BindView::Int(pid),
                    BindView::Int(oid),
                ],
            ),
        ),
        |_r: Seq<JsonValue>, i4: nat, j4: nat| Outcome::Finish((), i4, j4),
    )
}

/// A triple once its subject and predicate have ids: the object is upserted.
pub open spec fn triple_object_spec(
    entity_id: i64,
    triple: JsonValue,
    sid: i64,
    pid: i64,
    rows: Seq<RowsReply>,
    uuid: Seq<char>,
    i: nat,
    j: nat,
) -> Outcome<DbRequestView, ()> {
    let object = triple_parts(triple).2;
    then(
        keyed_upsert_spec(
            rows,
            i,
            j,
            seq![object.0, object.1],
            SQL_OBJECT_INSERT@,
            seq![BindView::Text(uuid), BindView::Text(object.0), BindView::Text(object.1)],
            SQL_OBJECT_GET_ID@,
        ),
        |object_id: Option<i64>, i3: nat, j3: nat|
            match object_id {
                None => Outcome::Finish((), i3, j3),
                Some(oid) => triple_link_spec(entity_id, sid, pid, oid, rows, uuid, i3, j3),
            },
    )
}

/// A triple once its subject has an id: the predicate is upserted.
pub open spec fn triple_predicate_spec(
    entity_id: i64,
    triple: JsonValue,
    sid: i64,
    rows: Seq<RowsReply>,
    uuid: Seq<char>,
    i: nat,
    j: nat,
) -> Outcome<DbRequestView, ()> {
    let predicate = triple_parts(triple).1;
    then(
        keyed_upsert_spec(
            rows,
            i,
            j,
            seq![predicate],
            SQL_PREDICATE_INSERT@,
            seq![BindView::Text(uuid), BindView::Text(predicate)],
            SQL_PREDICATE_GET_ID@,
        ),
        |predicate_id: Option<i64>, i2: nat, j2: nat|
            match predicate_id {
                None => Outcome::Finish((), i2, j2),
                Some(pid) => triple_object_spec(entity_id, triple, sid, pid, rows, uuid, i2, j2),
            },
    )
}

/// One triple: its subject, predicate and object are upserted by their
/// uniqueness keys, each only once the one before has an id, and the
/// triple is then counted for the entity.
pub open spec fn triple_item_spec(
    entity_id: i64,
    triple: JsonValue,
    rows: Seq<RowsReply>,
    uuid: Seq<char>,
    i: nat,
    j: nat,
) -> Outcome<DbRequestView, ()> {
    let subject = triple_parts(triple).0;
    then(
        keyed_upsert_spec(
            rows,
            i,
            j,
            seq![subject.0, subject.1],
            SQL_SUBJECT_INSERT@,
            seq![BindView::Text(uuid), BindView::Text(subject.0), BindView::Text(subject.1)],
            SQL_SUBJECT_GET_ID@,
        ),
        |subject_id: Option<i64>, i1: nat, j1: nat|
            match subject_id {
                None => Outcome::Finish((), i1, j1),
                Some(sid) => triple_predicate_spec(entity_id, triple, sid, rows, uuid, i1, j1),
            },
    )
}

fn triple_item(
    entity_id: i64,
    triple: &JsonValue,
    replies: &DbReplies,
    fresh_uuid: &str,
    i: usize,
    j: usize,
) -> (r: Result<(usize, usize), Step<DbRequest, ()>>)
    ensures
        match r {
            Ok((i2, j2)) => triple_item_spec(
                entity_id,
                *triple,
                replies.rows@,
                fresh_uuid@,
                i as nat,
                j as nat,
            ) == Outcome::<DbRequestView, ()>::Finish((), i2 as nat, j2 as nat),
            Err(s) => crate::drivers::stops(
                s.deep_view(),
                triple_item_spec(
                    entity_id,
                    *triple,
                    replies.rows@,
                    fresh_uuid@,
                    i as nat,
                    j as nat,
                ),
            ),
        },
{
    proof {
        reveal_strlit("");
    }
    let (subject_name, subject_type) = read_triple_entity(triple.get("subject"));
    let predicate = triple.str_field_or("predicate", "");
    let (object_name, object_type) = read_triple_entity(triple.get("object"));

    let terms = vec![subject_name.clone(), subject_type.clone()];
    let prefix = vec![text(fresh_uuid), SqlBind::Text(subject_name.clone()), SqlBind::Text(subject_type.clone())];
    assert(terms.deep_view() =~= seq![subject_name@, subject_type@]);
    assert(prefix.deep_view() =~= seq![
        BindView::Text(fresh_uuid@),
        BindView::Text(subject_name@),
        BindView::Text(subject_type@),
    ]);
    let (subject_id, i1, j1) = match keyed_upsert(
        replies,
        i,
        j,
        terms,
        SQL_SUBJECT_INSERT,
        prefix,
        SQL_SUBJECT_GET_ID,
    ) {
        Ok(x) => x,
        Err(s) => return Err(s),
    };
    let sid = match subject_id {
        Some(id) => id,
        None => return Ok((i1, j1)),
    };
    assert(triple_item_spec(entity_id, *triple, replies.rows@, fresh_uuid@, i as nat, j as nat)
        == triple_predicate_spec(entity_id, *triple, sid, replies.rows@, fresh_uuid@, i1 as nat, j1 as nat));

    assert(""@ =~= Seq::<char>::empty());
    assert(predicate@ == triple_parts(*triple).1);
    let terms = vec![predicate.clone()];
    let prefix = vec![text(fresh_uuid), SqlBind::Text(predicate.clone())];
    assert(terms.deep_view() =~= seq![predicate@]);
    assert(prefix.deep_view() =~= seq![BindView::Text(fresh_uuid@), BindView::Text(predicate@)]);
    let (predicate_id, i2, j2) = match keyed_upsert(
        replies,
        i1,
        j1,
        terms,
        SQL_PREDICATE_INSERT,
        prefix,
        SQL_PREDICATE_GET_ID,
    ) {
        Ok(x) => x,
        Err(s) => return Err(s),
    };
    let pid = match predicate_id {
        Some(id) => id,
        None => return Ok((i2, j2)),
    };
    assert(triple_predicate_spec(entity_id, *triple, sid, replies.rows@, fresh_uuid@, i1 as nat, j1 as nat)
        == triple_object_spec(entity_id, *triple, sid, pid, replies.rows@, fresh_uuid@, i2 as nat, j2 as nat));

    let terms = vec![object_name.clone(), object_type.clone()];
    let prefix = vec![text(fresh_uuid), SqlBind::Text(object_name.clone()), SqlBind::Text(object_type.clone())];
    assert(terms.deep_view() =~= seq![object_name@, object_type@]);
    assert(prefix.deep_view() =~= seq![
        BindView::Text(fresh_uuid@),
        BindView::Text(object_name@),
        BindView::Text(object_type@),
    ]);
    let (object_id, i3, j3) = match keyed_upsert(
        replies,
        i2,
        j2,
        terms,
        SQL_OBJECT_INSERT,
        prefix,
        SQL_OBJECT_GET_ID,
    ) {
        Ok(x) => x,
        Err(s) => return Err(s),
    };
    let oid = match object_id {
        Some(id) => id,
        None => return Ok((i3, j3)),
    };
    assert(triple_object_spec(entity_id, *triple, sid, pid, replies.rows@, fresh_uuid@, i2 as nat, j2 as nat)
        == triple_link_spec(entity_id, sid, pid, oid, replies.rows@, fresh_uuid@, i3 as nat, j3 as nat));

    let st = statement(
        SQL_KNOWLEDGE_GRAPH_UPSERT,
        vec![text(fresh_uuid), SqlBind::Int(entity_id), SqlBind::Int(sid), SqlBind::Int(pid), SqlBind::Int(oid)],
    );
    assert(st.deep_view().binds =~= seq![
        BindView::Text(fresh_uuid@),
        BindView::Int(entity_id),
        BindView::Int(sid),
        BindView::Int(pid),
        BindView::Int(oid),
    ]);
    match run_statement(replies, i3, j3, st) {
        Ok((_, i4, j4)) => Ok((i4, j4)),
        Err(s) => Err(s),
    }
}

/// The triples from the `k`-th on, one after another.
pub open spec fn triples_from_spec(
    entity_id: i64,
    triples: Seq<JsonValue>,
    rows: Seq<RowsReply>,
    uuid: Seq<char>,
    k: nat,
    i: nat,
    j: nat,
) -> Outcome<DbRequestView, ()>
    decreases triples.len() - k,
{
    if k >= triples.len() {
        Outcome::Finish((), i, j)
    } else {
        match triple_item_spec(entity_id, triples[k as int], rows, uuid, i, j) {
            Outcome::Finish(_, i2, j2) => triples_from_spec(entity_id, triples, rows, uuid, k + 1, i2, j2),
            Outcome::Need(r) => Outcome::Need(r),
            Outcome::Fail(e) => Outcome::Fail(e),
        }
    }
}

pub open spec fn knowledge_graph_create_spec(
    entity_id: i64,
    triples: Seq<JsonValue>,
    rows: Seq<RowsReply>,
    uuid: Seq<char>,
) -> Outcome<DbRequestView, ()> {
    triples_from_spec(entity_id, triples, rows, uuid, 0, 0, 0)
}

/// Records each semantic triple for the entity.
pub fn knowledge_graph_create(
    entity_id: i64,
    semantic_triples: &Vec<JsonValue>,
    replies: &DbReplies,
    fresh_uuid: &str,
) -> (r: Step<DbRequest, ()>)
    ensures
        r.deep_view() == outcome_step(
            knowledge_graph_create_spec(entity_id, semantic_triples@, replies.rows@, fresh_uuid@),
        ),
{
    let mut k: usize = 0;
    let mut i: usize = 0;
    let mut j: usize = 0;
    while k < semantic_triples.len()
        invariant
            0 <= k <= semantic_triples.len(),
            knowledge_graph_create_spec(entity_id, semantic_triples@, replies.rows@, fresh_uuid@)
                == triples_from_spec(
                entity_id,
                semantic_triples@,
                replies.rows@,
                fresh_uuid@,
                k as nat,
                i as nat,
                j as nat,
            ),
        decreases semantic_triples.len() - k,
    {
        match triple_item(entity_id, &semantic_triples[k], replies, fresh_uuid, i, j) {
            Ok((i2, j2)) => {
                i = i2;
                j = j2;
            },
            Err(s) => return s,
        }
        k = k + 1;
    }
    Step::Done(Ok(()))
}

/// Each attribute is upserted for the process under its uniqueness key.
pub open spec fn attributes_from_spec(
    process_id: i64,
    attributes: Seq<Seq<char>>,
    rows: Seq<RowsReply>,
    uuid: Seq<char>,
    k: nat,
    i: nat,
    j: nat,
) -> Outcome<DbRequestView, ()>
    decreases attributes.len() - k,
{
    if k >= attributes.len() {
        Outcome::Finish((), i, j)
    } else {
        let attribute = attributes[k as int];
        match then(
            key_step(i, j, seq![attribute]),
            |key: Seq<char>, i1: nat, j1: nat|
                exec_step(
                    rows,
                    i1,
                    j1,
                    stmt(
                        SQL_PROCESS_ATTRIBUTE_UPSERT@,
                        seq![
                            BindView::Text(uuid),
                            BindView::Int(process_id),
                            BindView::Text(attribute),
                            BindView::Text(key),
                        ],
                    ),
                ),
        ) {
            Outcome::Finish(_, i2, j2) => attributes_from_spec(process_id, attributes, rows, uuid, k + 1, i2, j2),
            Outcome::Need(r) => Outcome::Need(r),
            Outcome::Fail(e) => Outcome::Fail(e),
        }
    }
}

pub open spec fn process_attribute_create_spec(
    process_id: i64,
    attributes: Seq<Seq<char>>,
    rows: Seq<RowsReply>,
    uuid: Seq<char>,
) -> Outcome<DbRequestView, ()> {
    attributes_from_spec(process_id, attributes, rows, uuid, 0, 0, 0)
}

/// Records each attribute of the process.
pub fn process_attribute_create(
    process_id: i64,
    attributes: &Vec<String>,
    replies: &DbReplies,
    fresh_uuid: &str,
) -> (r: Step<DbRequest, ()>)
    ensures
        r.deep_view() == outcome_step(
            process_attribute_create_spec(process_id, attributes.deep_view(), replies.rows@, fresh_uuid@),
        ),
{
    let mut k: usize = 0;
    let mut i: usize = 0;
    let mut j: usize = 0;
    while k < attributes.len()
        invariant
            0 <= k <= attributes.len(),
            process_attribute_create_spec(process_id, attributes.deep_view(), replies.rows@, fresh_uuid@)
                == attributes_from_spec(
                process_id,
                attributes.deep_view(),
                replies.rows@,
                fresh_uuid@,
                k as nat,
                i as nat,
                j as nat,
            ),
        decreases attributes.len() - k,
    {
        let attribute = &attributes[k];
        assert(attributes.deep_view()[k as int] == attribute@);
        let terms = vec![attribute.clone()];
        assert(terms.deep_view() =~= seq![attribute@]);
        let (key, i1, j1) = (generate_uniq(&terms), i, j);
        let st = statement(
            SQL_PROCESS_ATTRIBUTE_UPSERT,
            vec![text(fresh_uuid), SqlBind::Int(process_id), SqlBind::Text(attribute.clone()), SqlBind::Text(key.clone())],
        );
        assert(st.deep_view().binds =~= seq![
            BindView::Text(fresh_uuid@),
            BindView::Int(process_id),
            BindView::Text(attribute@),
            BindView::Text(key@),
        ]);
        match run_statement(replies, i1, j1, st) {
            Ok((_, i2, j2)) => {
                i = i2;
                j = j2;
            },
            Err(s) => return s,
        }
        k = k + 1;
    }
    Step::Done(Ok(()))
}

/// The step of a driver call, answered by the MySQL statements above.
pub open spec fn run_call_spec(
    call: DriverCallView,
    rows: Seq<RowsReply>,
    uuid: Seq<char>,
) -> StepView<DbRequestView, DriverOutputView> {
    let nothing = |u: ()| DriverOutputView::Nothing;
    let id = |o: Option<i64>| DriverOutputView::Id(o);
    match call {
        DriverCallView::SchemaVersionRead => map_output(outcome_step(schema_version_read_spec(rows)), id),
        DriverCallView::SchemaVersionDelete => map_output(
            outcome_step(single_statement_spec(rows, stmt(SQL_SCHEMA_VERSION_DELETE@, seq![]))),
            nothing,
        ),
        DriverCallView::SchemaVersionCreate(n) => map_output(
            outcome_step(single_statement_spec(rows, stmt(SQL_SCHEMA_VERSION_CREATE@, seq![BindView::Int(n)]))),
            nothing,
        ),
        DriverCallView::EntityGetId(ext) => map_output(outcome_step(entity_get_id_spec(ext, rows)), id),
        DriverCallView::EntityCreate(ext) => map_output(outcome_step(entity_create_spec(ext, rows, uuid)), id),
        DriverCallView::ProcessCreate(ext) => map_output(outcome_step(process_create_spec(ext, rows, uuid)), id),
        DriverCallView::SessionCreate(s, e, p) => map_output(outcome_step(session_create_spec(s, e, p, rows)), id),
        DriverCallView::ConversationCreate(sid, t) => map_output(
            outcome_step(conversation_create_spec(sid, t, rows, uuid)),
            id,
        ),
        DriverCallView::ConversationUpdate(cid, summary) => map_output(
            outcome_step(conversation_update_spec(cid, summary, rows)),
            nothing,
        ),
        DriverCallView::ConversationMessageCreate(cid, role, content) => map_output(
            outcome_step(conversation_message_create_spec(cid, role, content, rows, uuid)),
            nothing,
        ),
        DriverCallView::ConversationMessagesRead(cid) => map_output(
            outcome_step(conversation_messages_read_spec(cid, rows)),
            |m: Seq<(Seq<char>, Seq<char>)>| DriverOutputView::Messages(m),
        ),
        DriverCallView::EntityFactCreate(eid, facts, embeddings, conv) => map_output(
            outcome_step(entity_fact_create_spec(eid, facts, embeddings, conv, rows, uuid)),
            nothing,
        ),
        DriverCallView::EntityFactCreateWithoutEmbedding(eid, content) => map_output(
            outcome_step(entity_fact_create_without_embedding_spec(eid, content, rows, uuid)),
            nothing,
        ),
        DriverCallView::EntityFactGetEmbeddings(eid, limit) => map_output(
            outcome_step(entity_fact_get_embeddings_spec(eid, limit, rows)),
            |e: Seq<EmbeddingRowView>| DriverOutputView::Embeddings(e),
        ),
        DriverCallView::EntityFactGetByIds(ids) => map_output(
            outcome_step(entity_fact_get_by_ids_spec(ids, rows)),
            |f: Seq<CandidateFactRowView>| DriverOutputView::Facts(f),
        ),
        DriverCallView::KnowledgeGraphCreate(eid, triples) => map_output(
            outcome_step(knowledge_graph_create_spec(eid, triples, rows, uuid)),
            nothing,
        ),
        DriverCallView::ProcessAttributeCreate(pid, attributes) => map_output(
            outcome_step(process_attribute_create_spec(pid, attributes, rows, uuid)),
            nothing,
        ),
    }
}

fn wrap_nothing(s: Step<DbRequest, ()>) -> (r: Step<DbRequest, DriverOutput>)
    ensures
        r.deep_view() == map_output(s.deep_view(), |u: ()| DriverOutputView::Nothing),
{
    match s {
        Step::Run(q) => Step::Run(q),
        Step::Done(Ok(_)) => Step::Done(Ok(DriverOutput::Nothing)),
        Step::Done(Err(e)) => Step::Done(Err(e)),
    }
}

fn wrap_id(s: Step<DbRequest, Option<i64>>) -> (r: Step<DbRequest, DriverOutput>)
    ensures
        r.deep_view() == map_output(s.deep_view(), |o: Option<i64>| DriverOutputView::Id(o)),
{
    match s {
        Step::Run(q) => Step::Run(q),
        Step::Done(Ok(o)) => Step::Done(Ok(DriverOutput::Id(o))),
        Step::Done(Err(e)) => Step::Done(Err(e)),
    }
}

/// Carries out a driver call with the MySQL driver: one step of it.
pub fn run_call(call: &DriverCall, replies: &DbReplies, fresh_uuid: &str) -> (r: Step<DbRequest, DriverOutput>)
    requires
        call_fits(call.deep_view()),
    ensures
        r.deep_view() == run_call_spec(call.deep_view(), replies.rows@, fresh_uuid@),
{
    match call {
        DriverCall::SchemaVersionRead => wrap_id(schema_version_read(replies)),
        DriverCall::SchemaVersionDelete => wrap_nothing(schema_version_delete(replies)),
        DriverCall::SchemaVersionCreate(n) => wrap_nothing(schema_version_create(*n, replies)),
        DriverCall::EntityGetId(ext) => wrap_id(entity_get_id(ext.as_str(), replies)),
        DriverCall::EntityCreate(ext) => wrap_id(entity_create(ext.as_str(), replies, fresh_uuid)),
        DriverCall::ProcessCreate(ext) => wrap_id(process_create(ext.as_str(), replies, fresh_uuid)),
        DriverCall::SessionCreate(s, e, p) => wrap_id(session_create(s.as_str(), *e, *p, replies)),
        DriverCall::ConversationCreate(sid, t) => wrap_id(conversation_create(*sid, *t, replies, fresh_uuid)),
        DriverCall::ConversationUpdate(cid, summary) => wrap_nothing(
            conversation_update(*cid, summary.as_str(), replies),
        ),
        DriverCall::ConversationMessageCreate(cid, role, content) => wrap_nothing(
            conversation_message_create(*cid, role.as_str(), content.as_str(), replies, fresh_uuid),
        ),
        DriverCall::ConversationMessagesRead(cid) => match conversation_messages_read(*cid, replies) {
            Step::Run(q) => Step::Run(q),
            Step::Done(Ok(m)) => Step::Done(Ok(DriverOutput::Messages(m))),
            Step::Done(Err(e)) => Step::Done(Err(e)),
        },
        DriverCall::EntityFactCreate(eid, facts, embeddings, conv) => wrap_nothing(
            entity_fact_create(*eid, facts, embeddings, *conv, replies, fresh_uuid),
        ),
        DriverCall::EntityFactCreateWithoutEmbedding(eid, content) => wrap_nothing(
            entity_fact_create_without_embedding(*eid, content.as_str(), replies, fresh_uuid),
        ),
        DriverCall::EntityFactGetEmbeddings(eid, limit) => match entity_fact_get_embeddings(*eid, *limit, replies) {
            Step::Run(q) => Step::Run(q),
            Step::Done(Ok(e)) => Step::Done(Ok(DriverOutput::Embeddings(e))),
            Step::Done(Err(e)) => Step::Done(Err(e)),
        },
        DriverCall::EntityFactGetByIds(ids) => match entity_fact_get_by_ids(ids, replies) {
            Step::Run(q) => Step::Run(q),
            Step::Done(Ok(f)) => Step::Done(Ok(DriverOutput::Facts(f))),
            Step::Done(Err(e)) => Step::Done(Err(e)),
        },
        DriverCall::KnowledgeGraphCreate(eid, triples) => match triples {
            Some(t) => wrap_nothing(knowledge_graph_create(*eid, t, replies, fresh_uuid)),
            None => {
                let none: Vec<JsonValue> = Vec::new();
                assert(none@ =~= seq![]);
                wrap_nothing(knowledge_graph_create(*eid, &none, replies, fresh_uuid))
            },
        },
        DriverCall::ProcessAttributeCreate(pid, attributes) => wrap_nothing(
            process_attribute_create(*pid, attributes, replies, fresh_uuid),
        ),
    }
}

/// Code and message of the error given when no random UUID can be drawn.
pub const NO_RANDOMNESS_CODE: &'static str = "RNG_ERR";
pub const NO_RANDOMNESS_MESSAGE: &'static str = "could not retrieve random bytes for uuid";

/// Byte `k` of the version-4 UUID built from 16 random `bytes`: byte 6
/// carries the version (4) in its high half, byte 8 the RFC 4122 variant
/// in its two high bits.
pub open spec fn uuid_v4_byte(bytes: Seq<u8>, k: int) -> u8 {
    if k == 6 {
        (bytes[6] & 0x0f) | 0x40
    } else if k == 8 {
        (bytes[8] & 0x3f) | 0x80
    } else {
        bytes[k]
    }
}

/// Bytes `from` to `to` (exclusive) of that UUID, each as two lowercase
/// hexadecimal digits.
pub open spec fn uuid_hex(bytes: Seq<u8>, from: int, to: int) -> Seq<char>
    decreases to - from,
{
    if from >= to {
        seq![]
    } else {
        hex_text(uuid_v4_byte(bytes, from) as u64, 2) + uuid_hex(bytes, from + 1, to)
    }
}

/// The hyphenated text of the version-4 UUID built from 16 random `bytes`:
/// groups of 4, 2, 2, 2 and 6 bytes joined by `-`.
pub open spec fn uuid_v4_text(bytes: Seq<u8>) -> Seq<char> {
    uuid_hex(bytes, 0, 4) + seq!['-'] + uuid_hex(bytes, 4, 6) + seq!['-'] + uuid_hex(bytes, 6, 8) + seq!['-']
        + uuid_hex(bytes, 8, 10) + seq!['-'] + uuid_hex(bytes, 10, 16)
}

/// Calls `getrandom::fill` on a 16-byte buffer: `Some` of the bytes, or
/// `None` where the system's random number source reports an error. The
/// bytes are random; nothing is claimed of their value.
#[verifier::external_body]
fn random_uuid_bytes() -> (r: Option<[u8; 16]>) {
    let mut bytes = [0u8; 16];
    match getrandom::fill(&mut bytes) {
        Ok(()) => Some(bytes),
        Err(_) => None,
    }
}

/// Calls `uuid::Builder::from_random_bytes` on `bytes`, then `into_uuid`
/// and `to_string`. Claimed: the text is the UUID's 36-character
/// lowercase hyphenated form, as [`uuid_v4_text`] writes it out.
#[verifier::external_body]
fn uuid_text(bytes: [u8; 16]) -> (s: String)
    ensures
        s@ == uuid_v4_text(bytes@),
        s@.len() == 36,
{
    uuid::Builder::from_random_bytes(bytes).into_uuid().to_string()
}

/// The calls that insert rows, each row with a fresh UUID.
pub open spec fn inserts_rows(call: DriverCallView) -> bool {
    match call {
        DriverCallView::EntityCreate(..) | DriverCallView::ProcessCreate(..) | DriverCallView::ConversationCreate(..)
        | DriverCallView::ConversationMessageCreate(..) | DriverCallView::EntityFactCreate(..)
        | DriverCallView::EntityFactCreateWithoutEmbedding(..) | DriverCallView::KnowledgeGraphCreate(..)
        | DriverCallView::ProcessAttributeCreate(..) => true,
        _ => false,
    }
}

/// Whether `sql` is an insert.
pub open spec fn is_insert(sql: Seq<char>) -> bool {
    sql.len() >= 6 && sql.take(6) == seq!['I', 'N', 'S', 'E', 'R', 'T']
}

/// Whether step `s` of `call` inserts a row that needs a fresh UUID.
pub open spec fn step_draws_uuid(call: DriverCallView, s: StepView<DbRequestView, DriverOutputView>) -> bool {
    inserts_rows(call) && (s matches StepView::Run(DbRequestView::Execute(st)) && is_insert(st.sql))
}

fn starts_with_insert(sql: &String) -> (r: bool)
    ensures
        r == is_insert(sql@),
{
    let s = sql.as_str();
    let len = s.unicode_len();
    if len < 6 {
        return false;
    }
    let word = ['I', 'N', 'S', 'E', 'R', 'T'];
    let mut k: usize = 0;
    while k < 6
        invariant
            0 <= k <= 6,
            len == sql@.len(),
            s@ == sql@,
            len >= 6,
            word@ == seq!['I', 'N', 'S', 'E', 'R', 'T'],
            forall|x: int| 0 <= x < k ==> sql@[x] == word@[x],
        decreases 6 - k,
    {
        let c = s.get_char(k);
        if c != word[k] {
            assert(sql@.take(6)[k as int] != seq!['I', 'N', 'S', 'E', 'R', 'T'][k as int]);
            return false;
        }
        k = k + 1;
    }
    assert(sql@.take(6) =~= seq!['I', 'N', 'S', 'E', 'R', 'T']);
    true
}

/// One step of a driver call with the MySQL driver. The step is first
/// worked out without a UUID; only when it is an insert that needs a fresh
/// UUID is one drawn at random and the step worked out with it, failing
/// with `RNG_ERR` when no random bytes can be had.
pub fn next_step(call: &DriverCall, replies: &DbReplies) -> (r: Step<DbRequest, DriverOutput>)
    requires
        call_fits(call.deep_view()),
    ensures
        !step_draws_uuid(call.deep_view(), run_call_spec(call.deep_view(), replies.rows@, seq![]))
            ==> r.deep_view() == run_call_spec(call.deep_view(), replies.rows@, seq![]),
        step_draws_uuid(call.deep_view(), run_call_spec(call.deep_view(), replies.rows@, seq![])) ==> (
        r.deep_view() == StepView::<DbRequestView, DriverOutputView>::Done(
            Err(ErrorView { code: NO_RANDOMNESS_CODE@, message: NO_RANDOMNESS_MESSAGE@ }),
        ) || exists|b: Seq<u8>|
            b.len() == 16 && uuid_v4_text(b).len() == 36 && r.deep_view() == #[trigger] run_call_spec(
                call.deep_view(),
                replies.rows@,
                uuid_v4_text(b),
            )),
{
    let none = "";
    assert(none@ =~= seq![]) by {
        reveal_strlit("");
    }
    let probe = run_call(call, replies, none);
    let inserts = match call {
        DriverCall::EntityCreate(..) | DriverCall::ProcessCreate(..) | DriverCall::ConversationCreate(..)
        | DriverCall::ConversationMessageCreate(..) | DriverCall::EntityFactCreate(..)
        | DriverCall::EntityFactCreateWithoutEmbedding(..) | DriverCall::KnowledgeGraphCreate(..)
        | DriverCall::ProcessAttributeCreate(..) => true,
        _ => false,
    };
    let draws = inserts && match &probe {
        Step::Run(DbRequest::Execute(st)) => starts_with_insert(&st.sql),
        _ => false,
    };
    if !draws {
        return probe;
    }
    match random_uuid_bytes() {
        None => Step::Done(
            Err(
                HostStorageError::new(
                    String::from_str(NO_RANDOMNESS_CODE),
                    String::from_str(NO_RANDOMNESS_MESSAGE),
                ),
            ),
        ),
        Some(bytes) => {
            let uuid = uuid_text(bytes);
            let r = run_call(call, replies, uuid.as_str());
            assert(bytes@.len() == 16);
            r
        },
    }
}

} // verus!
