use vstd::prelude::*;

use base64::engine::general_purpose::STANDARD;
use base64::Engine;

pub use crate::json::read_id;
use crate::json::JsonValue;
use crate::models::{ErrorView, HostStorageError};

verus! {

/// The character of the standard base64 alphabet for `v` (below 64).
pub open spec fn base64_char(v: int) -> char {
    if v < 26 {
        ('A' as int + v) as char
    } else if v < 52 {
        ('a' as int + (v - 26)) as char
    } else if v < 62 {
        ('0' as int + (v - 52)) as char
    } else if v == 62 {
        '+'
    } else {
        '/'
    }
}

/// The standard base64 encoding (RFC 4648 alphabet, with `=` padding) of
/// `data`: every group of three bytes as four characters of six bits each,
/// a last group of one or two bytes padded with `=`.
pub open spec fn base64_standard(data: Seq<u8>) -> Seq<char>
    decreases data.len(),
{
    if data.len() == 0 {
        seq![]
    } else if data.len() == 1 {
        let n = data[0] as int;
        seq![base64_char(n / 4), base64_char((n % 4) * 16), '=', '=']
    } else if data.len() == 2 {
        let n = data[0] as int * 256 + data[1] as int;
        seq![base64_char(n / 1024), base64_char((n / 16) % 64), base64_char((n % 16) * 4), '=']
    } else {
        let n = data[0] as int * 65536 + data[1] as int * 256 + data[2] as int;
        seq![base64_char(n / 262144), base64_char((n / 4096) % 64), base64_char((n / 64) % 64), base64_char(n % 64)]
            + base64_standard(data.skip(3))
    }
}

/// Calls `base64::engine::general_purpose::STANDARD.encode`. Claimed: the
/// result is the standard padded base64 text of `data` as
/// [`base64_standard`] writes it out, four characters for every started
/// group of three bytes. The call panics when that length does
/// not fit in `usize`, hence the `requires`.
#[verifier::external_body]
fn base64_encode(data: &[u8]) -> (s: String)
    requires
        4 * ((data@.len() + 2) / 3) <= usize::MAX,
    ensures
        s@ == base64_standard(data@),
        s@.len() == 4 * ((data@.len() + 2) / 3),
{
    STANDARD.encode(data)
}

/// A single bind parameter of a parameterised SQL statement. `Bytes` holds
/// raw bytes already base64-encoded for transport to the host.
#[derive(Debug, Clone)]
pub enum SqlBind {
    Null,
    Int(i64),
    Text(String),
    Bytes(String),
}

pub enum BindView {
    Null,
    Int(i64),
    Text(Seq<char>),
    Bytes(Seq<char>),
}

impl DeepView for SqlBind {
    type V = BindView;

    open spec fn deep_view(&self) -> BindView {
        match self {
            SqlBind::Null => BindView::Null,
            SqlBind::Int(n) => BindView::Int(*n),
            SqlBind::Text(s) => BindView::Text(s@),
            SqlBind::Bytes(s) => BindView::Bytes(s@),
        }
    }
}

/// `SqlBind::id_or_null`.
pub open spec fn id_or_null_view(id: Option<i64>) -> BindView {
    match id {
        Some(n) => BindView::Int(n),
        None => BindView::Null,
    }
}

impl SqlBind {
    /// Encodes raw bytes as a base64 `Bytes` bind value.
    pub fn bytes(data: &[u8]) -> (r: SqlBind)
        requires
            4 * ((data@.len() + 2) / 3) <= usize::MAX,
        ensures
            r.deep_view() == BindView::Bytes(base64_standard(data@)),
            base64_standard(data@).len() == 4 * ((data@.len() + 2) / 3),
    {
        SqlBind::Bytes(base64_encode(data))
    }

    pub fn id_or_null(id: Option<i64>) -> (r: SqlBind)
        ensures
            r.deep_view() == id_or_null_view(id),
    {
        match id {
            Some(n) => SqlBind::Int(n),
            None => SqlBind::Null,
        }
    }

    pub fn text_or_null(s: Option<&str>) -> (r: SqlBind)
        ensures
            r.deep_view() == (match s {
                Some(v) => BindView::Text(v@),
                None => BindView::Null,
            }),
    {
        match s {
            Some(v) => SqlBind::Text(String::from_str(v)),
            None => SqlBind::Null,
        }
    }

    /// A copy of the bind value.
    pub fn duplicate(&self) -> (r: SqlBind)
        ensures
            r.deep_view() == self.deep_view(),
    {
        match self {
            SqlBind::Null => SqlBind::Null,
            SqlBind::Int(n) => SqlBind::Int(*n),
            SqlBind::Text(s) => SqlBind::Text(s.clone()),
            SqlBind::Bytes(s) => SqlBind::Bytes(s.clone()),
        }
    }
}

/// A SQL statement with its bind parameters, ready for the host to execute.
#[derive(Debug, Clone)]
pub struct Statement {
    pub sql: String,
    pub binds: Vec<SqlBind>,
}

pub struct StatementView {
    pub sql: Seq<char>,
    pub binds: Seq<BindView>,
}

impl DeepView for Statement {
    type V = StatementView;

    open spec fn deep_view(&self) -> StatementView {
        StatementView { sql: self.sql@, binds: self.binds.deep_view() }
    }
}

/// What a driver step asks of the host: run a statement.
#[derive(Debug, Clone)]
pub enum DbRequest {
    Execute(Statement),
}

pub enum DbRequestView {
    Execute(StatementView),
}

impl DeepView for DbRequest {
    type V = DbRequestView;

    open spec fn deep_view(&self) -> DbRequestView {
        match self {
            DbRequest::Execute(st) => DbRequestView::Execute(st.deep_view()),
        }
    }
}

/// The host's answers so far: one entry of `rows` per executed statement,
/// in order.
#[derive(Debug)]
pub struct DbReplies {
    pub rows: Vec<Result<Vec<JsonValue>, HostStorageError>>,
}

/// One step of an exchange with the host: the next request, or the result.
#[derive(Debug)]
pub enum Step<R, T> {
    Run(R),
    Done(Result<T, HostStorageError>),
}

pub enum StepView<R, T> {
    Run(R),
    Done(Result<T, ErrorView>),
}

impl<R: DeepView, T: DeepView> DeepView for Step<R, T> {
    type V = StepView<R::V, T::V>;

    open spec fn deep_view(&self) -> StepView<R::V, T::V> {
        match self {
            Step::Run(r) => StepView::Run(r.deep_view()),
            Step::Done(Ok(t)) => StepView::Done(Ok(t.deep_view())),
            Step::Done(Err(e)) => StepView::Done(Err(e.deep_view())),
        }
    }
}

/// Where a replayed exchange stands: it needs a request answered, it failed,
/// or it finished with a value, with the positions from which the next
/// replies are read: in a driver exchange, the next statement reply (the
/// second position is not used there); in a manager flow, the next driver
/// call reply and the next embedder reply.
pub enum Outcome<R, T> {
    Need(R),
    Fail(ErrorView),
    Finish(T, nat, nat),
}

pub open spec fn outcome_step<R, T>(o: Outcome<R, T>) -> StepView<R, T> {
    match o {
        Outcome::Need(r) => StepView::Run(r),
        Outcome::Fail(e) => StepView::Done(Err(e)),
        Outcome::Finish(t, _, _) => StepView::Done(Ok(t)),
    }
}

} // verus!
