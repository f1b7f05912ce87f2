//! What every SQL driver shares: the replayed exchange with the host, the
//! driver calls that the manager makes, and the byte layout of embeddings.

use vstd::prelude::*;

use crate::connection::{
    DbReplies, DbRequest, DbRequestView, Outcome, SqlBind, Statement, StatementView, Step, StepView,
};
use crate::json::JsonValue;
use crate::models::{
    CandidateFactRow, CandidateFactRowView, EmbeddingRow, EmbeddingRowView, FactId, FactIdView, HostStorageError,
};

pub mod mysql;

verus! {

/// FNV-1a (64-bit) offset basis and prime, which the uniqueness keys use.
pub const FNV_OFFSET: u64 = 0xcbf2_9ce4_8422_2325;
pub const FNV_PRIME: u64 = 0x0000_0100_0000_01b3;
/// Mixed in after each term, so that `["ab", "c"]` and `["a", "bc"]` differ.
pub const TERM_SEPARATOR: u64 = 0x1f;

/// One FNV-1a step: mix `x` into `h`.
pub open spec fn fnv_mix(h: u64, x: u64) -> u64 {
    (h ^ x).wrapping_mul(FNV_PRIME)
}

/// `h` with the code points of `s` mixed in, in order.
pub open spec fn fnv_chars(h: u64, s: Seq<char>) -> u64
    decreases s.len(),
{
    if s.len() == 0 {
        h
    } else {
        fnv_mix(fnv_chars(h, s.drop_last()), s.last() as u64)
    }
}

/// The hash of a list of terms: each term's code points, then the separator.
pub open spec fn terms_hash(terms: Seq<Seq<char>>) -> u64
    decreases terms.len(),
{
    if terms.len() == 0 {
        FNV_OFFSET
    } else {
        fnv_mix(fnv_chars(terms_hash(terms.drop_last()), terms.last()), TERM_SEPARATOR)
    }
}

/// The lowercase hexadecimal digit of `d` (below 16).
pub open spec fn hex_digit(d: u64) -> Seq<char> {
    if d == 0 { "0"@ } else if d == 1 { "1"@ } else if d == 2 { "2"@ } else if d == 3 { "3"@ }
    else if d == 4 { "4"@ } else if d == 5 { "5"@ } else if d == 6 { "6"@ } else if d == 7 { "7"@ }
    else if d == 8 { "8"@ } else if d == 9 { "9"@ } else if d == 10 { "a"@ } else if d == 11 { "b"@ }
    else if d == 12 { "c"@ } else if d == 13 { "d"@ } else if d == 14 { "e"@ } else { "f"@ }
}

/// The last `n` hexadecimal digits of `h`, most significant first.
pub open spec fn hex_text(h: u64, n: nat) -> Seq<char>
    decreases n,
{
    if n == 0 {
        seq![]
    } else {
        hex_text(h / 16, (n - 1) as nat) + hex_digit(h % 16)
    }
}

/// The uniqueness key of a list of terms: the hash of the terms as 16
/// lowercase hexadecimal digits.
pub open spec fn uniq_key(terms: Seq<Seq<char>>) -> Seq<char> {
    hex_text(terms_hash(terms), 16)
}

fn hex_digit_str(d: u64) -> (r: &'static str)
    ensures
        r@ == hex_digit(d),
{
    if d == 0 { "0" } else if d == 1 { "1" } else if d == 2 { "2" } else if d == 3 { "3" }
    else if d == 4 { "4" } else if d == 5 { "5" } else if d == 6 { "6" } else if d == 7 { "7" }
    else if d == 8 { "8" } else if d == 9 { "9" } else if d == 10 { "a" } else if d == 11 { "b" }
    else if d == 12 { "c" } else if d == 13 { "d" } else if d == 14 { "e" } else { "f" }
}

fn hex_string(h: u64, n: u64) -> (r: String)
    ensures
        r@ == hex_text(h, n as nat),
    decreases n,
{
    if n == 0 {
        return String::new();
    }
    let mut s = hex_string(h / 16, n - 1);
    s.append(hex_digit_str(h % 16));
    s
}

fn mix_chars(h: u64, s: &str) -> (r: u64)
    ensures
        r == fnv_chars(h, s@),
{
    let len = s.unicode_len();
    let mut acc = h;
    let mut i: usize = 0;
    while i < len
        invariant
            0 <= i <= len,
            len == s@.len(),
            acc == fnv_chars(h, s@.take(i as int)),
        decreases len - i,
    {
        let c = s.get_char(i);
        proof {
            assert(s@.take(i + 1).drop_last() =~= s@.take(i as int));
            assert(s@.take(i + 1).last() == c);
        }
        acc = (acc ^ (c as u32 as u64)).wrapping_mul(FNV_PRIME);
        i = i + 1;
    }
    assert(s@.take(len as int) =~= s@);
    acc
}

/// The uniqueness key of `terms`, by which rows that stand for the same
/// thing are found again.
pub fn generate_uniq(terms: &Vec<String>) -> (r: String)
    ensures
        r@ == uniq_key(terms.deep_view()),
{
    let mut h: u64 = FNV_OFFSET;
    let mut i: usize = 0;
    while i < terms.len()
        invariant
            0 <= i <= terms.len(),
            h == terms_hash(terms.deep_view().take(i as int)),
        decreases terms.len() - i,
    {
        proof {
            assert(terms.deep_view().take(i + 1).drop_last() =~= terms.deep_view().take(i as int));
            assert(terms.deep_view().take(i + 1).last() == terms@[i as int]@);
        }
        h = mix_chars(h, terms[i].as_str());
        h = (h ^ TERM_SEPARATOR).wrapping_mul(FNV_PRIME);
        i = i + 1;
    }
    assert(terms.deep_view().take(terms.len() as int) =~= terms.deep_view());
    hex_string(h, 16)
}

/// The reply to one executed statement: its rows, or the host's error.
pub type RowsReply = Result<Vec<JsonValue>, HostStorageError>;

/// Runs `k` on the value of a finished exchange; a pending or failed one
/// stays as it is.
pub open spec fn then<R, A, B>(o: Outcome<R, A>, k: spec_fn(A, nat, nat) -> Outcome<R, B>) -> Outcome<R, B> {
    match o {
        Outcome::Need(r) => Outcome::Need(r),
        Outcome::Fail(e) => Outcome::Fail(e),
        Outcome::Finish(a, i, j) => k(a, i, j),
    }
}

/// Statement `st` is the `i`-th of the exchange: it is requested while it has
/// no reply; its error ends the exchange; its rows are passed on.
pub open spec fn exec_step(rows: Seq<RowsReply>, i: nat, j: nat, st: StatementView) -> Outcome<
    DbRequestView,
    Seq<JsonValue>,
> {
    if i >= rows.len() {
        Outcome::Need(DbRequestView::Execute(st))
    } else {
        match rows[i as int] {
            Ok(r) => Outcome::Finish(r@, i + 1, j),
            Err(e) => Outcome::Fail(e.deep_view()),
        }
    }
}

/// The uniqueness key of `terms`, computed on the spot; it takes no reply.
pub open spec fn key_step(i: nat, j: nat, terms: Seq<Seq<char>>) -> Outcome<DbRequestView, Seq<char>> {
    Outcome::Finish(uniq_key(terms), i, j)
}

/// `s` is the step at which the unfinished exchange `o` stops.
pub open spec fn stops<R, T, A>(s: StepView<R, T>, o: Outcome<R, A>) -> bool {
    match o {
        Outcome::Need(r) => s == StepView::<R, T>::Run(r),
        Outcome::Fail(e) => s == StepView::<R, T>::Done(Err(e)),
        Outcome::Finish(..) => false,
    }
}

pub open spec fn stmt(sql: Seq<char>, binds: Seq<crate::connection::BindView>) -> StatementView {
    StatementView { sql, binds }
}

/// Replays the reply to the statement at position `i`.
pub fn run_statement<'a, T: DeepView>(replies: &'a DbReplies, i: usize, j: usize, st: Statement) -> (r:
    Result<(&'a Vec<JsonValue>, usize, usize), Step<DbRequest, T>>)
    ensures
        match r {
            Ok((rows, i2, j2)) => exec_step(replies.rows@, i as nat, j as nat, st.deep_view())
                == Outcome::<DbRequestView, Seq<JsonValue>>::Finish(rows@, i2 as nat, j2 as nat),
            Err(s) => stops(s.deep_view(), exec_step(replies.rows@, i as nat, j as nat, st.deep_view())),
        },
{
    if i >= replies.rows.len() {
        return Err(Step::Run(DbRequest::Execute(st)));
    }
    match &replies.rows[i] {
        Ok(rows) => Ok((rows, i + 1, j)),
        Err(e) => Err(Step::Done(Err(e.duplicate()))),
    }
}

/// Pushing onto a vector pushes the element's deep view onto its deep view.
pub proof fn lemma_deep_view_push<T: DeepView>(before: Vec<T>, after: Vec<T>, x: T)
    requires
        after@ == before@.push(x),
    ensures
        after.deep_view() == before.deep_view().push(x.deep_view()),
{
    assert(after.deep_view() =~= before.deep_view().push(x.deep_view()));
}

/// Builds a statement from its SQL text and binds.
pub fn statement(sql: &str, binds: Vec<SqlBind>) -> (r: Statement)
    ensures
        r.deep_view() == stmt(sql@, binds.deep_view()),
{
    Statement { sql: String::from_str(sql), binds }
}

pub fn text(s: &str) -> (r: SqlBind)
    ensures
        r.deep_view() == crate::connection::BindView::Text(s@),
{
    SqlBind::Text(String::from_str(s))
}

/// The four little-endian bytes of `x`.
pub open spec fn u32_le(x: u32) -> Seq<u8> {
    seq![(x & 0xff) as u8, ((x >> 8u32) & 0xff) as u8, ((x >> 16u32) & 0xff) as u8, ((x >> 24u32) & 0xff) as u8]
}

/// An embedding's bytes: each `f32` (given by its bits) in little-endian order.
pub open spec fn le_bytes(bits: Seq<u32>) -> Seq<u8>
    decreases bits.len(),
{
    if bits.len() == 0 {
        seq![]
    } else {
        le_bytes(bits.drop_last()) + u32_le(bits.last())
    }
}

pub proof fn lemma_le_bytes_len(bits: Seq<u32>)
    ensures
        le_bytes(bits).len() == 4 * bits.len(),
    decreases bits.len(),
{
    if bits.len() > 0 {
        lemma_le_bytes_len(bits.drop_last());
    }
}

/// Serialises an embedding (its `f32` values given by their bits) to bytes.
pub fn embedding_to_bytes(bits: &Vec<u32>) -> (r: Vec<u8>)
    requires
        bits@.len() <= usize::MAX / 8,
    ensures
        r@ == le_bytes(bits@),
        r@.len() == 4 * bits@.len(),
{
    let mut out: Vec<u8> = Vec::new();
    let mut i: usize = 0;
    while i < bits.len()
        invariant
            0 <= i <= bits.len(),
            bits@.len() <= usize::MAX / 8,
            out@ == le_bytes(bits@.take(i as int)),
            out@.len() == 4 * i,
        decreases bits.len() - i,
    {
        let x = bits[i];
        out.push((x & 0xff) as u8);
        out.push(((x >> 8u32) & 0xff) as u8);
        out.push(((x >> 16u32) & 0xff) as u8);
        out.push(((x >> 24u32) & 0xff) as u8);
        proof {
            assert(bits@.take(i + 1).drop_last() =~= bits@.take(i as int));
            assert(bits@.take(i + 1).last() == x);
            assert(out@ =~= le_bytes(bits@.take(i + 1)));
        }
        i = i + 1;
    }
    proof {
        assert(bits@.take(bits.len() as int) =~= bits@);
    }
    out
}

/// A storage operation that the manager asks a driver to carry out on the
/// connection at hand.
#[derive(Debug)]
pub enum DriverCall<'a> {
    SchemaVersionRead,
    SchemaVersionDelete,
    SchemaVersionCreate(i64),
    EntityGetId(String),
    EntityCreate(String),
    ProcessCreate(String),
    SessionCreate(String, Option<i64>, Option<i64>),
    ConversationCreate(i64, i64),
    ConversationUpdate(i64, String),
    ConversationMessageCreate(i64, String, String),
    ConversationMessagesRead(i64),
    EntityFactCreate(i64, Vec<String>, Vec<Vec<u32>>, Option<i64>),
    EntityFactCreateWithoutEmbedding(i64, String),
    EntityFactGetEmbeddings(i64, usize),
    EntityFactGetByIds(Vec<FactId>),
    /// The triples of a payload; `None` stands for no triples.
    KnowledgeGraphCreate(i64, Option<&'a Vec<JsonValue>>),
    ProcessAttributeCreate(i64, Vec<String>),
}

pub enum DriverCallView {
    SchemaVersionRead,
    SchemaVersionDelete,
    SchemaVersionCreate(i64),
    EntityGetId(Seq<char>),
    EntityCreate(Seq<char>),
    ProcessCreate(Seq<char>),
    SessionCreate(Seq<char>, Option<i64>, Option<i64>),
    ConversationCreate(i64, i64),
    ConversationUpdate(i64, Seq<char>),
    ConversationMessageCreate(i64, Seq<char>, Seq<char>),
    ConversationMessagesRead(i64),
    EntityFactCreate(i64, Seq<Seq<char>>, Seq<Seq<u32>>, Option<i64>),
    EntityFactCreateWithoutEmbedding(i64, Seq<char>),
    EntityFactGetEmbeddings(i64, usize),
    EntityFactGetByIds(Seq<FactIdView>),
    KnowledgeGraphCreate(i64, Seq<JsonValue>),
    ProcessAttributeCreate(i64, Seq<Seq<char>>),
}

impl<'a> DeepView for DriverCall<'a> {
    type V = DriverCallView;

    open spec fn deep_view(&self) -> DriverCallView {
        match self {
            DriverCall::SchemaVersionRead => DriverCallView::SchemaVersionRead,
            DriverCall::SchemaVersionDelete => DriverCallView::SchemaVersionDelete,
            DriverCall::SchemaVersionCreate(n) => DriverCallView::SchemaVersionCreate(*n),
            DriverCall::EntityGetId(s) => DriverCallView::EntityGetId(s@),
            DriverCall::EntityCreate(s) => DriverCallView::EntityCreate(s@),
            DriverCall::ProcessCreate(s) => DriverCallView::ProcessCreate(s@),
            DriverCall::SessionCreate(s, e, p) => DriverCallView::SessionCreate(s@, *e, *p),
            DriverCall::ConversationCreate(s, t) => DriverCallView::ConversationCreate(*s, *t),
            DriverCall::ConversationUpdate(id, s) => DriverCallView::ConversationUpdate(*id, s@),
            DriverCall::ConversationMessageCreate(id, r, c) => DriverCallView::ConversationMessageCreate(*id, r@, c@),
            DriverCall::ConversationMessagesRead(id) => DriverCallView::ConversationMessagesRead(*id),
            DriverCall::EntityFactCreate(id, f, e, c) => DriverCallView::EntityFactCreate(
                *id,
                f.deep_view(),
                e.deep_view(),
                *c,
            ),
            DriverCall::EntityFactCreateWithoutEmbedding(id, c) => DriverCallView::EntityFactCreateWithoutEmbedding(
                *id,
                c@,
            ),
            DriverCall::EntityFactGetEmbeddings(id, l) => DriverCallView::EntityFactGetEmbeddings(*id, *l),
            DriverCall::EntityFactGetByIds(ids) => DriverCallView::EntityFactGetByIds(ids.deep_view()),
            DriverCall::KnowledgeGraphCreate(id, t) => DriverCallView::KnowledgeGraphCreate(
                *id,
                match t {
                    Some(v) => v@,
                    None => seq![],
                },
            ),
            DriverCall::ProcessAttributeCreate(id, a) => DriverCallView::ProcessAttributeCreate(*id, a.deep_view()),
        }
    }
}

/// An embedding no longer than any `Vec<f32>` can be.
pub open spec fn embeddings_fit(embeddings: Seq<Seq<u32>>) -> bool {
    forall|k: int| 0 <= k < embeddings.len() ==> #[trigger] embeddings[k].len() <= usize::MAX / 8
}

/// The call's embeddings, if any, have lengths that a `Vec<f32>` can have.
pub open spec fn call_fits(call: DriverCallView) -> bool {
    match call {
        DriverCallView::EntityFactCreate(_, _, embeddings, _) => embeddings_fit(embeddings),
        _ => true,
    }
}

/// Tests [`embeddings_fit`].
pub fn embeddings_all_fit(embeddings: &Vec<Vec<u32>>) -> (r: bool)
    ensures
        r == embeddings_fit(embeddings.deep_view()),
{
    let mut k: usize = 0;
    while k < embeddings.len()
        invariant
            0 <= k <= embeddings.len(),
            forall|x: int| 0 <= x < k ==> #[trigger] embeddings.deep_view()[x].len() <= usize::MAX / 8,
        decreases embeddings.len() - k,
    {
        assert(embeddings.deep_view()[k as int] == embeddings@[k as int]@);
        if embeddings[k].len() > usize::MAX / 8 {
            assert(embeddings.deep_view()[k as int].len() > usize::MAX / 8);
            return false;
        }
        k = k + 1;
    }
    true
}

impl<'a> DriverCall<'a> {
    /// Tests [`call_fits`].
    pub fn fits(&self) -> (r: bool)
        ensures
            r == call_fits(self.deep_view()),
    {
        match self {
            DriverCall::EntityFactCreate(_, _, embeddings, _) => embeddings_all_fit(embeddings),
            _ => true,
        }
    }
}

/// What a driver call gives back.
#[derive(Debug)]
pub enum DriverOutput {
    Nothing,
    Id(Option<i64>),
    Messages(Vec<(String, String)>),
    Embeddings(Vec<EmbeddingRow>),
    Facts(Vec<CandidateFactRow>),
}

pub enum DriverOutputView {
    Nothing,
    Id(Option<i64>),
    Messages(Seq<(Seq<char>, Seq<char>)>),
    Embeddings(Seq<EmbeddingRowView>),
    Facts(Seq<CandidateFactRowView>),
}

impl DeepView for DriverOutput {
    type V = DriverOutputView;

    open spec fn deep_view(&self) -> DriverOutputView {
        match self {
            DriverOutput::Nothing => DriverOutputView::Nothing,
            DriverOutput::Id(id) => DriverOutputView::Id(*id),
            DriverOutput::Messages(m) => DriverOutputView::Messages(m.deep_view()),
            DriverOutput::Embeddings(e) => DriverOutputView::Embeddings(e.deep_view()),
            DriverOutput::Facts(f) => DriverOutputView::Facts(f.deep_view()),
        }
    }
}

/// The step of a driver operation, its result wrapped as a [`DriverOutputView`].
pub open spec fn map_output<A>(s: StepView<DbRequestView, A>, f: spec_fn(A) -> DriverOutputView) -> StepView<
    DbRequestView,
    DriverOutputView,
> {
    match s {
        StepView::Run(r) => StepView::Run(r),
        StepView::Done(Ok(a)) => StepView::Done(Ok(f(a))),
        StepView::Done(Err(e)) => StepView::Done(Err(e)),
    }
}

} // verus!
