use vstd::prelude::*;

use crate::json::JsonValue;

verus! {

/// An error reported by the database host or raised by the storage layer.
#[derive(Debug, Clone)]
pub struct HostStorageError {
    pub code: String,
    pub message: String,
}

pub struct ErrorView {
    pub code: Seq<char>,
    pub message: Seq<char>,
}

impl DeepView for HostStorageError {
    type V = ErrorView;

    open spec fn deep_view(&self) -> ErrorView {
        ErrorView { code: self.code@, message: self.message@ }
    }
}

impl HostStorageError {
    pub fn new(code: String, message: String) -> (r: HostStorageError)
        ensures
            r.deep_view() == (ErrorView { code: code@, message: message@ }),
    {
        HostStorageError { code, message }
    }

    /// A copy of the error.
    pub fn duplicate(&self) -> (r: HostStorageError)
        ensures
            r.deep_view() == self.deep_view(),
    {
        HostStorageError { code: self.code.clone(), message: self.message.clone() }
    }
}

/// The id of a stored fact: an integer key or an opaque string key.
#[derive(Debug, Clone)]
pub enum FactId {
    Int(i64),
    String(String),
}

pub enum FactIdView {
    Int(i64),
    Text(Seq<char>),
}

impl DeepView for FactId {
    type V = FactIdView;

    open spec fn deep_view(&self) -> FactIdView {
        match self {
            FactId::Int(n) => FactIdView::Int(*n),
            FactId::String(s) => FactIdView::Text(s@),
        }
    }
}

/// One write operation of a batch: its type and its JSON payload.
#[derive(Debug)]
pub struct WriteOp {
    pub op_type: String,
    pub payload: JsonValue,
}

/// A batch of write operations, run in one transaction.
#[derive(Debug)]
pub struct WriteBatch {
    pub ops: Vec<WriteOp>,
}

/// The acknowledgement of a committed batch.
#[derive(Debug, Clone, Copy, PartialEq, Eq, Structural)]
pub struct WriteAck {
    pub written_ops: usize,
}

/// A fact's stored embedding, as the base64 text that the database holds.
#[derive(Debug, Clone)]
pub struct EmbeddingRow {
    pub id: FactId,
    pub content_embedding_b64: Option<String>,
}

pub struct EmbeddingRowView {
    pub id: FactIdView,
    pub content_embedding_b64: Option<Seq<char>>,
}

impl DeepView for EmbeddingRow {
    type V = EmbeddingRowView;

    open spec fn deep_view(&self) -> EmbeddingRowView {
        EmbeddingRowView {
            id: self.id.deep_view(),
            content_embedding_b64: match self.content_embedding_b64 {
                Some(s) => Some(s@),
                None => None,
            },
        }
    }
}

/// A conversation summary attached to a fact that the conversation mentions.
#[derive(Debug, Clone)]
pub struct FactSummary {
    pub content: String,
    pub date_created: String,
}

pub struct FactSummaryView {
    pub content: Seq<char>,
    pub date_created: Seq<char>,
}

impl DeepView for FactSummary {
    type V = FactSummaryView;

    open spec fn deep_view(&self) -> FactSummaryView {
        FactSummaryView { content: self.content@, date_created: self.date_created@ }
    }
}

/// A fact fetched as a retrieval candidate, with its summaries.
#[derive(Debug, Clone)]
pub struct CandidateFactRow {
    pub id: FactId,
    pub content: String,
    pub date_created: String,
    pub summaries: Vec<FactSummary>,
}

pub struct CandidateFactRowView {
    pub id: FactIdView,
    pub content: Seq<char>,
    pub date_created: Seq<char>,
    pub summaries: Seq<FactSummaryView>,
}

impl DeepView for CandidateFactRow {
    type V = CandidateFactRowView;

    open spec fn deep_view(&self) -> CandidateFactRowView {
        CandidateFactRowView {
            id: self.id.deep_view(),
            content: self.content@,
            date_created: self.date_created@,
            summaries: self.summaries.deep_view(),
        }
    }
}

impl FactId {
    /// A copy of the id.
    pub fn duplicate(&self) -> (r: FactId)
        ensures
            r.deep_view() == self.deep_view(),
    {
        match self {
            FactId::Int(n) => FactId::Int(*n),
            FactId::String(s) => FactId::String(s.clone()),
        }
    }
}

impl EmbeddingRow {
    /// A copy of the row.
    pub fn duplicate(&self) -> (r: EmbeddingRow)
        ensures
            r.deep_view() == self.deep_view(),
    {
        EmbeddingRow {
            id: self.id.duplicate(),
            content_embedding_b64: match &self.content_embedding_b64 {
                Some(s) => Some(s.clone()),
                None => None,
            },
        }
    }
}

impl CandidateFactRow {
    /// A copy of the row.
    pub fn duplicate(&self) -> (r: CandidateFactRow)
        ensures
            r.deep_view() == self.deep_view(),
    {
        let mut summaries: Vec<FactSummary> = Vec::new();
        let mut i: usize = 0;
        while i < self.summaries.len()
            invariant
                0 <= i <= self.summaries.len(),
                summaries.deep_view() == self.summaries.deep_view().take(i as int),
            decreases self.summaries.len() - i,
        {
            let s = &self.summaries[i];
            let x = FactSummary { content: s.content.clone(), date_created: s.date_created.clone() };
            let ghost before = summaries;
            summaries.push(x);
            proof {
                crate::drivers::lemma_deep_view_push(before, summaries, x);
            }
            assert(summaries.deep_view() =~= self.summaries.deep_view().take(i + 1));
            i = i + 1;
        }
        assert(self.summaries.deep_view().take(self.summaries.len() as int) =~= self.summaries.deep_view());
        CandidateFactRow {
            id: self.id.duplicate(),
            content: self.content.clone(),
            date_created: self.date_created.clone(),
            summaries,
        }
    }
}

} // verus!
