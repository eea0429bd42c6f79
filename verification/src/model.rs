//! The rows of the state database and the threads that are reported.

use vstd::prelude::*;

verus! {

/// A closed, unarchived subagent thread.
#[derive(Debug)]
pub struct Candidate {
    pub parent_thread_id: String,
    pub thread_id: String,
    pub status: String,
    pub agent_nickname: Option<String>,
    pub title: String,
}

/// What a run reports.
#[derive(Debug)]
pub struct OutputPayload {
    pub mode: &'static str,
    pub count: usize,
    pub threads: Vec<Candidate>,
    pub fallback_used: bool,
}

/// A column of a row, read as a `T`. Where the database has no such value there,
/// `cause` says why it cannot be read.
#[derive(Debug, PartialEq, Eq)]
pub enum Column<T> {
    Value(T),
    /// The column is null.
    Null { cause: String },
    /// The column holds a value of another type, or a text that is not Unicode.
    /// `stored` tells such values apart as the database does: its type, and its
    /// bytes.
    Other { stored: Vec<u8>, cause: String },
}

/// A row of `thread_spawn_edges`: which thread spawned which.
#[derive(Debug)]
pub struct SpawnEdge {
    pub parent_thread_id: Column<String>,
    pub child_thread_id: Column<String>,
    pub status: Column<String>,
}

/// What a row of `threads` says about archiving. An integer column stores every
/// number without a fraction as an integer, so a column that is no integer
/// equals none.
#[derive(Debug)]
pub struct ThreadRecord {
    pub id: Column<String>,
    pub archived: Column<i64>,
    pub archived_at: Column<i64>,
}

/// A row of `threads`, with the columns that matter here.
#[derive(Debug)]
pub struct ThreadRow {
    pub record: ThreadRecord,
    /// Where `created_at` stands among the creation times of all threads: less
    /// for one that the database orders before, equal for an equal one.
    pub created_order: i64,
    pub title: Column<String>,
    pub agent_nickname: Column<String>,
}

/// The content of a [`Candidate`].
pub ghost struct CandidateView {
    pub parent_thread_id: Seq<char>,
    pub thread_id: Seq<char>,
    pub status: Seq<char>,
    pub agent_nickname: Option<Seq<char>>,
    pub title: Seq<char>,
}

/// The content of a [`Column`].
pub ghost enum ColumnView<T> {
    Value(T),
    Null { cause: Seq<char> },
    Other { stored: Seq<u8>, cause: Seq<char> },
}

/// The content of a [`SpawnEdge`].
pub ghost struct EdgeView {
    pub parent_thread_id: ColumnView<Seq<char>>,
    pub child_thread_id: ColumnView<Seq<char>>,
    pub status: ColumnView<Seq<char>>,
}

/// The content of a [`ThreadRecord`].
pub ghost struct RecordView {
    pub id: ColumnView<Seq<char>>,
    pub archived: ColumnView<i64>,
    pub archived_at: ColumnView<i64>,
}

/// The content of a [`ThreadRow`].
pub ghost struct ThreadView {
    pub record: RecordView,
    pub created_order: i64,
    pub title: ColumnView<Seq<char>>,
    pub agent_nickname: ColumnView<Seq<char>>,
}

/// The content of a text column.
pub open spec fn text_column(column: Column<String>) -> ColumnView<Seq<char>> {
    match column {
        Column::Value(text) => ColumnView::Value(text@),
        Column::Null { cause } => ColumnView::Null { cause: cause@ },
        Column::Other { stored, cause } => ColumnView::Other { stored: stored@, cause: cause@ },
    }
}

/// The content of an integer column.
pub open spec fn integer_column(column: Column<i64>) -> ColumnView<i64> {
    match column {
        Column::Value(number) => ColumnView::Value(number),
        Column::Null { cause } => ColumnView::Null { cause: cause@ },
        Column::Other { stored, cause } => ColumnView::Other { stored: stored@, cause: cause@ },
    }
}

/// The text of an optional string.
pub open spec fn optional_view(s: Option<String>) -> Option<Seq<char>> {
    match s {
        Some(s) => Some(s@),
        None => None,
    }
}

impl View for Candidate {
    type V = CandidateView;

    open spec fn view(&self) -> CandidateView {
        CandidateView {
            parent_thread_id: self.parent_thread_id@,
            thread_id: self.thread_id@,
            status: self.status@,
            agent_nickname: optional_view(self.agent_nickname),
            title: self.title@,
        }
    }
}

impl View for SpawnEdge {
    type V = EdgeView;

    open spec fn view(&self) -> EdgeView {
        EdgeView {
            parent_thread_id: text_column(self.parent_thread_id),
            child_thread_id: text_column(self.child_thread_id),
            status: text_column(self.status),
        }
    }
}

impl View for ThreadRecord {
    type V = RecordView;

    open spec fn view(&self) -> RecordView {
        RecordView {
            id: text_column(self.id),
            archived: integer_column(self.archived),
            archived_at: integer_column(self.archived_at),
        }
    }
}

impl View for ThreadRow {
    type V = ThreadView;

    open spec fn view(&self) -> ThreadView {
        ThreadView {
            record: self.record@,
            created_order: self.created_order,
            title: text_column(self.title),
            agent_nickname: text_column(self.agent_nickname),
        }
    }
}

/// The contents of a list of candidates.
pub open spec fn candidate_views(candidates: Seq<Candidate>) -> Seq<CandidateView> {
    candidates.map_values(|c: Candidate| c@)
}

/// The contents of the edge table.
pub open spec fn edge_views(edges: Seq<SpawnEdge>) -> Seq<EdgeView> {
    edges.map_values(|e: SpawnEdge| e@)
}

/// The contents of the thread table.
pub open spec fn thread_views(threads: Seq<ThreadRow>) -> Seq<ThreadView> {
    threads.map_values(|t: ThreadRow| t@)
}

/// The contents of a list of records.
pub open spec fn record_views(records: Seq<ThreadRecord>) -> Seq<RecordView> {
    records.map_values(|r: ThreadRecord| r@)
}

/// What the rows of the thread table say about archiving.
pub open spec fn records_of(threads: Seq<ThreadView>) -> Seq<RecordView> {
    threads.map_values(|t: ThreadView| t.record)
}

/// Whether `column` holds `text`.
pub(crate) fn holds_text(column: &Column<String>, text: &String) -> (r: bool)
    ensures
        r == (text_column(*column) == ColumnView::Value(text@)),
{
    match column {
        Column::Value(value) => *value == *text,
        _ => false,
    }
}

/// Copies an optional string.
pub(crate) fn copy_optional(s: &Option<String>) -> (r: Option<String>)
    ensures
        r == *s,
{
    match s {
        Some(s) => Some(s.clone()),
        None => None,
    }
}

impl Clone for Candidate {
    fn clone(&self) -> (r: Self)
        ensures
            r == *self,
    {
        Candidate {
            parent_thread_id: self.parent_thread_id.clone(),
            thread_id: self.thread_id.clone(),
            status: self.status.clone(),
            agent_nickname: copy_optional(&self.agent_nickname),
            title: self.title.clone(),
        }
    }
}

impl Clone for OutputPayload {
    fn clone(&self) -> (r: Self)
        ensures
            r.mode == self.mode,
            r.count == self.count,
            r.threads@ == self.threads@,
            r.fallback_used == self.fallback_used,
    {
        OutputPayload {
            mode: self.mode,
            count: self.count,
            threads: copy_candidates(self.threads.as_slice()),
            fallback_used: self.fallback_used,
        }
    }
}

/// Copies a list of candidates.
pub(crate) fn copy_candidates(candidates: &[Candidate]) -> (r: Vec<Candidate>)
    ensures
        r@ == candidates@,
{
    let mut r: Vec<Candidate> = Vec::new();
    let mut i: usize = 0;
    while i < candidates.len()
        invariant
            i <= candidates@.len(),
            r@ == candidates@.take(i as int),
        decreases candidates.len() - i,
    {
        r.push(candidates[i].clone());
        assert(r@ =~= candidates@.take(i + 1));
        i += 1;
    }
    assert(candidates@.take(candidates@.len() as int) =~= candidates@);
    r
}

/// A copy of a candidate is the candidate, and a copy of a report is the report.
pub proof fn law_copies_are_faithful(
    candidate: Candidate,
    copy: Candidate,
    payload: OutputPayload,
    payload_copy: OutputPayload,
)
    requires
        call_ensures(Candidate::clone, (&candidate,), copy),
        call_ensures(OutputPayload::clone, (&payload,), payload_copy),
    ensures
        copy == candidate,
        payload_copy.mode@ == payload.mode@,
        payload_copy.count == payload.count,
        payload_copy.threads@ == payload.threads@,
        payload_copy.fallback_used == payload.fallback_used,
{
}

} // verus!
