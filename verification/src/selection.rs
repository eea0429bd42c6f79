//! Which threads are to be archived.
//!
//! A candidate is a spawned thread whose edge is recorded as closed, which is
//! not archived yet, and which carries the nickname of a subagent.

use crate::archiving;
use crate::error::ArchiveError;
use crate::model;
use crate::model::{Candidate, Column, SpawnEdge, ThreadRow};
use vstd::prelude::*;

verus! {

/// Whether the database holds the ids `a` and `b` equal, be they readable or not.
/// A null equals nothing.
pub open spec fn same_id(
    a: model::ColumnView<Seq<char>>,
    b: model::ColumnView<Seq<char>>,
) -> bool {
    match (a, b) {
        (model::ColumnView::Value(x), model::ColumnView::Value(y)) => x == y,
        (
            model::ColumnView::Other { stored: x, .. },
            model::ColumnView::Other { stored: y, .. },
        ) => x == y,
        _ => false,
    }
}

/// Whether `edge` leads to `thread`, and the thread is one to archive. With a
/// `parent`, only that parent's threads are.
pub open spec fn qualifies(
    edge: model::EdgeView,
    thread: model::ThreadView,
    parent: Option<Seq<char>>,
) -> bool {
    &&& same_id(thread.record.id, edge.child_thread_id)
    &&& edge.status == model::ColumnView::Value("closed"@)
    &&& thread.record.archived == model::ColumnView::Value(0i64)
    &&& thread.agent_nickname !is Null
    &&& match parent {
        Some(parent) => edge.parent_thread_id == model::ColumnView::Value(parent),
        None => true,
    }
}

/// Whether the pair of positions `a` comes before `b`: the older thread first,
/// and in table order where two threads are equally old.
pub open spec fn precedes(threads: Seq<model::ThreadView>, a: (int, int), b: (int, int)) -> bool {
    let first = threads[a.1].created_order;
    let second = threads[b.1].created_order;
    ||| first < second
    ||| first == second && a.0 < b.0
    ||| first == second && a.0 == b.0 && a.1 < b.1
}

/// Whether `pair` is the position of an edge and that of a thread, and the two
/// qualify.
pub open spec fn qualifying_pair(
    edges: Seq<model::EdgeView>,
    threads: Seq<model::ThreadView>,
    parent: Option<Seq<char>>,
    pair: (int, int),
) -> bool {
    &&& 0 <= pair.0 < edges.len()
    &&& 0 <= pair.1 < threads.len()
    &&& qualifies(edges[pair.0], threads[pair.1], parent)
}

/// Whether `pairs` lists each qualifying pair once, in order.
pub open spec fn is_selection(
    edges: Seq<model::EdgeView>,
    threads: Seq<model::ThreadView>,
    parent: Option<Seq<char>>,
    pairs: Seq<(int, int)>,
) -> bool {
    &&& forall|k: int|
        0 <= k < pairs.len() ==> qualifying_pair(edges, threads, parent, #[trigger] pairs[k])
    &&& forall|k: int, l: int|
        0 <= k < l < pairs.len() ==> precedes(threads, #[trigger] pairs[k], #[trigger] pairs[l])
    &&& forall|pair: (int, int)| #[trigger]
        qualifying_pair(edges, threads, parent, pair) ==> pairs.contains(pair)
}

/// The qualifying pairs of the two tables, in order.
pub open spec fn selection(
    edges: Seq<model::EdgeView>,
    threads: Seq<model::ThreadView>,
    parent: Option<Seq<char>>,
) -> Seq<(int, int)> {
    choose|pairs: Seq<(int, int)>| is_selection(edges, threads, parent, pairs)
}

/// Why `column` cannot be read as a text, if that is so.
pub open spec fn text_failure(column: model::ColumnView<Seq<char>>) -> Option<Seq<char>> {
    match column {
        model::ColumnView::Value(_) => None,
        model::ColumnView::Null { cause } => Some(cause),
        model::ColumnView::Other { cause, .. } => Some(cause),
    }
}

/// Why `column` cannot be read as a text that may be missing, if that is so.
pub open spec fn optional_failure(column: model::ColumnView<Seq<char>>) -> Option<Seq<char>> {
    if column is Null {
        None
    } else {
        text_failure(column)
    }
}

/// Why `edge` and `thread` make up no candidate, if that is so: the first column
/// that cannot be read.
pub open spec fn candidate_failure(edge: model::EdgeView, thread: model::ThreadView) -> Option<
    Seq<char>,
> {
    if text_failure(edge.parent_thread_id) is Some {
        text_failure(edge.parent_thread_id)
    } else if text_failure(edge.child_thread_id) is Some {
        text_failure(edge.child_thread_id)
    } else if text_failure(edge.status) is Some {
        text_failure(edge.status)
    } else if optional_failure(thread.agent_nickname) is Some {
        optional_failure(thread.agent_nickname)
    } else {
        text_failure(thread.title)
    }
}

/// The text of a column, or none.
pub open spec fn column_text(column: model::ColumnView<Seq<char>>) -> Option<Seq<char>> {
    match column {
        model::ColumnView::Value(text) => Some(text),
        _ => None,
    }
}

/// The candidate that `edge` and `thread` make up, where their columns can be
/// read.
pub open spec fn candidate_of(
    edge: model::EdgeView,
    thread: model::ThreadView,
) -> model::CandidateView {
    model::CandidateView {
        parent_thread_id: column_text(edge.parent_thread_id).unwrap_or(Seq::empty()),
        thread_id: column_text(edge.child_thread_id).unwrap_or(Seq::empty()),
        status: column_text(edge.status).unwrap_or(Seq::empty()),
        agent_nickname: column_text(thread.agent_nickname),
        title: column_text(thread.title).unwrap_or(Seq::empty()),
    }
}

/// Why the pair at place `k` of the selection makes up no candidate, if that is
/// so.
pub open spec fn selection_failure(
    edges: Seq<model::EdgeView>,
    threads: Seq<model::ThreadView>,
    parent: Option<Seq<char>>,
    k: int,
) -> Option<Seq<char>> {
    let pair = selection(edges, threads, parent)[k];
    candidate_failure(edges[pair.0], threads[pair.1])
}

/// Whether every selected pair of rows makes up a candidate.
pub open spec fn is_readable(
    edges: Seq<model::EdgeView>,
    threads: Seq<model::ThreadView>,
    parent: Option<Seq<char>>,
) -> bool {
    forall|k: int|
        0 <= k < selection(edges, threads, parent).len() ==> #[trigger] selection_failure(
            edges,
            threads,
            parent,
            k,
        ) is None
}

/// The candidates that the two tables hold, in order, where all their columns
/// can be read.
pub open spec fn selected(
    edges: Seq<model::EdgeView>,
    threads: Seq<model::ThreadView>,
    parent: Option<Seq<char>>,
) -> Seq<model::CandidateView> {
    selection(edges, threads, parent).map_values(
        |pair: (int, int)| candidate_of(edges[pair.0], threads[pair.1]),
    )
}

proof fn lemma_same_prefix(
    edges: Seq<model::EdgeView>,
    threads: Seq<model::ThreadView>,
    parent: Option<Seq<char>>,
    a: Seq<(int, int)>,
    b: Seq<(int, int)>,
    n: int,
)
    requires
        is_selection(edges, threads, parent, a),
        is_selection(edges, threads, parent, b),
        0 <= n <= a.len(),
    ensures
        n <= b.len(),
        forall|k: int| 0 <= k < n ==> a[k] == b[k],
    decreases n,
{
    if n > 0 {
        let k = n - 1;
        lemma_same_prefix(edges, threads, parent, a, b, k);
        assert(qualifying_pair(edges, threads, parent, a[k]));
        assert(b.contains(a[k]));
        let j = choose|j: int| 0 <= j < b.len() && b[j] == a[k];
        if j < k {
            assert(precedes(threads, a[j], a[k]));
            assert(false);
        }
        if j > k {
            assert(qualifying_pair(edges, threads, parent, b[k]));
            assert(a.contains(b[k]));
            let i = choose|i: int| 0 <= i < a.len() && a[i] == b[k];
            assert(precedes(threads, b[k], b[j]));
            if i < k {
                assert(precedes(threads, b[i], b[k]));
            } else if i > k {
                assert(precedes(threads, a[k], a[i]));
            }
            assert(false);
        }
    }
}

/// The tables determine the selection: two listings of all qualifying pairs in
/// order are the same.
pub proof fn law_selection_unique(
    edges: Seq<model::EdgeView>,
    threads: Seq<model::ThreadView>,
    parent: Option<Seq<char>>,
    a: Seq<(int, int)>,
    b: Seq<(int, int)>,
)
    requires
        is_selection(edges, threads, parent, a),
        is_selection(edges, threads, parent, b),
    ensures
        a == b,
{
    lemma_same_prefix(edges, threads, parent, a, b, a.len() as int);
    lemma_same_prefix(edges, threads, parent, b, a, b.len() as int);
    assert(a =~= b);
}

/// Whether a run that asks for `parent` alone, or for all parents, says which
/// threads it is about.
pub open spec fn scope_given(parent: Option<&str>, all_closed_subagents: bool) -> bool {
    all_closed_subagents || parent is Some
}

/// The parent that a run is limited to.
pub open spec fn scope(parent: Option<&str>, all_closed_subagents: bool) -> Option<Seq<char>> {
    if all_closed_subagents {
        None
    } else {
        match parent {
            Some(parent) => Some(parent@),
            None => None,
        }
    }
}

/// The parent that a run is limited to, or none when it is about all parents.
/// A run has to say one or the other.
pub fn parent_filter(parent_thread_id: Option<&str>, all_closed_subagents: bool) -> (r: Result<
    Option<String>,
    ArchiveError,
>)
    ensures
        match r {
            Ok(parent) => scope_given(parent_thread_id, all_closed_subagents)
                && model::optional_view(parent) == scope(parent_thread_id, all_closed_subagents),
            Err(error) => !scope_given(parent_thread_id, all_closed_subagents)
                && error is MissingParent,
        },
{
    if all_closed_subagents {
        Ok(None)
    } else {
        match parent_thread_id {
            Some(parent) => Ok(Some(parent.to_owned())),
            None => Err(ArchiveError::MissingParent),
        }
    }
}

/// Whether `edge` alone admits the pair.
fn edge_qualifies(edge: &SpawnEdge, parent: &Option<String>) -> (r: bool)
    ensures
        r == (edge@.status == model::ColumnView::Value("closed"@) && match *parent {
            Some(parent) => edge@.parent_thread_id == model::ColumnView::Value(parent@),
            None => true,
        }),
{
    let closed: String = "closed".to_owned();
    if model::holds_text(&edge.status, &closed) {
        match parent {
            Some(parent) => model::holds_text(&edge.parent_thread_id, parent),
            None => true,
        }
    } else {
        false
    }
}

/// Whether `thread` alone admits the pair.
fn thread_qualifies(thread: &ThreadRow) -> (r: bool)
    ensures
        r == (thread@.record.archived == model::ColumnView::Value(0i64)
            && thread@.agent_nickname !is Null),
{
    let open: bool = match &thread.record.archived {
        Column::Value(archived) => *archived == 0,
        _ => false,
    };
    let named: bool = match &thread.agent_nickname {
        Column::Null { .. } => false,
        _ => true,
    };
    open && named
}

/// Whether two values are stored alike.
fn same_bytes(a: &Vec<u8>, b: &Vec<u8>) -> (r: bool)
    ensures
        r == (a@ == b@),
{
    if a.len() != b.len() {
        return false;
    }
    let mut i: usize = 0;
    while i < a.len()
        invariant
            i <= a@.len(),
            a@.len() == b@.len(),
            forall|k: int| 0 <= k < i ==> a@[k] == b@[k],
        decreases a.len() - i,
    {
        if a[i] != b[i] {
            return false;
        }
        i += 1;
    }
    assert(a@ =~= b@);
    true
}

/// Whether the database holds two ids equal.
fn equal_ids(a: &Column<String>, b: &Column<String>) -> (r: bool)
    ensures
        r == same_id(model::text_column(*a), model::text_column(*b)),
{
    match (a, b) {
        (Column::Value(x), Column::Value(y)) => *x == *y,
        (Column::Other { stored: x, .. }, Column::Other { stored: y, .. }) => same_bytes(x, y),
        _ => false,
    }
}

/// Positions as mathematical integers.
spec fn positions(order: Seq<(usize, usize)>) -> Seq<(int, int)> {
    order.map_values(|pair: (usize, usize)| (pair.0 as int, pair.1 as int))
}

/// Whether `a` is visited before `b` when the threads are walked for each edge.
spec fn visited_before(a: (int, int), b: (int, int)) -> bool {
    a.0 < b.0 || a.0 == b.0 && a.1 < b.1
}

/// Whether `pairs` lists, in order, the qualifying pairs visited before `next`.
spec fn is_partial_selection(
    edges: Seq<model::EdgeView>,
    threads: Seq<model::ThreadView>,
    parent: Option<Seq<char>>,
    pairs: Seq<(int, int)>,
    next: (int, int),
) -> bool {
    &&& forall|k: int|
        0 <= k < pairs.len() ==> qualifying_pair(edges, threads, parent, #[trigger] pairs[k])
            && visited_before(pairs[k], next)
    &&& forall|k: int, l: int|
        0 <= k < l < pairs.len() ==> precedes(threads, #[trigger] pairs[k], #[trigger] pairs[l])
    &&& forall|pair: (int, int)| #[trigger]
        qualifying_pair(edges, threads, parent, pair) && visited_before(pair, next)
            ==> pairs.contains(pair)
}

/// A pair that was just visited goes behind the threads that are no younger.
proof fn lemma_insert_pair(
    edges: Seq<model::EdgeView>,
    threads: Seq<model::ThreadView>,
    parent: Option<Seq<char>>,
    before: Seq<(int, int)>,
    pair: (int, int),
    place: int,
)
    requires
        qualifying_pair(edges, threads, parent, pair),
        is_partial_selection(edges, threads, parent, before, pair),
        0 <= place <= before.len(),
        place > 0 ==> threads[before[place - 1].1].created_order <= threads[pair.1].created_order,
        forall|k: int|
            place <= k < before.len() ==> threads[(#[trigger] before[k]).1].created_order
                > threads[pair.1].created_order,
    ensures
        is_partial_selection(
            edges,
            threads,
            parent,
            before.insert(place, pair),
            (pair.0, pair.1 + 1),
        ),
{
    let after = before.insert(place, pair);
    assert forall|k: int, l: int| 0 <= k < l < after.len() implies precedes(
        threads,
        #[trigger] after[k],
        #[trigger] after[l],
    ) by {
        if l == place {
            assert(after[k] == before[k]);
            if k < place - 1 {
                assert(precedes(threads, before[k], before[place - 1]));
            }
            assert(visited_before(before[k], pair));
        } else if k == place {
            assert(after[l] == before[l - 1]);
        } else {
            let bk = if k < place { k } else { k - 1 };
            let bl = if l < place { l } else { l - 1 };
            assert(precedes(threads, before[bk], before[bl]));
        }
    }
    assert forall|other: (int, int)| #[trigger]
        qualifying_pair(edges, threads, parent, other) && visited_before(
            other,
            (pair.0, pair.1 + 1),
        ) implies after.contains(other) by {
        if other == pair {
            assert(after[place] == pair);
        } else {
            assert(before.contains(other));
            let k = choose|k: int| 0 <= k < before.len() && before[k] == other;
            if k < place {
                assert(after[k] == other);
            } else {
                assert(after[k + 1] == other);
            }
        }
    }
}

/// Where in `before[..n]` the threads end that are no younger than `created_order`.
proof fn lemma_place(
    threads: Seq<model::ThreadView>,
    before: Seq<(int, int)>,
    created_order: int,
    n: int,
) -> (place: int)
    requires
        0 <= n <= before.len(),
        forall|k: int|
            n <= k < before.len() ==> threads[(#[trigger] before[k]).1].created_order > created_order,
    ensures
        0 <= place <= n,
        place > 0 ==> threads[before[place - 1].1].created_order <= created_order,
        forall|k: int|
            place <= k < before.len() ==> threads[(#[trigger] before[k]).1].created_order
                > created_order,
    decreases n,
{
    if n > 0 && threads[before[n - 1].1].created_order > created_order {
        lemma_place(threads, before, created_order, n - 1)
    } else {
        n
    }
}

proof fn lemma_partial_selection_exists(
    edges: Seq<model::EdgeView>,
    threads: Seq<model::ThreadView>,
    parent: Option<Seq<char>>,
    i: int,
    j: int,
) -> (pairs: Seq<(int, int)>)
    requires
        0 <= i <= edges.len(),
        0 <= j <= threads.len(),
    ensures
        is_partial_selection(edges, threads, parent, pairs, (i, j)),
    decreases i, j,
{
    if i == 0 && j == 0 {
        Seq::empty()
    } else if j == 0 {
        lemma_partial_selection_exists(edges, threads, parent, i - 1, threads.len() as int)
    } else {
        let before = lemma_partial_selection_exists(edges, threads, parent, i, j - 1);
        let pair = (i, j - 1);
        if qualifying_pair(edges, threads, parent, pair) {
            let place = lemma_place(
                threads,
                before,
                threads[pair.1].created_order as int,
                before.len() as int,
            );
            lemma_insert_pair(edges, threads, parent, before, pair, place);
            before.insert(place, pair)
        } else {
            before
        }
    }
}

/// Any two tables have a selection.
pub proof fn law_selection_exists(
    edges: Seq<model::EdgeView>,
    threads: Seq<model::ThreadView>,
    parent: Option<Seq<char>>,
)
    ensures
        is_selection(edges, threads, parent, selection(edges, threads, parent)),
{
    let pairs = lemma_partial_selection_exists(edges, threads, parent, edges.len() as int, 0);
    assert(is_selection(edges, threads, parent, pairs));
}

/// Puts the pair that was just visited into its place.
fn insert_pair(
    order: &mut Vec<(usize, usize)>,
    threads: &[ThreadRow],
    edge: usize,
    thread: usize,
    Ghost(edges): Ghost<Seq<model::EdgeView>>,
    Ghost(parent): Ghost<Option<Seq<char>>>,
)
    requires
        qualifying_pair(
            edges,
            model::thread_views(threads@),
            parent,
            (edge as int, thread as int),
        ),
        is_partial_selection(
            edges,
            model::thread_views(threads@),
            parent,
            positions(old(order)@),
            (edge as int, thread as int),
        ),
    ensures
        is_partial_selection(
            edges,
            model::thread_views(threads@),
            parent,
            positions(final(order)@),
            (edge as int, thread + 1),
        ),
{
    let ghost rows = model::thread_views(threads@);
    let ghost before = positions(order@);
    let ghost pair = (edge as int, thread as int);
    let created_order: i64 = threads[thread].created_order;
    let mut place: usize = order.len();
    assert forall|k: int| 0 <= k < order@.len() implies (#[trigger] order@[k]).1
        < threads@.len() by {
        assert(qualifying_pair(edges, rows, parent, before[k]));
    }
    while place > 0 && threads[order[place - 1].1].created_order > created_order
        invariant
            place <= order@.len(),
            before == positions(order@),
            rows == model::thread_views(threads@),
            thread < threads@.len(),
            created_order == rows[thread as int].created_order,
            forall|k: int| 0 <= k < order@.len() ==> (#[trigger] order@[k]).1 < threads@.len(),
            forall|k: int|
                place <= k < before.len() ==> rows[(#[trigger] before[k]).1].created_order
                    > created_order,
        decreases place,
    {
        assert(before[place - 1].1 == order@[place - 1].1);
        place -= 1;
    }
    order.insert(place, (edge, thread));
    proof {
        assert(positions(order@) =~= before.insert(place as int, pair));
        lemma_insert_pair(edges, rows, parent, before, pair, place as int);
    }
}

/// Finds the positions of all candidates, in order.
fn select(edges: &[SpawnEdge], threads: &[ThreadRow], parent: &Option<String>) -> (r: Vec<
    (usize, usize),
>)
    ensures
        is_selection(
            model::edge_views(edges@),
            model::thread_views(threads@),
            model::optional_view(*parent),
            positions(r@),
        ),
{
    let ghost edge_rows = model::edge_views(edges@);
    let ghost thread_rows = model::thread_views(threads@);
    let ghost limit = model::optional_view(*parent);
    let mut order: Vec<(usize, usize)> = Vec::new();
    let mut i: usize = 0;
    while i < edges.len()
        invariant
            i <= edges@.len(),
            edge_rows == model::edge_views(edges@),
            thread_rows == model::thread_views(threads@),
            limit == model::optional_view(*parent),
            is_partial_selection(
                edge_rows,
                thread_rows,
                limit,
                positions(order@),
                (i as int, 0),
            ),
        decreases edges.len() - i,
    {
        let edge = &edges[i];
        if edge_qualifies(edge, parent) {
            let mut j: usize = 0;
            while j < threads.len()
                invariant
                    i < edges@.len(),
                    j <= threads@.len(),
                    edge_rows == model::edge_views(edges@),
                    thread_rows == model::thread_views(threads@),
                    limit == model::optional_view(*parent),
                    *edge == edges@[i as int],
                    edge@.status == model::ColumnView::Value("closed"@),
                    match limit {
                        Some(limit) => edge@.parent_thread_id == model::ColumnView::Value(limit),
                        None => true,
                    },
                    is_partial_selection(
                        edge_rows,
                        thread_rows,
                        limit,
                        positions(order@),
                        (i as int, j as int),
                    ),
                decreases threads.len() - j,
            {
                let thread = &threads[j];
                if thread_qualifies(thread) && equal_ids(&thread.record.id, &edge.child_thread_id) {
                    insert_pair(&mut order, threads, i, j, Ghost(edge_rows), Ghost(limit));
                } else {
                    assert(!qualifying_pair(edge_rows, thread_rows, limit, (i as int, j as int)));
                    assert(is_partial_selection(
                        edge_rows,
                        thread_rows,
                        limit,
                        positions(order@),
                        (i as int, j + 1),
                    ));
                }
                j += 1;
            }
        } else {
            assert(forall|pair: (int, int)| #[trigger]
                qualifying_pair(edge_rows, thread_rows, limit, pair) ==> pair.0 != i);
        }
        assert(is_partial_selection(
            edge_rows,
            thread_rows,
            limit,
            positions(order@),
            (i + 1, 0),
        ));
        i += 1;
    }
    order
}

/// Reads a column as a text.
fn read_text(column: &Column<String>) -> (r: Result<String, ArchiveError>)
    ensures
        match r {
            Ok(text) => model::text_column(*column) == model::ColumnView::Value(text@),
            Err(error) => error matches ArchiveError::Database { cause } && text_failure(
                model::text_column(*column),
            ) == Some(cause@),
        },
{
    match column {
        Column::Value(text) => Ok(text.clone()),
        Column::Null { cause } => Err(ArchiveError::Database { cause: cause.clone() }),
        Column::Other { cause, .. } => Err(ArchiveError::Database { cause: cause.clone() }),
    }
}

/// Reads a column as a text that may be missing.
fn read_optional(column: &Column<String>) -> (r: Result<Option<String>, ArchiveError>)
    ensures
        match r {
            Ok(text) => optional_failure(model::text_column(*column)) is None
                && model::optional_view(text) == column_text(model::text_column(*column)),
            Err(error) => error matches ArchiveError::Database { cause } && optional_failure(
                model::text_column(*column),
            ) == Some(cause@),
        },
{
    match column {
        Column::Value(text) => Ok(Some(text.clone())),
        Column::Null { .. } => Ok(None),
        Column::Other { cause, .. } => Err(ArchiveError::Database { cause: cause.clone() }),
    }
}

/// The candidate that a pair of rows makes up. Fails on the first column that
/// cannot be read.
fn candidate_from_row(edge: &SpawnEdge, thread: &ThreadRow) -> (r: Result<Candidate, ArchiveError>)
    ensures
        match r {
            Ok(candidate) => candidate_failure(edge@, thread@) is None && candidate@
                == candidate_of(edge@, thread@),
            Err(error) => error matches ArchiveError::Database { cause } && candidate_failure(
                edge@,
                thread@,
            ) == Some(cause@),
        },
{
    let parent_thread_id: String = match read_text(&edge.parent_thread_id) {
        Ok(text) => text,
        Err(error) => return Err(error),
    };
    let thread_id: String = match read_text(&edge.child_thread_id) {
        Ok(text) => text,
        Err(error) => return Err(error),
    };
    let status: String = match read_text(&edge.status) {
        Ok(text) => text,
        Err(error) => return Err(error),
    };
    let agent_nickname: Option<String> = match read_optional(&thread.agent_nickname) {
        Ok(text) => text,
        Err(error) => return Err(error),
    };
    let title: String = match read_text(&thread.title) {
        Ok(text) => text,
        Err(error) => return Err(error),
    };
    Ok(Candidate { parent_thread_id, thread_id, status, agent_nickname, title })
}

/// Whether `r` is what loading the candidates of the two tables gives: all of
/// them, or a failure on a missing scope or on the first column that cannot be
/// read.
pub open spec fn loads(
    edges: Seq<model::EdgeView>,
    threads: Seq<model::ThreadView>,
    parent_thread_id: Option<&str>,
    all_closed_subagents: bool,
    r: Result<Vec<Candidate>, ArchiveError>,
) -> bool {
    let parent = scope(parent_thread_id, all_closed_subagents);
    if !scope_given(parent_thread_id, all_closed_subagents) {
        r matches Err(ArchiveError::MissingParent)
    } else {
        match r {
            Ok(candidates) => {
                &&& is_readable(edges, threads, parent)
                &&& model::candidate_views(candidates@) == selected(edges, threads, parent)
            },
            Err(error) => error matches ArchiveError::Database { cause } && exists|k: int|
                {
                    &&& 0 <= k < selection(edges, threads, parent).len()
                    &&& #[trigger] selection_failure(edges, threads, parent, k) == Some(cause@)
                    &&& forall|j: int|
                        0 <= j < k ==> #[trigger] selection_failure(edges, threads, parent, j)
                            is None
                },
        }
    }
}

/// Lists the candidates of the two tables: those of one parent, or those of
/// all parents.
pub fn load_candidates(
    edges: &[SpawnEdge],
    threads: &[ThreadRow],
    parent_thread_id: Option<&str>,
    all_closed_subagents: bool,
) -> (r: Result<Vec<Candidate>, ArchiveError>)
    ensures
        loads(
            model::edge_views(edges@),
            model::thread_views(threads@),
            parent_thread_id,
            all_closed_subagents,
            r,
        ),
{
    let parent: Option<String> = match parent_filter(parent_thread_id, all_closed_subagents) {
        Ok(parent) => parent,
        Err(error) => return Err(error),
    };
    let order: Vec<(usize, usize)> = select(edges, threads, &parent);
    let ghost edge_rows = model::edge_views(edges@);
    let ghost thread_rows = model::thread_views(threads@);
    let ghost limit = scope(parent_thread_id, all_closed_subagents);
    let ghost pairs = positions(order@);
    proof {
        law_selection_unique(
            edge_rows,
            thread_rows,
            limit,
            pairs,
            selection(edge_rows, thread_rows, limit),
        );
    }
    let mut candidates: Vec<Candidate> = Vec::new();
    let mut k: usize = 0;
    while k < order.len()
        invariant
            k <= order@.len(),
            edge_rows == model::edge_views(edges@),
            thread_rows == model::thread_views(threads@),
            limit == scope(parent_thread_id, all_closed_subagents),
            scope_given(parent_thread_id, all_closed_subagents),
            pairs == positions(order@),
            pairs == selection(edge_rows, thread_rows, limit),
            is_selection(edge_rows, thread_rows, limit, pairs),
            forall|j: int|
                0 <= j < k ==> #[trigger] selection_failure(edge_rows, thread_rows, limit, j)
                    is None,
            model::candidate_views(candidates@) == selected(
                edge_rows,
                thread_rows,
                limit,
            ).take(k as int),
        decreases order.len() - k,
    {
        assert(qualifying_pair(edge_rows, thread_rows, limit, pairs[k as int]));
        let (edge, thread) = order[k];
        let ghost before = model::candidate_views(candidates@);
        assert(selection_failure(edge_rows, thread_rows, limit, k as int) == candidate_failure(
            edges@[edge as int]@,
            threads@[thread as int]@,
        ));
        let candidate: Candidate = match candidate_from_row(&edges[edge], &threads[thread]) {
            Ok(candidate) => candidate,
            Err(error) => return Err(error),
        };
        candidates.push(candidate);
        proof {
            let all = selected(edge_rows, thread_rows, limit);
            assert(all[k as int] == candidate@);
            assert(model::candidate_views(candidates@) =~= before.push(candidate@));
            assert(before.push(candidate@) =~= all.take(k + 1));
        }
        k += 1;
    }
    assert(selected(edge_rows, thread_rows, limit).take(order@.len() as int) =~= selected(
        edge_rows,
        thread_rows,
        limit,
    ));
    Ok(candidates)
}

/// Rows that make up no candidate cannot fail the loading, whatever their columns
/// hold: it succeeds where those that do can be read.
pub proof fn law_only_selected_rows_fail(
    edges: Seq<model::EdgeView>,
    threads: Seq<model::ThreadView>,
    parent_thread_id: Option<&str>,
    all_closed_subagents: bool,
    r: Result<Vec<Candidate>, ArchiveError>,
)
    requires
        scope_given(parent_thread_id, all_closed_subagents),
        loads(edges, threads, parent_thread_id, all_closed_subagents, r),
        forall|pair: (int, int)| #[trigger]
            qualifying_pair(
                edges,
                threads,
                scope(parent_thread_id, all_closed_subagents),
                pair,
            ) ==> candidate_failure(edges[pair.0], threads[pair.1]) is None,
    ensures
        r is Ok,
{
    let parent = scope(parent_thread_id, all_closed_subagents);
    law_selection_exists(edges, threads, parent);
    assert forall|k: int|
        0 <= k < selection(edges, threads, parent).len() implies #[trigger] selection_failure(
        edges,
        threads,
        parent,
        k,
    ) is None by {
        assert(qualifying_pair(edges, threads, parent, selection(edges, threads, parent)[k]));
    }
}

/// Each candidate is a closed, unarchived thread of a named subagent, and a
/// thread of the parent that was asked for.
pub proof fn law_candidates_are_closed_subagents(
    edges: Seq<model::EdgeView>,
    threads: Seq<model::ThreadView>,
    parent: Option<Seq<char>>,
)
    ensures
        forall|k: int|
            0 <= k < selected(edges, threads, parent).len() ==> {
                let candidate = #[trigger] selected(edges, threads, parent)[k];
                &&& candidate.status == "closed"@
                &&& parent is Some ==> candidate.parent_thread_id == parent.unwrap()
                &&& selection_failure(edges, threads, parent, k) is None ==> {
                    &&& candidate.agent_nickname is Some
                    &&& exists|t: int|
                        0 <= t < threads.len() && (#[trigger] threads[t]).record.id
                            == model::ColumnView::Value(candidate.thread_id)
                            && threads[t].record.archived == model::ColumnView::Value(0i64)
                }
            },
{
    law_selection_exists(edges, threads, parent);
    let pairs = selection(edges, threads, parent);
    assert forall|k: int| 0 <= k < selected(edges, threads, parent).len() implies {
        let candidate = #[trigger] selected(edges, threads, parent)[k];
        &&& candidate.status == "closed"@
        &&& parent is Some ==> candidate.parent_thread_id == parent.unwrap()
        &&& selection_failure(edges, threads, parent, k) is None ==> {
            &&& candidate.agent_nickname is Some
            &&& exists|t: int|
                0 <= t < threads.len() && (#[trigger] threads[t]).record.id
                    == model::ColumnView::Value(candidate.thread_id)
                    && threads[t].record.archived == model::ColumnView::Value(0i64)
        }
    } by {
        assert(qualifying_pair(edges, threads, parent, pairs[k]));
        assert(threads[pairs[k].1].record.archived == model::ColumnView::Value(0i64));
    }
}

/// Candidates are listed from the oldest thread to the youngest.
pub proof fn law_oldest_first(
    edges: Seq<model::EdgeView>,
    threads: Seq<model::ThreadView>,
    parent: Option<Seq<char>>,
)
    ensures
        forall|k: int, l: int|
            0 <= k < l < selection(edges, threads, parent).len() ==> threads[(
            #[trigger] selection(edges, threads, parent)[k]).1].created_order <= threads[(
            #[trigger] selection(edges, threads, parent)[l]).1].created_order,
{
    law_selection_exists(edges, threads, parent);
}

/// Whether no two rows have the same thread id.
pub open spec fn ids_are_unique(threads: Seq<model::ThreadView>) -> bool {
    forall|i: int, j: int|
        0 <= i < j < threads.len() ==> !same_id(
            (#[trigger] threads[i]).record.id,
            (#[trigger] threads[j]).record.id,
        )
}

/// Whether the table `after` is `before` with nothing but threads archived: the
/// rows differ in the two archive columns only, and `archived` is as it was or
/// says that the thread is archived.
pub open spec fn only_archived(
    before: Seq<model::ThreadView>,
    after: Seq<model::ThreadView>,
) -> bool {
    &&& before.len() == after.len()
    &&& forall|t: int|
        0 <= t < before.len() ==> {
            let row = #[trigger] after[t];
            &&& row == model::ThreadView {
                record: model::RecordView {
                    archived: row.record.archived,
                    archived_at: row.record.archived_at,
                    ..before[t].record
                },
                ..before[t]
            }
            &&& row.record.archived == before[t].record.archived || row.record.archived
                == model::ColumnView::Value(1i64)
        }
}

/// Where ids are unique, the table records of a thread what its row says.
proof fn lemma_recorded_by_row(threads: Seq<model::ThreadView>, t: int, id: Seq<char>)
    requires
        ids_are_unique(threads),
        0 <= t < threads.len(),
        threads[t].record.id == model::ColumnView::Value(id),
    ensures
        archiving::recorded(model::records_of(threads), id) == Some(threads[t].record.archived),
    decreases threads.len(),
{
    if t > 0 {
        let rest = threads.drop_first();
        assert(!same_id(threads[0].record.id, threads[t].record.id));
        assert(rest[t - 1] == threads[t]);
        assert(ids_are_unique(rest)) by {
            assert forall|i: int, j: int| 0 <= i < j < rest.len() implies !same_id(
                (#[trigger] rest[i]).record.id,
                (#[trigger] rest[j]).record.id,
            ) by {
                assert(!same_id(threads[i + 1].record.id, threads[j + 1].record.id));
            }
        }
        lemma_recorded_by_row(rest, t - 1, id);
        assert(model::records_of(threads).drop_first() =~= model::records_of(rest));
    }
}

/// Once every candidate is recorded as archived, by whatever means, and nothing
/// else was done to the table than archiving, there are no candidates. The rows
/// of the candidates were readable, as they are where candidates were loaded.
pub proof fn law_nothing_left_after_verified_run(
    edges: Seq<model::EdgeView>,
    before: Seq<model::ThreadView>,
    after: Seq<model::ThreadView>,
    parent: Option<Seq<char>>,
)
    requires
        ids_are_unique(before),
        is_readable(edges, before, parent),
        only_archived(before, after),
        forall|k: int|
            0 <= k < selected(edges, before, parent).len() ==> archiving::is_archived(
                model::records_of(after),
                (#[trigger] selected(edges, before, parent)[k]).thread_id,
            ),
    ensures
        selected(edges, after, parent).len() == 0,
{
    let pairs = selection(edges, before, parent);
    let candidates = selected(edges, before, parent);
    law_selection_exists(edges, before, parent);
    law_selection_exists(edges, after, parent);
    let left = selection(edges, after, parent);
    if left.len() > 0 {
        let pair = left[0];
        assert(qualifying_pair(edges, after, parent, pair));
        let id = column_text(edges[pair.0].child_thread_id).unwrap_or(Seq::empty());
        assert(after[pair.1].record.id == before[pair.1].record.id);
        assert(qualifying_pair(edges, before, parent, pair));
        assert(pairs.contains(pair));
        let k = choose|k: int| 0 <= k < pairs.len() && pairs[k] == pair;
        assert(candidates[k] == candidate_of(edges[pair.0], before[pair.1]));
        assert(archiving::is_archived(model::records_of(after), candidates[k].thread_id));
        assert(selection_failure(edges, before, parent, k) is None);
        assert(ids_are_unique(after)) by {
            assert forall|i: int, j: int| 0 <= i < j < after.len() implies !same_id(
                (#[trigger] after[i]).record.id,
                (#[trigger] after[j]).record.id,
            ) by {
                assert(!same_id(before[i].record.id, before[j].record.id));
            }
        }
        lemma_recorded_by_row(after, pair.1, id);
        assert(false);
    }
}

/// The thread table once `ids` are archived directly at the time `now`.
pub open spec fn archived_rows(
    threads: Seq<model::ThreadView>,
    ids: Seq<Seq<char>>,
    now: i64,
) -> Seq<model::ThreadView> {
    threads.map_values(
        |t: model::ThreadView| model::ThreadView {
            record: archiving::archived_thread(ids, now, t.record),
            ..t
        },
    )
}

/// Once all candidates are archived directly, there are none. Their rows were
/// readable.
pub proof fn law_nothing_left_after_archiving(
    edges: Seq<model::EdgeView>,
    threads: Seq<model::ThreadView>,
    parent: Option<Seq<char>>,
    now: i64,
)
    requires
        is_readable(edges, threads, parent),
    ensures
        selected(
            edges,
            archived_rows(
                threads,
                archiving::candidate_ids(selected(edges, threads, parent)),
                now,
            ),
            parent,
        ).len() == 0,
{
    let pairs = selection(edges, threads, parent);
    let candidates = selected(edges, threads, parent);
    let ids = archiving::candidate_ids(candidates);
    let after = archived_rows(threads, ids, now);
    law_selection_exists(edges, threads, parent);
    law_selection_exists(edges, after, parent);
    let left = selection(edges, after, parent);
    if left.len() > 0 {
        let pair = left[0];
        assert(qualifying_pair(edges, after, parent, pair));
        assert(after[pair.1].record == archiving::archived_thread(
            ids,
            now,
            threads[pair.1].record,
        ));
        assert(qualifying_pair(edges, threads, parent, pair));
        assert(pairs.contains(pair));
        let k = choose|k: int| 0 <= k < pairs.len() && pairs[k] == pair;
        assert(candidates[k] == candidate_of(edges[pair.0], threads[pair.1]));
        assert(selection_failure(edges, threads, parent, k) is None);
        assert(threads[pair.1].record.id == model::ColumnView::Value(ids[k]));
        assert(ids.contains(ids[k]));
        assert(false);
    }
}

/// The direct update does nothing to the table but archive threads.
pub proof fn law_direct_update_only_archives(
    threads: Seq<model::ThreadView>,
    ids: Seq<Seq<char>>,
    now: i64,
)
    ensures
        only_archived(threads, archived_rows(threads, ids, now)),
        model::records_of(archived_rows(threads, ids, now)) == archiving::archived_table(
            model::records_of(threads),
            ids,
            now,
        ),
{
    assert(model::records_of(archived_rows(threads, ids, now)) =~= archiving::archived_table(
        model::records_of(threads),
        ids,
        now,
    ));
}

/// Filtering keeps the order, and keeps exactly what the predicate admits.
proof fn lemma_filter_pairs(
    threads: Seq<model::ThreadView>,
    pairs: Seq<(int, int)>,
    pred: spec_fn((int, int)) -> bool,
)
    requires
        forall|k: int, l: int|
            0 <= k < l < pairs.len() ==> precedes(
                threads,
                #[trigger] pairs[k],
                #[trigger] pairs[l],
            ),
    ensures
        forall|k: int, l: int|
            0 <= k < l < pairs.filter(pred).len() ==> precedes(
                threads,
                #[trigger] pairs.filter(pred)[k],
                #[trigger] pairs.filter(pred)[l],
            ),
        forall|pair: (int, int)| #[trigger]
            pairs.filter(pred).contains(pair) <==> pairs.contains(pair) && pred(pair),
    decreases pairs.len(),
{
    reveal(Seq::filter);
    if pairs.len() > 0 {
        let init = pairs.drop_last();
        let last = pairs.last();
        lemma_filter_pairs(threads, init, pred);
        let kept = init.filter(pred);
        let all = pairs.filter(pred);
        assert(all == (if pred(last) {
            kept.push(last)
        } else {
            kept
        }));
        assert forall|k: int, l: int| 0 <= k < l < all.len() implies precedes(
            threads,
            #[trigger] all[k],
            #[trigger] all[l],
        ) by {
            if l < kept.len() {
                assert(precedes(threads, kept[k], kept[l]));
            } else {
                assert(kept.contains(kept[k]));
                assert(init.contains(kept[k]));
                let i = choose|i: int| 0 <= i < init.len() && init[i] == kept[k];
                assert(precedes(threads, pairs[i], pairs[pairs.len() - 1]));
            }
        }
        assert forall|pair: (int, int)| #[trigger] all.contains(pair) <==> pairs.contains(pair)
            && pred(pair) by {
            if pairs.contains(pair) && pred(pair) {
                let i = choose|i: int| 0 <= i < pairs.len() && pairs[i] == pair;
                if i == pairs.len() - 1 {
                    assert(all.last() == pair);
                } else {
                    assert(init[i] == pair);
                    assert(kept.contains(pair));
                    let j = choose|j: int| 0 <= j < kept.len() && kept[j] == pair;
                    assert(all[j] == pair);
                }
            }
            if all.contains(pair) {
                let j = choose|j: int| 0 <= j < all.len() && all[j] == pair;
                if j < kept.len() {
                    assert(kept.contains(kept[j]));
                    assert(init.contains(pair));
                    let i = choose|i: int| 0 <= i < init.len() && init[i] == pair;
                    assert(pairs[i] == pair);
                }
            }
        }
    }
}

/// The selection of one parent is the selection of all parents, limited to the
/// edges of that parent, in the same order.
pub proof fn law_parent_limits_selection(
    edges: Seq<model::EdgeView>,
    threads: Seq<model::ThreadView>,
    parent: Seq<char>,
)
    ensures
        selection(edges, threads, Some(parent)) == selection(edges, threads, None).filter(
            |pair: (int, int)| edges[pair.0].parent_thread_id == model::ColumnView::Value(parent),
        ),
{
    let all = selection(edges, threads, None);
    let pred = |pair: (int, int)|
        edges[pair.0].parent_thread_id == model::ColumnView::Value(parent);
    let limited = all.filter(pred);
    law_selection_exists(edges, threads, None);
    law_selection_exists(edges, threads, Some(parent));
    lemma_filter_pairs(threads, all, pred);
    assert forall|k: int| 0 <= k < limited.len() implies qualifying_pair(
        edges,
        threads,
        Some(parent),
        #[trigger] limited[k],
    ) by {
        assert(limited.contains(limited[k]));
        let i = choose|i: int| 0 <= i < all.len() && all[i] == limited[k];
        assert(qualifying_pair(edges, threads, None, all[i]));
    }
    assert forall|pair: (int, int)| #[trigger]
        qualifying_pair(edges, threads, Some(parent), pair) implies limited.contains(pair) by {
        assert(qualifying_pair(edges, threads, None, pair));
    }
    law_selection_unique(
        edges,
        threads,
        Some(parent),
        limited,
        selection(edges, threads, Some(parent)),
    );
}

/// Nothing is overlooked: where an edge is closed and leads to an unarchived
/// thread with a nickname, and belongs to the parent that was asked for, or all
/// parents were, some candidate has that thread's id and the columns of the two
/// rows.
pub proof fn law_every_closed_subagent_is_found(
    edges: &[SpawnEdge],
    threads: &[ThreadRow],
    parent_thread_id: Option<&str>,
    all_closed_subagents: bool,
    candidates: Vec<Candidate>,
    e: int,
    t: int,
)
    requires
        call_ensures(
            load_candidates,
            (edges, threads, parent_thread_id, all_closed_subagents),
            Ok::<Vec<Candidate>, ArchiveError>(candidates),
        ),
        0 <= e < edges@.len(),
        0 <= t < threads@.len(),
        match (edges@[e].child_thread_id, threads@[t].record.id) {
            (Column::Value(child), Column::Value(id)) => child@ == id@,
            _ => false,
        },
        match edges@[e].status {
            Column::Value(status) => status@ == "closed"@,
            _ => false,
        },
        match threads@[t].record.archived {
            Column::Value(archived) => archived == 0,
            _ => false,
        },
        !(threads@[t].agent_nickname is Null),
        all_closed_subagents || match (parent_thread_id, edges@[e].parent_thread_id) {
            (Some(wanted), Column::Value(parent)) => parent@ == wanted@,
            _ => false,
        },
    ensures
        exists|k: int|
            0 <= k < candidates@.len() && {
                let candidate = #[trigger] candidates@[k];
                &&& match edges@[e].child_thread_id {
                    Column::Value(child) => candidate.thread_id@ == child@,
                    _ => false,
                }
                &&& match edges@[e].parent_thread_id {
                    Column::Value(parent) => candidate.parent_thread_id@ == parent@,
                    _ => false,
                }
                &&& candidate.status@ == "closed"@
                &&& match (threads@[t].agent_nickname, candidate.agent_nickname) {
                    (Column::Value(nickname), Some(told)) => told@ == nickname@,
                    _ => false,
                }
                &&& match threads@[t].title {
                    Column::Value(title) => candidate.title@ == title@,
                    _ => false,
                }
            },
{
    let edge_rows = model::edge_views(edges@);
    let thread_rows = model::thread_views(threads@);
    let parent = scope(parent_thread_id, all_closed_subagents);
    let pairs = selection(edge_rows, thread_rows, parent);
    law_selection_exists(edge_rows, thread_rows, parent);
    assert(edge_rows[e] == edges@[e]@);
    assert(thread_rows[t] == threads@[t]@);
    assert(qualifying_pair(edge_rows, thread_rows, parent, (e, t)));
    assert(pairs.contains((e, t)));
    let k = choose|k: int| 0 <= k < pairs.len() && pairs[k] == (e, t);
    assert(selection_failure(edge_rows, thread_rows, parent, k) is None);
    let views = model::candidate_views(candidates@);
    assert(views == selected(edge_rows, thread_rows, parent));
    assert(views.len() == pairs.len());
    assert(views[k] == candidate_of(edge_rows[e], thread_rows[t]));
    assert(views[k] == candidates@[k]@);
}

/// Nothing is made up, and nothing is listed twice: each candidate stands for a
/// pair of rows of its own, whose columns it carries. The edge is closed, the
/// thread is unarchived and has a nickname, and the parent is the one asked for,
/// unless all were. Older threads come first.
pub proof fn law_candidates_stand_for_rows(
    edges: &[SpawnEdge],
    threads: &[ThreadRow],
    parent_thread_id: Option<&str>,
    all_closed_subagents: bool,
    candidates: Vec<Candidate>,
) -> (rows: Seq<(int, int)>)
    requires
        call_ensures(
            load_candidates,
            (edges, threads, parent_thread_id, all_closed_subagents),
            Ok::<Vec<Candidate>, ArchiveError>(candidates),
        ),
    ensures
        rows.len() == candidates@.len(),
        forall|k: int|
            0 <= k < rows.len() ==> 0 <= (#[trigger] rows[k]).0 < edges@.len() && 0 <= rows[k].1
                < threads@.len(),
        forall|k: int|
            0 <= k < rows.len() ==> {
                let edge = edges@[(#[trigger] rows[k]).0];
                let thread = threads@[rows[k].1];
                let candidate = candidates@[k];
                &&& match (edge.child_thread_id, thread.record.id) {
                    (Column::Value(child), Column::Value(id)) => child@ == id@
                        && candidate.thread_id@ == id@,
                    _ => false,
                }
                &&& match edge.parent_thread_id {
                    Column::Value(parent) => candidate.parent_thread_id@ == parent@,
                    _ => false,
                }
                &&& match edge.status {
                    Column::Value(status) => status@ == "closed"@ && candidate.status@ == status@,
                    _ => false,
                }
                &&& match thread.record.archived {
                    Column::Value(archived) => archived == 0,
                    _ => false,
                }
                &&& match (thread.agent_nickname, candidate.agent_nickname) {
                    (Column::Value(nickname), Some(told)) => told@ == nickname@,
                    _ => false,
                }
                &&& match thread.title {
                    Column::Value(title) => candidate.title@ == title@,
                    _ => false,
                }
                &&& all_closed_subagents || match parent_thread_id {
                    Some(wanted) => candidate.parent_thread_id@ == wanted@,
                    None => false,
                }
            },
        forall|k: int, l: int|
            0 <= k < l < rows.len() ==> #[trigger] rows[k] != #[trigger] rows[l]
                && threads@[rows[k].1].created_order <= threads@[rows[l].1].created_order,
{
    let edge_rows = model::edge_views(edges@);
    let thread_rows = model::thread_views(threads@);
    let parent = scope(parent_thread_id, all_closed_subagents);
    let pairs = selection(edge_rows, thread_rows, parent);
    law_selection_exists(edge_rows, thread_rows, parent);
    let views = model::candidate_views(candidates@);
    assert(views.len() == pairs.len());
    assert forall|k: int| 0 <= k < pairs.len() implies {
        &&& qualifying_pair(edge_rows, thread_rows, parent, #[trigger] pairs[k])
        &&& selection_failure(edge_rows, thread_rows, parent, k) is None
        &&& candidates@[k]@ == candidate_of(
            edges@[pairs[k].0]@,
            threads@[pairs[k].1]@,
        )
        &&& edge_rows[pairs[k].0] == edges@[pairs[k].0]@
        &&& thread_rows[pairs[k].1] == threads@[pairs[k].1]@
    } by {
        assert(qualifying_pair(edge_rows, thread_rows, parent, pairs[k]));
        assert(selection_failure(edge_rows, thread_rows, parent, k) is None);
        assert(views[k] == candidates@[k]@);
    }
    assert forall|k: int, l: int| 0 <= k < l < pairs.len() implies #[trigger] pairs[k]
        != #[trigger] pairs[l] && threads@[pairs[k].1].created_order
        <= threads@[pairs[l].1].created_order by {
        assert(precedes(thread_rows, pairs[k], pairs[l]));
        assert(thread_rows[pairs[k].1] == threads@[pairs[k].1]@);
        assert(thread_rows[pairs[l].1] == threads@[pairs[l].1]@);
    }
    pairs
}

/// Whether the query of a run joins `edge` with `thread`: their ids are equal,
/// readable or not, and all its conditions hold.
pub open spec fn is_joined(
    edge: SpawnEdge,
    thread: ThreadRow,
    parent_thread_id: Option<&str>,
    all_closed_subagents: bool,
) -> bool {
    &&& match (edge.child_thread_id, thread.record.id) {
        (Column::Value(child), Column::Value(id)) => child@ == id@,
        (Column::Other { stored: child, .. }, Column::Other { stored: id, .. }) => child@ == id@,
        _ => false,
    }
    &&& match edge.status {
        Column::Value(status) => status@ == "closed"@,
        _ => false,
    }
    &&& match thread.record.archived {
        Column::Value(archived) => archived == 0,
        _ => false,
    }
    &&& !(thread.agent_nickname is Null)
    &&& all_closed_subagents || match (parent_thread_id, edge.parent_thread_id) {
        (Some(wanted), Column::Value(parent)) => parent@ == wanted@,
        _ => false,
    }
}

/// Whether every column that a candidate carries can be read from `edge` and
/// `thread`.
pub open spec fn has_readable_columns(edge: SpawnEdge, thread: ThreadRow) -> bool {
    &&& edge.parent_thread_id is Value
    &&& edge.child_thread_id is Value
    &&& edge.status is Value
    &&& !(thread.agent_nickname is Other)
    &&& thread.title is Value
}

/// Loading succeeds exactly where a scope is given and every row that the query
/// joins can be read. Without a scope it says so.
pub proof fn law_when_loading_succeeds(
    edges: &[SpawnEdge],
    threads: &[ThreadRow],
    parent_thread_id: Option<&str>,
    all_closed_subagents: bool,
    r: Result<Vec<Candidate>, ArchiveError>,
)
    requires
        call_ensures(
            load_candidates,
            (edges, threads, parent_thread_id, all_closed_subagents),
            r,
        ),
    ensures
        r is Ok <==> (all_closed_subagents || parent_thread_id is Some) && forall|e: int, t: int|
            #![trigger edges@[e], threads@[t]]
            0 <= e < edges@.len() && 0 <= t < threads@.len() && is_joined(
                edges@[e],
                threads@[t],
                parent_thread_id,
                all_closed_subagents,
            ) ==> has_readable_columns(edges@[e], threads@[t]),
        r matches Err(error) ==> (error is MissingParent <==> !all_closed_subagents
            && parent_thread_id is None),
        r matches Err(error) ==> error is MissingParent || error is Database,
{
    let edge_rows = model::edge_views(edges@);
    let thread_rows = model::thread_views(threads@);
    let parent = scope(parent_thread_id, all_closed_subagents);
    let pairs = selection(edge_rows, thread_rows, parent);
    law_selection_exists(edge_rows, thread_rows, parent);
    if all_closed_subagents || parent_thread_id is Some {
        assert forall|e: int, t: int|
            #![trigger edges@[e], threads@[t]]
            0 <= e < edges@.len() && 0 <= t < threads@.len() && r is Ok && is_joined(
                edges@[e],
                threads@[t],
                parent_thread_id,
                all_closed_subagents,
            ) implies has_readable_columns(edges@[e], threads@[t]) by {
            assert(edge_rows[e] == edges@[e]@);
            assert(thread_rows[t] == threads@[t]@);
            assert(qualifying_pair(edge_rows, thread_rows, parent, (e, t)));
            assert(pairs.contains((e, t)));
            let k = choose|k: int| 0 <= k < pairs.len() && pairs[k] == (e, t);
            assert(selection_failure(edge_rows, thread_rows, parent, k) is None);
        }
        match r {
            Ok(_) => {},
            Err(ArchiveError::Database { cause }) => {
                let k = choose|k: int|
                    {
                        &&& 0 <= k < pairs.len()
                        &&& #[trigger] selection_failure(edge_rows, thread_rows, parent, k) == Some(
                            cause@,
                        )
                        &&& forall|j: int|
                            0 <= j < k ==> #[trigger] selection_failure(
                                edge_rows,
                                thread_rows,
                                parent,
                                j,
                            ) is None
                    };
                let e = pairs[k].0;
                let t = pairs[k].1;
                assert(qualifying_pair(edge_rows, thread_rows, parent, pairs[k]));
                assert(edge_rows[e] == edges@[e]@);
                assert(thread_rows[t] == threads@[t]@);
                assert(is_joined(
                    edges@[e],
                    threads@[t],
                    parent_thread_id,
                    all_closed_subagents,
                ));
                assert(!has_readable_columns(edges@[e], threads@[t]));
            },
            Err(_) => {},
        }
    }
}

/// A failure to load tells of the oldest joined row that cannot be read, and of
/// its first column that cannot: the parent, the id, the status, the nickname and
/// the title, in this order.
pub proof fn law_loading_tells_what_is_unreadable(
    edges: &[SpawnEdge],
    threads: &[ThreadRow],
    parent_thread_id: Option<&str>,
    all_closed_subagents: bool,
    cause: String,
) -> (row: (int, int))
    requires
        call_ensures(
            load_candidates,
            (edges, threads, parent_thread_id, all_closed_subagents),
            Err::<Vec<Candidate>, ArchiveError>(ArchiveError::Database { cause }),
        ),
    ensures
        0 <= row.0 < edges@.len(),
        0 <= row.1 < threads@.len(),
        is_joined(edges@[row.0], threads@[row.1], parent_thread_id, all_closed_subagents),
        match edges@[row.0].parent_thread_id {
            Column::Value(_) => match edges@[row.0].child_thread_id {
                Column::Value(_) => match threads@[row.1].agent_nickname {
                    Column::Other { cause: told, .. } => cause@ == told@,
                    _ => match threads@[row.1].title {
                        Column::Value(_) => false,
                        Column::Null { cause: told } => cause@ == told@,
                        Column::Other { cause: told, .. } => cause@ == told@,
                    },
                },
                Column::Null { cause: told } => cause@ == told@,
                Column::Other { cause: told, .. } => cause@ == told@,
            },
            Column::Null { cause: told } => cause@ == told@,
            Column::Other { cause: told, .. } => cause@ == told@,
        },
        forall|e: int, t: int|
            #![trigger edges@[e], threads@[t]]
            0 <= e < edges@.len() && 0 <= t < threads@.len() && is_joined(
                edges@[e],
                threads@[t],
                parent_thread_id,
                all_closed_subagents,
            ) && threads@[t].created_order < threads@[row.1].created_order ==> has_readable_columns(
                edges@[e],
                threads@[t],
            ),
{
    let edge_rows = model::edge_views(edges@);
    let thread_rows = model::thread_views(threads@);
    let parent = scope(parent_thread_id, all_closed_subagents);
    let pairs = selection(edge_rows, thread_rows, parent);
    law_selection_exists(edge_rows, thread_rows, parent);
    let k = choose|k: int|
        {
            &&& 0 <= k < pairs.len()
            &&& #[trigger] selection_failure(edge_rows, thread_rows, parent, k) == Some(cause@)
            &&& forall|j: int|
                0 <= j < k ==> #[trigger] selection_failure(edge_rows, thread_rows, parent, j)
                    is None
        };
    let row = pairs[k];
    assert(qualifying_pair(edge_rows, thread_rows, parent, row));
    assert(edge_rows[row.0] == edges@[row.0]@);
    assert(thread_rows[row.1] == threads@[row.1]@);
    assert forall|e: int, t: int|
        #![trigger edges@[e], threads@[t]]
        0 <= e < edges@.len() && 0 <= t < threads@.len() && is_joined(
            edges@[e],
            threads@[t],
            parent_thread_id,
            all_closed_subagents,
        ) && threads@[t].created_order
            < threads@[row.1].created_order implies has_readable_columns(
        edges@[e],
        threads@[t],
    ) by {
        assert(edge_rows[e] == edges@[e]@);
        assert(thread_rows[t] == threads@[t]@);
        assert(qualifying_pair(edge_rows, thread_rows, parent, (e, t)));
        assert(pairs.contains((e, t)));
        let j = choose|j: int| 0 <= j < pairs.len() && pairs[j] == (e, t);
        if j > k {
            assert(precedes(thread_rows, pairs[k], pairs[j]));
        }
        assert(selection_failure(edge_rows, thread_rows, parent, j) is None);
    }
    row
}

/// A run over all parents has no parent to keep to, one with a parent keeps to
/// that one, and one with neither fails.
pub proof fn law_scope_of_a_run(
    parent_thread_id: Option<&str>,
    all_closed_subagents: bool,
    r: Result<Option<String>, ArchiveError>,
)
    requires
        call_ensures(parent_filter, (parent_thread_id, all_closed_subagents), r),
    ensures
        all_closed_subagents ==> r matches Ok(None),
        !all_closed_subagents ==> match parent_thread_id {
            Some(wanted) => r matches Ok(Some(parent)) && parent@ == wanted@,
            None => r matches Err(ArchiveError::MissingParent),
        },
{
}

} // verus!
