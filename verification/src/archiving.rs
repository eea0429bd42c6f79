//! What is archived, and how the thread table changes when threads are.

use crate::error::ArchiveError;
use crate::model;
use crate::model::{Candidate, Column, ThreadRecord};
use crate::text;
use vstd::prelude::*;

verus! {

/// The `archived` column of the thread `id`, if the table has that thread.
pub open spec fn recorded(threads: Seq<model::RecordView>, id: Seq<char>) -> Option<
    model::ColumnView<i64>,
>
    decreases threads.len(),
{
    if threads.len() == 0 {
        None
    } else if threads[0].id == model::ColumnView::Value(id) {
        Some(threads[0].archived)
    } else {
        recorded(threads.drop_first(), id)
    }
}

/// Whether the table records the thread `id` as archived.
pub open spec fn is_archived(threads: Seq<model::RecordView>, id: Seq<char>) -> bool {
    recorded(threads, id) == Some(model::ColumnView::Value(1i64))
}

/// Why it cannot be told what the table records of the thread `id`, if that is
/// so: it has the thread, with an `archived` column that is no integer.
pub open spec fn unreadable(threads: Seq<model::RecordView>, id: Seq<char>) -> Option<Seq<char>> {
    match recorded(threads, id) {
        Some(model::ColumnView::Null { cause }) => Some(cause),
        Some(model::ColumnView::Other { cause, .. }) => Some(cause),
        _ => None,
    }
}

/// Whether it can be told of every candidate what the table records of it.
pub open spec fn all_readable(
    threads: Seq<model::RecordView>,
    candidates: Seq<model::CandidateView>,
) -> bool {
    forall|k: int|
        0 <= k < candidates.len() ==> unreadable(
            threads,
            (#[trigger] candidates[k]).thread_id,
        ) is None
}

/// Whether `error` is about the first candidate of which it cannot be told what
/// the table records.
pub open spec fn is_first_unreadable(
    threads: Seq<model::RecordView>,
    candidates: Seq<model::CandidateView>,
    error: ArchiveError,
) -> bool {
    error matches ArchiveError::ThreadCheck { thread_id, cause } && exists|k: int|
        {
            &&& 0 <= k < candidates.len()
            &&& (#[trigger] candidates[k]).thread_id == thread_id@
            &&& unreadable(threads, thread_id@) == Some(cause@)
            &&& all_readable(threads, candidates.take(k))
        }
}

/// The ids of those candidates, in their order, that the table does not record
/// as archived.
pub open spec fn unarchived(
    threads: Seq<model::RecordView>,
    candidates: Seq<model::CandidateView>,
) -> Seq<Seq<char>> {
    candidate_ids(
        candidates.filter(|c: model::CandidateView| !is_archived(threads, c.thread_id)),
    )
}

/// The thread ids of `candidates`.
pub open spec fn candidate_ids(candidates: Seq<model::CandidateView>) -> Seq<Seq<char>> {
    candidates.map_values(|c: model::CandidateView| c.thread_id)
}

/// Whether `ids` has the id of `thread` among them.
pub open spec fn is_asked_for(ids: Seq<Seq<char>>, thread: model::RecordView) -> bool {
    thread.id matches model::ColumnView::Value(id) && ids.contains(id)
}

/// Whether archiving `ids` changes `thread`.
pub open spec fn is_due(ids: Seq<Seq<char>>, thread: model::RecordView) -> bool {
    thread.archived == model::ColumnView::Value(0i64) && is_asked_for(ids, thread)
}

/// `thread` once `ids` are archived at the time `now`. A thread that is due is
/// marked, and gets a time unless it has one.
pub open spec fn archived_thread(
    ids: Seq<Seq<char>>,
    now: i64,
    thread: model::RecordView,
) -> model::RecordView {
    if is_due(ids, thread) {
        model::RecordView {
            archived: model::ColumnView::Value(1),
            archived_at: if thread.archived_at is Null {
                model::ColumnView::Value(now)
            } else {
                thread.archived_at
            },
            ..thread
        }
    } else {
        thread
    }
}

/// The table once `ids` are archived at the time `now`.
pub open spec fn archived_table(
    threads: Seq<model::RecordView>,
    ids: Seq<Seq<char>>,
    now: i64,
) -> Seq<model::RecordView> {
    threads.map_values(|t: model::RecordView| archived_thread(ids, now, t))
}

/// The threads that archiving `ids` changes.
pub open spec fn due(threads: Seq<model::RecordView>, ids: Seq<Seq<char>>) -> Seq<
    model::RecordView,
> {
    threads.filter(|t: model::RecordView| is_due(ids, t))
}

/// Looks up the `archived` column of the thread `id`.
fn archived_column<'a>(threads: &'a [ThreadRecord], id: &String) -> (r: Option<&'a Column<i64>>)
    ensures
        match r {
            Some(column) => recorded(model::record_views(threads@), id@) == Some(
                model::integer_column(*column),
            ),
            None => recorded(model::record_views(threads@), id@) is None,
        },
{
    let ghost rows = model::record_views(threads@);
    let mut i: usize = 0;
    assert(rows.skip(0) =~= rows);
    while i < threads.len()
        invariant
            i <= threads@.len(),
            rows == model::record_views(threads@),
            recorded(rows, id@) == recorded(rows.skip(i as int), id@),
        decreases threads.len() - i,
    {
        assert(rows.skip(i as int)[0] == threads@[i as int]@);
        if model::holds_text(&threads[i].id, id) {
            return Some(&threads[i].archived);
        }
        assert(rows.skip(i as int).drop_first() =~= rows.skip(i + 1));
        i += 1;
    }
    None
}

/// Lists the ids of those candidates that the table does not record as
/// archived. Fails on the first candidate of which that cannot be told.
pub fn unarchived_candidate_ids(threads: &[ThreadRecord], candidates: &[Candidate]) -> (r: Result<
    Vec<String>,
    ArchiveError,
>)
    ensures
        match r {
            Ok(ids) => all_readable(
                model::record_views(threads@),
                model::candidate_views(candidates@),
            ) && text::texts(ids@) == unarchived(
                model::record_views(threads@),
                model::candidate_views(candidates@),
            ),
            Err(error) => is_first_unreadable(
                model::record_views(threads@),
                model::candidate_views(candidates@),
                error,
            ),
        },
{
    let ghost rows = model::record_views(threads@);
    let ghost all = model::candidate_views(candidates@);
    let mut r: Vec<String> = Vec::new();
    let mut i: usize = 0;
    while i < candidates.len()
        invariant
            i <= candidates@.len(),
            rows == model::record_views(threads@),
            all == model::candidate_views(candidates@),
            all_readable(rows, all.take(i as int)),
            text::texts(r@) == unarchived(rows, all.take(i as int)),
        decreases candidates.len() - i,
    {
        let ghost before = text::texts(r@);
        let id = &candidates[i].thread_id;
        assert(all[i as int].thread_id == id@);
        let done: bool = match archived_column(threads, id) {
            Some(Column::Value(archived)) => *archived == 1,
            Some(Column::Null { cause }) => {
                return Err(
                    ArchiveError::ThreadCheck { thread_id: id.clone(), cause: cause.clone() },
                );
            },
            Some(Column::Other { cause, .. }) => {
                return Err(
                    ArchiveError::ThreadCheck { thread_id: id.clone(), cause: cause.clone() },
                );
            },
            None => false,
        };
        proof {
            let open = |c: model::CandidateView| !is_archived(rows, c.thread_id);
            let next = all.take(i + 1);
            assert(next.drop_last() =~= all.take(i as int));
            assert(next.last() == candidates@[i as int]@);
            assert forall|k: int| 0 <= k < next.len() implies unreadable(
                rows,
                (#[trigger] next[k]).thread_id,
            ) is None by {
                if k < i {
                    assert(next[k] == all.take(i as int)[k]);
                }
            }
            reveal(Seq::filter);
            if open(next.last()) {
                assert(unarchived(rows, next) =~= unarchived(rows, all.take(i as int)).push(
                    id@,
                ));
            }
        }
        if !done {
            r.push(id.clone());
            assert(text::texts(r@) =~= before.push(id@));
        }
        i += 1;
    }
    assert(all.take(all.len() as int) =~= all);
    Ok(r)
}

/// Whether `ids` has `id` among them.
fn contains_id(ids: &[String], id: &String) -> (r: bool)
    ensures
        r == text::texts(ids@).contains(id@),
{
    let ghost all = text::texts(ids@);
    let mut i: usize = 0;
    while i < ids.len()
        invariant
            i <= ids@.len(),
            all == text::texts(ids@),
            forall|k: int| 0 <= k < i ==> all[k] != id@,
        decreases ids.len() - i,
    {
        assert(all[i as int] == ids@[i as int]@);
        if ids[i] == *id {
            return true;
        }
        i += 1;
    }
    false
}

/// Archives the threads `thread_ids` in the table, at the time `now`. Returns
/// the positions of the rows that changed, in table order; their number is the
/// number of threads archived.
pub fn direct_archive(threads: &mut Vec<ThreadRecord>, thread_ids: &[String], now: i64) -> (changed:
    Vec<usize>)
    ensures
        final(threads)@.len() == old(threads)@.len(),
        model::record_views(final(threads)@) == archived_table(
            model::record_views(old(threads)@),
            text::texts(thread_ids@),
            now,
        ),
        forall|k: int, l: int| 0 <= k < l < changed@.len() ==> changed@[k] < changed@[l],
        forall|p: usize| #[trigger]
            changed@.contains(p) <==> p < old(threads)@.len() && is_due(
                text::texts(thread_ids@),
                old(threads)@[p as int]@,
            ),
        changed@.len() == due(
            model::record_views(old(threads)@),
            text::texts(thread_ids@),
        ).len(),
        forall|k: int|
            0 <= k < old(threads)@.len() ==> {
                let before = old(threads)@[k];
                let after = #[trigger] final(threads)@[k];
                let asked_for = match before.id {
                    Column::Value(id) => exists|j: int|
                        0 <= j < thread_ids@.len() && (#[trigger] thread_ids@[j])@ == id@,
                    _ => false,
                };
                if asked_for && before.archived == Column::Value(0i64) {
                    &&& changed@.contains(k as usize)
                    &&& after.id == before.id
                    &&& after.archived == Column::Value(1i64)
                    &&& after.archived_at == if before.archived_at is Null {
                        Column::Value(now)
                    } else {
                        before.archived_at
                    }
                } else {
                    &&& !changed@.contains(k as usize)
                    &&& after == before
                }
            },
{
    let ghost rows = threads@;
    let ghost before = model::record_views(threads@);
    let ghost ids = text::texts(thread_ids@);
    let mut changed: Vec<usize> = Vec::new();
    let mut i: usize = 0;
    while i < threads.len()
        invariant
            i <= threads@.len(),
            threads@.len() == before.len(),
            ids == text::texts(thread_ids@),
            forall|k: int|
                0 <= k < i ==> (#[trigger] threads@[k])@ == archived_thread(ids, now, before[k]),
            forall|k: int| i <= k < before.len() ==> (#[trigger] threads@[k])@ == before[k],
            before == model::record_views(rows),
            forall|k: int| i <= k < before.len() ==> #[trigger] threads@[k] == rows[k],
            forall|k: int|
                0 <= k < i ==> (#[trigger] threads@[k]) == if is_due(ids, before[k]) {
                    ThreadRecord {
                        id: rows[k].id,
                        archived: Column::Value(1i64),
                        archived_at: if rows[k].archived_at is Null {
                            Column::Value(now)
                        } else {
                            rows[k].archived_at
                        },
                    }
                } else {
                    rows[k]
                },
            forall|k: int, l: int| 0 <= k < l < changed@.len() ==> changed@[k] < changed@[l],
            forall|k: int| 0 <= k < changed@.len() ==> changed@[k] < i,
            forall|p: usize| #[trigger]
                changed@.contains(p) <==> p < i && is_due(ids, before[p as int]),
            changed@.len() == due(before.take(i as int), ids).len(),
        decreases threads.len() - i,
    {
        let ghost earlier = changed@;
        proof {
            let next = before.take(i + 1);
            assert(next.drop_last() =~= before.take(i as int));
            assert(next.last() == before[i as int]);
            reveal(Seq::filter);
        }
        let open: bool = match &threads[i].archived {
            Column::Value(archived) => *archived == 0,
            _ => false,
        };
        let asked_for: bool = match &threads[i].id {
            Column::Value(id) => contains_id(thread_ids, id),
            _ => false,
        };
        if open && asked_for {
            let unset: bool = match &threads[i].archived_at {
                Column::Null { .. } => true,
                _ => false,
            };
            let row = &mut threads[i];
            row.archived = Column::Value(1);
            if unset {
                row.archived_at = Column::Value(now);
            }
            changed.push(i);
            assert(changed@.last() == i);
            assert forall|p: usize| #[trigger] changed@.contains(p) <==> earlier.contains(p)
                || p == i by {
                if earlier.contains(p) {
                    let k = choose|k: int| 0 <= k < earlier.len() && earlier[k] == p;
                    assert(changed@[k] == p);
                }
            }
        }
        i += 1;
    }
    proof {
        assert(before.take(before.len() as int) =~= before);
        assert(model::record_views(threads@) =~= archived_table(before, ids, now));
        assert forall|k: int| 0 <= k < rows.len() implies (is_due(ids, #[trigger] before[k]) <==> (
        match rows[k].id {
            Column::Value(id) => exists|j: int|
                0 <= j < thread_ids@.len() && (#[trigger] thread_ids@[j])@ == id@,
            _ => false,
        }) && rows[k].archived == Column::Value(0i64)) by {
            assert(before[k] == rows[k]@);
            match rows[k].id {
                Column::Value(id) => {
                    if ids.contains(id@) {
                        let j = choose|j: int| 0 <= j < ids.len() && ids[j] == id@;
                        assert(thread_ids@[j]@ == id@);
                    }
                    if exists|j: int|
                        0 <= j < thread_ids@.len() && (#[trigger] thread_ids@[j])@ == id@ {
                        let j = choose|j: int|
                            0 <= j < thread_ids@.len() && (#[trigger] thread_ids@[j])@ == id@;
                        assert(ids[j] == id@);
                    }
                },
                _ => {},
            }
        }
    }
    changed
}

/// Archiving deletes no thread, and changes nothing but the two archive columns
/// of threads that were asked for.
pub proof fn law_archiving_is_confined(
    threads: Seq<model::RecordView>,
    ids: Seq<Seq<char>>,
    now: i64,
)
    ensures
        archived_table(threads, ids, now).len() == threads.len(),
        forall|k: int|
            #![trigger archived_table(threads, ids, now)[k]]
            0 <= k < threads.len() ==> {
                let after = archived_table(threads, ids, now)[k];
                &&& after == model::RecordView {
                    archived: after.archived,
                    archived_at: after.archived_at,
                    ..threads[k]
                }
                &&& !is_asked_for(ids, threads[k]) ==> after == threads[k]
            },
{
}

/// Archiving never moves a recorded archive time, and each thread that it marks
/// without one gets the time `now`.
pub proof fn law_archive_times(threads: Seq<model::RecordView>, ids: Seq<Seq<char>>, now: i64)
    ensures
        forall|k: int|
            #![trigger archived_table(threads, ids, now)[k]]
            0 <= k < threads.len() ==> {
                let after = archived_table(threads, ids, now)[k];
                &&& threads[k].archived_at !is Null ==> after.archived_at == threads[k].archived_at
                &&& after.archived != threads[k].archived ==> after.archived
                    == model::ColumnView::Value(1i64) && after.archived_at !is Null
                &&& after.archived != threads[k].archived && threads[k].archived_at is Null
                    ==> after.archived_at == model::ColumnView::Value(now)
            },
{
}

/// Archiving the same threads again, at whatever time, changes nothing.
pub proof fn law_archiving_is_idempotent(
    threads: Seq<model::RecordView>,
    ids: Seq<Seq<char>>,
    now: i64,
    later: i64,
)
    ensures
        archived_table(archived_table(threads, ids, now), ids, later) == archived_table(
            threads,
            ids,
            now,
        ),
        due(archived_table(threads, ids, now), ids).len() == 0,
{
    let once = archived_table(threads, ids, now);
    assert(archived_table(once, ids, later) =~= once);
    let pred = |t: model::RecordView| is_due(ids, t);
    assert forall|k: int| 0 <= k < once.len() implies !pred(#[trigger] once[k]) by {}
    lemma_filter_empty(once, pred);
}

proof fn lemma_filter_empty<A>(s: Seq<A>, pred: spec_fn(A) -> bool)
    requires
        forall|k: int| 0 <= k < s.len() ==> !pred(#[trigger] s[k]),
    ensures
        s.filter(pred) == Seq::<A>::empty(),
    decreases s.len(),
{
    reveal(Seq::filter);
    if s.len() > 0 {
        assert(!pred(s[s.len() - 1]));
        lemma_filter_empty(s.drop_last(), pred);
    }
}

proof fn lemma_filter_same<A>(s: Seq<A>, p: spec_fn(A) -> bool, q: spec_fn(A) -> bool)
    requires
        forall|k: int| 0 <= k < s.len() ==> p(#[trigger] s[k]) == q(s[k]),
    ensures
        s.filter(p) == s.filter(q),
    decreases s.len(),
{
    reveal(Seq::filter);
    if s.len() > 0 {
        assert(p(s[s.len() - 1]) == q(s[s.len() - 1]));
        assert forall|k: int| 0 <= k < s.drop_last().len() implies p(
            #[trigger] s.drop_last()[k],
        ) == q(s.drop_last()[k]) by {
            assert(s.drop_last()[k] == s[k]);
        }
        lemma_filter_same(s.drop_last(), p, q);
    }
}

proof fn lemma_filter_keeps<A>(s: Seq<A>, pred: spec_fn(A) -> bool, k: int)
    requires
        0 <= k < s.len(),
        pred(s[k]),
    ensures
        s.filter(pred).contains(s[k]),
    decreases s.len(),
{
    reveal(Seq::filter);
    let rest = s.drop_last().filter(pred);
    if k == s.len() - 1 {
        assert(s.filter(pred).last() == s[k]);
    } else {
        lemma_filter_keeps(s.drop_last(), pred, k);
        assert(rest.contains(s[k]));
        let i = choose|i: int| 0 <= i < rest.len() && rest[i] == s[k];
        assert(s.filter(pred)[i] == s[k]);
    }
}

/// What the table records of a thread once `ids` are archived: archived, if it
/// was asked for and not archived before, and else what it recorded before.
pub proof fn law_recorded_after_archiving(
    threads: Seq<model::RecordView>,
    ids: Seq<Seq<char>>,
    now: i64,
    id: Seq<char>,
)
    ensures
        recorded(archived_table(threads, ids, now), id) == (if recorded(threads, id) == Some(
            model::ColumnView::Value(0i64),
        ) && ids.contains(id) {
            Some(model::ColumnView::Value(1i64))
        } else {
            recorded(threads, id)
        }),
    decreases threads.len(),
{
    if threads.len() > 0 && threads[0].id != model::ColumnView::Value(id) {
        assert(archived_table(threads, ids, now).drop_first() =~= archived_table(
            threads.drop_first(),
            ids,
            now,
        ));
        law_recorded_after_archiving(threads.drop_first(), ids, now, id);
    }
}

/// Whether archiving can make the table record the thread `id` as archived: the
/// thread is there, as archived or not archived.
pub open spec fn can_be_archived(threads: Seq<model::RecordView>, id: Seq<char>) -> bool {
    ||| recorded(threads, id) == Some(model::ColumnView::Value(0i64))
    ||| recorded(threads, id) == Some(model::ColumnView::Value(1i64))
}

/// Once the unarchived candidates are archived directly, a new check finds
/// exactly those that the table lacks or records as neither.
pub proof fn law_check_after_direct_archive(
    threads: Seq<model::RecordView>,
    candidates: Seq<model::CandidateView>,
    now: i64,
)
    ensures
        unarchived(
            archived_table(threads, unarchived(threads, candidates), now),
            candidates,
        ) == candidate_ids(
            candidates.filter(|c: model::CandidateView| !can_be_archived(threads, c.thread_id)),
        ),
{
    let ids = unarchived(threads, candidates);
    let after = archived_table(threads, ids, now);
    let open = |c: model::CandidateView| !is_archived(threads, c.thread_id);
    let still_open = |c: model::CandidateView| !is_archived(after, c.thread_id);
    let hopeless = |c: model::CandidateView| !can_be_archived(threads, c.thread_id);
    assert forall|k: int| 0 <= k < candidates.len() implies still_open(#[trigger] candidates[k])
        == hopeless(candidates[k]) by {
        let id = candidates[k].thread_id;
        law_recorded_after_archiving(threads, ids, now, id);
        if open(candidates[k]) {
            lemma_filter_keeps(candidates, open, k);
            let kept = candidates.filter(open);
            let i = choose|i: int| 0 <= i < kept.len() && kept[i] == candidates[k];
            assert(ids[i] == id);
            assert(ids.contains(id));
        }
    }
    lemma_filter_same(candidates, still_open, hopeless);
}

/// Where every candidate is in the table, as archived or not archived, the
/// check after the direct update finds nothing left.
pub proof fn law_direct_archive_suffices(
    threads: Seq<model::RecordView>,
    candidates: Seq<model::CandidateView>,
    now: i64,
)
    requires
        forall|k: int|
            0 <= k < candidates.len() ==> can_be_archived(
                threads,
                (#[trigger] candidates[k]).thread_id,
            ),
    ensures
        unarchived(
            archived_table(threads, unarchived(threads, candidates), now),
            candidates,
        ).len() == 0,
        all_readable(
            archived_table(threads, unarchived(threads, candidates), now),
            candidates,
        ),
{
    let ids = unarchived(threads, candidates);
    assert forall|k: int| 0 <= k < candidates.len() implies unreadable(
        archived_table(threads, ids, now),
        (#[trigger] candidates[k]).thread_id,
    ) is None by {
        law_recorded_after_archiving(threads, ids, now, candidates[k].thread_id);
    }
    law_check_after_direct_archive(threads, candidates, now);
    lemma_filter_empty(
        candidates,
        |c: model::CandidateView| !can_be_archived(threads, c.thread_id),
    );
}

/// The check finds nothing exactly when the table records every candidate as
/// archived.
pub proof fn law_check_is_complete(
    threads: Seq<model::RecordView>,
    candidates: Seq<model::CandidateView>,
)
    ensures
        unarchived(threads, candidates).len() == 0 <==> forall|k: int|
            0 <= k < candidates.len() ==> is_archived(
                threads,
                (#[trigger] candidates[k]).thread_id,
            ),
{
    let open = |c: model::CandidateView| !is_archived(threads, c.thread_id);
    if unarchived(threads, candidates).len() == 0 {
        assert forall|k: int| 0 <= k < candidates.len() implies is_archived(
            threads,
            (#[trigger] candidates[k]).thread_id,
        ) by {
            if open(candidates[k]) {
                lemma_filter_keeps(candidates, open, k);
            }
        }
    } else if forall|k: int|
        0 <= k < candidates.len() ==> is_archived(threads, (#[trigger] candidates[k]).thread_id) {
        lemma_filter_empty(candidates, open);
    }
}

proof fn lemma_filter_contained<A>(s: Seq<A>, pred: spec_fn(A) -> bool, k: int)
    requires
        0 <= k < s.filter(pred).len(),
    ensures
        s.contains(s.filter(pred)[k]),
    decreases s.len(),
{
    reveal(Seq::filter);
    if s.len() > 0 {
        let init = s.drop_last();
        if k < init.filter(pred).len() {
            lemma_filter_contained(init, pred, k);
            let i = choose|i: int| 0 <= i < init.len() && init[i] == init.filter(pred)[k];
            assert(s[i] == s.filter(pred)[k]);
        } else {
            assert(s[s.len() - 1] == s.filter(pred)[k]);
        }
    }
}

/// What is left to archive is among the candidates.
pub proof fn law_unarchived_are_candidates(
    threads: Seq<model::RecordView>,
    candidates: Seq<model::CandidateView>,
)
    ensures
        forall|k: int|
            0 <= k < unarchived(threads, candidates).len() ==> candidate_ids(candidates).contains(
                #[trigger] unarchived(threads, candidates)[k],
            ),
{
    let open = |c: model::CandidateView| !is_archived(threads, c.thread_id);
    let left = candidates.filter(open);
    assert forall|k: int|
        0 <= k < unarchived(threads, candidates).len() implies candidate_ids(candidates).contains(
        #[trigger] unarchived(threads, candidates)[k],
    ) by {
        lemma_filter_contained(candidates, open, k);
        let i = choose|i: int| 0 <= i < candidates.len() && candidates[i] == left[k];
        assert(candidate_ids(candidates)[i] == left[k].thread_id);
    }
}

/// Whether row `t` is the first that has the id `id`.
pub open spec fn is_row_of(threads: Seq<ThreadRecord>, id: Seq<char>, t: int) -> bool {
    &&& 0 <= t < threads.len()
    &&& match threads[t].id {
        Column::Value(own) => own@ == id,
        _ => false,
    }
    &&& forall|s: int|
        0 <= s < t ==> match (#[trigger] threads[s]).id {
            Column::Value(other) => other@ != id,
            _ => true,
        }
}

/// Whether the row of the thread `id` says that it is archived.
pub open spec fn is_marked(threads: Seq<ThreadRecord>, id: Seq<char>) -> bool {
    exists|t: int| #[trigger]
        is_row_of(threads, id, t) && threads[t].archived == Column::Value(1i64)
}

/// Whether `ids` has `id` among them.
pub open spec fn names(ids: Seq<String>, id: Seq<char>) -> bool {
    exists|i: int| 0 <= i < ids.len() && (#[trigger] ids[i])@ == id
}

/// Whether a candidate has the id `id`.
pub open spec fn is_candidate(candidates: Seq<Candidate>, id: Seq<char>) -> bool {
    exists|k: int| 0 <= k < candidates.len() && (#[trigger] candidates[k]).thread_id@ == id
}

pub(crate) proof fn lemma_recorded_in_row(threads: Seq<ThreadRecord>, id: Seq<char>, t: int)
    requires
        is_row_of(threads, id, t),
    ensures
        recorded(model::record_views(threads), id) == Some(
            model::integer_column(threads[t].archived),
        ),
    decreases threads.len(),
{
    let views = model::record_views(threads);
    assert(views[0] == threads[0]@);
    if t > 0 {
        let rest = threads.drop_first();
        assert forall|s: int| 0 <= s < t - 1 implies match (#[trigger] rest[s]).id {
            Column::Value(other) => other@ != id,
            _ => true,
        } by {
            assert(rest[s] == threads[s + 1]);
        }
        assert(rest[t - 1] == threads[t]);
        lemma_recorded_in_row(rest, id, t - 1);
        assert(views.drop_first() =~= model::record_views(rest));
    }
}

proof fn lemma_row_of_recorded(threads: Seq<ThreadRecord>, id: Seq<char>) -> (t: int)
    requires
        recorded(model::record_views(threads), id) is Some,
    ensures
        is_row_of(threads, id, t),
    decreases threads.len(),
{
    let views = model::record_views(threads);
    assert(views[0] == threads[0]@);
    if views[0].id == model::ColumnView::Value(id) {
        0
    } else {
        let rest = threads.drop_first();
        assert(views.drop_first() =~= model::record_views(rest));
        let t = lemma_row_of_recorded(rest, id);
        assert(rest[t] == threads[t + 1]);
        assert forall|s: int| 0 <= s < t + 1 implies match (#[trigger] threads[s]).id {
            Column::Value(other) => other@ != id,
            _ => true,
        } by {
            if s > 0 {
                assert(rest[s - 1] == threads[s]);
            }
        }
        t + 1
    }
}

proof fn lemma_filter_places<A>(s: Seq<A>, pred: spec_fn(A) -> bool) -> (places: Seq<int>)
    ensures
        places.len() == s.filter(pred).len(),
        forall|i: int|
            0 <= i < places.len() ==> 0 <= #[trigger] places[i] < s.len() && s.filter(pred)[i]
                == s[places[i]],
        forall|i: int, j: int| 0 <= i < j < places.len() ==> places[i] < places[j],
        forall|k: int| 0 <= k < s.len() ==> (pred(#[trigger] s[k]) <==> places.contains(k)),
    decreases s.len(),
{
    reveal(Seq::filter);
    if s.len() == 0 {
        Seq::empty()
    } else {
        let init = s.drop_last();
        let n = s.len() - 1;
        let before = lemma_filter_places(init, pred);
        let places = if pred(s[n]) {
            before.push(n)
        } else {
            before
        };
        assert forall|i: int| 0 <= i < places.len() implies 0 <= #[trigger] places[i] < s.len()
            && s.filter(pred)[i] == s[places[i]] by {
            if i < before.len() {
                assert(places[i] == before[i]);
                assert(init[before[i]] == s[before[i]]);
            }
        }
        assert forall|i: int, j: int| 0 <= i < j < places.len() implies places[i] < places[j] by {
            assert(places[i] == before[i]);
        }
        assert forall|k: int| 0 <= k < s.len() implies (pred(#[trigger] s[k]) <==> places.contains(
            k,
        )) by {
            if k < n {
                assert(init[k] == s[k]);
                if before.contains(k) {
                    let i = choose|i: int| 0 <= i < before.len() && before[i] == k;
                    assert(places[i] == k);
                }
                if places.contains(k) {
                    let i = choose|i: int| 0 <= i < places.len() && places[i] == k;
                    assert(before[i] == k);
                }
            } else if pred(s[n]) {
                assert(places[before.len() as int] == n);
            } else if places.contains(n) {
                let i = choose|i: int| 0 <= i < places.len() && places[i] == n;
                assert(before[i] < init.len());
            }
        }
        places
    }
}

/// The table records a thread as archived where its row says so.
pub(crate) proof fn lemma_open_rows(threads: Seq<ThreadRecord>, id: Seq<char>)
    ensures
        is_archived(model::record_views(threads), id) <==> is_marked(threads, id),
{
    if is_archived(model::record_views(threads), id) {
        let t = lemma_row_of_recorded(threads, id);
        lemma_recorded_in_row(threads, id, t);
        assert(is_row_of(threads, id, t) && threads[t].archived == Column::Value(1i64));
    } else if is_marked(threads, id) {
        let t = choose|t: int| #[trigger]
            is_row_of(threads, id, t) && threads[t].archived == Column::Value(1i64);
        lemma_recorded_in_row(threads, id, t);
    }
}

/// Where the unarchived candidates stand among all.
pub(crate) proof fn lemma_unarchived_places(
    threads: Seq<ThreadRecord>,
    candidates: Seq<Candidate>,
    ids: Seq<String>,
) -> (places: Seq<int>)
    requires
        text::texts(ids) == unarchived(
            model::record_views(threads),
            model::candidate_views(candidates),
        ),
    ensures
        places.len() == ids.len(),
        forall|i: int|
            0 <= i < places.len() ==> 0 <= #[trigger] places[i] < candidates.len() && ids[i]@
                == candidates[places[i]].thread_id@,
        forall|i: int, j: int| 0 <= i < j < places.len() ==> places[i] < places[j],
        forall|k: int|
            0 <= k < candidates.len() ==> (places.contains(k) <==> !is_marked(
                threads,
                (#[trigger] candidates[k]).thread_id@,
            )),
{
    let rows = model::record_views(threads);
    let all = model::candidate_views(candidates);
    let open = |c: model::CandidateView| !is_archived(rows, c.thread_id);
    let places = lemma_filter_places(all, open);
    let left = all.filter(open);
    assert(unarchived(rows, all).len() == left.len());
    assert(text::texts(ids).len() == ids.len());
    assert forall|i: int| 0 <= i < places.len() implies 0 <= #[trigger] places[i]
        < candidates.len() && ids[i]@ == candidates[places[i]].thread_id@ by {
        assert(text::texts(ids)[i] == ids[i]@);
        assert(unarchived(rows, all)[i] == left[i].thread_id);
        assert(all[places[i]] == candidates[places[i]]@);
    }
    assert forall|k: int| 0 <= k < candidates.len() implies (places.contains(k) <==> !is_marked(
        threads,
        (#[trigger] candidates[k]).thread_id@,
    )) by {
        assert(all[k] == candidates[k]@);
        assert(places.contains(k) <==> open(all[k]));
        lemma_open_rows(threads, candidates[k].thread_id@);
    }
    places
}

/// When the rows of all candidates can be read.
pub(crate) proof fn lemma_readable_rows(threads: Seq<ThreadRecord>, candidates: Seq<Candidate>)
    ensures
        all_readable(model::record_views(threads), model::candidate_views(candidates))
            <==> forall|k: int, t: int|
            0 <= k < candidates.len() && #[trigger] is_row_of(
                threads,
                candidates[k].thread_id@,
                t,
            ) ==> threads[t].archived is Value,
{
    let rows = model::record_views(threads);
    let all = model::candidate_views(candidates);
    assert forall|k: int, t: int|
        0 <= k < candidates.len() && #[trigger] is_row_of(
            threads,
            candidates[k].thread_id@,
            t,
        ) implies (threads[t].archived is Value <==> unreadable(
        rows,
        all[k].thread_id,
    ) is None) by {
        assert(all[k] == candidates[k]@);
        lemma_recorded_in_row(threads, candidates[k].thread_id@, t);
    }
    if forall|k: int, t: int|
        0 <= k < candidates.len() && #[trigger] is_row_of(
            threads,
            candidates[k].thread_id@,
            t,
        ) ==> threads[t].archived is Value {
        assert forall|k: int| 0 <= k < all.len() implies unreadable(
            rows,
            (#[trigger] all[k]).thread_id,
        ) is None by {
            assert(all[k] == candidates[k]@);
            if recorded(rows, all[k].thread_id) is Some {
                let t = lemma_row_of_recorded(threads, candidates[k].thread_id@);
                assert(is_row_of(threads, candidates[k].thread_id@, t));
            }
        }
    }
}

/// A check lists the id of every candidate that has no row, or whose row does not
/// say that it is archived; of no other; each as often as it is a candidate; and
/// in the candidates' order.
pub proof fn law_check_lists_what_is_not_archived(
    threads: &[ThreadRecord],
    candidates: &[Candidate],
    ids: Vec<String>,
) -> (places: Seq<int>)
    requires
        call_ensures(
            unarchived_candidate_ids,
            (threads, candidates),
            Ok::<Vec<String>, ArchiveError>(ids),
        ),
    ensures
        places.len() == ids@.len(),
        forall|i: int|
            0 <= i < places.len() ==> 0 <= #[trigger] places[i] < candidates@.len() && ids@[i]@
                == candidates@[places[i]].thread_id@,
        forall|i: int, j: int| 0 <= i < j < places.len() ==> places[i] < places[j],
        forall|k: int|
            0 <= k < candidates@.len() ==> (places.contains(k) <==> !is_marked(
                threads@,
                (#[trigger] candidates@[k]).thread_id@,
            )),
{
    lemma_unarchived_places(threads@, candidates@, ids@)
}

/// A check succeeds exactly where the rows of all candidates can be read. Else it
/// tells of the first candidate whose row cannot, and why.
pub proof fn law_when_a_check_succeeds(
    threads: &[ThreadRecord],
    candidates: &[Candidate],
    r: Result<Vec<String>, ArchiveError>,
)
    requires
        call_ensures(unarchived_candidate_ids, (threads, candidates), r),
    ensures
        r is Ok <==> forall|k: int, t: int|
            0 <= k < candidates@.len() && #[trigger] is_row_of(
                threads@,
                candidates@[k].thread_id@,
                t,
            ) ==> threads@[t].archived is Value,
        r matches Err(error) ==> exists|k: int, t: int|
            {
                &&& 0 <= k < candidates@.len()
                &&& #[trigger] is_row_of(threads@, candidates@[k].thread_id@, t)
                &&& error matches ArchiveError::ThreadCheck { thread_id, cause } && thread_id@
                    == candidates@[k].thread_id@ && match threads@[t].archived {
                    Column::Value(_) => false,
                    Column::Null { cause: told } => cause@ == told@,
                    Column::Other { cause: told, .. } => cause@ == told@,
                }
                &&& forall|j: int, s: int|
                    0 <= j < k && #[trigger] is_row_of(threads@, candidates@[j].thread_id@, s)
                        ==> threads@[s].archived is Value
            },
{
    let rows = model::record_views(threads@);
    let all = model::candidate_views(candidates@);
    assert forall|k: int, t: int|
        0 <= k < candidates@.len() && #[trigger] is_row_of(
            threads@,
            candidates@[k].thread_id@,
            t,
        ) implies (threads@[t].archived is Value <==> unreadable(
        rows,
        candidates@[k].thread_id@,
    ) is None) by {
        lemma_recorded_in_row(threads@, candidates@[k].thread_id@, t);
    }
    match r {
        Ok(_) => {
            assert forall|k: int, t: int|
                0 <= k < candidates@.len() && #[trigger] is_row_of(
                    threads@,
                    candidates@[k].thread_id@,
                    t,
                ) implies threads@[t].archived is Value by {
                assert(all[k] == candidates@[k]@);
            }
        },
        Err(ArchiveError::ThreadCheck { thread_id, cause }) => {
            let k = choose|k: int|
                {
                    &&& 0 <= k < all.len()
                    &&& (#[trigger] all[k]).thread_id == thread_id@
                    &&& unreadable(rows, thread_id@) == Some(cause@)
                    &&& all_readable(rows, all.take(k))
                };
            assert(all[k] == candidates@[k]@);
            let t = lemma_row_of_recorded(threads@, thread_id@);
            lemma_recorded_in_row(threads@, thread_id@, t);
            assert(is_row_of(threads@, candidates@[k].thread_id@, t));
            assert forall|j: int, s: int|
                0 <= j < k && #[trigger] is_row_of(
                    threads@,
                    candidates@[j].thread_id@,
                    s,
                ) implies threads@[s].archived is Value by {
                assert(all.take(k)[j] == candidates@[j]@);
            }
        },
        Err(_) => {},
    }
}

/// The direct update marks a thread exactly where it was asked for and recorded as
/// not archived. Such a thread is archived afterwards, at `now` if it had no archive
/// time and else at the time it had. Every other row, and every id, stays as it was.
pub proof fn law_direct_archive_marks_rows(
    before: Seq<ThreadRecord>,
    after: Seq<ThreadRecord>,
    thread_ids: Seq<String>,
    now: i64,
    k: int,
)
    requires
        model::record_views(after) == archived_table(
            model::record_views(before),
            text::texts(thread_ids),
            now,
        ),
        0 <= k < before.len(),
    ensures
        after.len() == before.len(),
        after[k]@.id == before[k]@.id,
        ({
            let asked_for = match before[k].id {
                Column::Value(id) => exists|j: int|
                    0 <= j < thread_ids.len() && (#[trigger] thread_ids[j])@ == id@,
                _ => false,
            };
            if asked_for && before[k].archived == Column::Value(0i64) {
                &&& after[k].archived == Column::Value(1i64)
                &&& before[k].archived_at is Null ==> after[k].archived_at == Column::Value(now)
                &&& !(before[k].archived_at is Null) ==> after[k]@.archived_at
                    == before[k]@.archived_at
            } else {
                after[k]@ == before[k]@
            }
        }),
{
    let ids = text::texts(thread_ids);
    let rows = model::record_views(before);
    assert(model::record_views(after).len() == rows.len());
    assert(rows[k] == before[k]@);
    assert(model::record_views(after)[k] == after[k]@);
    assert(after[k]@ == archived_thread(ids, now, before[k]@));
    match before[k].id {
        Column::Value(id) => {
            if ids.contains(id@) {
                let j = choose|j: int| 0 <= j < ids.len() && ids[j] == id@;
                assert(thread_ids[j]@ == id@);
            }
            if exists|j: int| 0 <= j < thread_ids.len() && (#[trigger] thread_ids[j])@ == id@ {
                let j = choose|j: int|
                    0 <= j < thread_ids.len() && (#[trigger] thread_ids[j])@ == id@;
                assert(ids[j] == id@);
            }
        },
        _ => {},
    }
}

} // verus!
