//! How the candidates are archived and the result is verified.

use crate::archiving;
use crate::error::ArchiveError;
use crate::model;
use crate::model::{Candidate, Column, ThreadRecord};
use crate::text;
use vstd::prelude::*;

verus! {

/// What has happened to a run that archives.
#[derive(Debug)]
pub enum ArchiveEvent {
    /// The run begins.
    Start { direct_sqlite_only: bool },
    /// The app-server session ended, well or with a failure.
    ServerEnded(Result<(), ArchiveError>),
    /// The candidates' threads were read to see what is left to archive.
    Checked { fallback_used: bool, threads: Result<Vec<ThreadRecord>, ArchiveError> },
    /// The direct update ended, well or with a failure.
    Updated(Result<(), ArchiveError>),
    /// The candidates' threads were read to verify the outcome.
    Verified { fallback_used: bool, threads: Result<Vec<ThreadRecord>, ArchiveError> },
}

/// What a run that archives does next.
#[derive(Debug)]
pub enum ArchiveAction {
    /// Archive the candidates through the app-server.
    RunServer,
    /// Read the candidates' threads, and report [`ArchiveEvent::Checked`].
    Check { fallback_used: bool },
    /// Archive these threads in the database, in one transaction.
    Update { thread_ids: Vec<String> },
    /// Read the candidates' threads, and report [`ArchiveEvent::Verified`].
    Verify { fallback_used: bool },
    /// All candidates are archived.
    Done { fallback_used: bool },
    /// The run failed.
    Fail(ArchiveError),
}

/// What a run that archives says and does next.
#[derive(Debug)]
pub struct ArchiveStep {
    pub warning: Option<String>,
    pub action: ArchiveAction,
}

/// The warning about a session that failed.
pub open spec fn fallback_warning(error: ArchiveError) -> Seq<char> {
    "app-server archive failed, falling back to direct SQLite update: "@ + error.text()
}

/// How a run goes on once the app-server had its chance. Without candidates
/// there is nothing to read.
pub open spec fn after_server(
    candidates: Seq<model::CandidateView>,
    fallback_used: bool,
) -> ArchiveAction {
    if candidates.len() == 0 {
        ArchiveAction::Done { fallback_used }
    } else {
        ArchiveAction::Check { fallback_used }
    }
}

/// Whether `step` is what `event` leads to.
pub open spec fn follows(
    candidates: Seq<model::CandidateView>,
    event: ArchiveEvent,
    step: ArchiveStep,
) -> bool {
    match event {
        ArchiveEvent::Start { direct_sqlite_only } => {
            &&& step.warning is None
            &&& step.action == if direct_sqlite_only {
                after_server(candidates, true)
            } else {
                ArchiveAction::RunServer
            }
        },
        ArchiveEvent::ServerEnded(Ok(_)) => {
            &&& step.warning is None
            &&& step.action == after_server(candidates, false)
        },
        ArchiveEvent::ServerEnded(Err(error)) => {
            &&& step.warning matches Some(warning) && warning@ == fallback_warning(error)
            &&& step.action == after_server(candidates, true)
        },
        ArchiveEvent::Checked { fallback_used, threads: Ok(threads) } => {
            let records = model::record_views(threads@);
            let left = archiving::unarchived(records, candidates);
            &&& step.warning is None
            &&& if !archiving::all_readable(records, candidates) {
                step.action matches ArchiveAction::Fail(error) && archiving::is_first_unreadable(
                    records,
                    candidates,
                    error,
                )
            } else if left.len() == 0 {
                step.action == ArchiveAction::Verify { fallback_used }
            } else {
                step.action matches ArchiveAction::Update { thread_ids } && text::texts(
                    thread_ids@,
                ) == left
            }
        },
        ArchiveEvent::Updated(Ok(_)) => {
            &&& step.warning is None
            &&& step.action == ArchiveAction::Verify { fallback_used: true }
        },
        ArchiveEvent::Verified { fallback_used, threads: Ok(threads) } => {
            let records = model::record_views(threads@);
            let left = archiving::unarchived(records, candidates);
            &&& step.warning is None
            &&& if !archiving::all_readable(records, candidates) {
                step.action matches ArchiveAction::Fail(error) && archiving::is_first_unreadable(
                    records,
                    candidates,
                    error,
                )
            } else if left.len() == 0 {
                step.action == ArchiveAction::Done { fallback_used }
            } else {
                step.action matches ArchiveAction::Fail(
                    ArchiveError::StillUnarchived { thread_ids },
                ) && text::texts(thread_ids@) == left
            }
        },
        ArchiveEvent::Checked { fallback_used: _, threads: Err(error) } => {
            &&& step.warning is None
            &&& step.action == ArchiveAction::Fail(error)
        },
        ArchiveEvent::Updated(Err(error)) => {
            &&& step.warning is None
            &&& step.action == ArchiveAction::Fail(error)
        },
        ArchiveEvent::Verified { fallback_used: _, threads: Err(error) } => {
            &&& step.warning is None
            &&& step.action == ArchiveAction::Fail(error)
        },
    }
}

fn quietly(action: ArchiveAction) -> (r: ArchiveStep)
    ensures
        r.warning is None,
        r.action == action,
{
    ArchiveStep { warning: None, action }
}

fn check_unless_empty(candidates: &[Candidate], fallback_used: bool) -> (r: ArchiveAction)
    ensures
        r == after_server(model::candidate_views(candidates@), fallback_used),
{
    if candidates.len() == 0 {
        ArchiveAction::Done { fallback_used }
    } else {
        ArchiveAction::Check { fallback_used }
    }
}

/// Takes a run one step further: the app-server first, unless it is to be
/// skipped; then the direct update of what is left, if anything is; then the
/// verification, which fails the run if a candidate is still not archived.
pub fn archive_with_verification(candidates: &[Candidate], event: ArchiveEvent) -> (r: ArchiveStep)
    ensures
        follows(model::candidate_views(candidates@), event, r),
{
    match event {
        ArchiveEvent::Start { direct_sqlite_only } => if direct_sqlite_only {
            quietly(check_unless_empty(candidates, true))
        } else {
            quietly(ArchiveAction::RunServer)
        },
        ArchiveEvent::ServerEnded(result) => match result {
            Ok(_) => quietly(check_unless_empty(candidates, false)),
            Err(error) => {
                let warning: String =
                    "app-server archive failed, falling back to direct SQLite update: ".to_owned()
                    .concat(error.message().as_str());
                ArchiveStep {
                    warning: Some(warning),
                    action: check_unless_empty(candidates, true),
                }
            },
        },
        ArchiveEvent::Checked { fallback_used, threads } => match threads {
            Ok(threads) => {
                let thread_ids: Vec<String> = match archiving::unarchived_candidate_ids(
                    threads.as_slice(),
                    candidates,
                ) {
                    Ok(thread_ids) => thread_ids,
                    Err(error) => return quietly(ArchiveAction::Fail(error)),
                };
                proof {
                    assert(text::texts(thread_ids@).len() == thread_ids@.len());
                }
                if thread_ids.is_empty() {
                    quietly(ArchiveAction::Verify { fallback_used })
                } else {
                    quietly(ArchiveAction::Update { thread_ids })
                }
            },
            Err(error) => quietly(ArchiveAction::Fail(error)),
        },
        ArchiveEvent::Updated(result) => match result {
            Ok(_) => quietly(ArchiveAction::Verify { fallback_used: true }),
            Err(error) => quietly(ArchiveAction::Fail(error)),
        },
        ArchiveEvent::Verified { fallback_used, threads } => match threads {
            Ok(threads) => {
                let thread_ids: Vec<String> = match archiving::unarchived_candidate_ids(
                    threads.as_slice(),
                    candidates,
                ) {
                    Ok(thread_ids) => thread_ids,
                    Err(error) => return quietly(ArchiveAction::Fail(error)),
                };
                proof {
                    assert(text::texts(thread_ids@).len() == thread_ids@.len());
                }
                if thread_ids.is_empty() {
                    quietly(ArchiveAction::Done { fallback_used })
                } else {
                    quietly(ArchiveAction::Fail(ArchiveError::StillUnarchived { thread_ids }))
                }
            },
            Err(error) => quietly(ArchiveAction::Fail(error)),
        },
    }
}

/// A run that succeeds has seen every candidate recorded as archived in its last
/// look at the database.
pub proof fn law_success_is_verified(
    candidates: Seq<model::CandidateView>,
    event: ArchiveEvent,
    step: ArchiveStep,
)
    requires
        follows(candidates, event, step),
        step.action is Done,
        candidates.len() > 0,
    ensures
        event matches ArchiveEvent::Verified { fallback_used: _, threads: Ok(threads) }
            && forall|k: int|
            0 <= k < candidates.len() ==> archiving::is_archived(
                model::record_views(threads@),
                (#[trigger] candidates[k]).thread_id,
            ),
{
    match event {
        ArchiveEvent::Verified { fallback_used: _, threads: Ok(threads) } => {
            archiving::law_check_is_complete(model::record_views(threads@), candidates);
        },
        _ => {},
    }
}

/// Whether `event` is a report that `action` asks for.
pub open spec fn answers(action: ArchiveAction, event: ArchiveEvent) -> bool {
    match action {
        ArchiveAction::RunServer => event is ServerEnded,
        ArchiveAction::Check { fallback_used } => event matches ArchiveEvent::Checked {
            fallback_used: used,
            ..
        } && used == fallback_used,
        ArchiveAction::Update { .. } => event is Updated,
        ArchiveAction::Verify { fallback_used } => event matches ArchiveEvent::Verified {
            fallback_used: used,
            ..
        } && used == fallback_used,
        ArchiveAction::Done { .. } => false,
        ArchiveAction::Fail(_) => false,
    }
}

/// Whether `steps` are what a run does on `events`, each of which reports on the
/// step before it.
pub open spec fn is_archive_run(
    candidates: Seq<model::CandidateView>,
    events: Seq<ArchiveEvent>,
    steps: Seq<ArchiveStep>,
) -> bool
    decreases events.len(),
{
    &&& events.len() == steps.len()
    &&& events.len() > 0
    &&& follows(candidates, events.last(), steps.last())
    &&& if events.len() == 1 {
        events[0] is Start
    } else {
        &&& is_archive_run(candidates, events.drop_last(), steps.drop_last())
        &&& answers(steps.drop_last().last().action, events.last())
    }
}

/// Whether `event` shows that the run goes past the app-server: it was told to,
/// the session failed, or the database was updated directly.
pub open spec fn shows_fallback(event: ArchiveEvent) -> bool {
    match event {
        ArchiveEvent::Start { direct_sqlite_only } => direct_sqlite_only,
        ArchiveEvent::ServerEnded(Err(_)) => true,
        ArchiveEvent::Updated(Ok(_)) => true,
        _ => false,
    }
}

/// What a step says of the fallback, if it says something.
pub open spec fn reported_fallback(action: ArchiveAction) -> Option<bool> {
    match action {
        ArchiveAction::Check { fallback_used } => Some(fallback_used),
        ArchiveAction::Verify { fallback_used } => Some(fallback_used),
        ArchiveAction::Done { fallback_used } => Some(fallback_used),
        ArchiveAction::RunServer => Some(false),
        _ => None,
    }
}

/// A run reports that the fallback was used exactly when it went past the
/// app-server.
pub proof fn law_fallback_is_reported(
    candidates: Seq<model::CandidateView>,
    events: Seq<ArchiveEvent>,
    steps: Seq<ArchiveStep>,
)
    requires
        is_archive_run(candidates, events, steps),
    ensures
        match reported_fallback(steps.last().action) {
            Some(used) => used <==> exists|k: int|
                0 <= k < events.len() && shows_fallback(#[trigger] events[k]),
            None => true,
        },
    decreases events.len(),
{
    let last = events.len() - 1;
    let action = steps.last().action;
    if events.len() > 1 {
        let earlier = events.drop_last();
        law_fallback_is_reported(candidates, earlier, steps.drop_last());
        assert(forall|k: int| 0 <= k < earlier.len() ==> earlier[k] == #[trigger] events[k]);
        if exists|k: int| 0 <= k < earlier.len() && shows_fallback(#[trigger] earlier[k]) {
            let k = choose|k: int| 0 <= k < earlier.len() && shows_fallback(#[trigger] earlier[k]);
            assert(shows_fallback(events[k]));
        }
        if exists|k: int| 0 <= k < events.len() && shows_fallback(#[trigger] events[k]) {
            let k = choose|k: int| 0 <= k < events.len() && shows_fallback(#[trigger] events[k]);
            if k < last {
                assert(shows_fallback(earlier[k]));
            }
        }
    }
    if shows_fallback(events[last]) {
        assert(reported_fallback(action) is Some ==> reported_fallback(action) == Some(true));
    }
}

/// Where nobody else writes to the database between the direct update and the
/// verification, and every candidate is in the table as archived or not
/// archived, the verification succeeds and the fallback is reported.
pub proof fn law_direct_update_passes_verification(
    candidates: Seq<model::CandidateView>,
    fallback_used: bool,
    first: Vec<ThreadRecord>,
    second: Vec<ThreadRecord>,
    now: i64,
    checked: ArchiveStep,
    verified: ArchiveStep,
)
    requires
        follows(
            candidates,
            ArchiveEvent::Checked { fallback_used, threads: Ok(first) },
            checked,
        ),
        checked.action matches ArchiveAction::Update { thread_ids } && model::record_views(second@)
            == archiving::archived_table(
            model::record_views(first@),
            text::texts(thread_ids@),
            now,
        ),
        forall|k: int|
            0 <= k < candidates.len() ==> archiving::can_be_archived(
                model::record_views(first@),
                (#[trigger] candidates[k]).thread_id,
            ),
        follows(
            candidates,
            ArchiveEvent::Verified { fallback_used: true, threads: Ok(second) },
            verified,
        ),
    ensures
        verified.action == (ArchiveAction::Done { fallback_used: true }),
{
    archiving::law_direct_archive_suffices(model::record_views(first@), candidates, now);
}

/// A candidate that the table lacks fails the verification, whatever is tried.
pub proof fn law_missing_thread_fails_verification(
    candidates: Seq<model::CandidateView>,
    fallback_used: bool,
    threads: Vec<ThreadRecord>,
    k: int,
    step: ArchiveStep,
)
    requires
        0 <= k < candidates.len(),
        archiving::recorded(model::record_views(threads@), candidates[k].thread_id) is None,
        follows(
            candidates,
            ArchiveEvent::Verified { fallback_used, threads: Ok(threads) },
            step,
        ),
    ensures
        step.action is Fail,
{
    archiving::law_check_is_complete(model::record_views(threads@), candidates);
}

/// The direct update is only ever about candidates.
pub proof fn law_update_is_about_candidates(
    candidates: Seq<model::CandidateView>,
    event: ArchiveEvent,
    step: ArchiveStep,
)
    requires
        follows(candidates, event, step),
    ensures
        step.action matches ArchiveAction::Update { thread_ids } ==> {
            &&& thread_ids@.len() > 0
            &&& forall|k: int|
                0 <= k < thread_ids@.len() ==> archiving::candidate_ids(candidates).contains(
                    (#[trigger] thread_ids@[k])@,
                )
        },
{
    match step.action {
        ArchiveAction::Update { thread_ids } => {
            match event {
                ArchiveEvent::Checked { fallback_used: _, threads: Ok(threads) } => {
                    let rows = model::record_views(threads@);
                    archiving::law_unarchived_are_candidates(rows, candidates);
                    assert(text::texts(thread_ids@).len() == thread_ids@.len());
                    assert forall|k: int| 0 <= k < thread_ids@.len() implies archiving::candidate_ids(
                        candidates,
                    ).contains((#[trigger] thread_ids@[k])@) by {
                        assert(text::texts(thread_ids@)[k] == thread_ids@[k]@);
                        assert(archiving::unarchived(rows, candidates)[k] == thread_ids@[k]@);
                    }
                },
                _ => {},
            }
        },
        _ => {},
    }
}

/// How far a run has got when `event` is reported.
spec fn progress(event: ArchiveEvent) -> nat {
    match event {
        ArchiveEvent::Start { .. } => 1,
        ArchiveEvent::ServerEnded(_) => 2,
        ArchiveEvent::Checked { .. } => 3,
        ArchiveEvent::Updated(_) => 4,
        ArchiveEvent::Verified { .. } => 5,
    }
}

proof fn lemma_run_progress(
    candidates: Seq<model::CandidateView>,
    events: Seq<ArchiveEvent>,
    steps: Seq<ArchiveStep>,
)
    requires
        is_archive_run(candidates, events, steps),
    ensures
        events.len() <= progress(events.last()),
    decreases events.len(),
{
    if events.len() > 1 {
        reveal_with_fuel(is_archive_run, 2);
        lemma_run_progress(candidates, events.drop_last(), steps.drop_last());
    }
}

/// A run ends: it takes no more than five steps.
pub proof fn law_run_ends(
    candidates: Seq<model::CandidateView>,
    events: Seq<ArchiveEvent>,
    steps: Seq<ArchiveStep>,
)
    requires
        is_archive_run(candidates, events, steps),
    ensures
        events.len() <= 5,
{
    lemma_run_progress(candidates, events, steps);
}

/// A run that is to update the database directly never turns to the app-server.
pub proof fn law_direct_run_skips_server(
    candidates: Seq<model::CandidateView>,
    events: Seq<ArchiveEvent>,
    steps: Seq<ArchiveStep>,
)
    requires
        is_archive_run(candidates, events, steps),
        events[0] == (ArchiveEvent::Start { direct_sqlite_only: true }),
    ensures
        forall|k: int|
            0 <= k < steps.len() ==> !((#[trigger] steps[k]).action is RunServer),
    decreases events.len(),
{
    if events.len() > 1 {
        let earlier = steps.drop_last();
        reveal_with_fuel(is_archive_run, 2);
        law_direct_run_skips_server(candidates, events.drop_last(), earlier);
        assert forall|k: int| 0 <= k < steps.len() implies !((#[trigger] steps[k]).action
            is RunServer) by {
            if k < earlier.len() {
                assert(earlier[k] == steps[k]);
            }
        }
    }
}

/// A run begins with the app-server, unless it is to skip it: then it looks at the
/// database at once, and counts as a fallback.
pub proof fn law_how_a_run_begins(
    candidates: &[Candidate],
    direct_sqlite_only: bool,
    step: ArchiveStep,
)
    requires
        call_ensures(
            archive_with_verification,
            (candidates, ArchiveEvent::Start { direct_sqlite_only }),
            step,
        ),
    ensures
        step.warning is None,
        !direct_sqlite_only ==> step.action is RunServer,
        direct_sqlite_only && candidates@.len() > 0 ==> step.action == (ArchiveAction::Check {
            fallback_used: true,
        }),
        direct_sqlite_only && candidates@.len() == 0 ==> step.action == (ArchiveAction::Done {
            fallback_used: true,
        }),
{
}

/// After the app-server the database is looked at, whether the session ended well or
/// not. A session that failed is told, with its message, and counts as a fallback.
pub proof fn law_how_a_run_goes_on_after_the_server(
    candidates: &[Candidate],
    ended: Result<(), ArchiveError>,
    step: ArchiveStep,
    error: ArchiveError,
    message: String,
)
    requires
        call_ensures(
            archive_with_verification,
            (candidates, ArchiveEvent::ServerEnded(ended)),
            step,
        ),
        ended matches Err(failure) ==> failure == error,
        call_ensures(ArchiveError::message, (&error,), message),
    ensures
        step.warning is Some <==> ended is Err,
        step.warning matches Some(warning) ==> warning@
            == "app-server archive failed, falling back to direct SQLite update: "@ + message@,
        candidates@.len() > 0 ==> step.action == (ArchiveAction::Check {
            fallback_used: ended is Err,
        }),
        candidates@.len() == 0 ==> step.action == (ArchiveAction::Done {
            fallback_used: ended is Err,
        }),
{
}

/// A direct update that ended well is verified and counts as a fallback. What fails
/// in the database fails the run.
pub proof fn law_how_a_run_goes_on_after_the_database(
    candidates: &[Candidate],
    event: ArchiveEvent,
    step: ArchiveStep,
)
    requires
        call_ensures(archive_with_verification, (candidates, event), step),
    ensures
        event matches ArchiveEvent::Updated(Ok(_)) ==> step.warning is None && step.action == (
        ArchiveAction::Verify { fallback_used: true }),
        event matches ArchiveEvent::Updated(Err(error)) ==> step.warning is None && step.action
            == ArchiveAction::Fail(error),
        event matches ArchiveEvent::Checked { threads: Err(error), .. } ==> step.warning is None
            && step.action == ArchiveAction::Fail(error),
        event matches ArchiveEvent::Verified { threads: Err(error), .. } ==> step.warning is None
            && step.action == ArchiveAction::Fail(error),
{
}

/// What is left: the ids of all candidates whose rows do not say that they are
/// archived, and no others.
proof fn lemma_left(candidates: Seq<Candidate>, threads: Seq<ThreadRecord>, left: Seq<String>)
    requires
        text::texts(left) == archiving::unarchived(
            model::record_views(threads),
            model::candidate_views(candidates),
        ),
    ensures
        forall|k: int|
            0 <= k < candidates.len() && !archiving::is_marked(
                threads,
                (#[trigger] candidates[k]).thread_id@,
            ) ==> archiving::names(left, candidates[k].thread_id@),
        forall|i: int|
            0 <= i < left.len() ==> !archiving::is_marked(threads, (#[trigger] left[i])@)
                && archiving::is_candidate(candidates, left[i]@),
{
    let places = archiving::lemma_unarchived_places(threads, candidates, left);
    assert forall|k: int|
        0 <= k < candidates.len() && !archiving::is_marked(
            threads,
            (#[trigger] candidates[k]).thread_id@,
        ) implies archiving::names(left, candidates[k].thread_id@) by {
        assert(places.contains(k));
        let i = choose|i: int| 0 <= i < places.len() && places[i] == k;
        assert(left[i]@ == candidates[k].thread_id@);
    }
    assert forall|i: int| 0 <= i < left.len() implies !archiving::is_marked(
        threads,
        (#[trigger] left[i])@,
    ) && archiving::is_candidate(candidates, left[i]@) by {
        let k = places[i];
        assert(places.contains(k));
        assert(left[i]@ == candidates[k].thread_id@);
    }
}

/// A look at the database leads to a direct update of every candidate that no row
/// says is archived, and of no other, whether or not the run is a fallback already.
/// If there is none such, the run goes on to its verification. If a candidate's row
/// cannot be read, the run fails.
pub proof fn law_check_leads_to_update(
    candidates: &[Candidate],
    fallback_used: bool,
    threads: Vec<ThreadRecord>,
    step: ArchiveStep,
)
    requires
        call_ensures(
            archive_with_verification,
            (candidates, ArchiveEvent::Checked { fallback_used, threads: Ok(threads) }),
            step,
        ),
    ensures
        step.warning is None,
        ({
            let readable = forall|k: int, t: int|
                0 <= k < candidates@.len() && #[trigger] archiving::is_row_of(
                    threads@,
                    candidates@[k].thread_id@,
                    t,
                ) ==> threads@[t].archived is Value;
            let all_archived = forall|k: int|
                0 <= k < candidates@.len() ==> archiving::is_marked(
                    threads@,
                    (#[trigger] candidates@[k]).thread_id@,
                );
            if !readable {
                step.action matches ArchiveAction::Fail(ArchiveError::ThreadCheck { .. })
            } else if all_archived {
                step.action == (ArchiveAction::Verify { fallback_used })
            } else {
                &&& step.action matches ArchiveAction::Update { thread_ids } && ({
                    &&& thread_ids@.len() > 0
                    &&& forall|k: int|
                        0 <= k < candidates@.len() && !archiving::is_marked(
                            threads@,
                            (#[trigger] candidates@[k]).thread_id@,
                        ) ==> archiving::names(thread_ids@, candidates@[k].thread_id@)
                    &&& forall|i: int|
                        0 <= i < thread_ids@.len() ==> !archiving::is_marked(
                            threads@,
                            (#[trigger] thread_ids@[i])@,
                        ) && archiving::is_candidate(candidates@, thread_ids@[i]@)
                })
            }
        }),
{
    archiving::lemma_readable_rows(threads@, candidates@);
    lemma_all_archived(candidates@, threads@);
    match step.action {
        ArchiveAction::Update { thread_ids } => {
            if text::texts(thread_ids@) == archiving::unarchived(
                model::record_views(threads@),
                model::candidate_views(candidates@),
            ) {
                lemma_left(candidates@, threads@, thread_ids@);
                assert(text::texts(thread_ids@).len() == thread_ids@.len());
            }
        },
        _ => {},
    }
}

/// When a check finds nothing.
proof fn lemma_all_archived(candidates: Seq<Candidate>, threads: Seq<ThreadRecord>)
    ensures
        archiving::unarchived(
            model::record_views(threads),
            model::candidate_views(candidates),
        ).len() == 0 <==> forall|k: int|
            0 <= k < candidates.len() ==> archiving::is_marked(
                threads,
                (#[trigger] candidates[k]).thread_id@,
            ),
{
    let rows = model::record_views(threads);
    let all = model::candidate_views(candidates);
    archiving::law_check_is_complete(rows, all);
    assert forall|k: int| 0 <= k < candidates.len() implies (archiving::is_archived(
        rows,
        (#[trigger] all[k]).thread_id,
    ) <==> archiving::is_marked(threads, candidates[k].thread_id@)) by {
        assert(all[k] == candidates[k]@);
        archiving::lemma_open_rows(threads, candidates[k].thread_id@);
    }
    if archiving::unarchived(rows, all).len() == 0 {
        assert forall|k: int| 0 <= k < candidates.len() implies archiving::is_marked(
            threads,
            (#[trigger] candidates[k]).thread_id@,
        ) by {
            assert(archiving::is_archived(rows, all[k].thread_id));
        }
    } else if forall|k: int|
        0 <= k < candidates.len() ==> archiving::is_marked(
            threads,
            (#[trigger] candidates[k]).thread_id@,
        ) {
        assert forall|k: int| 0 <= k < all.len() implies archiving::is_archived(
            rows,
            (#[trigger] all[k]).thread_id,
        ) by {
            assert(candidates[k].thread_id@ == all[k].thread_id);
        }
    }
}

/// The verification lets a run end well exactly where every candidate has a row
/// that says it is archived. Else the run fails, and tells which candidates have
/// none: all of them, and no other.
pub proof fn law_verification_decides(
    candidates: &[Candidate],
    fallback_used: bool,
    threads: Vec<ThreadRecord>,
    step: ArchiveStep,
)
    requires
        call_ensures(
            archive_with_verification,
            (candidates, ArchiveEvent::Verified { fallback_used, threads: Ok(threads) }),
            step,
        ),
    ensures
        step.warning is None,
        ({
            let readable = forall|k: int, t: int|
                0 <= k < candidates@.len() && #[trigger] archiving::is_row_of(
                    threads@,
                    candidates@[k].thread_id@,
                    t,
                ) ==> threads@[t].archived is Value;
            let all_archived = forall|k: int|
                0 <= k < candidates@.len() ==> archiving::is_marked(
                    threads@,
                    (#[trigger] candidates@[k]).thread_id@,
                );
            if !readable {
                step.action matches ArchiveAction::Fail(ArchiveError::ThreadCheck { .. })
            } else if all_archived {
                step.action == (ArchiveAction::Done { fallback_used })
            } else {
                &&& step.action matches ArchiveAction::Fail(
                    ArchiveError::StillUnarchived { thread_ids },
                ) && ({
                    &&& forall|k: int|
                        0 <= k < candidates@.len() && !archiving::is_marked(
                            threads@,
                            (#[trigger] candidates@[k]).thread_id@,
                        ) ==> archiving::names(thread_ids@, candidates@[k].thread_id@)
                    &&& forall|i: int|
                        0 <= i < thread_ids@.len() ==> !archiving::is_marked(
                            threads@,
                            (#[trigger] thread_ids@[i])@,
                        ) && archiving::is_candidate(candidates@, thread_ids@[i]@)
                })
            }
        }),
{
    archiving::lemma_readable_rows(threads@, candidates@);
    lemma_all_archived(candidates@, threads@);
    match step.action {
        ArchiveAction::Fail(ArchiveError::StillUnarchived { thread_ids }) => {
            if text::texts(thread_ids@) == archiving::unarchived(
                model::record_views(threads@),
                model::candidate_views(candidates@),
            ) {
                lemma_left(candidates@, threads@, thread_ids@);
            }
        },
        _ => {},
    }
}

/// What a run updates, and what it fails on in the end, is what a check of the same
/// rows lists: the same ids in the same order.
pub proof fn law_run_goes_by_the_check(
    candidates: &[Candidate],
    fallback_used: bool,
    threads: Vec<ThreadRecord>,
    rows: &[ThreadRecord],
    ids: Vec<String>,
    checked: ArchiveStep,
    verified: ArchiveStep,
)
    requires
        rows@ == threads@,
        call_ensures(
            archiving::unarchived_candidate_ids,
            (rows, candidates),
            Ok::<Vec<String>, ArchiveError>(ids),
        ),
        call_ensures(
            archive_with_verification,
            (candidates, ArchiveEvent::Checked { fallback_used, threads: Ok(threads) }),
            checked,
        ),
        call_ensures(
            archive_with_verification,
            (candidates, ArchiveEvent::Verified { fallback_used, threads: Ok(threads) }),
            verified,
        ),
    ensures
        ids@.len() == 0 ==> checked.action == (ArchiveAction::Verify { fallback_used })
            && verified.action == (ArchiveAction::Done { fallback_used }),
        ids@.len() > 0 ==> {
            &&& checked.action matches ArchiveAction::Update { thread_ids } && thread_ids@.len()
                == ids@.len() && forall|i: int|
                0 <= i < ids@.len() ==> (#[trigger] thread_ids@[i])@ == ids@[i]@
            &&& verified.action matches ArchiveAction::Fail(
                ArchiveError::StillUnarchived { thread_ids },
            ) && thread_ids@.len() == ids@.len() && forall|i: int|
                0 <= i < ids@.len() ==> (#[trigger] thread_ids@[i])@ == ids@[i]@
        },
{
    let listed = text::texts(ids@);
    assert(listed.len() == ids@.len());
    assert(forall|i: int| 0 <= i < ids@.len() ==> #[trigger] listed[i] == ids@[i]@);
    match checked.action {
        ArchiveAction::Update { thread_ids } => {
            let told = text::texts(thread_ids@);
            assert(told.len() == thread_ids@.len());
            assert(forall|i: int|
                0 <= i < thread_ids@.len() ==> told[i] == (#[trigger] thread_ids@[i])@);
        },
        _ => {},
    }
    match verified.action {
        ArchiveAction::Fail(ArchiveError::StillUnarchived { thread_ids }) => {
            let told = text::texts(thread_ids@);
            assert(told.len() == thread_ids@.len());
            assert(forall|i: int|
                0 <= i < thread_ids@.len() ==> told[i] == (#[trigger] thread_ids@[i])@);
        },
        _ => {},
    }
}

/// Each step of a run follows its event, and each event but the first reports on
/// the step before it.
proof fn lemma_run_steps(
    candidates: Seq<model::CandidateView>,
    events: Seq<ArchiveEvent>,
    steps: Seq<ArchiveStep>,
    k: int,
)
    requires
        is_archive_run(candidates, events, steps),
        0 <= k < events.len(),
    ensures
        events.len() == steps.len(),
        follows(candidates, events[k], steps[k]),
        k > 0 ==> answers(steps[k - 1].action, events[k]),
        events[0] is Start,
    decreases events.len(),
{
    if events.len() > 1 {
        if k < events.len() - 1 {
            lemma_run_steps(candidates, events.drop_last(), steps.drop_last(), k);
        } else {
            lemma_run_steps(candidates, events.drop_last(), steps.drop_last(), 0);
            assert(steps.drop_last().last() == steps[k - 1]);
        }
    }
}

/// Events of a run come in the order of their progress.
proof fn lemma_events_progress(
    candidates: Seq<model::CandidateView>,
    events: Seq<ArchiveEvent>,
    steps: Seq<ArchiveStep>,
    i: int,
    j: int,
)
    requires
        is_archive_run(candidates, events, steps),
        0 <= i < j < events.len(),
    ensures
        progress(events[i]) < progress(events[j]),
    decreases j,
{
    lemma_run_steps(candidates, events, steps, j);
    lemma_run_steps(candidates, events, steps, j - 1);
    assert(progress(events[j - 1]) < progress(events[j]));
    if i < j - 1 {
        lemma_events_progress(candidates, events, steps, i, j - 1);
    }
}

/// In a run, whatever came before, a look at the database that finds a candidate
/// not archived leads to a direct update of that candidate.
pub proof fn law_run_updates_what_a_check_finds(
    candidates: Seq<Candidate>,
    events: Seq<ArchiveEvent>,
    steps: Seq<ArchiveStep>,
    n: int,
    threads: Vec<ThreadRecord>,
    k: int,
)
    requires
        is_archive_run(model::candidate_views(candidates), events, steps),
        0 <= n < events.len(),
        events[n] matches ArchiveEvent::Checked { threads: Ok(found), .. } && found == threads,
        forall|c: int, t: int|
            0 <= c < candidates.len() && #[trigger] archiving::is_row_of(
                threads@,
                candidates[c].thread_id@,
                t,
            ) ==> threads@[t].archived is Value,
        0 <= k < candidates.len(),
        !archiving::is_marked(threads@, candidates[k].thread_id@),
    ensures
        steps[n].action matches ArchiveAction::Update { thread_ids } && archiving::names(
            thread_ids@,
            candidates[k].thread_id@,
        ),
{
    lemma_run_steps(model::candidate_views(candidates), events, steps, n);
    archiving::lemma_readable_rows(threads@, candidates);
    lemma_all_archived(candidates, threads@);
    match steps[n].action {
        ArchiveAction::Update { thread_ids } => {
            lemma_left(candidates, threads@, thread_ids@);
            assert(candidates[k].thread_id@ == candidates[k].thread_id@);
        },
        _ => {
            assert(candidates[k].thread_id@ == candidates[k].thread_id@);
            assert(false);
        },
    }
}

/// A run does not fail where it can succeed, by the app-server or without it: every
/// candidate has a row that says archived or not archived, the update ends well,
/// and nobody else writes. So such a run ends with all candidates archived.
pub proof fn law_run_succeeds_where_it_can(
    candidates: Seq<Candidate>,
    events: Seq<ArchiveEvent>,
    steps: Seq<ArchiveStep>,
    first: Vec<ThreadRecord>,
    second: Vec<ThreadRecord>,
    now: i64,
)
    requires
        is_archive_run(model::candidate_views(candidates), events, steps),
        forall|k: int|
            0 <= k < candidates.len() ==> exists|t: int| #[trigger]
                archiving::is_row_of(first@, (#[trigger] candidates[k]).thread_id@, t) && (
                first@[t].archived == Column::Value(0i64) || first@[t].archived == Column::Value(
                    1i64,
                )),
        forall|j: int|
            0 <= j < events.len() ==> match #[trigger] events[j] {
                ArchiveEvent::Checked { threads, .. } => threads matches Ok(found) && found
                    == first,
                ArchiveEvent::Updated(updated) => updated is Ok,
                ArchiveEvent::Verified { threads, .. } => threads matches Ok(found) && found
                    == second,
                _ => true,
            },
        forall|i: int|
            0 <= i < steps.len() ==> ((#[trigger] steps[i]).action matches ArchiveAction::Update {
                thread_ids,
            } ==> model::record_views(second@) == archiving::archived_table(
                model::record_views(first@),
                text::texts(thread_ids@),
                now,
            )),
        (forall|i: int| 0 <= i < steps.len() ==> !((#[trigger] steps[i]).action is Update))
            ==> second == first,
    ensures
        !(steps.last().action is Fail),
        steps.last().action is Done && candidates.len() > 0 ==> forall|k: int|
            0 <= k < candidates.len() ==> archiving::is_marked(
                second@,
                (#[trigger] candidates[k]).thread_id@,
            ),
{
    let all = model::candidate_views(candidates);
    let rows = model::record_views(first@);
    let n = events.len() - 1;
    lemma_run_steps(all, events, steps, n);
    assert forall|k: int| 0 <= k < all.len() implies archiving::can_be_archived(
        rows,
        (#[trigger] all[k]).thread_id,
    ) by {
        assert(all[k] == candidates[k]@);
        let t = choose|t: int| #[trigger]
            archiving::is_row_of(first@, candidates[k].thread_id@, t) && (first@[t].archived
                == Column::Value(0i64) || first@[t].archived == Column::Value(1i64));
        archiving::lemma_recorded_in_row(first@, candidates[k].thread_id@, t);
    }
    assert(archiving::all_readable(rows, all));
    if events[n] is Verified {
        lemma_run_steps(all, events, steps, n - 1);
        assert(steps[n - 1].action is Verify);
        match events[n - 1] {
            ArchiveEvent::Updated(_) => {
                lemma_run_steps(all, events, steps, n - 2);
                assert(steps[n - 2].action is Update);
                assert(events[n - 2] is Checked);
                archiving::law_direct_archive_suffices(rows, all, now);
            },
            _ => {
                assert(events[n - 1] is Checked);
                assert forall|i: int| 0 <= i < steps.len() implies !((#[trigger] steps[i]).action
                    is Update) by {
                    lemma_run_steps(all, events, steps, i);
                    if steps[i].action is Update {
                        assert(events[i] is Checked);
                        if i < n - 1 {
                            lemma_events_progress(all, events, steps, i, n - 1);
                        } else if i > n - 1 {
                            lemma_events_progress(all, events, steps, n - 1, i);
                        }
                    }
                }
            },
        }
        lemma_all_archived(candidates, second@);
    }
}

/// A run that is neither done nor failed waits for a report, so it goes on; it ends
/// by [`law_run_ends`].
pub proof fn law_run_goes_on(action: ArchiveAction)
    requires
        !(action is Done),
        !(action is Fail),
    ensures
        exists|event: ArchiveEvent| answers(action, event),
{
    let event = match action {
        ArchiveAction::RunServer => ArchiveEvent::ServerEnded(Ok(())),
        ArchiveAction::Check { fallback_used } => ArchiveEvent::Checked {
            fallback_used,
            threads: Err(ArchiveError::MissingParent),
        },
        ArchiveAction::Update { .. } => ArchiveEvent::Updated(Ok(())),
        ArchiveAction::Verify { fallback_used } => ArchiveEvent::Verified {
            fallback_used,
            threads: Err(ArchiveError::MissingParent),
        },
        _ => ArchiveEvent::Updated(Ok(())),
    };
    assert(answers(action, event));
}

} // verus!
