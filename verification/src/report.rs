//! What a run does with its candidates, and what it tells the user.

use crate::archiving;
use crate::error::ArchiveError;
use crate::model;
use crate::model::{Candidate, OutputPayload};
use crate::selection;
use crate::text;
use crate::workflow;
use crate::workflow::{ArchiveEvent, ArchiveStep};
use vstd::prelude::*;

verus! {

/// What a run does with the candidates that it has found.
#[derive(Debug)]
pub enum RunPlan {
    /// Nothing but tell of them.
    Report(OutputPayload),
    /// Archive them.
    Archive,
}

/// How a report is printed.
#[derive(Debug)]
pub enum Output {
    /// The payload, as JSON.
    Json(OutputPayload),
    /// This text.
    Text(String),
}

/// Whether `payload` tells of `candidates`.
pub open spec fn tells_of(
    payload: OutputPayload,
    mode: Seq<char>,
    candidates: Seq<Candidate>,
    fallback_used: bool,
) -> bool {
    &&& payload.mode@ == mode
    &&& payload.count == candidates.len()
    &&& payload.threads@ == candidates
    &&& payload.fallback_used == fallback_used
}

/// Whether `plan` is what a run does with `candidates`.
pub open spec fn plans(candidates: Seq<Candidate>, dry_run: bool, plan: RunPlan) -> bool {
    match plan {
        RunPlan::Report(payload) => {
            &&& dry_run || candidates.len() == 0
            &&& tells_of(
                payload,
                if dry_run {
                    "dry-run"@
                } else {
                    "noop"@
                },
                candidates,
                false,
            )
        },
        RunPlan::Archive => !dry_run && candidates.len() > 0,
    }
}

/// What to do with `candidates`: nothing on a dry run, and nothing where there
/// are none.
pub fn plan_run(candidates: &[Candidate], dry_run: bool) -> (r: RunPlan)
    ensures
        plans(candidates@, dry_run, r),
{
    if dry_run || candidates.len() == 0 {
        RunPlan::Report(
            OutputPayload {
                mode: if dry_run {
                    "dry-run"
                } else {
                    "noop"
                },
                count: candidates.len(),
                threads: model::copy_candidates(candidates),
                fallback_used: false,
            },
        )
    } else {
        RunPlan::Archive
    }
}

/// After a run that succeeded, by whichever way the threads were archived, the
/// next run over the same scope finds nothing, archives nothing and reports that
/// there was nothing to do. Between the two the database changed by archiving
/// alone, and what the first run saw last of its candidates still stands.
pub proof fn law_next_run_finds_nothing(
    edges: Seq<model::EdgeView>,
    before: Seq<model::ThreadView>,
    after: Seq<model::ThreadView>,
    parent_thread_id: Option<&str>,
    all_closed_subagents: bool,
    candidates: Vec<Candidate>,
    event: ArchiveEvent,
    step: ArchiveStep,
    again: Result<Vec<Candidate>, ArchiveError>,
    plan: RunPlan,
)
    requires
        selection::ids_are_unique(before),
        selection::loads(edges, before, parent_thread_id, all_closed_subagents, Ok(candidates)),
        workflow::follows(model::candidate_views(candidates@), event, step),
        step.action is Done,
        selection::only_archived(before, after),
        event matches ArchiveEvent::Verified { fallback_used: _, threads: Ok(threads) }
            ==> forall|k: int|
            0 <= k < candidates@.len() ==> archiving::recorded(
                model::record_views(threads@),
                (#[trigger] candidates@[k]).thread_id@,
            ) == archiving::recorded(model::records_of(after), candidates@[k].thread_id@),
        selection::loads(edges, after, parent_thread_id, all_closed_subagents, again),
        again matches Ok(left) ==> plans(left@, false, plan),
    ensures
        again matches Ok(left) && left@.len() == 0,
        plan matches RunPlan::Report(payload) && tells_of(payload, "noop"@, Seq::empty(), false),
{
    let parent = selection::scope(parent_thread_id, all_closed_subagents);
    let found = model::candidate_views(candidates@);
    if found.len() > 0 {
        workflow::law_success_is_verified(found, event, step);
    }
    assert forall|k: int|
        0 <= k < selection::selected(edges, before, parent).len() implies archiving::is_archived(
        model::records_of(after),
        (#[trigger] selection::selected(edges, before, parent)[k]).thread_id,
    ) by {
        assert(found[k] == candidates@[k]@);
    }
    selection::law_nothing_left_after_verified_run(edges, before, after, parent);
    assert(selection::selection(edges, after, parent).len() == 0);
    match again {
        Ok(left) => {
            assert(model::candidate_views(left@).len() == left@.len());
            assert(left@ =~= Seq::empty());
        },
        Err(_) => {},
    }
}

/// The report on `candidates` that were archived.
pub fn archived_report(candidates: &[Candidate], fallback_used: bool) -> (r: OutputPayload)
    ensures
        tells_of(r, "archived"@, candidates@, fallback_used),
{
    OutputPayload {
        mode: "archived",
        count: candidates.len(),
        threads: model::copy_candidates(candidates),
        fallback_used,
    }
}

/// How a report is printed: as JSON if that is asked for, else as text.
pub fn present(payload: OutputPayload, dry_run: bool, json: bool) -> (r: Output)
    ensures
        match r {
            Output::Json(shown) => json && shown == payload,
            Output::Text(text) => !json && text@ == rendered(
                model::candidate_views(payload.threads@),
                dry_run,
            ),
        },
{
    if json {
        Output::Json(payload)
    } else {
        Output::Text(render_text(payload.threads.as_slice(), dry_run))
    }
}

/// The line that tells of a candidate.
pub open spec fn candidate_line(candidate: model::CandidateView) -> Seq<char> {
    "- "@ + (match candidate.agent_nickname {
        Some(nickname) => nickname,
        None => "unknown"@,
    }) + ": "@ + candidate.thread_id + " (parent "@ + candidate.parent_thread_id + ")\n"@
}

/// The lines that tell of `candidates`.
pub open spec fn candidate_lines(candidates: Seq<model::CandidateView>) -> Seq<char>
    decreases candidates.len(),
{
    if candidates.len() == 0 {
        Seq::empty()
    } else {
        candidate_lines(candidates.drop_last()) + candidate_line(candidates.last())
    }
}

/// The text that tells of `candidates`.
pub open spec fn rendered(candidates: Seq<model::CandidateView>, dry_run: bool) -> Seq<char> {
    if candidates.len() == 0 {
        "no closed unarchived subagent threads found\n"@
    } else {
        (if dry_run {
            "would archive"@
        } else {
            "archived"@
        }) + " "@ + text::decimal(candidates.len()) + " subagent thread(s):\n"@
            + candidate_lines(candidates)
    }
}

/// The line that tells of a candidate.
fn candidate_line_text(candidate: &Candidate) -> (r: String)
    ensures
        r@ == candidate_line(candidate@),
{
    let nickname: String = match &candidate.agent_nickname {
        Some(nickname) => nickname.clone(),
        None => "unknown".to_owned(),
    };
    "- ".to_owned().concat(nickname.as_str()).concat(": ").concat(
        candidate.thread_id.as_str(),
    ).concat(" (parent ").concat(candidate.parent_thread_id.as_str()).concat(")\n")
}

/// The text that tells of `candidates`.
pub fn render_text(candidates: &[Candidate], dry_run: bool) -> (r: String)
    ensures
        r@ == rendered(model::candidate_views(candidates@), dry_run),
{
    if candidates.len() == 0 {
        return "no closed unarchived subagent threads found\n".to_owned();
    }
    let action: &str = if dry_run {
        "would archive"
    } else {
        "archived"
    };
    let head: String = action.to_owned().concat(" ").concat(
        text::decimal_text(candidates.len() as u64).as_str(),
    ).concat(" subagent thread(s):\n");
    let ghost all = model::candidate_views(candidates@);
    let mut r: String = head;
    let ghost start = r@;
    let mut i: usize = 0;
    assert(r@ =~= start + candidate_lines(all.take(0)));
    while i < candidates.len()
        invariant
            i <= candidates@.len(),
            all == model::candidate_views(candidates@),
            r@ == start + candidate_lines(all.take(i as int)),
        decreases candidates.len() - i,
    {
        let line: String = candidate_line_text(&candidates[i]);
        r.append(line.as_str());
        proof {
            assert(all.take(i + 1).drop_last() =~= all.take(i as int));
            assert(all.take(i + 1).last() == candidates@[i as int]@);
            assert(r@ =~= start + candidate_lines(all.take(i + 1)));
        }
        i += 1;
    }
    assert(all.take(all.len() as int) =~= all);
    r
}

/// A dry run never archives: it reports what was found, all of it and in order.
pub proof fn law_dry_run_only_reports(candidates: &[Candidate], plan: RunPlan)
    requires
        call_ensures(plan_run, (candidates, true), plan),
    ensures
        plan matches RunPlan::Report(payload) && payload.mode@ == "dry-run"@ && payload.count
            == candidates@.len() && payload.threads@ == candidates@ && !payload.fallback_used,
{
}

/// A run that is no dry run archives exactly where it has found something, and
/// else reports that there was nothing to do.
pub proof fn law_run_archives_what_it_finds(candidates: &[Candidate], plan: RunPlan)
    requires
        call_ensures(plan_run, (candidates, false), plan),
    ensures
        plan is Archive <==> candidates@.len() > 0,
        candidates@.len() == 0 ==> {
            plan matches RunPlan::Report(payload) && payload.mode@ == "noop"@ && payload.count == 0
                && payload.threads@.len() == 0 && !payload.fallback_used
        },
{
}

/// The report on a run that archived tells of all its candidates, in order, and
/// of the fallback as it was.
pub proof fn law_archived_report(
    candidates: &[Candidate],
    fallback_used: bool,
    payload: OutputPayload,
)
    requires
        call_ensures(archived_report, (candidates, fallback_used), payload),
    ensures
        payload.mode@ == "archived"@,
        payload.count == candidates@.len(),
        payload.threads@ == candidates@,
        payload.fallback_used == fallback_used,
{
}

/// A report is printed as JSON just as it is, or else as the text on its threads.
pub proof fn law_report_is_shown(
    payload: OutputPayload,
    dry_run: bool,
    json: bool,
    shown: Output,
    threads: &[Candidate],
    told: String,
)
    requires
        call_ensures(present, (payload, dry_run, json), shown),
        threads@ == payload.threads@,
        call_ensures(render_text, (threads, dry_run), told),
    ensures
        json ==> shown == Output::Json(payload),
        !json ==> {
            shown matches Output::Text(text) && text@ == told@
        },
{
}

/// The text on one thread: a line that counts it, and a line on it.
pub proof fn law_text_of_one(candidates: &[Candidate], dry_run: bool, told: String)
    requires
        candidates@.len() == 1,
        call_ensures(render_text, (candidates, dry_run), told),
    ensures
        told@ == (if dry_run {
            "would archive"@
        } else {
            "archived"@
        }) + " "@ + text::decimal(1) + " subagent thread(s):\n"@ + ("- "@ + (
        match candidates@[0].agent_nickname {
            Some(nickname) => nickname@,
            None => "unknown"@,
        }) + ": "@ + candidates@[0].thread_id@ + " (parent "@ + candidates@[0].parent_thread_id@
            + ")\n"@),
{
    let all = model::candidate_views(candidates@);
    reveal_with_fuel(candidate_lines, 2);
    assert(all.drop_last().len() == 0);
    assert(all.last() == candidates@[0]@);
    assert(candidate_lines(all) =~= candidate_line(all.last()));
}

/// One more thread at the end counts one more in the first line and adds one line
/// at the end. All that stands between stays as it is.
pub proof fn law_text_grows_by_a_line(
    fewer: &[Candidate],
    more: &[Candidate],
    candidate: Candidate,
    dry_run: bool,
    shorter: String,
    longer: String,
)
    requires
        fewer@.len() > 0,
        more@ == fewer@.push(candidate),
        call_ensures(render_text, (fewer, dry_run), shorter),
        call_ensures(render_text, (more, dry_run), longer),
    ensures
        ({
            let done = if dry_run {
                "would archive"@
            } else {
                "archived"@
            };
            let head = done + " "@ + text::decimal(fewer@.len()) + " subagent thread(s):\n"@;
            &&& shorter@.len() >= head.len()
            &&& shorter@.take(head.len() as int) == head
            &&& longer@ == done + " "@ + text::decimal(more@.len()) + " subagent thread(s):\n"@
                + shorter@.skip(head.len() as int) + ("- "@ + (match candidate.agent_nickname {
                Some(nickname) => nickname@,
                None => "unknown"@,
            }) + ": "@ + candidate.thread_id@ + " (parent "@ + candidate.parent_thread_id@ + ")\n"@)
        }),
{
    let before = model::candidate_views(fewer@);
    let after = model::candidate_views(more@);
    let done = if dry_run {
        "would archive"@
    } else {
        "archived"@
    };
    let head = done + " "@ + text::decimal(fewer@.len()) + " subagent thread(s):\n"@;
    assert(after.drop_last() =~= before);
    assert(after.last() == candidate@);
    assert(shorter@.take(head.len() as int) =~= head);
    assert(shorter@.skip(head.len() as int) =~= candidate_lines(before));
    let new_head = done + " "@ + text::decimal(more@.len()) + " subagent thread(s):\n"@;
    assert(longer@ =~= new_head + candidate_lines(before) + candidate_line(candidate@));
}

/// Where there is no thread, the text says so.
pub proof fn law_text_of_none(candidates: &[Candidate], dry_run: bool, told: String)
    requires
        candidates@.len() == 0,
        call_ensures(render_text, (candidates, dry_run), told),
    ensures
        told@ == "no closed unarchived subagent threads found\n"@,
{
}

} // verus!
