//! Runs, reports and what a run starts from.

use codex_archive_subagent_threads::clock::{timestamp, timestamp_at};
use codex_archive_subagent_threads::report::{
    archived_report, plan_run, present, Output, RunPlan,
};
use codex_archive_subagent_threads::startup::{load_failure, requested_parent, STATE_DATABASE};
use codex_archive_subagent_threads::text::{decimal_text, join};
use codex_archive_subagent_threads::workflow::{ArchiveAction, ArchiveEvent, ArchiveStep};
use codex_archive_subagent_threads::{
    archive_with_verification, default_codex_home, direct_archive, ensure_db_exists,
    load_candidates, render_text, unix_timestamp_seconds, ArchiveError, Candidate, Column,
    SpawnEdge, ThreadRecord, ThreadRow,
};
use std::time::{Duration, UNIX_EPOCH};

fn candidate(id: &str, nickname: Option<&str>) -> Candidate {
    Candidate {
        parent_thread_id: "parent-1".to_string(),
        thread_id: id.to_string(),
        status: "closed".to_string(),
        agent_nickname: nickname.map(str::to_string),
        title: "T".to_string(),
    }
}

fn thread(id: &str, archived: i64) -> ThreadRecord {
    ThreadRecord {
        id: Column::Value(id.to_string()),
        archived: Column::Value(archived),
        archived_at: Column::Null { cause: "no time".to_string() },
    }
}

fn quiet(step: ArchiveStep) -> ArchiveAction {
    assert!(step.warning.is_none());
    step.action
}

fn database_error(cause: &str) -> ArchiveError {
    ArchiveError::Database { cause: cause.to_string() }
}

#[test]
fn a_run_begins_with_the_app_server() {
    let candidates = [candidate("a", None)];
    let start = ArchiveEvent::Start { direct_sqlite_only: false };
    let action = quiet(archive_with_verification(&candidates, start));
    assert!(matches!(action, ArchiveAction::RunServer));
    let ended = ArchiveEvent::ServerEnded(Ok(()));
    let action = quiet(archive_with_verification(&candidates, ended));
    assert!(matches!(action, ArchiveAction::Check { fallback_used: false }));
}

#[test]
fn a_direct_run_skips_the_app_server() {
    let candidates = [candidate("a", None)];
    let start = ArchiveEvent::Start { direct_sqlite_only: true };
    let action = quiet(archive_with_verification(&candidates, start));
    assert!(matches!(action, ArchiveAction::Check { fallback_used: true }));
}

#[test]
fn a_failed_session_is_told_and_counts_as_fallback() {
    let candidates = [candidate("a", None)];
    let ended = ArchiveEvent::ServerEnded(Err(ArchiveError::ServerStart {
        cause: "not found".to_string(),
    }));
    let step = archive_with_verification(&candidates, ended);
    assert_eq!(
        step.warning.as_deref(),
        Some(
            "app-server archive failed, falling back to direct SQLite update: \
             failed to start `codex app-server --listen stdio://`: not found"
        )
    );
    assert!(matches!(step.action, ArchiveAction::Check { fallback_used: true }));
}

#[test]
fn a_run_without_candidates_reads_nothing() {
    let start = ArchiveEvent::Start { direct_sqlite_only: true };
    let action = quiet(archive_with_verification(&[], start));
    assert!(matches!(action, ArchiveAction::Done { fallback_used: true }));
    let action = quiet(archive_with_verification(&[], ArchiveEvent::ServerEnded(Ok(()))));
    assert!(matches!(action, ArchiveAction::Done { fallback_used: false }));
}

#[test]
fn what_the_app_server_leaves_is_updated_and_verified() {
    let candidates = [candidate("a", None), candidate("b", None)];
    let mut threads = vec![thread("a", 1), thread("b", 0)];
    let checked = ArchiveEvent::Checked {
        fallback_used: false,
        threads: Ok(vec![thread("a", 1), thread("b", 0)]),
    };
    let ids = match quiet(archive_with_verification(&candidates, checked)) {
        ArchiveAction::Update { thread_ids } => thread_ids,
        other => panic!("{other:?}"),
    };
    assert_eq!(ids, ["b"]);

    direct_archive(&mut threads, &ids, 5);
    let updated = ArchiveEvent::Updated(Ok(()));
    let action = quiet(archive_with_verification(&candidates, updated));
    assert!(matches!(action, ArchiveAction::Verify { fallback_used: true }));

    let verified = ArchiveEvent::Verified { fallback_used: true, threads: Ok(threads) };
    let action = quiet(archive_with_verification(&candidates, verified));
    assert!(matches!(action, ArchiveAction::Done { fallback_used: true }));
}

#[test]
fn a_run_that_finds_all_archived_is_verified_all_the_same() {
    let candidates = [candidate("a", None)];
    let checked =
        ArchiveEvent::Checked { fallback_used: false, threads: Ok(vec![thread("a", 1)]) };
    let action = quiet(archive_with_verification(&candidates, checked));
    assert!(matches!(action, ArchiveAction::Verify { fallback_used: false }));
    let verified =
        ArchiveEvent::Verified { fallback_used: false, threads: Ok(vec![thread("a", 1)]) };
    let action = quiet(archive_with_verification(&candidates, verified));
    assert!(matches!(action, ArchiveAction::Done { fallback_used: false }));
}

#[test]
fn a_run_fails_on_what_is_still_not_archived() {
    let candidates = [candidate("a", None), candidate("b", None), candidate("c", None)];
    let verified = ArchiveEvent::Verified {
        fallback_used: true,
        threads: Ok(vec![thread("a", 0), thread("c", 1)]),
    };
    match quiet(archive_with_verification(&candidates, verified)) {
        ArchiveAction::Fail(error) => assert_eq!(
            error.message(),
            "archive verification failed; still unarchived: a, b"
        ),
        other => panic!("{other:?}"),
    }
}

#[test]
fn a_run_fails_when_the_database_does() {
    let candidates = [candidate("a", None)];
    let events = [
        ArchiveEvent::Checked { fallback_used: false, threads: Err(database_error("locked")) },
        ArchiveEvent::Updated(Err(database_error("locked"))),
        ArchiveEvent::Verified { fallback_used: true, threads: Err(database_error("locked")) },
    ];
    for event in events {
        match quiet(archive_with_verification(&candidates, event)) {
            ArchiveAction::Fail(error) => assert_eq!(error.message(), "locked"),
            other => panic!("{other:?}"),
        }
    }
}

#[test]
fn a_run_fails_on_what_cannot_be_told() {
    let candidates = [candidate("a", None), candidate("b", None)];
    let unclear = || {
        let mut unclear = thread("b", 0);
        unclear.archived = Column::Null { cause: "is null".to_string() };
        Ok(vec![thread("a", 0), unclear])
    };
    let events = [
        ArchiveEvent::Checked { fallback_used: false, threads: unclear() },
        ArchiveEvent::Verified { fallback_used: true, threads: unclear() },
    ];
    for event in events {
        match quiet(archive_with_verification(&candidates, event)) {
            ArchiveAction::Fail(error) => {
                assert_eq!(error.message(), "failed to verify thread b: is null")
            }
            other => panic!("{other:?}"),
        }
    }
}

#[test]
fn the_next_run_finds_nothing() {
    let text = |s: &str| Column::Value(s.to_string());
    let edges = ["a", "b"].map(|id| SpawnEdge {
        parent_thread_id: text("parent-1"),
        child_thread_id: text(id),
        status: text("closed"),
    });
    let row = |id: &str, archived: i64| ThreadRow {
        record: thread(id, archived),
        created_order: 1,
        title: text("T"),
        agent_nickname: text("Ada"),
    };
    let before = [row("a", 0), row("b", 0)];
    let found = load_candidates(&edges, &before, Some("parent-1"), false).unwrap();
    assert_eq!(found.len(), 2);
    assert!(matches!(plan_run(&found, false), RunPlan::Archive));

    let verified = ArchiveEvent::Verified {
        fallback_used: false,
        threads: Ok(vec![thread("a", 1), thread("b", 1)]),
    };
    let action = quiet(archive_with_verification(&found, verified));
    assert!(matches!(action, ArchiveAction::Done { .. }));

    let after = [row("a", 1), row("b", 1)];
    let again = load_candidates(&edges, &after, Some("parent-1"), false).unwrap();
    match plan_run(&again, false) {
        RunPlan::Report(payload) => {
            assert_eq!((payload.mode, payload.count), ("noop", 0));
            assert!(payload.threads.is_empty());
            assert!(!payload.fallback_used);
        }
        RunPlan::Archive => panic!("nothing to archive"),
    }
}

#[test]
fn a_dry_run_only_reports() {
    let candidates = [candidate("a", Some("Ada"))];
    match plan_run(&candidates, true) {
        RunPlan::Report(payload) => {
            assert_eq!(payload.mode, "dry-run");
            assert_eq!(payload.count, 1);
            assert_eq!(payload.threads[0].thread_id, "a");
            assert!(!payload.fallback_used);
            assert_eq!(payload.clone().threads[0].agent_nickname.as_deref(), Some("Ada"));
        }
        RunPlan::Archive => panic!("a dry run archives"),
    }
    assert!(matches!(plan_run(&candidates, false), RunPlan::Archive));
}

#[test]
fn nothing_is_done_where_nothing_is_found() {
    for (dry_run, mode) in [(true, "dry-run"), (false, "noop")] {
        match plan_run(&[], dry_run) {
            RunPlan::Report(payload) => {
                assert_eq!((payload.mode, payload.count), (mode, 0));
                assert!(payload.threads.is_empty());
            }
            RunPlan::Archive => panic!("nothing to archive"),
        }
    }
}

#[test]
fn an_archived_report_tells_of_the_fallback() {
    let candidates = [candidate("a", None), candidate("b", None)];
    for fallback_used in [true, false] {
        let payload = archived_report(&candidates, fallback_used);
        assert_eq!((payload.mode, payload.count), ("archived", 2));
        assert_eq!(payload.fallback_used, fallback_used);
        assert_eq!(payload.threads[1].thread_id, "b");
    }
}

#[test]
fn a_report_is_text_or_json() {
    let candidates = [candidate("a", None)];
    match present(archived_report(&candidates, false), false, true) {
        Output::Json(payload) => assert_eq!(payload.mode, "archived"),
        Output::Text(text) => panic!("{text}"),
    }
    match present(archived_report(&candidates, false), true, false) {
        Output::Text(text) => assert_eq!(text, render_text(&candidates, true)),
        Output::Json(_) => panic!("no JSON was asked for"),
    }
}

#[test]
fn text_lists_the_threads() {
    let candidates = [candidate("a", Some("Ada")), candidate("b", None)];
    assert_eq!(
        render_text(&candidates, true),
        "would archive 2 subagent thread(s):\n\
         - Ada: a (parent parent-1)\n\
         - unknown: b (parent parent-1)\n"
    );
    assert_eq!(
        render_text(&candidates[..1], false),
        "archived 1 subagent thread(s):\n- Ada: a (parent parent-1)\n"
    );
    assert_eq!(render_text(&[], false), "no closed unarchived subagent threads found\n");
    assert_eq!(render_text(&[], true), "no closed unarchived subagent threads found\n");
}

#[test]
fn the_home_directory_comes_from_the_environment() {
    let some = |s: &str| Some(s.to_string());
    assert_eq!(default_codex_home(some("/c"), some("/h")), ["/c"]);
    assert_eq!(default_codex_home(some(""), None), [""]);
    assert_eq!(default_codex_home(None, some("/h")), ["/h", ".codex"]);
    assert_eq!(default_codex_home(None, None), [".", ".codex"]);
    assert_eq!(STATE_DATABASE, "state_5.sqlite");
}

#[test]
fn a_given_parent_goes_before_the_environment() {
    let some = |s: &str| Some(s.to_string());
    assert_eq!(requested_parent(some("a"), some("b")), some("a"));
    assert_eq!(requested_parent(None, some("b")), some("b"));
    assert_eq!(requested_parent(some("a"), None), some("a"));
    assert_eq!(requested_parent(None, None), None);
}

#[test]
fn the_database_has_to_be_there() {
    assert!(ensure_db_exists("/x/state_5.sqlite", true).is_ok());
    let error = ensure_db_exists("/x/state_5.sqlite", false).unwrap_err();
    assert_eq!(error.message(), "Codex state database does not exist: /x/state_5.sqlite");
    assert_eq!(
        load_failure("/x", &ArchiveError::MissingParent),
        "failed to load candidates from /x: missing parent thread id: \
         pass --parent-thread-id or set CODEX_THREAD_ID"
    );
}

#[test]
fn every_failure_has_its_message() {
    let text = |s: &str| s.to_string();
    let open = ArchiveError::DatabaseOpen { path: text("/x"), cause: text("denied") };
    assert_eq!(open.message(), "failed to open Codex state database at /x: denied");
    let check = ArchiveError::ThreadCheck { thread_id: text("a"), cause: text("locked") };
    assert_eq!(check.message(), "failed to verify thread a: locked");
    let clock = ArchiveError::ClockBeforeEpoch { cause: text("early") };
    assert_eq!(clock.message(), "system clock is before UNIX_EPOCH: early");
    assert_eq!(ArchiveError::ServerStdin.message(), "failed to open app-server stdin");
    assert_eq!(ArchiveError::ServerStdout.message(), "failed to open app-server stdout");
    assert_eq!(ArchiveError::ServerStderr.message(), "failed to open app-server stderr");
    assert_eq!(ArchiveError::StdinClosed.message(), "app-server stdin is already closed");
}

#[test]
fn timestamps_are_whole_seconds() {
    assert_eq!(timestamp(0), 0);
    assert_eq!(timestamp(i64::MAX as u64), i64::MAX);
    assert_eq!(timestamp(u64::MAX), -1);
    assert_eq!(timestamp_at(UNIX_EPOCH).unwrap(), 0);
    assert_eq!(timestamp_at(UNIX_EPOCH + Duration::from_millis(7999)).unwrap(), 7);
    let error = timestamp_at(UNIX_EPOCH - Duration::from_nanos(1000)).unwrap_err();
    assert!(error.message().starts_with("system clock is before UNIX_EPOCH: "));
    assert!(unix_timestamp_seconds().unwrap() > 1_500_000_000);
}

#[test]
fn numbers_and_lists_become_text() {
    assert_eq!(decimal_text(0), "0");
    assert_eq!(decimal_text(1234567890), "1234567890");
    assert_eq!(decimal_text(u64::MAX), "18446744073709551615");
    let list = ["a".to_string(), "b".to_string(), "".to_string()];
    assert_eq!(join(&list, ", "), "a, b, ");
    assert_eq!(join(&list[..1], ", "), "a");
    assert_eq!(join(&[], ", "), "");
}
