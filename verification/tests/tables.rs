//! Selection and archiving on rows written out by hand.

use codex_archive_subagent_threads::selection::parent_filter;
use codex_archive_subagent_threads::{
    direct_archive, load_candidates, unarchived_candidate_ids, ArchiveError, Candidate, Column,
    SpawnEdge, ThreadRecord, ThreadRow,
};

fn edge(parent: &str, child: &str, status: &str) -> SpawnEdge {
    SpawnEdge {
        parent_thread_id: Column::Value(parent.to_string()),
        child_thread_id: Column::Value(child.to_string()),
        status: Column::Value(status.to_string()),
    }
}

fn null<T>(cause: &str) -> Column<T> {
    Column::Null { cause: cause.to_string() }
}

fn other<T>(cause: &str) -> Column<T> {
    Column::Other { stored: cause.as_bytes().to_vec(), cause: cause.to_string() }
}

fn record(id: &str, archived: i64) -> ThreadRecord {
    ThreadRecord {
        id: Column::Value(id.to_string()),
        archived: Column::Value(archived),
        archived_at: null("no time"),
    }
}

fn thread(id: &str, created_order: i64, archived: i64, nickname: Option<&str>) -> ThreadRow {
    ThreadRow {
        record: record(id, archived),
        created_order,
        title: Column::Value(format!("Title of {id}")),
        agent_nickname: match nickname {
            Some(nickname) => Column::Value(nickname.to_string()),
            None => null("no name"),
        },
    }
}

fn candidate(id: &str) -> Candidate {
    Candidate {
        parent_thread_id: "p".to_string(),
        thread_id: id.to_string(),
        status: "closed".to_string(),
        agent_nickname: Some("Ada".to_string()),
        title: "T".to_string(),
    }
}

fn ids(candidates: &[Candidate]) -> Vec<&str> {
    candidates.iter().map(|c| c.thread_id.as_str()).collect()
}

#[test]
fn a_candidate_carries_the_columns_of_its_rows() {
    let found = load_candidates(
        &[edge("p", "a", "closed")],
        &[thread("a", 1, 0, Some("Ada"))],
        Some("p"),
        false,
    )
    .unwrap();
    assert_eq!(found.len(), 1);
    assert_eq!(found[0].parent_thread_id, "p");
    assert_eq!(found[0].thread_id, "a");
    assert_eq!(found[0].status, "closed");
    assert_eq!(found[0].agent_nickname.as_deref(), Some("Ada"));
    assert_eq!(found[0].title, "Title of a");
}

#[test]
fn the_oldest_thread_comes_first_and_ties_keep_table_order() {
    let edges = [
        edge("p", "late", "closed"),
        edge("p", "tie-1", "closed"),
        edge("q", "tie-2", "closed"),
        edge("p", "early", "closed"),
    ];
    let threads = [
        thread("tie-2", 5, 0, Some("b")),
        thread("tie-1", 5, 0, Some("a")),
        thread("early", -3, 0, Some("c")),
        thread("late", 9, 0, Some("d")),
    ];
    let all = load_candidates(&edges, &threads, None, true).unwrap();
    assert_eq!(ids(&all), ["early", "tie-1", "tie-2", "late"]);
    let one = load_candidates(&edges, &threads, Some("p"), false).unwrap();
    assert_eq!(ids(&one), ["early", "tie-1", "late"]);
}

#[test]
fn the_all_flag_overrules_a_parent() {
    let edges = [edge("p", "a", "closed"), edge("q", "b", "closed")];
    let threads = [thread("a", 1, 0, Some("x")), thread("b", 2, 0, Some("y"))];
    let all = load_candidates(&edges, &threads, Some("p"), true).unwrap();
    assert_eq!(ids(&all), ["a", "b"]);
}

#[test]
fn other_rows_are_left_out() {
    let edges = [
        edge("p", "running", "running"),
        edge("p", "archived", "closed"),
        edge("p", "odd", "closed"),
        edge("p", "unnamed", "closed"),
        edge("p", "nowhere", "closed"),
        edge("p", "shouting", "CLOSED"),
        edge("p", "blank-name", "closed"),
    ];
    let threads = [
        thread("running", 1, 0, Some("x")),
        thread("archived", 2, 1, Some("x")),
        thread("odd", 3, 2, Some("x")),
        thread("unnamed", 4, 0, None),
        thread("unspawned", 5, 0, Some("x")),
        thread("shouting", 6, 0, Some("x")),
        thread("blank-name", 7, 0, Some("")),
    ];
    let all = load_candidates(&edges, &threads, None, true).unwrap();
    assert_eq!(ids(&all), ["blank-name"]);
    assert!(load_candidates(&[], &[], Some("p"), false).unwrap().is_empty());
}

#[test]
fn the_parent_filter_names_the_parent() {
    assert_eq!(parent_filter(Some("p"), false).unwrap().as_deref(), Some("p"));
    assert_eq!(parent_filter(Some("p"), true).unwrap(), None);
    assert_eq!(parent_filter(None, true).unwrap(), None);
    assert!(matches!(parent_filter(None, false), Err(ArchiveError::MissingParent)));
}

#[test]
fn an_unreadable_candidate_fails_with_its_first_column() {
    let fails = |edge: SpawnEdge, thread: ThreadRow| {
        match load_candidates(&[edge], &[thread], None, true) {
            Err(ArchiveError::Database { cause }) => cause,
            other => panic!("{other:?}"),
        }
    };
    let orphan = || {
        let mut orphan = edge("p", "a", "closed");
        orphan.parent_thread_id = null("parent");
        orphan
    };
    let odd = || {
        let mut odd = thread("a", 1, 0, None);
        odd.agent_nickname = other("nickname");
        odd.title = other("title");
        odd
    };
    let nameless = |thread: ThreadRow| {
        let mut thread = thread;
        thread.record.id = other("id");
        thread
    };
    let lost = |edge: SpawnEdge| {
        let mut edge = edge;
        edge.child_thread_id = other("id");
        edge
    };
    assert_eq!(fails(orphan(), odd()), "parent");
    assert_eq!(fails(lost(orphan()), nameless(odd())), "parent");
    assert_eq!(fails(lost(edge("p", "a", "closed")), nameless(odd())), "id");
    assert_eq!(fails(edge("p", "a", "closed"), odd()), "nickname");
    let mut untitled = thread("a", 1, 0, Some("x"));
    untitled.title = null("title");
    assert_eq!(fails(edge("p", "a", "closed"), untitled), "title");
}

#[test]
fn the_oldest_unreadable_candidate_is_told_of() {
    let untitled = |id: &str, created_order: i64| {
        let mut untitled = thread(id, created_order, 0, Some("x"));
        untitled.title = null(id);
        untitled
    };
    let edges = [
        edge("p", "late", "closed"),
        edge("p", "early", "closed"),
        edge("p", "fine", "closed"),
    ];
    let threads = [untitled("late", 9), untitled("early", 5), thread("fine", 1, 0, Some("x"))];
    let error = load_candidates(&edges, &threads, Some("p"), false).unwrap_err();
    assert_eq!(error.message(), "early");
}

#[test]
fn unreadable_rows_that_are_not_selected_are_left_out() {
    let mut statusless = edge("p", "a", "closed");
    statusless.status = null("status");
    let mut orphan = edge("p", "b", "closed");
    orphan.parent_thread_id = other("parent");
    let mut unclear = thread("c", 3, 0, Some("x"));
    unclear.record.archived = null("archived");
    unclear.title = null("title");
    let edges = [statusless, orphan, edge("p", "c", "closed"), edge("p", "d", "closed")];
    let threads = [
        thread("a", 1, 0, Some("x")),
        thread("b", 2, 0, Some("x")),
        unclear,
        thread("d", 4, 0, Some("x")),
    ];
    let found = load_candidates(&edges, &threads, Some("p"), false).unwrap();
    assert_eq!(ids(&found), ["d"]);
}

#[test]
fn a_check_lists_what_is_not_recorded_as_archived() {
    let threads = [record("done", 1), record("open", 0), record("odd", 2)];
    let candidates =
        [candidate("missing"), candidate("done"), candidate("odd"), candidate("open")];
    assert_eq!(
        unarchived_candidate_ids(&threads, &candidates).unwrap(),
        ["missing", "odd", "open"]
    );
    assert!(unarchived_candidate_ids(&threads, &[]).unwrap().is_empty());
}

#[test]
fn a_check_fails_on_the_first_candidate_it_cannot_tell() {
    let mut first = record("first", 0);
    first.archived = null("is null");
    let mut second = record("second", 0);
    second.archived = other("is text");
    let threads = [record("open", 0), second, first];
    let check = |names: &[&str]| {
        let candidates: Vec<Candidate> = names.iter().map(|name| candidate(name)).collect();
        unarchived_candidate_ids(&threads, &candidates)
    };
    assert_eq!(
        check(&["open", "first", "second"]).unwrap_err().message(),
        "failed to verify thread first: is null"
    );
    assert_eq!(
        check(&["second", "first"]).unwrap_err().message(),
        "failed to verify thread second: is text"
    );
    assert_eq!(check(&["open"]).unwrap(), ["open"]);
}

#[test]
fn archiving_keeps_recorded_times() {
    let mut stamped = record("stamped", 0);
    stamped.archived_at = Column::Value(40);
    let mut odd = record("odd", 0);
    odd.archived_at = other("is text");
    let mut threads = vec![record("fresh", 0), stamped, record("done", 1), odd];
    let wanted = ["done", "stamped", "fresh", "odd"].map(str::to_string);

    let changed = direct_archive(&mut threads, &wanted, 99);

    assert_eq!(changed, [0, 1, 3]);
    for thread in &threads {
        assert_eq!(thread.archived, Column::Value(1));
    }
    assert_eq!(threads[0].archived_at, Column::Value(99));
    assert_eq!(threads[1].archived_at, Column::Value(40));
    assert_eq!(threads[2].archived_at, null("no time"));
    assert_eq!(threads[3].archived_at, other("is text"));
}

#[test]
fn archiving_again_changes_nothing() {
    let mut threads = vec![record("a", 0), record("b", 0)];
    let wanted = ["a".to_string()];
    assert_eq!(direct_archive(&mut threads, &wanted, 10).len(), 1);
    assert!(direct_archive(&mut threads, &wanted, 20).is_empty());
    assert_eq!(threads[0].archived_at, Column::Value(10));
    assert_eq!(threads[1].archived, Column::Value(0));
    assert_eq!(threads[1].archived_at, null("no time"));
    assert_eq!(threads.len(), 2);
}

#[test]
fn archiving_no_thread_changes_nothing() {
    let mut unclear = record("c", 0);
    unclear.archived = null("is null");
    let mut nameless = record("d", 0);
    nameless.id = other("d");
    let mut threads = vec![record("a", 0), unclear, nameless];
    assert!(direct_archive(&mut threads, &["d".to_string()], 10).is_empty());
    assert!(direct_archive(&mut threads, &[], 10).is_empty());
    assert!(direct_archive(&mut threads, &["b".to_string()], 10).is_empty());
    assert!(direct_archive(&mut threads, &["c".to_string()], 10).is_empty());
    assert_eq!(threads[0].archived, Column::Value(0));
    assert_eq!(threads[1].archived, null("is null"));
}

#[test]
fn a_check_after_the_update_finds_what_cannot_be_archived() {
    let mut threads = vec![record("open", 0), record("odd", 2)];
    let candidates = [candidate("odd"), candidate("open"), candidate("missing")];
    let left = unarchived_candidate_ids(&threads, &candidates).unwrap();
    assert_eq!(left, ["odd", "open", "missing"]);
    direct_archive(&mut threads, &left, 7);
    assert_eq!(unarchived_candidate_ids(&threads, &candidates).unwrap(), ["odd", "missing"]);
}
