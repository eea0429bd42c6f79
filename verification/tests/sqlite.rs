//! The selection and the update, on rows of a real SQLite database.

use codex_archive_subagent_threads::{
    direct_archive, load_candidates, unarchived_candidate_ids, ArchiveError, Candidate, Column,
    SpawnEdge, ThreadRecord, ThreadRow,
};
use rusqlite::types::{FromSql, ValueRef};
use rusqlite::{Connection, Row};

const SCHEMA: &str = "
    CREATE TABLE threads (
        id TEXT PRIMARY KEY,
        rollout_path TEXT NOT NULL DEFAULT '',
        created_at INTEGER NOT NULL,
        updated_at INTEGER NOT NULL,
        source TEXT NOT NULL DEFAULT '',
        model_provider TEXT NOT NULL DEFAULT '',
        cwd TEXT NOT NULL DEFAULT '',
        title TEXT NOT NULL,
        sandbox_policy TEXT NOT NULL DEFAULT '',
        approval_mode TEXT NOT NULL DEFAULT '',
        tokens_used INTEGER NOT NULL DEFAULT 0,
        has_user_event INTEGER NOT NULL DEFAULT 0,
        archived INTEGER NOT NULL DEFAULT 0,
        archived_at INTEGER,
        agent_nickname TEXT
    );
    CREATE TABLE thread_spawn_edges (
        parent_thread_id TEXT NOT NULL,
        child_thread_id TEXT NOT NULL PRIMARY KEY,
        status TEXT NOT NULL
    );
";

fn insert_thread(
    conn: &Connection,
    id: &str,
    created_at: i64,
    title: &str,
    archived: i64,
    archived_at: Option<i64>,
    agent_nickname: Option<&str>,
) {
    conn.execute(
        "INSERT INTO threads
             (id, created_at, updated_at, title, archived, archived_at, agent_nickname)
         VALUES (?1, ?2, ?3, ?4, ?5, ?6, ?7)",
        (id, created_at, created_at, title, archived, archived_at, agent_nickname),
    )
    .unwrap();
}

fn insert_edge(conn: &Connection, parent: &str, child: &str, status: &str) {
    conn.execute(
        "INSERT INTO thread_spawn_edges (parent_thread_id, child_thread_id, status)
         VALUES (?1, ?2, ?3)",
        (parent, child, status),
    )
    .unwrap();
}

fn fixture_db() -> Connection {
    let conn = Connection::open_in_memory().unwrap();
    conn.execute_batch(SCHEMA).unwrap();
    insert_thread(&conn, "child-closed", 1, "Closed", 0, None, Some("Ada"));
    insert_thread(&conn, "child-open", 2, "Open", 0, None, Some("Grace"));
    insert_thread(&conn, "child-archived", 3, "Archived", 1, None, Some("Linus"));
    insert_thread(&conn, "ordinary-thread", 4, "Ordinary", 0, None, None);
    for (child, status) in [
        ("child-closed", "closed"),
        ("child-open", "running"),
        ("child-archived", "closed"),
        ("ordinary-thread", "closed"),
    ] {
        insert_edge(&conn, "parent-1", child, status);
    }
    conn
}

fn column<T: FromSql>(row: &Row<'_>, index: usize) -> Column<T> {
    match row.get(index) {
        Ok(value) => Column::Value(value),
        Err(error) => match row.get_ref(index).unwrap() {
            ValueRef::Null => Column::Null { cause: error.to_string() },
            value => {
                let (kind, bytes) = match value {
                    ValueRef::Text(text) => (b't', text.to_vec()),
                    ValueRef::Blob(blob) => (b'b', blob.to_vec()),
                    other => (b'x', format!("{other:?}").into_bytes()),
                };
                let stored = [vec![kind], bytes].concat();
                Column::Other { stored, cause: error.to_string() }
            }
        },
    }
}

fn edges(conn: &Connection) -> Vec<SpawnEdge> {
    let mut stmt = conn
        .prepare(
            "SELECT parent_thread_id, child_thread_id AS thread_id, status
             FROM thread_spawn_edges",
        )
        .unwrap();
    let rows = stmt
        .query_map([], |row| {
            Ok(SpawnEdge {
                parent_thread_id: column(row, 0),
                child_thread_id: column(row, 1),
                status: column(row, 2),
            })
        })
        .unwrap();
    rows.map(|row| row.unwrap()).collect()
}

fn threads(conn: &Connection) -> Vec<ThreadRow> {
    let mut stmt = conn
        .prepare(
            "SELECT
                 id, archived, archived_at, agent_nickname, title,
                 DENSE_RANK() OVER (ORDER BY created_at)
             FROM threads ORDER BY id",
        )
        .unwrap();
    let rows = stmt
        .query_map([], |row| {
            Ok(ThreadRow {
                record: ThreadRecord {
                    id: column(row, 0),
                    archived: column(row, 1),
                    archived_at: column(row, 2),
                },
                agent_nickname: column(row, 3),
                title: column(row, 4),
                created_order: row.get(5)?,
            })
        })
        .unwrap();
    rows.map(|row| row.unwrap()).collect()
}

fn records(conn: &Connection) -> Vec<ThreadRecord> {
    threads(conn).into_iter().map(|thread| thread.record).collect()
}

fn write_back(conn: &Connection, threads: &[ThreadRecord], changed: &[usize]) {
    for position in changed {
        let thread = &threads[*position];
        for (name, value) in [("archived", &thread.archived), ("archived_at", &thread.archived_at)]
        {
            if let (Column::Value(value), Column::Value(id)) = (value, &thread.id) {
                conn.execute(
                    &format!("UPDATE threads SET {name} = ?1 WHERE id = ?2"),
                    (value, id),
                )
                .unwrap();
            }
        }
    }
}

fn columns(candidate: &Candidate) -> (String, String, String, Option<String>, String) {
    (
        candidate.parent_thread_id.clone(),
        candidate.thread_id.clone(),
        candidate.status.clone(),
        candidate.agent_nickname.clone(),
        candidate.title.clone(),
    )
}

fn thread_columns(conn: &Connection) -> Vec<(String, i64, String, i64, Option<i64>)> {
    let mut stmt = conn
        .prepare("SELECT id, created_at, title, archived, archived_at FROM threads ORDER BY id")
        .unwrap();
    let rows = stmt
        .query_map([], |row| {
            Ok((row.get(0)?, row.get(1)?, row.get(2)?, row.get(3)?, row.get(4)?))
        })
        .unwrap();
    rows.map(|row| row.unwrap()).collect()
}

/// Numbers without a pattern, the same on each run.
fn scramble(n: i64) -> i64 {
    (n * 7919 + 104729) % 1009
}

/// A larger database, in which no two threads were created at the same time.
fn large_db() -> Connection {
    let conn = Connection::open_in_memory().unwrap();
    conn.execute_batch(SCHEMA).unwrap();
    for n in 0..300i64 {
        let id = format!("thread-{n}");
        let nickname = format!("agent {}", scramble(n + 3));
        insert_thread(
            &conn,
            &id,
            scramble(n),
            &format!("Title {n}"),
            scramble(n + 1) % 3,
            if scramble(n + 2) % 2 == 0 { Some(scramble(n + 4)) } else { None },
            if scramble(n + 5) % 4 == 0 { None } else { Some(&nickname) },
        );
        if n % 7 != 0 {
            insert_edge(
                &conn,
                &format!("parent-{}", scramble(n + 6) % 5),
                &id,
                if scramble(n + 7) % 3 == 0 { "running" } else { "closed" },
            );
        }
    }
    insert_edge(&conn, "parent-1", "no-such-thread", "closed");
    conn
}

fn selected_by_sql(
    conn: &Connection,
    parent: Option<&str>,
) -> Vec<(String, String, String, Option<String>, String)> {
    let query = "
        SELECT e.parent_thread_id, e.child_thread_id, e.status, t.agent_nickname, t.title
        FROM thread_spawn_edges e
        JOIN threads t ON t.id = e.child_thread_id
        WHERE e.status = 'closed'
          AND t.archived = 0
          AND t.agent_nickname IS NOT NULL
          AND (?1 IS NULL OR e.parent_thread_id = ?1)
        ORDER BY t.created_at ASC
    ";
    let mut stmt = conn.prepare(query).unwrap();
    let rows = stmt
        .query_map((parent,), |row| {
            Ok((row.get(0)?, row.get(1)?, row.get(2)?, row.get(3)?, row.get(4)?))
        })
        .unwrap();
    rows.map(|row| row.unwrap()).collect()
}

#[test]
fn load_candidates_filters_to_closed_unarchived_subagents() {
    let conn = fixture_db();

    let candidates =
        load_candidates(&edges(&conn), &threads(&conn), Some("parent-1"), false).unwrap();

    assert_eq!(candidates.len(), 1);
    assert_eq!(candidates[0].thread_id, "child-closed");
}

#[test]
fn load_candidates_requires_parent_without_all_flag() {
    let conn = fixture_db();

    let error = load_candidates(&edges(&conn), &threads(&conn), None, false).unwrap_err();

    assert!(
        error.message().contains("missing parent thread id"),
        "{}",
        error.message()
    );
}

#[test]
fn direct_archive_sets_archived_and_archived_at() {
    let conn = fixture_db();

    let mut rows = records(&conn);
    let changed = direct_archive(&mut rows, &["child-closed".to_string()], 1_700_000_000);
    write_back(&conn, &rows, &changed);

    let (archived, archived_at): (i64, Option<i64>) = conn
        .query_row(
            "SELECT archived, archived_at FROM threads WHERE id = 'child-closed'",
            [],
            |row| Ok((row.get(0)?, row.get(1)?)),
        )
        .unwrap();

    assert_eq!(archived, 1);
    assert!(archived_at.is_some());
    assert_eq!(archived_at, Some(1_700_000_000));
}

#[test]
fn selection_agrees_with_a_join_in_sql() {
    let conn = large_db();
    for parent in [None, Some("parent-0"), Some("parent-1"), Some("parent-4"), Some("nobody")] {
        let expected = selected_by_sql(&conn, parent);
        let found =
            load_candidates(&edges(&conn), &threads(&conn), parent, parent.is_none()).unwrap();
        let found: Vec<_> = found.iter().map(columns).collect();
        assert_eq!(found, expected);
    }
    assert!(selected_by_sql(&conn, None).len() > 20);
    assert!(selected_by_sql(&conn, Some("parent-1")).len() > 2);
}

#[test]
fn update_agrees_with_an_update_in_sql() {
    let in_sql = large_db();
    let ids: Vec<String> = (0..300)
        .filter(|n| n % 2 == 0)
        .map(|n| format!("thread-{n}"))
        .chain(["thread-2".to_string(), "no-such-thread".to_string()])
        .collect();
    let mut changed_by_sql = 0;
    for id in &ids {
        changed_by_sql += in_sql
            .execute(
                "UPDATE threads
                 SET archived = 1, archived_at = COALESCE(archived_at, ?1)
                 WHERE id = ?2 AND archived = 0",
                (5000i64, id),
            )
            .unwrap();
    }

    let conn = large_db();
    let mut rows = records(&conn);
    let changed = direct_archive(&mut rows, &ids, 5000);
    write_back(&conn, &rows, &changed);

    assert_eq!(changed.len(), changed_by_sql);
    assert!(changed_by_sql > 20);
    assert_eq!(thread_columns(&conn), thread_columns(&in_sql));
}

#[test]
fn archiving_all_candidates_leaves_none() {
    let conn = large_db();
    let candidates = load_candidates(&edges(&conn), &threads(&conn), None, true).unwrap();
    let ids: Vec<String> = candidates.iter().map(|c| c.thread_id.clone()).collect();
    assert_eq!(unarchived_candidate_ids(&records(&conn), &candidates).unwrap(), ids);

    let mut rows = records(&conn);
    let changed = direct_archive(&mut rows, &ids, 9);
    write_back(&conn, &rows, &changed);

    assert_eq!(changed.len(), ids.len());
    assert!(unarchived_candidate_ids(&records(&conn), &candidates).unwrap().is_empty());
    assert!(load_candidates(&edges(&conn), &threads(&conn), None, true).unwrap().is_empty());
}

/// A database without the constraints of the schema, so that any column can hold
/// anything.
fn loose_db() -> Connection {
    let conn = Connection::open_in_memory().unwrap();
    conn.execute_batch(&SCHEMA.replace("NOT NULL", "").replace("PRIMARY KEY", "UNIQUE")).unwrap();
    conn
}

#[test]
fn rows_that_are_not_selected_may_hold_anything() {
    let conn = loose_db();
    insert_thread(&conn, "fine", 7, "Fine", 0, None, Some("Ada"));
    insert_edge(&conn, "p", "fine", "closed");
    conn.execute_batch(
        "
        INSERT INTO threads (id, created_at, title, archived, agent_nickname) VALUES
            ('null-archived', 1, 'T', NULL, 'x'),
            ('text-archived', 2, 'T', 'no', 'x'),
            ('real-archived', 3, 'T', 0.5, 'x'),
            ('archived', NULL, NULL, 1, x'00'),
            ('unnamed', x'00', NULL, 0, NULL),
            ('null-status', 'never', x'00', 0, 'x'),
            ('blob-status', 4, NULL, 0, 'x'),
            ('unspawned', NULL, NULL, NULL, NULL);
        INSERT INTO thread_spawn_edges (parent_thread_id, child_thread_id, status) VALUES
            ('p', 'null-archived', 'closed'),
            ('p', 'text-archived', 'closed'),
            ('p', 'real-archived', 'closed'),
            (NULL, 'archived', 'closed'),
            (x'00', 'unnamed', 'closed'),
            ('p', 'null-status', NULL),
            ('p', 'blob-status', CAST('closed' AS BLOB)),
            (NULL, 'no-such-thread', NULL);
        ",
    )
    .unwrap();

    for parent in [None, Some("p")] {
        let found =
            load_candidates(&edges(&conn), &threads(&conn), parent, parent.is_none()).unwrap();
        let found: Vec<_> = found.iter().map(columns).collect();
        assert_eq!(found, selected_by_sql(&conn, parent));
        assert_eq!(found.len(), 1);
    }
}

#[test]
fn a_selected_row_has_to_be_readable() {
    let conn = loose_db();
    insert_thread(&conn, "late", 9, "Late", 0, None, Some("Ada"));
    insert_edge(&conn, "p", "late", "closed");
    conn.execute_batch(
        "
        INSERT INTO threads (id, created_at, title, archived, agent_nickname) VALUES
            ('untitled', 5, NULL, 0, 'x'),
            ('odd-name', 4, 'T', 0, x'00');
        INSERT INTO thread_spawn_edges (parent_thread_id, child_thread_id, status) VALUES
            ('p', 'untitled', 'closed'),
            ('q', 'odd-name', 'closed');
        ",
    )
    .unwrap();
    let load = |parent: Option<&str>| {
        load_candidates(&edges(&conn), &threads(&conn), parent, parent.is_none())
    };
    assert_eq!(
        load(Some("p")).unwrap_err().message(),
        "Invalid column type Null at index: 4, name: title"
    );
    assert_eq!(
        load(None).unwrap_err().message(),
        "Invalid column type Blob at index: 3, name: agent_nickname"
    );
    assert!(matches!(load(Some("q")), Err(ArchiveError::Database { .. })));
    assert!(load(Some("nobody")).unwrap().is_empty());
}

#[test]
fn any_creation_time_has_its_place() {
    let conn = loose_db();
    for (id, created_at) in [
        ("blob", "x'00'"),
        ("text", "'soon'"),
        ("real", "1.5"),
        ("two", "2"),
        ("one", "1"),
        ("null", "NULL"),
    ] {
        conn.execute_batch(&format!(
            "INSERT INTO threads (id, created_at, title, archived, agent_nickname)
             VALUES ('{id}', {created_at}, 'T', 0, 'x')"
        ))
        .unwrap();
        insert_edge(&conn, "p", id, "closed");
    }
    let found = load_candidates(&edges(&conn), &threads(&conn), None, true).unwrap();
    let ids: Vec<_> = found.iter().map(|c| c.thread_id.as_str()).collect();
    assert_eq!(ids, ["null", "one", "real", "two", "text", "blob"]);
    let found: Vec<_> = found.iter().map(columns).collect();
    assert_eq!(found, selected_by_sql(&conn, None));
}

#[test]
fn an_archive_time_of_another_type_is_kept() {
    let conn = loose_db();
    conn.execute_batch(
        "INSERT INTO threads (id, title, archived, archived_at) VALUES ('a', 'T', 0, 'noon')",
    )
    .unwrap();
    let mut rows = records(&conn);
    let changed = direct_archive(&mut rows, &["a".to_string()], 5);
    assert_eq!(changed, [0]);
    write_back(&conn, &rows, &changed);
    let (archived, archived_at): (i64, String) = conn
        .query_row("SELECT archived, archived_at FROM threads", [], |row| {
            Ok((row.get(0)?, row.get(1)?))
        })
        .unwrap();
    assert_eq!((archived, archived_at.as_str()), (1, "noon"));
}

#[test]
fn a_selected_thread_id_has_to_be_readable() {
    for (id, shown) in [
        ("x'6162'", "Invalid column type Blob at index: 1, name: thread_id"),
        ("CAST(x'ff61' AS TEXT)", "invalid utf-8 sequence of 1 bytes from index 0"),
    ] {
        let conn = loose_db();
        insert_thread(&conn, "fine", 1, "Fine", 0, None, Some("Ada"));
        insert_edge(&conn, "p", "fine", "closed");
        conn.execute_batch(&format!(
            "
            INSERT INTO threads (id, created_at, title, archived, agent_nickname)
                VALUES ({id}, 5, NULL, 0, 'x');
            INSERT INTO thread_spawn_edges (parent_thread_id, child_thread_id, status)
                VALUES ('q', {id}, 'closed');
            "
        ))
        .unwrap();
        let load = |parent: Option<&str>| {
            load_candidates(&edges(&conn), &threads(&conn), parent, parent.is_none())
        };
        for parent in [None, Some("q")] {
            match load(parent) {
                Err(ArchiveError::Database { cause }) => {
                    assert!(cause.contains(shown), "{cause}")
                }
                other => panic!("{other:?}"),
            }
        }
        assert_eq!(load(Some("p")).unwrap().len(), 1);

        conn.execute_batch("UPDATE thread_spawn_edges SET status = 'open' WHERE status = 'closed'")
            .unwrap();
        assert!(load(None).unwrap().is_empty());
    }
}

#[test]
fn an_unreadable_id_leads_to_no_other_thread() {
    let conn = loose_db();
    conn.execute_batch(
        "
        INSERT INTO threads (id, created_at, title, archived, agent_nickname) VALUES
            ('ab', 1, 'T', 0, 'x'),
            (x'6163', 2, 'T', 0, 'x'),
            (CAST(x'ff' AS TEXT), 3, 'T', 0, 'x'),
            (NULL, 4, 'T', 0, 'x');
        INSERT INTO thread_spawn_edges (parent_thread_id, child_thread_id, status) VALUES
            ('p', x'6162', 'closed'),
            ('p', x'ff', 'closed'),
            ('p', NULL, 'closed');
        ",
    )
    .unwrap();
    assert!(selected_by_sql(&conn, None).is_empty());
    assert!(load_candidates(&edges(&conn), &threads(&conn), None, true).unwrap().is_empty());
}
