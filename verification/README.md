# codex-archive-subagent-threads

Finds completed Codex subagent threads, archives them, and verifies the
resulting state. The decisions are a library verified with Verus; a small
program around it does the reading, writing and printing.

## The library (`src/`)

| module | what it decides |
| --- | --- |
| `selection` | which rows of the two tables are candidates, and in which order |
| `archiving` | what the thread table records, and how a direct update changes it |
| `workflow` | the steps of a run: app-server, direct update, verification |
| `session` | the app-server session that archives the candidates one by one |
| `app_server` | requests, replies, timeouts, and the end of the process |
| `report` | dry runs, reports and their text |
| `startup` | the Codex home directory, the parent thread, the database file |
| `clock` | archive times |
| `error` | failures and their messages |
| `model`, `text`, `json` | rows and candidates, text helpers, JSON values |

The functions whose names start with `law_` state what holds of the library as a
whole. Among them:

- archiving changes only the two archive columns of the threads asked for, and
  deletes nothing;
- a row that is not selected cannot fail a run, whatever its columns hold;
- a run that succeeds has seen every candidate recorded as archived, and the next
  run finds nothing to do;
- a run reports the fallback exactly when it went past the app-server;
- a session asks for each candidate once, in order, under ids of its own,
  and each request is one line whose text is known letter for letter.

Not proved, but taken from their documentation, are the `serde_json` calls in
`json` and the `std::time` calls in `clock`.

## The program (`app/`)

`main` parses the arguments and carries a run out step by step, `database` reads
and writes rows, `server` runs the app-server process, and `output` prints.

## Safety

Direct SQLite writes are a fallback, not a public Codex storage interface. Before
a run that is not a dry run, pause other writers and back up the state database
with its `-wal` and `-shm` files.
