//! The app-server protocol and the session.

use codex_archive_subagent_threads::app_server::{
    append_stderr_line, close_on_clock, close_on_status, read_message, server_command, settle,
    stderr, AppServerClient, CloseAction, Message, ProcessStatus, Reply, Request, ServerEvent,
    ServerPipes,
};
use codex_archive_subagent_threads::session::{ServerSession, SessionAction, SessionEvent};
use codex_archive_subagent_threads::{archive_via_app_server, ArchiveError, Candidate};
use serde_json::Value;

fn pipes(stdin: bool, stdout: bool, stderr: bool) -> Result<ServerPipes, String> {
    Ok(ServerPipes { stdin, stdout, stderr })
}

fn client() -> AppServerClient {
    AppServerClient::spawn(pipes(true, true, true), 10, 0).unwrap()
}

fn waiting(id: &str, method: &str) -> Request {
    Request { id: id.to_string(), method: method.to_string(), line: String::new() }
}

fn candidate(id: &str) -> Candidate {
    Candidate {
        parent_thread_id: "p".to_string(),
        thread_id: id.to_string(),
        status: "closed".to_string(),
        agent_nickname: None,
        title: "T".to_string(),
    }
}

fn line(text: &str) -> ServerEvent {
    ServerEvent::Line(text.to_string())
}

fn failure(reply: Reply) -> ArchiveError {
    match reply {
        Reply::Failed(error) => error,
        other => panic!("no failure: {other:?}"),
    }
}

#[test]
fn the_command_listens_on_standard_streams() {
    let (program, args) = server_command();
    assert_eq!(program, "codex");
    assert_eq!(args, ["app-server", "--listen", "stdio://"]);
}

#[test]
fn the_first_request_introduces_the_client() {
    let mut client = client();
    let request = client.initialize().unwrap();
    assert_eq!(request.id, "1");
    assert_eq!(request.method, "initialize");
    assert_eq!(
        request.line,
        "{\"id\":\"1\",\"method\":\"initialize\",\"params\":{\"capabilities\":null,\
         \"clientInfo\":{\"name\":\"codex-archive-subagent-threads\",\"version\":\"0.1.0\"}}}\n"
    );
    assert_eq!(client.next_id, 2);
}

#[test]
fn an_archive_request_names_the_thread() {
    let mut client = client();
    client.next_id = 41;
    let request = client.archive_thread("thread \"7\"\n").unwrap();
    assert_eq!(request.id, "41");
    assert_eq!(request.method, "thread/archive");
    assert_eq!(
        request.line,
        "{\"id\":\"41\",\"method\":\"thread/archive\",\
         \"params\":{\"threadId\":\"thread \\\"7\\\"\\n\"}}\n"
    );
    let read: Value = serde_json::from_str(&request.line).unwrap();
    assert_eq!(read["params"]["threadId"].as_str(), Some("thread \"7\"\n"));
}

#[test]
fn any_thread_id_fits_on_one_line() {
    let mut client = client();
    let id = "q\" b\\ /\u{8}\t\n\u{c}\r\u{0}\u{b}\u{1f}\u{7f} \u{e9}\u{2028}\u{1f600}";
    let request = client.archive_thread(id).unwrap();
    assert_eq!(
        request.line,
        "{\"id\":\"1\",\"method\":\"thread/archive\",\"params\":{\"threadId\":\"\
         q\\\" b\\\\ /\\b\\t\\n\\f\\r\\u0000\\u000b\\u001f\u{7f} \u{e9}\u{2028}\u{1f600}\"}}\n"
    );
    assert_eq!(request.line.find('\n'), Some(request.line.len() - 1));
    let read: Value = serde_json::from_str(&request.line).unwrap();
    assert_eq!(read["params"]["threadId"].as_str(), Some(id));
}

#[test]
fn a_request_after_the_end_fails_and_uses_up_its_id() {
    let mut client = client();
    client.close();
    let error = client.archive_thread("a").unwrap_err();
    assert!(matches!(error, ArchiveError::StdinClosed));
    assert_eq!(client.next_id, 2);
    assert!(!client.stdin_open);
}

#[test]
fn a_client_needs_all_streams() {
    let start = |started| AppServerClient::spawn(started, 1, 2);
    assert!(matches!(start(pipes(false, false, false)), Err(ArchiveError::ServerStdin)));
    assert!(matches!(start(pipes(true, false, false)), Err(ArchiveError::ServerStdout)));
    assert!(matches!(start(pipes(true, true, false)), Err(ArchiveError::ServerStderr)));
    let error = start(Err("not found".to_string())).unwrap_err();
    assert_eq!(
        error.message(),
        "failed to start `codex app-server --listen stdio://`: not found"
    );
    let client = start(pipes(true, true, true)).unwrap();
    assert_eq!((client.next_id, client.timeout_seconds, client.timeout_nanos), (1, 1, 2));
    assert!(client.stdin_open);
}

#[test]
fn a_message_is_read_from_its_line() {
    let message = read_message(
        " { \"id\" : \"3\", \"error\": {\"code\": -1, \"a\": [1, 2]}, \"result\": \"ok\" } ",
    )
    .unwrap();
    assert_eq!(message.id.as_deref(), Some("3"));
    assert_eq!(message.error.as_deref(), Some("{\"a\":[1,2],\"code\":-1}"));
    assert_eq!(message.result.as_deref(), Some("\"ok\""));
}

#[test]
fn a_message_may_lack_every_member() {
    for text in ["{}", "[]", "7", "\"id\"", "null", "{\"id\":3}", "{\"id\":null}"] {
        let message = read_message(text).unwrap();
        assert!(message.id.is_none() && message.error.is_none() && message.result.is_none());
    }
}

#[test]
fn a_line_that_is_no_json_is_an_error() {
    let error = read_message("oops").unwrap_err();
    assert_eq!(
        error.message(),
        "invalid app-server JSON response: oops: expected value at line 1 column 1"
    );
}

#[test]
fn only_the_own_id_settles_a_request() {
    let message = |id: Option<&str>, error: Option<&str>, result: Option<&str>| Message {
        id: id.map(str::to_string),
        error: error.map(str::to_string),
        result: result.map(str::to_string),
    };
    assert!(matches!(settle(message(None, Some("e"), Some("r")), "1", "m"), Reply::Pending));
    assert!(matches!(settle(message(Some("2"), Some("e"), None), "1", "m"), Reply::Pending));
    assert!(matches!(settle(message(Some("01"), None, Some("r")), "1", "m"), Reply::Pending));
    let error = failure(settle(message(Some("1"), Some("{}"), Some("r")), "1", "m"));
    assert_eq!(error.message(), "app-server error on m: {}");
    match settle(message(Some("1"), None, Some("{\"a\":1}")), "1", "m") {
        Reply::Answered(result) => assert_eq!(result, "{\"a\":1}"),
        other => panic!("{other:?}"),
    }
    match settle(message(Some("1"), None, None), "1", "m") {
        Reply::Answered(result) => assert_eq!(result, "null"),
        other => panic!("{other:?}"),
    }
}

#[test]
fn events_settle_a_request() {
    let client = client();
    let request = waiting("2", "thread/archive");
    let reply = |event, stderr| client.on_event(&request, event, stderr);

    assert!(matches!(reply(line("{\"method\":\"note\"}"), ""), Reply::Pending));
    assert!(matches!(reply(line("{\"id\":2,\"result\":{}}"), ""), Reply::Pending));
    assert!(matches!(reply(line("{\"id\":\"1\",\"error\":{}}"), ""), Reply::Pending));
    assert!(matches!(reply(line("{\"id\":\"2\",\"result\":{}}"), ""), Reply::Answered(_)));
    assert_eq!(
        failure(reply(line("{\"id\":\"2\",\"error\":{\"message\":\"no\"}}"), "")).message(),
        "app-server error on thread/archive: {\"message\":\"no\"}"
    );
    assert_eq!(
        failure(reply(line("{\"id\":\"2\",\"error\":null}"), "")).message(),
        "app-server error on thread/archive: null"
    );
    assert_eq!(
        failure(reply(line("{"), "")).message(),
        "invalid app-server JSON response: {: EOF while parsing an object at line 1 column 1"
    );
    assert_eq!(
        failure(reply(ServerEvent::ReadFailed("bad utf-8".to_string()), "")).message(),
        "failed to read app-server stdout: bad utf-8"
    );
    assert_eq!(
        failure(reply(ServerEvent::Disconnected, "boom")).message(),
        "app-server stdout closed while handling thread/archive: boom"
    );
    assert_eq!(
        failure(reply(ServerEvent::TimedOut, "")).message(),
        "timed out waiting for app-server response to thread/archive after 10s: <no stderr>"
    );
}

#[test]
fn the_wait_shrinks_until_the_time_is_over() {
    let client = AppServerClient::spawn(pipes(true, true, true), 2, 5).unwrap();
    assert_eq!(client.remaining(0), Some(2_000_000_005));
    assert_eq!(client.remaining(2_000_000_000), Some(5));
    assert_eq!(client.remaining(2_000_000_005), Some(0));
    assert_eq!(client.remaining(2_000_000_006), None);
    assert_eq!(client.remaining(u128::MAX), None);
}

#[test]
fn standard_error_is_collected_line_by_line() {
    let mut buffer = String::new();
    assert_eq!(stderr(&buffer), "<no stderr>");
    append_stderr_line(&mut buffer, "");
    assert_eq!(buffer, "");
    append_stderr_line(&mut buffer, "one");
    append_stderr_line(&mut buffer, "");
    append_stderr_line(&mut buffer, "two");
    assert_eq!(buffer, "one\n\ntwo");
    assert_eq!(stderr(&buffer), "one\n\ntwo");
}

#[test]
fn the_process_is_killed_when_it_does_not_end() {
    assert_eq!(close_on_clock(0), CloseAction::Poll);
    assert_eq!(close_on_clock(1999), CloseAction::Poll);
    assert_eq!(close_on_clock(2000), CloseAction::Kill);
    assert_eq!(close_on_status(ProcessStatus::Exited), CloseAction::Done);
    assert_eq!(close_on_status(ProcessStatus::Running), CloseAction::Sleep(25));
    assert_eq!(close_on_status(ProcessStatus::Unknown), CloseAction::Kill);
}

fn step(session: &mut ServerSession, candidates: &[Candidate], event: ServerEvent) -> SessionAction {
    archive_via_app_server(session, candidates, SessionEvent::Server(event), "")
}

fn sent(action: SessionAction) -> String {
    match action {
        SessionAction::Send(line) => line,
        other => panic!("nothing sent: {other:?}"),
    }
}

#[test]
fn a_session_archives_the_candidates_in_order() {
    let candidates = [candidate("a"), candidate("b")];
    let mut session = ServerSession::start(pipes(true, true, true), 10, 0).unwrap();
    assert!(session.pending.line.contains("\"initialize\""));

    let first = sent(step(&mut session, &candidates, line("{\"id\":\"1\",\"result\":{}}")));
    assert_eq!(
        first,
        "{\"id\":\"2\",\"method\":\"thread/archive\",\"params\":{\"threadId\":\"a\"}}\n"
    );
    let late = step(&mut session, &candidates, line("{\"id\":\"1\",\"result\":{}}"));
    assert!(matches!(late, SessionAction::Wait));
    let second = sent(step(&mut session, &candidates, line("{\"id\":\"2\"}")));
    assert_eq!(
        second,
        "{\"id\":\"3\",\"method\":\"thread/archive\",\"params\":{\"threadId\":\"b\"}}\n"
    );
    let end = step(&mut session, &candidates, line("{\"id\":\"3\",\"result\":null}"));
    assert!(matches!(end, SessionAction::Close));
    assert!(!session.client.stdin_open);
    assert_eq!(session.answered, 2);
}

#[test]
fn a_session_without_candidates_ends_after_its_opening() {
    let mut session = ServerSession::start(pipes(true, true, true), 10, 0).unwrap();
    let end = step(&mut session, &[], line("{\"id\":\"1\",\"result\":{}}"));
    assert!(matches!(end, SessionAction::Close));
}

#[test]
fn a_session_ends_with_the_first_failure() {
    let candidates = [candidate("a")];
    let mut session = ServerSession::start(pipes(true, true, true), 3, 0).unwrap();
    match step(&mut session, &candidates, ServerEvent::TimedOut) {
        SessionAction::Fail(error) => assert_eq!(
            error.message(),
            "timed out waiting for app-server response to initialize after 3s: <no stderr>"
        ),
        other => panic!("{other:?}"),
    }
    let failed = SessionEvent::SendFailed("broken pipe".to_string());
    match archive_via_app_server(&mut session, &candidates, failed, "") {
        SessionAction::Fail(error) => assert_eq!(error.message(), "broken pipe"),
        other => panic!("{other:?}"),
    }
    let error = ServerSession::start(Err("no codex".to_string()), 3, 0).unwrap_err();
    assert!(matches!(error, ArchiveError::ServerStart { .. }));
}
