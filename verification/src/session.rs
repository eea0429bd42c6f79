//! The app-server session that archives the candidates one by one.

use crate::app_server;
use crate::app_server::{AppServerClient, Reply, Request, ServerEvent, ServerPipes};
use crate::error::ArchiveError;
use crate::json;
use crate::model;
use crate::model::Candidate;
use crate::text;
use vstd::prelude::*;

verus! {

/// A session whose latest request waits for its reply.
#[derive(Debug)]
pub struct ServerSession {
    pub client: AppServerClient,
    /// The request that waits.
    pub pending: Request,
    /// How many requests were answered so far.
    pub answered: usize,
}

/// What can happen in a session.
#[derive(Debug)]
pub enum SessionEvent {
    /// The latest request cannot be written, with the cause.
    SendFailed(String),
    /// Something came of the app-server, or the time is over.
    Server(ServerEvent),
}

/// What to do next in a session.
#[derive(Debug)]
pub enum SessionAction {
    /// Write this line, and wait.
    Send(String),
    /// Wait on.
    Wait,
    /// End the app-server: all is done.
    Close,
    /// End the app-server: the session failed.
    Fail(ArchiveError),
}

/// The method of a session's request with `earlier` requests before it.
pub open spec fn session_method(earlier: nat) -> Seq<char> {
    if earlier == 0 {
        "initialize"@
    } else {
        "thread/archive"@
    }
}

/// The parameters of a session's request with `earlier` requests before it: the
/// first opens the session, and each other one archives the next candidate.
pub open spec fn session_params(candidates: Seq<model::CandidateView>, earlier: nat) -> Seq<char> {
    if earlier == 0 {
        app_server::initialize_params()
    } else {
        app_server::archive_params(candidates[earlier - 1].thread_id)
    }
}

/// The line of a session's request with `earlier` requests before it.
pub open spec fn session_line(candidates: Seq<model::CandidateView>, earlier: nat) -> Seq<char> {
    app_server::request_line(
        text::decimal(earlier + 1),
        session_method(earlier),
        session_params(candidates, earlier),
    )
}

impl ServerSession {
    /// Whether the session is under way: what it waits for is the request that
    /// follows the answered ones.
    pub open spec fn is_under_way(self, candidates: Seq<model::CandidateView>) -> bool {
        &&& self.answered <= candidates.len()
        &&& self.client.stdin_open
        &&& self.client.next_id == self.answered + 2
        &&& self.pending.id@ == text::decimal((self.answered + 1) as nat)
        &&& self.pending.method@ == session_method(self.answered as nat)
        &&& self.pending.line@ == session_line(candidates, self.answered as nat)
    }

    /// Opens a session with the app-server. `started` tells which of its
    /// streams are there, or why it did not start.
    pub fn start(
        started: Result<ServerPipes, String>,
        timeout_seconds: u64,
        timeout_nanos: u32,
    ) -> (r: Result<ServerSession, ArchiveError>)
        ensures
            match started {
                Err(message) => r matches Err(ArchiveError::ServerStart { cause }) && cause@
                    == message@,
                Ok(pipes) => if !pipes.stdin {
                    r matches Err(ArchiveError::ServerStdin)
                } else if !pipes.stdout {
                    r matches Err(ArchiveError::ServerStdout)
                } else if !pipes.stderr {
                    r matches Err(ArchiveError::ServerStderr)
                } else {
                    r matches Ok(session) && session.answered == 0
                        && session.client.timeout_seconds == timeout_seconds
                        && session.client.timeout_nanos == timeout_nanos && forall|
                        candidates: Seq<model::CandidateView>,
                    | #[trigger]
                        session.is_under_way(candidates)
                },
            },
    {
        match AppServerClient::spawn(started, timeout_seconds, timeout_nanos) {
            Ok(mut client) => match client.initialize() {
                Ok(pending) => Ok(ServerSession { client, pending, answered: 0 }),
                Err(error) => Err(error),
            },
            Err(error) => Err(error),
        }
    }
}

/// Whether `action` and the session `after` are what `reply` leads to.
pub open spec fn follows_reply(
    before: ServerSession,
    after: ServerSession,
    candidates: Seq<model::CandidateView>,
    reply: Reply,
    action: SessionAction,
) -> bool {
    match reply {
        Reply::Pending => after == before && action is Wait,
        Reply::Failed(error) => after == before && action == SessionAction::Fail(error),
        Reply::Answered(_) => if before.answered < candidates.len() {
            &&& after.is_under_way(candidates)
            &&& after.answered == before.answered + 1
            &&& after.client.timeout_seconds == before.client.timeout_seconds
            &&& after.client.timeout_nanos == before.client.timeout_nanos
            &&& action matches SessionAction::Send(line) && line@ == session_line(
                candidates,
                after.answered as nat,
            )
        } else {
            &&& after == ServerSession {
                client: AppServerClient { stdin_open: false, ..before.client },
                ..before
            }
            &&& action is Close
        },
    }
}

/// Whether `action` and the session `after` are what `event` leads to.
pub open spec fn follows_event(
    before: ServerSession,
    after: ServerSession,
    candidates: Seq<model::CandidateView>,
    event: SessionEvent,
    stderr: Seq<char>,
    action: SessionAction,
) -> bool {
    match event {
        SessionEvent::SendFailed(message) => {
            &&& after == before
            &&& action matches SessionAction::Fail(ArchiveError::Send { cause }) && cause@
                == message@
        },
        SessionEvent::Server(event) => exists|reply: Reply| #[trigger]
            app_server::event_settles(
                event,
                before.pending.id@,
                before.pending.method@,
                before.client.timeout_seconds,
                stderr,
                reply,
            ) && follows_reply(before, after, candidates, reply, action),
    }
}

/// Takes the session one step further. Once a request is answered, the next
/// candidate's thread is to be archived; after the last one the session ends.
/// Whatever fails ends the session. `stderr_buffer` is what the app-server has
/// written to its standard error.
pub fn archive_via_app_server(
    session: &mut ServerSession,
    candidates: &[Candidate],
    event: SessionEvent,
    stderr_buffer: &str,
) -> (action: SessionAction)
    requires
        old(session).is_under_way(model::candidate_views(candidates@)),
        candidates@.len() + 2 <= u64::MAX,
    ensures
        follows_event(
            *old(session),
            *final(session),
            model::candidate_views(candidates@),
            event,
            stderr_buffer@,
            action,
        ),
        (event matches SessionEvent::Server(ServerEvent::Line(line)) && is_good_reply(
            line@,
            old(session).pending.id@,
        )) ==> if old(session).answered < candidates@.len() {
            action is Send && final(session).answered == old(session).answered + 1
        } else {
            action is Close
        },
{
    let event: ServerEvent = match event {
        SessionEvent::SendFailed(cause) => {
            return SessionAction::Fail(ArchiveError::Send { cause });
        },
        SessionEvent::Server(event) => event,
    };
    let reply: Reply = session.client.on_event(&session.pending, event, stderr_buffer);
    match reply {
        Reply::Pending => SessionAction::Wait,
        Reply::Failed(error) => SessionAction::Fail(error),
        Reply::Answered(_) => {
            let next: usize = session.answered;
            if next < candidates.len() {
                match session.client.archive_thread(candidates[next].thread_id.as_str()) {
                    Ok(request) => {
                        let line: String = request.line.clone();
                        session.pending = request;
                        session.answered = next + 1;
                        SessionAction::Send(line)
                    },
                    Err(error) => SessionAction::Fail(error),
                }
            } else {
                session.client.close();
                SessionAction::Close
            }
        },
    }
}

/// One step of a session.
pub ghost struct SessionStep {
    pub before: ServerSession,
    pub event: SessionEvent,
    pub stderr: Seq<char>,
    pub action: SessionAction,
    pub after: ServerSession,
}

/// Whether `steps` are the first steps of a session, from its opening on.
pub open spec fn is_session_run(
    candidates: Seq<model::CandidateView>,
    steps: Seq<SessionStep>,
) -> bool
    decreases steps.len(),
{
    if steps.len() == 0 {
        true
    } else {
        let earlier = steps.drop_last();
        let last = steps.last();
        &&& is_session_run(candidates, earlier)
        &&& if earlier.len() == 0 {
            last.before.answered == 0 && last.before.is_under_way(candidates)
        } else {
            last.before == earlier.last().after && (earlier.last().action is Send
                || earlier.last().action is Wait)
        }
        &&& follows_event(
            last.before,
            last.after,
            candidates,
            last.event,
            last.stderr,
            last.action,
        )
    }
}

/// The lines that `steps` have written to the app-server.
pub open spec fn sent_lines(steps: Seq<SessionStep>) -> Seq<Seq<char>>
    decreases steps.len(),
{
    if steps.len() == 0 {
        Seq::empty()
    } else {
        let earlier = sent_lines(steps.drop_last());
        match steps.last().action {
            SessionAction::Send(line) => earlier.push(line@),
            _ => earlier,
        }
    }
}

/// Behind its opening request, a session asks to archive the candidates' threads
/// in their order, each once, under ever new ids. It ends well only after the
/// last of them.
pub proof fn law_session_archives_in_order(
    candidates: Seq<model::CandidateView>,
    steps: Seq<SessionStep>,
)
    requires
        is_session_run(candidates, steps),
    ensures
        sent_lines(steps).len() <= candidates.len(),
        forall|k: int|
            0 <= k < sent_lines(steps).len() ==> #[trigger] sent_lines(steps)[k]
                == app_server::request_line(
                text::decimal((k + 2) as nat),
                "thread/archive"@,
                app_server::archive_params(candidates[k].thread_id),
            ),
        steps.len() > 0 && steps.last().action is Close ==> sent_lines(steps).len()
            == candidates.len(),
    decreases steps.len(),
{
    if steps.len() > 0 {
        lemma_session_progress(candidates, steps);
        law_session_archives_in_order(candidates, steps.drop_last());
    }
}

/// The request that waits is the one after the lines written.
proof fn lemma_session_progress(candidates: Seq<model::CandidateView>, steps: Seq<SessionStep>)
    requires
        is_session_run(candidates, steps),
        steps.len() > 0,
    ensures
        steps.last().before.is_under_way(candidates),
        sent_lines(steps.drop_last()).len() == steps.last().before.answered,
        sent_lines(steps).len() == steps.last().after.answered,
    decreases steps.len(),
{
    let earlier = steps.drop_last();
    let last = steps.last();
    if earlier.len() > 0 {
        reveal_with_fuel(is_session_run, 2);
        lemma_session_progress(candidates, earlier);
        lemma_waiting_session(candidates, earlier.last());
    }
    lemma_step_counts(candidates, last);
    assert(sent_lines(earlier).len() == last.before.answered);
    match last.action {
        SessionAction::Send(line) => {
            assert(sent_lines(steps) == sent_lines(earlier).push(line@));
        },
        _ => {
            assert(sent_lines(steps) == sent_lines(earlier));
        },
    }
}

/// A step that ends in a request or in waiting leaves the session under way.
proof fn lemma_waiting_session(candidates: Seq<model::CandidateView>, step: SessionStep)
    requires
        step.before.is_under_way(candidates),
        follows_event(
            step.before,
            step.after,
            candidates,
            step.event,
            step.stderr,
            step.action,
        ),
        step.action is Send || step.action is Wait,
    ensures
        step.after.is_under_way(candidates),
{
    match step.event {
        SessionEvent::SendFailed(_) => {},
        SessionEvent::Server(event) => {
            let reply = choose|reply: Reply| #[trigger]
                app_server::event_settles(
                    event,
                    step.before.pending.id@,
                    step.before.pending.method@,
                    step.before.client.timeout_seconds,
                    step.stderr,
                    reply,
                ) && follows_reply(step.before, step.after, candidates, reply, step.action);
            match reply {
                Reply::Pending => {
                    assert(step.after == step.before);
                },
                Reply::Failed(_) => {},
                Reply::Answered(_) => {},
            }
        },
    }
}

/// A step counts one more answer exactly when it writes a line.
proof fn lemma_step_counts(candidates: Seq<model::CandidateView>, step: SessionStep)
    requires
        step.before.is_under_way(candidates),
        follows_event(
            step.before,
            step.after,
            candidates,
            step.event,
            step.stderr,
            step.action,
        ),
    ensures
        step.after.answered == step.before.answered + if step.action is Send {
            1int
        } else {
            0int
        },
{
    match step.event {
        SessionEvent::SendFailed(_) => {},
        SessionEvent::Server(event) => {
            let reply = choose|reply: Reply| #[trigger]
                app_server::event_settles(
                    event,
                    step.before.pending.id@,
                    step.before.pending.method@,
                    step.before.client.timeout_seconds,
                    step.stderr,
                    reply,
                ) && follows_reply(step.before, step.after, candidates, reply, step.action);
            match reply {
                Reply::Pending => {
                    assert(step.after == step.before);
                },
                Reply::Failed(_) => {
                    assert(step.after == step.before);
                },
                Reply::Answered(_) => {
                    if step.before.answered < candidates.len() {
                        assert(step.action is Send);
                    } else {
                        assert(step.action is Close);
                    }
                },
            }
        },
    }
}

/// A session opens with the request that introduces the client, under the number
/// one. It opens exactly where the app-server started with all its streams.
pub proof fn law_how_a_session_opens(
    started: Result<ServerPipes, String>,
    timeout_seconds: u64,
    timeout_nanos: u32,
    r: Result<ServerSession, ArchiveError>,
)
    requires
        call_ensures(ServerSession::start, (started, timeout_seconds, timeout_nanos), r),
    ensures
        r is Ok <==> match started {
            Ok(pipes) => pipes.stdin && pipes.stdout && pipes.stderr,
            Err(_) => false,
        },
        r matches Ok(session) ==> ({
            &&& session.answered == 0
            &&& session.client.next_id == 2
            &&& session.client.stdin_open
            &&& session.client.timeout_seconds == timeout_seconds
            &&& session.client.timeout_nanos == timeout_nanos
            &&& text::number(session.pending.id@) == 1
            &&& session.pending.method@ == "initialize"@
            &&& session.pending.line@ == "{\"id\":"@ + json::json_quoted(session.pending.id@)
                + ",\"method\":"@ + json::json_quoted("initialize"@) + ",\"params\":"@ + (
            "{\"capabilities\":null,\"clientInfo\":{\"name\":\""@
                + "codex-archive-subagent-threads"@ + "\",\"version\":\""@
                + app_server::CLIENT_VERSION@ + "\"}}"@) + "}"@ + "\n"@
        }),
        r matches Err(error) ==> match started {
            Err(message) => error matches ArchiveError::ServerStart { cause } && cause@
                == message@,
            Ok(pipes) => if !pipes.stdin {
                error is ServerStdin
            } else if !pipes.stdout {
                error is ServerStdout
            } else {
                error is ServerStderr
            },
        },
{
    match r {
        Ok(session) => {
            assert(session.is_under_way(Seq::empty()));
            text::law_decimal_is_digits(1);
            app_server::law_initialize_line(text::decimal(1));
        },
        Err(_) => {},
    }
}

/// Whether `line` is a reply to the request `id` without an error.
pub open spec fn is_good_reply(line: Seq<char>, id: Seq<char>) -> bool {
    match json::json_outcome(line) {
        Ok(document) => {
            &&& match json::json_member(document, "id"@) {
                Some(member) => json::json_string(member) == Some(id),
                None => false,
            }
            &&& json::json_member(document, "error"@) is None
        },
        Err(_) => false,
    }
}

/// A reply without an error leads on: the next candidate's thread is asked to be
/// archived, under the next number, while there is one, and else the session
/// closes. It is never waited on, and never a failure.
pub proof fn law_good_reply_leads_on(
    before: ServerSession,
    after: ServerSession,
    candidates: Seq<Candidate>,
    line: String,
    stderr: Seq<char>,
    action: SessionAction,
)
    requires
        before.is_under_way(model::candidate_views(candidates)),
        follows_event(
            before,
            after,
            model::candidate_views(candidates),
            SessionEvent::Server(ServerEvent::Line(line)),
            stderr,
            action,
        ),
        is_good_reply(line@, before.pending.id@),
    ensures
        before.answered < candidates.len() ==> ({
            &&& action matches SessionAction::Send(sent) && sent@ == "{\"id\":"@
                + json::json_quoted(after.pending.id@) + ",\"method\":"@ + json::json_quoted(
                "thread/archive"@,
            ) + ",\"params\":"@ + ("{\"threadId\":"@ + json::json_quoted(
                candidates[before.answered as int].thread_id@,
            ) + "}"@) + "}"@ + "\n"@ && after.pending.line@ == sent@
            &&& text::number(after.pending.id@) == before.answered + 2
            &&& after.pending.method@ == "thread/archive"@
            &&& after.answered == before.answered + 1
            &&& after.client.stdin_open
            &&& after.client.timeout_seconds == before.client.timeout_seconds
            &&& after.client.timeout_nanos == before.client.timeout_nanos
        }),
        before.answered >= candidates.len() ==> action is Close && !after.client.stdin_open
            && after.answered == before.answered,
{
    let all = model::candidate_views(candidates);
    let event = ServerEvent::Line(line);
    let reply = choose|reply: Reply| #[trigger]
        app_server::event_settles(
            event,
            before.pending.id@,
            before.pending.method@,
            before.client.timeout_seconds,
            stderr,
            reply,
        ) && follows_reply(before, after, all, reply, action);
    assert(reply is Answered);
    if before.answered < candidates.len() {
        let n = after.answered as nat;
        assert(all[before.answered as int] == candidates[before.answered as int]@);
        text::law_decimal_is_digits(n + 1);
        app_server::law_archive_line(
            text::decimal(n + 1),
            candidates[before.answered as int].thread_id@,
        );
    }
}

/// A line that is no reply to the waiting request changes nothing, and the session
/// waits on. A reply with an error fails the session, with the method and the error.
/// So does whatever else happens, with its own message.
pub proof fn law_other_events_wait_or_fail(
    before: ServerSession,
    after: ServerSession,
    candidates: Seq<model::CandidateView>,
    event: SessionEvent,
    stderr: Seq<char>,
    action: SessionAction,
)
    requires
        follows_event(before, after, candidates, event, stderr, action),
        !(event matches SessionEvent::Server(ServerEvent::Line(line)) && is_good_reply(
            line@,
            before.pending.id@,
        )),
    ensures
        after == before,
        ({
            let shown = if stderr.len() == 0 {
                "<no stderr>"@
            } else {
                stderr
            };
            match event {
                SessionEvent::SendFailed(told) => action matches SessionAction::Fail(
                    ArchiveError::Send { cause },
                ) && cause@ == told@,
                SessionEvent::Server(ServerEvent::TimedOut) => action matches SessionAction::Fail(
                    ArchiveError::Timeout { method, seconds, stderr: s },
                ) && method@ == before.pending.method@ && seconds == before.client.timeout_seconds
                    && s@ == shown,
                SessionEvent::Server(ServerEvent::Disconnected) =>
                    action matches SessionAction::Fail(
                    ArchiveError::StdoutClosed { method, stderr: s },
                ) && method@ == before.pending.method@ && s@ == shown,
                SessionEvent::Server(ServerEvent::ReadFailed(told)) =>
                    action matches SessionAction::Fail(ArchiveError::Receive { cause }) && cause@
                    == told@,
                SessionEvent::Server(ServerEvent::Line(line)) => match json::json_outcome(line@) {
                    Err(told) => action matches SessionAction::Fail(
                        ArchiveError::InvalidJson { line: read, cause },
                    ) && read@ == line@ && cause@ == told,
                    Ok(document) => {
                        let own = match json::json_member(document, "id"@) {
                            Some(member) => json::json_string(member) == Some(before.pending.id@),
                            None => false,
                        };
                        if own {
                            action matches SessionAction::Fail(
                                ArchiveError::ServerError { method, error },
                            ) && method@ == before.pending.method@ && json::json_member(
                                document,
                                "error"@,
                            ) == Some(error@)
                        } else {
                            action is Wait
                        }
                    },
                },
            }
        }),
{
    match event {
        SessionEvent::SendFailed(_) => {},
        SessionEvent::Server(event) => {
            let reply = choose|reply: Reply| #[trigger]
                app_server::event_settles(
                    event,
                    before.pending.id@,
                    before.pending.method@,
                    before.client.timeout_seconds,
                    stderr,
                    reply,
                ) && follows_reply(before, after, candidates, reply, action);
            assert(!(reply is Answered));
        },
    }
}

/// Where every request is answered without an error, a session asks for one more
/// candidate's thread with each reply, and closes with the reply after the last: for
/// `n` candidates, it has written all `n` requests and closed after `n + 1` replies.
pub proof fn law_answered_session_archives_all(
    candidates: Seq<Candidate>,
    steps: Seq<SessionStep>,
)
    requires
        is_session_run(model::candidate_views(candidates), steps),
        steps.len() > 0,
        forall|k: int|
            0 <= k < steps.len() ==> {
                &&& (#[trigger] steps[k]).event matches SessionEvent::Server(
                    ServerEvent::Line(line),
                ) && is_good_reply(line@, steps[k].before.pending.id@)
            },
    ensures
        steps.len() <= candidates.len() + 1,
        steps.len() <= candidates.len() ==> steps.last().action is Send && sent_lines(steps).len()
            == steps.len(),
        steps.len() == candidates.len() + 1 ==> steps.last().action is Close && sent_lines(
            steps,
        ).len() == candidates.len(),
    decreases steps.len(),
{
    let all = model::candidate_views(candidates);
    let earlier = steps.drop_last();
    let last = steps.last();
    assert(last == steps[steps.len() - 1]);
    lemma_session_progress(all, steps);
    match last.event {
        SessionEvent::Server(ServerEvent::Line(line)) => {
            law_good_reply_leads_on(
                last.before,
                last.after,
                candidates,
                line,
                last.stderr,
                last.action,
            );
        },
        _ => {},
    }
    if earlier.len() > 0 {
        assert forall|k: int| 0 <= k < earlier.len() implies {
            &&& (#[trigger] earlier[k]).event matches SessionEvent::Server(ServerEvent::Line(line))
                && is_good_reply(line@, earlier[k].before.pending.id@)
        } by {
            assert(earlier[k] == steps[k]);
        }
        law_answered_session_archives_all(candidates, earlier);
    }
}

} // verus!
