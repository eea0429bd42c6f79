//! The client side of the app-server protocol: JSON requests and replies, one
//! per line.

use crate::error::ArchiveError;
use crate::json;
use crate::model;
use crate::text;
use serde_json::Value;
use vstd::prelude::*;

verus! {

/// The name under which the client introduces itself.
pub const CLIENT_NAME: &'static str = "codex-archive-subagent-threads";

/// The version under which the client introduces itself.
pub const CLIENT_VERSION: &'static str = "0.1.0";

/// A request that waits for its reply.
#[derive(Debug)]
pub struct Request {
    pub id: String,
    pub method: String,
    /// What is written to the app-server, with the line end.
    pub line: String,
}

/// The client's own state.
#[derive(Debug)]
pub struct AppServerClient {
    /// The id of the next request.
    pub next_id: u64,
    /// How long to wait for a reply: whole seconds, and the nanoseconds on top.
    pub timeout_seconds: u64,
    pub timeout_nanos: u32,
    /// Whether the app-server's standard input is still open.
    pub stdin_open: bool,
}

/// Which streams of the started app-server are there.
#[derive(Debug)]
pub struct ServerPipes {
    pub stdin: bool,
    pub stdout: bool,
    pub stderr: bool,
}

/// What can happen while a request waits for its reply.
#[derive(Debug)]
pub enum ServerEvent {
    /// The app-server wrote a line.
    Line(String),
    /// Its standard output cannot be read, with the cause.
    ReadFailed(String),
    /// Its standard output was closed.
    Disconnected,
    /// The time for the reply is over.
    TimedOut,
}

/// The members of an app-server message that matter to a request.
#[derive(Debug)]
pub struct Message {
    /// The id, if it is a string.
    pub id: Option<String>,
    /// The compact text of the error.
    pub error: Option<String>,
    /// The compact text of the result.
    pub result: Option<String>,
}

/// What an event means to the request that waits.
#[derive(Debug)]
pub enum Reply {
    /// Nothing: the request waits on.
    Pending,
    /// It is answered, with the compact text of the result.
    Answered(String),
    /// It failed.
    Failed(ArchiveError),
}

/// The content of a [`Message`].
pub ghost struct MessageView {
    pub id: Option<Seq<char>>,
    pub error: Option<Seq<char>>,
    pub result: Option<Seq<char>>,
}

impl View for Message {
    type V = MessageView;

    open spec fn view(&self) -> MessageView {
        MessageView {
            id: model::optional_view(self.id),
            error: model::optional_view(self.error),
            result: model::optional_view(self.result),
        }
    }
}

/// The JSON object of a request whose parameters have the compact text `params`.
pub open spec fn request_document(id: Seq<char>, method: Seq<char>, params: Seq<char>) -> Seq<
    char,
> {
    json::json_object(
        map![
            "method"@ => json::json_quoted(method),
            "id"@ => json::json_quoted(id),
            "params"@ => params,
        ],
    )
}

/// The line of a request: its JSON object and a line end.
pub open spec fn request_line(id: Seq<char>, method: Seq<char>, params: Seq<char>) -> Seq<char> {
    request_document(id, method, params) + "\n"@
}

/// Whether the JSON object `document` has a method, an id and parameters, and
/// these are the given ones.
pub open spec fn holds_request(
    document: Seq<char>,
    id: Seq<char>,
    method: Seq<char>,
    params: Seq<char>,
) -> bool {
    &&& json::json_member(document, "method"@) matches Some(m) && json::json_string(m) == Some(
        method,
    )
    &&& json::json_member(document, "id"@) matches Some(i) && json::json_string(i) == Some(id)
    &&& json::json_member(document, "params"@) == Some(params)
    &&& forall|key: Seq<char>|
        key != "method"@ && key != "id"@ && key != "params"@ ==> #[trigger] json::json_member(
            document,
            key,
        ) is None
}

/// The parameters of `initialize`: who the client is, and no capabilities.
pub open spec fn initialize_params() -> Seq<char> {
    json::json_object(
        map![
            "clientInfo"@ => json::json_object(
                map![
                    "name"@ => json::json_quoted(CLIENT_NAME@),
                    "version"@ => json::json_quoted(CLIENT_VERSION@),
                ],
            ),
            "capabilities"@ => "null"@,
        ],
    )
}

/// The parameters of `thread/archive`: the thread.
pub open spec fn archive_params(thread_id: Seq<char>) -> Seq<char> {
    json::json_object(map!["threadId"@ => json::json_quoted(thread_id)])
}

/// The message that the JSON value with compact text `document` is.
pub open spec fn message_of(document: Seq<char>) -> MessageView {
    MessageView {
        id: match json::json_member(document, "id"@) {
            Some(id) => json::json_string(id),
            None => None,
        },
        error: json::json_member(document, "error"@),
        result: json::json_member(document, "result"@),
    }
}

/// Whether a message is the reply to the request `id`.
pub open spec fn is_reply_to(message: MessageView, id: Seq<char>) -> bool {
    message.id == Some(id)
}

/// The result that a reply without an error carries: `null` if it has none.
pub open spec fn result_of(message: MessageView) -> Seq<char> {
    match message.result {
        Some(result) => result,
        None => "null"@,
    }
}

/// What `message` means to the request `id` for `method`.
pub open spec fn settles(
    message: MessageView,
    id: Seq<char>,
    method: Seq<char>,
    reply: Reply,
) -> bool {
    if !is_reply_to(message, id) {
        reply is Pending
    } else {
        match message.error {
            Some(text) => reply matches Reply::Failed(
                ArchiveError::ServerError { method: m, error: e },
            ) && m@ == method && e@ == text,
            None => reply matches Reply::Answered(result) && result@ == result_of(message),
        }
    }
}

/// What is told of the app-server's standard error.
pub open spec fn stderr_shown(buffer: Seq<char>) -> Seq<char> {
    if buffer.len() == 0 {
        "<no stderr>"@
    } else {
        buffer
    }
}

/// What `event` means to the request `id` for `method`.
pub open spec fn event_settles(
    event: ServerEvent,
    id: Seq<char>,
    method: Seq<char>,
    timeout_seconds: u64,
    stderr: Seq<char>,
    reply: Reply,
) -> bool {
    match event {
        ServerEvent::Line(line) => match json::json_outcome(line@) {
            Ok(document) => settles(message_of(document), id, method, reply),
            Err(message) => reply matches Reply::Failed(
                ArchiveError::InvalidJson { line: l, cause: c },
            ) && l@ == line@ && c@ == message,
        },
        ServerEvent::ReadFailed(message) => reply matches Reply::Failed(
            ArchiveError::Receive { cause: c },
        ) && c@ == message@,
        ServerEvent::Disconnected => reply matches Reply::Failed(
            ArchiveError::StdoutClosed { method: m, stderr: s },
        ) && m@ == method && s@ == stderr_shown(stderr),
        ServerEvent::TimedOut => reply matches Reply::Failed(
            ArchiveError::Timeout { method: m, seconds: t, stderr: s },
        ) && m@ == method && t == timeout_seconds && s@ == stderr_shown(stderr),
    }
}

/// The program that serves, and its arguments.
pub fn server_command() -> (r: (String, Vec<String>))
    ensures
        r.0@ == "codex"@,
        text::texts(r.1@) == seq!["app-server"@, "--listen"@, "stdio://"@],
{
    let mut args: Vec<String> = Vec::new();
    args.push("app-server".to_owned());
    args.push("--listen".to_owned());
    args.push("stdio://".to_owned());
    assert(text::texts(args@) =~= seq!["app-server"@, "--listen"@, "stdio://"@]);
    ("codex".to_owned(), args)
}

/// What is told of the app-server's standard error.
pub fn stderr(buffer: &str) -> (r: String)
    ensures
        r@ == stderr_shown(buffer@),
{
    if buffer.is_empty() {
        "<no stderr>".to_owned()
    } else {
        buffer.to_owned()
    }
}

/// The standard error collected so far, with one more line.
pub open spec fn with_stderr_line(buffer: Seq<char>, line: Seq<char>) -> Seq<char> {
    if buffer.len() == 0 {
        line
    } else {
        buffer + "\n"@ + line
    }
}

/// Adds a line to the standard error collected so far.
pub fn append_stderr_line(buffer: &mut String, line: &str)
    ensures
        final(buffer)@ == with_stderr_line(old(buffer)@, line@),
        old(buffer)@.len() == 0 ==> final(buffer)@ == line@,
        old(buffer)@.len() > 0 ==> final(buffer)@ == old(buffer)@ + "\n"@ + line@,
{
    let ghost before = buffer@;
    if !buffer.as_str().is_empty() {
        buffer.append("\n");
    }
    buffer.append(line);
    proof {
        if before.len() == 0 {
            assert(buffer@ =~= line@);
        }
    }
}

fn copied_text(value: Option<&Value>) -> (r: Option<String>)
    ensures
        model::optional_view(r) == json::optional_text(value),
{
    match value {
        Some(value) => Some(json::compact(value)),
        None => None,
    }
}

/// Reads a line of the app-server.
pub fn read_message(line: &str) -> (r: Result<Message, ArchiveError>)
    ensures
        match json::json_outcome(line@) {
            Ok(document) => r matches Ok(message) && message@ == message_of(document),
            Err(message) => r matches Err(ArchiveError::InvalidJson { line: l, cause: c }) && l@
                == line@ && c@ == message,
        },
{
    let document: Value = match json::parse(line) {
        Ok(document) => document,
        Err(error) => {
            return Err(
                ArchiveError::InvalidJson {
                    line: line.to_owned(),
                    cause: json::error_message(&error),
                },
            );
        },
    };
    let id: Option<String> = match json::member(&document, "id") {
        Some(id) => match json::as_string(id) {
            Some(id) => Some(id.to_owned()),
            None => None,
        },
        None => None,
    };
    let error: Option<String> = copied_text(json::member(&document, "error"));
    let result: Option<String> = copied_text(json::member(&document, "result"));
    Ok(Message { id, error, result })
}

/// What `message` means to the request `request_id` for `method`: nothing
/// unless it carries that id, and else its error or its result.
pub fn settle(message: Message, request_id: &str, method: &str) -> (r: Reply)
    ensures
        settles(message@, request_id@, method@, r),
{
    let expected: String = request_id.to_owned();
    let matching: bool = match &message.id {
        Some(id) => *id == expected,
        None => false,
    };
    if !matching {
        return Reply::Pending;
    }
    if let Some(error) = message.error {
        return Reply::Failed(ArchiveError::ServerError { method: method.to_owned(), error });
    }
    match message.result {
        Some(result) => Reply::Answered(result),
        None => Reply::Answered("null".to_owned()),
    }
}

impl AppServerClient {
    /// The time to wait for a reply, in nanoseconds.
    pub open spec fn timeout(self) -> nat {
        (self.timeout_seconds * 1_000_000_000 + self.timeout_nanos) as nat
    }

    /// The client of an app-server that was started, or not: `started` tells
    /// which of its streams are there, or why it did not start.
    pub fn spawn(
        started: Result<ServerPipes, String>,
        timeout_seconds: u64,
        timeout_nanos: u32,
    ) -> (r: Result<AppServerClient, ArchiveError>)
        ensures
            match started {
                Err(message) => r matches Err(ArchiveError::ServerStart { cause }) && cause@
                    == message@,
                Ok(pipes) => if !pipes.stdin {
                    r matches Err(ArchiveError::ServerStdin)
                } else if !pipes.stdout {
                    r matches Err(ArchiveError::ServerStdout)
                } else if !pipes.stderr {
                    r matches Err(ArchiveError::ServerStderr)
                } else {
                    r == Ok::<AppServerClient, ArchiveError>(
                        AppServerClient {
                            next_id: 1,
                            timeout_seconds,
                            timeout_nanos,
                            stdin_open: true,
                        },
                    )
                },
            },
    {
        let pipes: ServerPipes = match started {
            Ok(pipes) => pipes,
            Err(cause) => return Err(ArchiveError::ServerStart { cause }),
        };
        if !pipes.stdin {
            return Err(ArchiveError::ServerStdin);
        }
        if !pipes.stdout {
            return Err(ArchiveError::ServerStdout);
        }
        if !pipes.stderr {
            return Err(ArchiveError::ServerStderr);
        }
        Ok(AppServerClient { next_id: 1, timeout_seconds, timeout_nanos, stdin_open: true })
    }

    /// Whether `r` is the request for `method` that a client in the state
    /// `before` makes, and `after` the state that it leaves. Each request uses
    /// up an id, also one that comes after the standard input was closed.
    pub open spec fn makes_request(
        before: AppServerClient,
        after: AppServerClient,
        method: Seq<char>,
        params: Seq<char>,
        r: Result<Request, ArchiveError>,
    ) -> bool {
        &&& after == AppServerClient { next_id: (before.next_id + 1) as u64, ..before }
        &&& match r {
            Ok(request) => before.stdin_open && request.id@ == text::decimal(
                before.next_id as nat,
            ) && request.method@ == method && request.line@ == request_line(
                text::decimal(before.next_id as nat),
                method,
                params,
            ) && holds_request(
                request_document(text::decimal(before.next_id as nat), method, params),
                text::decimal(before.next_id as nat),
                method,
                params,
            ),
            Err(error) => !before.stdin_open && error is StdinClosed,
        }
    }

    /// Makes a request.
    fn request(&mut self, method: &str, params: Value) -> (r: Result<Request, ArchiveError>)
        requires
            old(self).next_id < u64::MAX,
        ensures
            AppServerClient::makes_request(
                *old(self),
                *final(self),
                method@,
                json::json_text(params),
                r,
            ),
    {
        let id: String = text::decimal_text(self.next_id);
        self.next_id += 1;
        let mut members = json::no_members();
        json::insert(&mut members, "method", json::string(method));
        json::insert(&mut members, "id", json::string(id.as_str()));
        json::insert(&mut members, "params", params);
        let payload: Value = json::object(members);
        proof {
            reveal_strlit("method");
            reveal_strlit("id");
            reveal_strlit("params");
            assert("method"@.len() == 6 && "id"@.len() == 2 && "params"@.len() == 6);
            assert("method"@[0] != "params"@[0]);
        }
        if !self.stdin_open {
            return Err(ArchiveError::StdinClosed);
        }
        let line: String = json::compact(&payload).concat("\n");
        Ok(Request { id, method: method.to_owned(), line })
    }

    /// Makes the request that opens a session.
    pub fn initialize(&mut self) -> (r: Result<Request, ArchiveError>)
        requires
            old(self).next_id < u64::MAX,
        ensures
            AppServerClient::makes_request(
                *old(self),
                *final(self),
                "initialize"@,
                initialize_params(),
                r,
            ),
            r is Ok <==> old(self).stdin_open,
            r matches Ok(request) ==> text::number(request.id@) == old(self).next_id
                && request.line@ == "{\"id\":"@ + json::json_quoted(request.id@) + ",\"method\":"@
                + json::json_quoted("initialize"@) + ",\"params\":"@ + (
            "{\"capabilities\":null,\"clientInfo\":{\"name\":\""@
                + "codex-archive-subagent-threads"@ + "\",\"version\":\""@ + CLIENT_VERSION@
                + "\"}}"@) + "}"@ + "\n"@,
    {
        proof {
            text::law_decimal_is_digits(self.next_id as nat);
            law_initialize_line(text::decimal(self.next_id as nat));
        }
        let mut info = json::no_members();
        json::insert(&mut info, "name", json::string(CLIENT_NAME));
        json::insert(&mut info, "version", json::string(CLIENT_VERSION));
        let mut params = json::no_members();
        json::insert(&mut params, "clientInfo", json::object(info));
        json::insert(&mut params, "capabilities", json::null());
        self.request("initialize", json::object(params))
    }

    /// Makes the request that archives a thread.
    pub fn archive_thread(&mut self, thread_id: &str) -> (r: Result<Request, ArchiveError>)
        requires
            old(self).next_id < u64::MAX,
        ensures
            AppServerClient::makes_request(
                *old(self),
                *final(self),
                "thread/archive"@,
                archive_params(thread_id@),
                r,
            ),
            r is Ok <==> old(self).stdin_open,
            r matches Ok(request) ==> text::number(request.id@) == old(self).next_id
                && request.line@ == "{\"id\":"@ + json::json_quoted(request.id@) + ",\"method\":"@
                + json::json_quoted("thread/archive"@) + ",\"params\":"@ + ("{\"threadId\":"@
                + json::json_quoted(thread_id@) + "}"@) + "}"@ + "\n"@,
    {
        proof {
            text::law_decimal_is_digits(self.next_id as nat);
            law_archive_line(text::decimal(self.next_id as nat), thread_id@);
        }
        let mut params = json::no_members();
        json::insert(&mut params, "threadId", json::string(thread_id));
        self.request("thread/archive", json::object(params))
    }

    /// How many nanoseconds to wait on for a reply, once `elapsed` have passed
    /// since the request. Nothing when the time is over.
    pub fn remaining(&self, elapsed: u128) -> (r: Option<u128>)
        ensures
            match r {
                Some(rest) => rest + elapsed == self.timeout(),
                None => elapsed > self.timeout(),
            },
    {
        let timeout: u128 = self.timeout_seconds as u128 * 1_000_000_000
            + self.timeout_nanos as u128;
        if elapsed <= timeout {
            Some(timeout - elapsed)
        } else {
            None
        }
    }

    /// The failure of a request for `method` that got no reply in time.
    fn timeout_error(&self, method: &str, stderr_buffer: &str) -> (r: ArchiveError)
        ensures
            r matches ArchiveError::Timeout { method: m, seconds: t, stderr: s } && m@ == method@
                && t == self.timeout_seconds && s@ == stderr_shown(stderr_buffer@),
    {
        ArchiveError::Timeout {
            method: method.to_owned(),
            seconds: self.timeout_seconds,
            stderr: stderr(stderr_buffer),
        }
    }

    /// What `event` means to the request that waits. `stderr_buffer` is what the
    /// app-server has written to its standard error.
    pub fn on_event(&self, request: &Request, event: ServerEvent, stderr_buffer: &str) -> (r: Reply)
        ensures
            event_settles(
                event,
                request.id@,
                request.method@,
                self.timeout_seconds,
                stderr_buffer@,
                r,
            ),
    {
        match event {
            ServerEvent::Line(line) => match read_message(line.as_str()) {
                Ok(message) => settle(message, request.id.as_str(), request.method.as_str()),
                Err(error) => Reply::Failed(error),
            },
            ServerEvent::ReadFailed(cause) => Reply::Failed(ArchiveError::Receive { cause }),
            ServerEvent::Disconnected => Reply::Failed(
                ArchiveError::StdoutClosed {
                    method: request.method.clone(),
                    stderr: stderr(stderr_buffer),
                },
            ),
            ServerEvent::TimedOut => Reply::Failed(
                self.timeout_error(request.method.as_str(), stderr_buffer),
            ),
        }
    }
}

/// How the app-server process is doing.
#[derive(Debug)]
pub enum ProcessStatus {
    Exited,
    Running,
    /// Its status cannot be had.
    Unknown,
}

/// What to do next to end the app-server process.
#[derive(Debug, PartialEq, Eq, Structural)]
pub enum CloseAction {
    /// Look at its status.
    Poll,
    /// Wait for so many milliseconds, then look at the clock.
    Sleep(u64),
    /// Kill it, and wait for its end.
    Kill,
    /// Nothing: it has ended.
    Done,
}

/// How long the process may take to end by itself, in milliseconds.
pub const CLOSE_GRACE_MILLIS: u64 = 2000;

/// How long to wait between two looks at the process, in milliseconds.
pub const CLOSE_POLL_MILLIS: u64 = 25;

impl AppServerClient {
    /// Closes the standard input, which asks the app-server to end.
    pub fn close(&mut self)
        ensures
            *final(self) == (AppServerClient { stdin_open: false, ..*old(self) }),
    {
        self.stdin_open = false;
    }
}

/// What to do once `elapsed_millis` have passed since the standard input was
/// closed.
pub fn close_on_clock(elapsed_millis: u64) -> (r: CloseAction)
    ensures
        r == (if elapsed_millis < CLOSE_GRACE_MILLIS {
            CloseAction::Poll
        } else {
            CloseAction::Kill
        }),
{
    if elapsed_millis < CLOSE_GRACE_MILLIS {
        CloseAction::Poll
    } else {
        CloseAction::Kill
    }
}

/// What to do once the process was looked at.
pub fn close_on_status(status: ProcessStatus) -> (r: CloseAction)
    ensures
        r == (match status {
            ProcessStatus::Exited => CloseAction::Done,
            ProcessStatus::Running => CloseAction::Sleep(CLOSE_POLL_MILLIS),
            ProcessStatus::Unknown => CloseAction::Kill,
        }),
{
    match status {
        ProcessStatus::Exited => CloseAction::Done,
        ProcessStatus::Running => CloseAction::Sleep(CLOSE_POLL_MILLIS),
        ProcessStatus::Unknown => CloseAction::Kill,
    }
}

/// A late reply to an earlier request, or an early one, never settles a
/// request: the ids of two requests differ.
pub proof fn law_other_replies_are_ignored(
    message: MessageView,
    own: nat,
    other: nat,
    method: Seq<char>,
    reply: Reply,
)
    requires
        own != other,
        is_reply_to(message, text::decimal(other)),
        settles(message, text::decimal(own), method, reply),
    ensures
        reply is Pending,
{
    if is_reply_to(message, text::decimal(own)) {
        text::law_decimal_injective(own, other);
    }
}

/// The text of an object with one member.
proof fn lemma_one_member(key: Seq<char>, value: Seq<char>)
    ensures
        json::json_object(map![key => value]) == seq!['{'] + json::json_quoted(key) + seq![':']
            + value + seq!['}'],
{
    let members = map![key => value];
    let keys = seq![key];
    assert(keys[0] == key);
    assert(json::lists_keys(keys, members));
    json::law_object_text(members, keys);
    let parts = keys.map_values(
        |key: Seq<char>| json::json_quoted(key) + seq![':'] + members[key],
    );
    assert(parts.len() == 1 && parts.last() == json::json_quoted(key) + seq![':'] + value);
    assert(json::json_object(members) =~= seq!['{'] + json::json_quoted(key) + seq![':'] + value
        + seq!['}']);
}

/// The text of an object with two members.
proof fn lemma_two_members(a: Seq<char>, b: Seq<char>, x: Seq<char>, y: Seq<char>)
    requires
        json::sorts_before(a, b),
        a != b,
    ensures
        json::json_object(map![a => x, b => y]) == seq!['{'] + json::json_quoted(a) + seq![':'] + x
            + seq![','] + json::json_quoted(b) + seq![':'] + y + seq!['}'],
        json::json_object(map![b => y, a => x]) == json::json_object(map![a => x, b => y]),
{
    let members = map![a => x, b => y];
    let keys = seq![a, b];
    assert(map![b => y, a => x] =~= members);
    assert(keys[0] == a && keys[1] == b);
    assert(json::lists_keys(keys, members));
    json::law_object_text(members, keys);
    let parts = keys.map_values(
        |key: Seq<char>| json::json_quoted(key) + seq![':'] + members[key],
    );
    assert(parts.drop_last().len() == 1);
    assert(parts.drop_last().last() == json::json_quoted(a) + seq![':'] + x);
    assert(parts.last() == json::json_quoted(b) + seq![':'] + y);
    reveal_with_fuel(text::joined, 3);
    assert(json::json_object(members) =~= seq!['{'] + json::json_quoted(a) + seq![':'] + x
        + seq![','] + json::json_quoted(b) + seq![':'] + y + seq!['}']);
}

/// The text of an object with three members.
proof fn lemma_three_members(
    a: Seq<char>,
    b: Seq<char>,
    c: Seq<char>,
    x: Seq<char>,
    y: Seq<char>,
    z: Seq<char>,
)
    requires
        json::sorts_before(a, b),
        json::sorts_before(a, c),
        json::sorts_before(b, c),
        a != b && a != c && b != c,
    ensures
        json::json_object(map![b => y, a => x, c => z]) == seq!['{'] + (json::json_quoted(a)
            + seq![':'] + x + seq![','] + (json::json_quoted(b) + seq![':'] + y) + seq![','] + (
        json::json_quoted(c) + seq![':'] + z)) + seq!['}'],
{
    let members = map![b => y, a => x, c => z];
    let keys = seq![a, b, c];
    assert(keys[0] == a && keys[1] == b && keys[2] == c);
    assert(json::lists_keys(keys, members));
    json::law_object_text(members, keys);
    let parts = keys.map_values(
        |key: Seq<char>| json::json_quoted(key) + seq![':'] + members[key],
    );
    assert(parts.drop_last().drop_last().len() == 1);
    assert(parts.drop_last().drop_last().last() == json::json_quoted(a) + seq![':'] + x);
    assert(parts.drop_last().last() == json::json_quoted(b) + seq![':'] + y);
    assert(parts.last() == json::json_quoted(c) + seq![':'] + z);
    reveal_with_fuel(text::joined, 4);
}

/// A key of plain characters stands between quotation marks.
proof fn lemma_plain_key(key: Seq<char>)
    requires
        forall|k: int| 0 <= k < key.len() ==> json::is_plain(#[trigger] key[k]),
    ensures
        json::json_quoted(key) == seq!['"'] + key + seq!['"'],
{
    json::law_plain_text_is_kept(key);
}

/// The text of a request, letter for letter.
pub proof fn law_request_text(id: Seq<char>, method: Seq<char>, params: Seq<char>)
    ensures
        request_document(id, method, params) == "{\"id\":"@ + json::json_quoted(id)
            + ",\"method\":"@ + json::json_quoted(method) + ",\"params\":"@ + params + "}"@,
{
    reveal_strlit("id");
    reveal_strlit("method");
    reveal_strlit("params");
    reveal_strlit("{\"id\":");
    reveal_strlit(",\"method\":");
    reveal_strlit(",\"params\":");
    reveal_strlit("}");
    assert("id"@.take(0) =~= "method"@.take(0));
    assert("id"@.take(0) =~= "params"@.take(0));
    assert("method"@.take(0) =~= "params"@.take(0));
    assert("id"@[0] == 'i' && "method"@[0] == 'm' && "params"@[0] == 'p');
    assert(json::sorts_before("id"@, "method"@));
    assert(json::sorts_before("id"@, "params"@));
    assert(json::sorts_before("method"@, "params"@));
    let x = json::json_quoted(id);
    let y = json::json_quoted(method);
    lemma_three_members("id"@, "method"@, "params"@, x, y, params);
    lemma_plain_key("id"@);
    lemma_plain_key("method"@);
    lemma_plain_key("params"@);
    let id_key = json::json_quoted("id"@);
    let method_key = json::json_quoted("method"@);
    let params_key = json::json_quoted("params"@);
    assert(seq!['{'] + id_key + seq![':'] =~= "{\"id\":"@);
    assert(seq![','] + method_key + seq![':'] =~= ",\"method\":"@);
    assert(seq![','] + params_key + seq![':'] =~= ",\"params\":"@);
    assert(seq!['}'] =~= "}"@);
    lemma_regroup(id_key, method_key, params_key, x, y, params);
}

/// The parts of a request's text, grouped by member and by value.
proof fn lemma_regroup(
    a: Seq<char>,
    b: Seq<char>,
    c: Seq<char>,
    x: Seq<char>,
    y: Seq<char>,
    z: Seq<char>,
)
    ensures
        seq!['{'] + (a + seq![':'] + x + seq![','] + (b + seq![':'] + y) + seq![','] + (c + seq![
            ':',
        ] + z)) + seq!['}'] == (seq!['{'] + a + seq![':']) + x + (seq![','] + b + seq![':']) + y + (
        seq![','] + c + seq![':']) + z + seq!['}'],
{
    assert(seq!['{'] + (a + seq![':'] + x + seq![','] + (b + seq![':'] + y) + seq![','] + (c + seq![
        ':',
    ] + z)) + seq!['}'] =~= (seq!['{'] + a + seq![':']) + x + (seq![','] + b + seq![':']) + y + (
    seq![','] + c + seq![':']) + z + seq!['}']);
}

/// The text of the parameters that archive a thread, letter for letter.
pub proof fn law_archive_params_text(thread_id: Seq<char>)
    ensures
        archive_params(thread_id) == "{\"threadId\":"@ + json::json_quoted(thread_id) + "}"@,
{
    reveal_strlit("threadId");
    reveal_strlit("{\"threadId\":");
    reveal_strlit("}");
    lemma_plain_key("threadId"@);
    lemma_one_member("threadId"@, json::json_quoted(thread_id));
    assert(archive_params(thread_id) =~= "{\"threadId\":"@ + json::json_quoted(thread_id)
        + "}"@);
}

/// The text on the client.
proof fn lemma_client_info(name: Seq<char>, version: Seq<char>)
    ensures
        json::json_object(
            map![
                "name"@ => json::json_quoted(name),
                "version"@ => json::json_quoted(version),
            ],
        ) == "{\"name\":"@ + json::json_quoted(name) + ",\"version\":"@ + json::json_quoted(version)
            + "}"@,
{
    reveal_strlit("name");
    reveal_strlit("version");
    reveal_strlit("{\"name\":");
    reveal_strlit(",\"version\":");
    reveal_strlit("}");
    assert("name"@.take(0) =~= "version"@.take(0));
    assert("name"@[0] == 'n' && "version"@[0] == 'v');
    assert(json::sorts_before("name"@, "version"@));
    let x = json::json_quoted(name);
    let y = json::json_quoted(version);
    lemma_two_members("name"@, "version"@, x, y);
    lemma_plain_key("name"@);
    lemma_plain_key("version"@);
    let name_key = json::json_quoted("name"@);
    let version_key = json::json_quoted("version"@);
    assert(seq!['{'] + name_key + seq![':'] =~= "{\"name\":"@);
    assert(seq![','] + version_key + seq![':'] =~= ",\"version\":"@);
    assert(seq!['}'] =~= "}"@);
    lemma_regroup_two(name_key, version_key, x, y);
}

/// The text of the parameters around the text on the client.
proof fn lemma_initialize_params(info: Seq<char>)
    ensures
        json::json_object(map!["clientInfo"@ => info, "capabilities"@ => "null"@])
            == "{\"capabilities\":"@ + "null"@ + ",\"clientInfo\":"@ + info + "}"@,
{
    reveal_strlit("clientInfo");
    reveal_strlit("capabilities");
    reveal_strlit("{\"capabilities\":");
    reveal_strlit(",\"clientInfo\":");
    reveal_strlit("}");
    assert("capabilities"@.take(1) =~= "clientInfo"@.take(1));
    assert("capabilities"@[1] == 'a' && "clientInfo"@[1] == 'l');
    assert(json::sorts_before("capabilities"@, "clientInfo"@));
    lemma_two_members("capabilities"@, "clientInfo"@, "null"@, info);
    lemma_plain_key("clientInfo"@);
    lemma_plain_key("capabilities"@);
    let capabilities_key = json::json_quoted("capabilities"@);
    let info_key = json::json_quoted("clientInfo"@);
    assert(seq!['{'] + capabilities_key + seq![':'] =~= "{\"capabilities\":"@);
    assert(seq![','] + info_key + seq![':'] =~= ",\"clientInfo\":"@);
    assert(seq!['}'] =~= "}"@);
    lemma_regroup_two(capabilities_key, info_key, "null"@, info);
}

/// The parts of the text of two members, grouped by member and by value.
proof fn lemma_regroup_two(a: Seq<char>, b: Seq<char>, x: Seq<char>, y: Seq<char>)
    ensures
        seq!['{'] + a + seq![':'] + x + seq![','] + b + seq![':'] + y + seq!['}'] == (seq!['{'] + a
            + seq![':']) + x + (seq![','] + b + seq![':']) + y + seq!['}'],
{
    assert(seq!['{'] + a + seq![':'] + x + seq![','] + b + seq![':'] + y + seq!['}'] =~= (seq!['{']
        + a + seq![':']) + x + (seq![','] + b + seq![':']) + y + seq!['}']);
}

/// The name and the version of the client need no escapes.
proof fn lemma_client_is_plain()
    ensures
        json::json_quoted(CLIENT_NAME@) == seq!['"'] + CLIENT_NAME@ + seq!['"'],
        json::json_quoted(CLIENT_VERSION@) == seq!['"'] + CLIENT_VERSION@ + seq!['"'],
{
    reveal_strlit("codex-archive-subagent-threads");
    reveal_strlit("0.1.0");
    lemma_plain_key(CLIENT_NAME@);
    lemma_plain_key(CLIENT_VERSION@);
}

/// The text of the parameters that open a session, letter for letter.
pub proof fn law_initialize_params_text()
    ensures
        initialize_params() == "{\"capabilities\":null,\"clientInfo\":{\"name\":\""@ + CLIENT_NAME@
            + "\",\"version\":\""@ + CLIENT_VERSION@ + "\"}}"@,
{
    let name = CLIENT_NAME@;
    let version = CLIENT_VERSION@;
    lemma_client_is_plain();
    lemma_client_info(name, version);
    lemma_initialize_params(
        json::json_object(
            map![
                "name"@ => json::json_quoted(name),
                "version"@ => json::json_quoted(version),
            ],
        ),
    );
    lemma_initialize_literals(name, version);
}

proof fn lemma_initialize_literals(name: Seq<char>, version: Seq<char>)
    ensures
        "{\"capabilities\":"@ + "null"@ + ",\"clientInfo\":"@ + ("{\"name\":"@ + (seq!['"'] + name
            + seq!['"']) + ",\"version\":"@ + (seq!['"'] + version + seq!['"']) + "}"@) + "}"@
            == "{\"capabilities\":null,\"clientInfo\":{\"name\":\""@ + name + "\",\"version\":\""@
            + version + "\"}}"@,
{
    reveal_strlit("{\"capabilities\":");
    reveal_strlit("null");
    reveal_strlit(",\"clientInfo\":");
    reveal_strlit("{\"name\":");
    reveal_strlit(",\"version\":");
    reveal_strlit("}");
    reveal_strlit("{\"capabilities\":null,\"clientInfo\":{\"name\":\"");
    reveal_strlit("\",\"version\":\"");
    reveal_strlit("\"}}");
    let head = "{\"capabilities\":"@ + "null"@ + ",\"clientInfo\":"@ + "{\"name\":"@ + seq!['"'];
    let middle = seq!['"'] + ",\"version\":"@ + seq!['"'];
    let end = seq!['"'] + "}"@ + "}"@;
    assert(head =~= "{\"capabilities\":null,\"clientInfo\":{\"name\":\""@);
    assert(middle =~= "\",\"version\":\""@);
    assert(end =~= "\"}}"@);
    lemma_regroup_info(
        "{\"capabilities\":"@ + "null"@ + ",\"clientInfo\":"@,
        "{\"name\":"@,
        ",\"version\":"@,
        "}"@,
        name,
        version,
    );
}

proof fn lemma_regroup_info(
    a: Seq<char>,
    b: Seq<char>,
    c: Seq<char>,
    d: Seq<char>,
    name: Seq<char>,
    version: Seq<char>,
)
    ensures
        a + (b + (seq!['"'] + name + seq!['"']) + c + (seq!['"'] + version + seq!['"']) + d) + d
            == (a + b + seq!['"']) + name + (seq!['"'] + c + seq!['"']) + version + (seq!['"'] + d
            + d),
{
    assert(a + (b + (seq!['"'] + name + seq!['"']) + c + (seq!['"'] + version + seq!['"']) + d) + d
        =~= (a + b + seq!['"']) + name + (seq!['"'] + c + seq!['"']) + version + (seq!['"'] + d
        + d));
}

/// A request is one line, whatever it is about: its only line break is the line
/// end.
pub proof fn law_request_is_one_line(id: Seq<char>, method: Seq<char>, thread_id: Seq<char>)
    ensures
        !request_document(id, method, archive_params(thread_id)).contains('\n'),
        !request_document(id, method, initialize_params()).contains('\n'),
{
    reveal_strlit("{\"threadId\":");
    reveal_strlit("}");
    reveal_strlit("{\"capabilities\":null,\"clientInfo\":{\"name\":\"");
    reveal_strlit("\",\"version\":\"");
    reveal_strlit("\"}}");
    reveal_strlit("codex-archive-subagent-threads");
    reveal_strlit("0.1.0");
    law_archive_params_text(thread_id);
    json::law_string_is_one_line(thread_id);
    assert(!"{\"threadId\":"@.contains('\n'));
    assert(!"}"@.contains('\n'));
    json::lemma_concat_is_one_line("{\"threadId\":"@, json::json_quoted(thread_id));
    json::lemma_concat_is_one_line(
        "{\"threadId\":"@ + json::json_quoted(thread_id),
        "}"@,
    );
    lemma_document_is_one_line(id, method, archive_params(thread_id));
    law_initialize_params_text();
    assert(!initialize_params().contains('\n'));
    lemma_document_is_one_line(id, method, initialize_params());
}

proof fn lemma_document_is_one_line(id: Seq<char>, method: Seq<char>, params: Seq<char>)
    requires
        !params.contains('\n'),
    ensures
        !request_document(id, method, params).contains('\n'),
{
    law_request_text(id, method, params);
    json::law_string_is_one_line(id);
    json::law_string_is_one_line(method);
    reveal_strlit("{\"id\":");
    reveal_strlit(",\"method\":");
    reveal_strlit(",\"params\":");
    reveal_strlit("}");
    let with_id = "{\"id\":"@ + json::json_quoted(id);
    let with_method = with_id + ",\"method\":"@ + json::json_quoted(method);
    assert(!"{\"id\":"@.contains('\n'));
    assert(!",\"method\":"@.contains('\n'));
    assert(!",\"params\":"@.contains('\n'));
    assert(!"}"@.contains('\n'));
    json::lemma_concat_is_one_line("{\"id\":"@, json::json_quoted(id));
    json::lemma_concat_is_one_line(with_id, ",\"method\":"@);
    json::lemma_concat_is_one_line(with_id + ",\"method\":"@, json::json_quoted(method));
    json::lemma_concat_is_one_line(with_method, ",\"params\":"@);
    json::lemma_concat_is_one_line(with_method + ",\"params\":"@, params);
    json::lemma_concat_is_one_line(with_method + ",\"params\":"@ + params, "}"@);
}

/// The line that archives a thread, letter for letter: the id, the method, the
/// thread and a line end.
pub proof fn law_archive_line(id: Seq<char>, thread_id: Seq<char>)
    ensures
        request_line(id, "thread/archive"@, archive_params(thread_id)) == "{\"id\":"@
            + json::json_quoted(id) + ",\"method\":"@ + json::json_quoted("thread/archive"@)
            + ",\"params\":"@ + ("{\"threadId\":"@ + json::json_quoted(thread_id) + "}"@) + "}"@
            + "\n"@,
{
    law_request_text(id, "thread/archive"@, archive_params(thread_id));
    law_archive_params_text(thread_id);
}

/// The line that opens a session, letter for letter: the id, the method, who the
/// client is, and a line end.
pub proof fn law_initialize_line(id: Seq<char>)
    ensures
        request_line(id, "initialize"@, initialize_params()) == "{\"id\":"@ + json::json_quoted(id)
            + ",\"method\":"@ + json::json_quoted("initialize"@) + ",\"params\":"@ + (
        "{\"capabilities\":null,\"clientInfo\":{\"name\":\""@ + "codex-archive-subagent-threads"@
            + "\",\"version\":\""@ + CLIENT_VERSION@ + "\"}}"@) + "}"@ + "\n"@,
{
    law_request_text(id, "initialize"@, initialize_params());
    law_initialize_params_text();
}

/// A client makes requests under the numbers one, two, three and so on: each takes
/// the next, whether or not it can be made. It can be made exactly while the
/// standard input is open. Nothing else about the client changes.
pub proof fn law_requests_are_numbered(
    before: AppServerClient,
    after: AppServerClient,
    method: Seq<char>,
    params: Seq<char>,
    r: Result<Request, ArchiveError>,
)
    requires
        AppServerClient::makes_request(before, after, method, params, r),
        before.next_id < u64::MAX,
    ensures
        after.next_id == before.next_id + 1,
        after.timeout_seconds == before.timeout_seconds,
        after.timeout_nanos == before.timeout_nanos,
        after.stdin_open == before.stdin_open,
        r is Ok <==> before.stdin_open,
        r matches Ok(request) ==> text::number(request.id@) == before.next_id && request.method@
            == method && request.line@ == "{\"id\":"@ + json::json_quoted(request.id@)
            + ",\"method\":"@ + json::json_quoted(method) + ",\"params\":"@ + params + "}"@
            + "\n"@,
        r matches Err(error) ==> error is StdinClosed,
{
    text::law_decimal_is_digits(before.next_id as nat);
    law_request_text(text::decimal(before.next_id as nat), method, params);
}

/// A client can be made exactly where the app-server started with all its streams.
/// Its first request has the number one, and the time to wait is the one given.
pub proof fn law_when_a_client_starts(
    started: Result<ServerPipes, String>,
    timeout_seconds: u64,
    timeout_nanos: u32,
    r: Result<AppServerClient, ArchiveError>,
)
    requires
        call_ensures(AppServerClient::spawn, (started, timeout_seconds, timeout_nanos), r),
    ensures
        r is Ok <==> match started {
            Ok(pipes) => pipes.stdin && pipes.stdout && pipes.stderr,
            Err(_) => false,
        },
        r matches Ok(client) ==> client.next_id == 1 && client.stdin_open
            && client.timeout_seconds == timeout_seconds && client.timeout_nanos == timeout_nanos,
        r matches Err(error) ==> match started {
            Err(message) => error matches ArchiveError::ServerStart { cause } && cause@
                == message@,
            Ok(pipes) => if !pipes.stdin {
                error is ServerStdin
            } else if !pipes.stdout {
                error is ServerStdout
            } else {
                error is ServerStderr
            },
        },
{
}

/// The time left and the time gone make up the time to wait. Nothing is left only
/// once more than that has gone.
pub proof fn law_time_left(client: AppServerClient, elapsed: u128, r: Option<u128>)
    requires
        call_ensures(AppServerClient::remaining, (&client, elapsed), r),
    ensures
        r is Some <==> elapsed <= client.timeout_seconds * 1_000_000_000 + client.timeout_nanos,
        r matches Some(rest) ==> rest == client.timeout_seconds * 1_000_000_000
            + client.timeout_nanos - elapsed,
{
}

/// A message settles a request exactly where it carries the request's id. Its error
/// then fails the request, and else its result answers it, or `null` without one.
pub proof fn law_what_a_message_settles(
    message: Message,
    request_id: &str,
    method: &str,
    reply: Reply,
)
    requires
        call_ensures(settle, (message, request_id, method), reply),
    ensures
        ({
            let own = match message.id {
                Some(id) => id@ == request_id@,
                None => false,
            };
            &&& reply is Pending <==> !own
            &&& own ==> match message.error {
                Some(told) => reply matches Reply::Failed(
                    ArchiveError::ServerError { method: m, error: e },
                ) && m@ == method@ && e@ == told@,
                None => reply matches Reply::Answered(result) && result@ == match message.result {
                    Some(told) => told@,
                    None => "null"@,
                },
            }
        }),
{
}

/// A line is read as the JSON value it is: of a message, the id counts if it is a
/// string, and the error and the result as they are. A line that is no JSON fails.
pub proof fn law_how_a_line_is_read(line: &str, r: Result<Message, ArchiveError>)
    requires
        call_ensures(read_message, (line,), r),
    ensures
        match json::json_outcome(line@) {
            Ok(document) => r matches Ok(message) && ({
                &&& match message.id {
                    Some(id) => json::json_member(document, "id"@) matches Some(member)
                        && json::json_string(member) == Some(id@),
                    None => json::json_member(document, "id"@) matches Some(member)
                        ==> json::json_string(member) is None,
                }
                &&& match message.error {
                    Some(told) => json::json_member(document, "error"@) == Some(told@),
                    None => json::json_member(document, "error"@) is None,
                }
                &&& match message.result {
                    Some(told) => json::json_member(document, "result"@) == Some(told@),
                    None => json::json_member(document, "result"@) is None,
                }
            }),
            Err(told) => r matches Err(ArchiveError::InvalidJson { line: shown, cause })
                && shown@ == line@ && cause@ == told,
        },
{
}

/// What happens while a request waits settles it like this: a line does as its
/// message does, and everything else fails it, with the request's method, the time
/// waited for, and the standard error where it helps.
pub proof fn law_what_an_event_settles(
    client: AppServerClient,
    request: Request,
    event: ServerEvent,
    stderr_buffer: &str,
    reply: Reply,
)
    requires
        call_ensures(AppServerClient::on_event, (&client, &request, event, stderr_buffer), reply),
    ensures
        ({
            let shown = if stderr_buffer@.len() == 0 {
                "<no stderr>"@
            } else {
                stderr_buffer@
            };
            match event {
                ServerEvent::TimedOut => reply matches Reply::Failed(
                    ArchiveError::Timeout { method, seconds, stderr },
                ) && method@ == request.method@ && seconds == client.timeout_seconds && stderr@
                    == shown,
                ServerEvent::Disconnected => reply matches Reply::Failed(
                    ArchiveError::StdoutClosed { method, stderr },
                ) && method@ == request.method@ && stderr@ == shown,
                ServerEvent::ReadFailed(told) => reply matches Reply::Failed(
                    ArchiveError::Receive { cause },
                ) && cause@ == told@,
                ServerEvent::Line(line) => match json::json_outcome(line@) {
                    Err(told) => reply matches Reply::Failed(
                        ArchiveError::InvalidJson { line: read, cause },
                    ) && read@ == line@ && cause@ == told,
                    Ok(document) => {
                        let own = match json::json_member(document, "id"@) {
                            Some(member) => json::json_string(member) == Some(request.id@),
                            None => false,
                        };
                        &&& reply is Pending <==> !own
                        &&& own ==> match json::json_member(document, "error"@) {
                            Some(told) => reply matches Reply::Failed(
                                ArchiveError::ServerError { method, error },
                            ) && method@ == request.method@ && error@ == told,
                            None => reply matches Reply::Answered(result) && result@
                                == match json::json_member(document, "result"@) {
                                Some(told) => told,
                                None => "null"@,
                            },
                        }
                    },
                },
            }
        }),
{
}

/// The process gets two seconds to end by itself and is looked at every 25
/// milliseconds. It is killed only when the time is over or its status cannot be
/// had.
pub proof fn law_how_the_process_ends(
    elapsed_millis: u64,
    on_clock: CloseAction,
    status: ProcessStatus,
    on_status: CloseAction,
)
    requires
        call_ensures(close_on_clock, (elapsed_millis,), on_clock),
        call_ensures(close_on_status, (status,), on_status),
    ensures
        elapsed_millis < 2000 ==> on_clock is Poll,
        elapsed_millis >= 2000 ==> on_clock is Kill,
        status is Exited ==> on_status is Done,
        status is Running ==> on_status == CloseAction::Sleep(25),
        status is Unknown ==> on_status is Kill,
{
}

/// What is shown of the standard error is all of it, or that there is none.
pub proof fn law_stderr_is_shown(buffer: &str, shown: String)
    requires
        call_ensures(stderr, (buffer,), shown),
    ensures
        buffer@.len() > 0 ==> shown@ == buffer@,
        buffer@.len() == 0 ==> shown@ == "<no stderr>"@,
{
}

/// The app-server is `codex app-server`, told to listen on its standard streams.
pub proof fn law_which_command_serves(r: (String, Vec<String>))
    requires
        call_ensures(server_command, (), r),
    ensures
        r.0@ == "codex"@,
        r.1@.len() == 3,
        r.1@[0]@ == "app-server"@,
        r.1@[1]@ == "--listen"@,
        r.1@[2]@ == "stdio://"@,
{
    let args = text::texts(r.1@);
    assert(args.len() == r.1@.len());
    assert(forall|i: int| 0 <= i < r.1@.len() ==> args[i] == (#[trigger] r.1@[i])@);
}

} // verus!
