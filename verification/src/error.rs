//! What can go wrong, and how it is told.

use crate::text;
use vstd::prelude::*;

verus! {

/// A failure of the tool. A `cause` is the message of the outside failure
/// behind it.
#[derive(Debug)]
pub enum ArchiveError {
    /// Neither a parent thread nor all parents were asked for.
    MissingParent,
    /// There is no state database at `path`.
    DatabaseMissing { path: String },
    /// The state database at `path` cannot be opened.
    DatabaseOpen { path: String, cause: String },
    /// The state database cannot be read or written.
    Database { cause: String },
    /// What the database records of a thread cannot be read.
    ThreadCheck { thread_id: String, cause: String },
    /// The system clock is set before the Unix epoch.
    ClockBeforeEpoch { cause: String },
    /// Threads are still not archived after all that was tried.
    StillUnarchived { thread_ids: Vec<String> },
    /// The app-server does not start.
    ServerStart { cause: String },
    /// The started app-server has no standard input.
    ServerStdin,
    /// The started app-server has no standard output.
    ServerStdout,
    /// The started app-server has no standard error.
    ServerStderr,
    /// A request was made after the app-server's standard input was closed.
    StdinClosed,
    /// A request cannot be written.
    Send { cause: String },
    /// The app-server did not answer in time.
    Timeout { method: String, seconds: u64, stderr: String },
    /// The app-server closed its standard output before it answered.
    StdoutClosed { method: String, stderr: String },
    /// The app-server's standard output cannot be read.
    Receive { cause: String },
    /// The app-server wrote a line that is not JSON.
    InvalidJson { line: String, cause: String },
    /// The app-server answered with an error.
    ServerError { method: String, error: String },
}

impl ArchiveError {
    /// The message that tells the failure, with its cause.
    pub open spec fn text(self) -> Seq<char> {
        match self {
            ArchiveError::MissingParent =>
                "missing parent thread id: pass --parent-thread-id or set CODEX_THREAD_ID"@,
            ArchiveError::DatabaseMissing { path } => "Codex state database does not exist: "@
                + path@,
            ArchiveError::DatabaseOpen { path, cause } =>
                "failed to open Codex state database at "@ + path@ + ": "@ + cause@,
            ArchiveError::Database { cause } => cause@,
            ArchiveError::ThreadCheck { thread_id, cause } => "failed to verify thread "@
                + thread_id@ + ": "@ + cause@,
            ArchiveError::ClockBeforeEpoch { cause } => "system clock is before UNIX_EPOCH: "@
                + cause@,
            ArchiveError::StillUnarchived { thread_ids } =>
                "archive verification failed; still unarchived: "@ + text::joined(
                text::texts(thread_ids@),
                ", "@,
            ),
            ArchiveError::ServerStart { cause } =>
                "failed to start `codex app-server --listen stdio://`: "@ + cause@,
            ArchiveError::ServerStdin => "failed to open app-server stdin"@,
            ArchiveError::ServerStdout => "failed to open app-server stdout"@,
            ArchiveError::ServerStderr => "failed to open app-server stderr"@,
            ArchiveError::StdinClosed => "app-server stdin is already closed"@,
            ArchiveError::Send { cause } => cause@,
            ArchiveError::Timeout { method, seconds, stderr } =>
                "timed out waiting for app-server response to "@ + method@ + " after "@
                + text::decimal(seconds as nat) + "s: "@ + stderr@,
            ArchiveError::StdoutClosed { method, stderr } =>
                "app-server stdout closed while handling "@ + method@ + ": "@ + stderr@,
            ArchiveError::Receive { cause } => "failed to read app-server stdout: "@ + cause@,
            ArchiveError::InvalidJson { line, cause } => "invalid app-server JSON response: "@
                + line@ + ": "@ + cause@,
            ArchiveError::ServerError { method, error } => "app-server error on "@ + method@
                + ": "@ + error@,
        }
    }

    /// The message that tells the failure, with its cause.
    pub fn message(&self) -> (r: String)
        ensures
            r@ == self.text(),
    {
        match self {
            ArchiveError::MissingParent =>
                "missing parent thread id: pass --parent-thread-id or set CODEX_THREAD_ID".to_owned(),
            ArchiveError::DatabaseMissing { path } =>
                "Codex state database does not exist: ".to_owned().concat(path.as_str()),
            ArchiveError::DatabaseOpen { path, cause } =>
                "failed to open Codex state database at ".to_owned().concat(path.as_str())
                .concat(": ").concat(cause.as_str()),
            ArchiveError::Database { cause } => cause.clone(),
            ArchiveError::ThreadCheck { thread_id, cause } =>
                "failed to verify thread ".to_owned().concat(thread_id.as_str()).concat(": ")
                .concat(cause.as_str()),
            ArchiveError::ClockBeforeEpoch { cause } =>
                "system clock is before UNIX_EPOCH: ".to_owned().concat(cause.as_str()),
            ArchiveError::StillUnarchived { thread_ids } =>
                "archive verification failed; still unarchived: ".to_owned().concat(
                text::join(thread_ids.as_slice(), ", ").as_str(),
            ),
            ArchiveError::ServerStart { cause } =>
                "failed to start `codex app-server --listen stdio://`: ".to_owned().concat(
                cause.as_str(),
            ),
            ArchiveError::ServerStdin => "failed to open app-server stdin".to_owned(),
            ArchiveError::ServerStdout => "failed to open app-server stdout".to_owned(),
            ArchiveError::ServerStderr => "failed to open app-server stderr".to_owned(),
            ArchiveError::StdinClosed => "app-server stdin is already closed".to_owned(),
            ArchiveError::Send { cause } => cause.clone(),
            ArchiveError::Timeout { method, seconds, stderr } =>
                "timed out waiting for app-server response to ".to_owned().concat(method.as_str())
                .concat(" after ").concat(text::decimal_text(*seconds).as_str()).concat("s: ")
                .concat(stderr.as_str()),
            ArchiveError::StdoutClosed { method, stderr } =>
                "app-server stdout closed while handling ".to_owned().concat(method.as_str())
                .concat(": ").concat(stderr.as_str()),
            ArchiveError::Receive { cause } =>
                "failed to read app-server stdout: ".to_owned().concat(cause.as_str()),
            ArchiveError::InvalidJson { line, cause } =>
                "invalid app-server JSON response: ".to_owned().concat(line.as_str()).concat(": ")
                .concat(cause.as_str()),
            ArchiveError::ServerError { method, error } =>
                "app-server error on ".to_owned().concat(method.as_str()).concat(": ").concat(
                error.as_str(),
            ),
        }
    }
}

/// A failure is told in fixed words and with all that is known of it: the path, the
/// thread, the method, the time waited for, the line, and the outside cause in full.
pub proof fn law_failures_are_told_in_full(error: ArchiveError, told: String)
    requires
        call_ensures(ArchiveError::message, (&error,), told),
    ensures
        error matches ArchiveError::DatabaseMissing { path } ==> told@
            == "Codex state database does not exist: "@ + path@,
        error matches ArchiveError::DatabaseOpen { path, cause } ==> told@
            == "failed to open Codex state database at "@ + path@ + ": "@ + cause@,
        error matches ArchiveError::Database { cause } ==> told@ == cause@,
        error matches ArchiveError::ThreadCheck { thread_id, cause } ==> told@
            == "failed to verify thread "@ + thread_id@ + ": "@ + cause@,
        error matches ArchiveError::ClockBeforeEpoch { cause } ==> told@
            == "system clock is before UNIX_EPOCH: "@ + cause@,
        error matches ArchiveError::ServerStart { cause } ==> told@
            == "failed to start `codex app-server --listen stdio://`: "@ + cause@,
        error matches ArchiveError::Send { cause } ==> told@ == cause@,
        error matches ArchiveError::Timeout { method, seconds, stderr } ==> told@
            == "timed out waiting for app-server response to "@ + method@ + " after "@
            + text::decimal(seconds as nat) + "s: "@ + stderr@,
        error matches ArchiveError::StdoutClosed { method, stderr } ==> told@
            == "app-server stdout closed while handling "@ + method@ + ": "@ + stderr@,
        error matches ArchiveError::Receive { cause } ==> told@
            == "failed to read app-server stdout: "@ + cause@,
        error matches ArchiveError::InvalidJson { line, cause } ==> told@
            == "invalid app-server JSON response: "@ + line@ + ": "@ + cause@,
        error matches ArchiveError::ServerError { method, error } ==> told@
            == "app-server error on "@ + method@ + ": "@ + error@,
        error is MissingParent ==> told@
            == "missing parent thread id: pass --parent-thread-id or set CODEX_THREAD_ID"@,
        error is ServerStdin ==> told@ == "failed to open app-server stdin"@,
        error is ServerStdout ==> told@ == "failed to open app-server stdout"@,
        error is ServerStderr ==> told@ == "failed to open app-server stderr"@,
        error is StdinClosed ==> told@ == "app-server stdin is already closed"@,
{
}

/// A failed verification names every thread that is still not archived, in order and
/// with a comma between two.
pub proof fn law_unarchived_threads_are_named(
    thread_ids: Vec<String>,
    told: String,
    names: &[String],
    joined: String,
)
    requires
        call_ensures(
            ArchiveError::message,
            (&ArchiveError::StillUnarchived { thread_ids },),
            told,
        ),
        names@ == thread_ids@,
        call_ensures(text::join, (names, ", "), joined),
    ensures
        told@ == "archive verification failed; still unarchived: "@ + joined@,
{
}

} // verus!
