//! Finds closed Codex subagent threads, archives them and verifies the result.
//!
//! The library holds every decision of the tool as verified functions on plain
//! values. Reading the state database, talking to the app-server process and
//! printing are left to the program around it.
//!
//! - [`selection`] says which threads are to be archived.
//! - [`archiving`] says what the thread table records, and how it changes.
//! - [`workflow`] leads through a run: app-server, direct update, verification.
//! - [`session`] and [`app_server`] speak the app-server's protocol.
//! - [`report`] is what the user gets to see.

pub mod app_server;
pub mod archiving;
pub mod clock;
pub mod error;
pub mod json;
pub mod model;
pub mod report;
pub mod selection;
pub mod session;
pub mod startup;
pub mod text;
pub mod workflow;

pub use archiving::{direct_archive, unarchived_candidate_ids};
pub use clock::unix_timestamp_seconds;
pub use error::ArchiveError;
pub use model::{Candidate, Column, OutputPayload, SpawnEdge, ThreadRecord, ThreadRow};
pub use report::render_text;
pub use selection::load_candidates;
pub use session::archive_via_app_server;
pub use startup::{default_codex_home, ensure_db_exists};
pub use workflow::archive_with_verification;
