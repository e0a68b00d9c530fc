//! Authenticated-fetch cache and extraction core for a school LMS client.
//!
//! The crate models the moving parts of the fetch pipeline as plain data:
//! credentials, session login forms, a time-to-live cache with explicit
//! freshness states, schedule parsing with a deterministic ordering on class
//! entries, the HTML-to-record extraction passes, and the orchestration state
//! machine that ties them together.

pub mod b64;
pub mod cache;
pub mod codec;
pub mod courses;
pub mod data;
pub mod errors;
pub mod events;
pub mod extract;
pub mod orchestrator;
pub mod order;
pub mod reducer_actions;
pub mod schedule;
pub mod scrape;
pub mod session;
pub mod state;
pub mod strutil;

use vstd::prelude::*;

verus! {

/// Identifier of a class (course), as handed out by the external site.
#[derive(Clone, Copy, Debug, Hash, PartialEq, Eq, Structural)]
pub struct ClassID(pub u64);

/// Identifier of a single item (assignment, file, discussion) within a class.
#[derive(Clone, Copy, Debug, Hash, PartialEq, Eq, Structural)]
pub struct ClassItemID(pub u64);

/// Placeholder for a structured due date; the pipeline currently carries due
/// dates as display strings, so this holds no fields.
#[derive(Clone, Copy, Debug, PartialEq, Eq, Structural)]
pub struct DueDate();

} // verus!
