//! Time accounting for work on issue-tracker items.
//!
//! A *session* is one tracked attempt at a work item, which a group, a
//! project and an issue identify. A session runs, rests and ends; the time
//! it has taken is the sum of its *intervals*, the spans during which it
//! ran. At most one session runs at a time.
//!
//! - [`store`] keeps the sessions and their intervals and answers for them;
//!   [`rows`] are what it keeps, and [`model`] says in mathematics what it
//!   holds and what each operation does to it.
//! - [`timer`] is the engine: start, pause, resume and stop a session, ask
//!   for its elapsed time, reconcile the latest session when the process
//!   starts. [`engine`] is the state machine that it carries out.
//! - [`format`] writes seconds as days, hours, minutes and seconds.
//! - [`laws`] states what holds of the engine whatever is asked of it;
//!   [`effects`] and [`elapsed`] are the lemmas that the laws rest on.
//!
//! The library reads no clock and writes no file: the caller hands in the
//! time with each request, and keeps the rows where it sees fit.

pub mod effects;
pub mod elapsed;
pub mod engine;
pub mod format;
pub mod laws;
pub mod model;
pub mod rows;
pub mod status;
pub mod store;
pub mod timer;
