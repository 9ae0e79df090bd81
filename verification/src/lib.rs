//! A durable work queue for a two-stage media pipeline, as verified logic.
//!
//! The crate holds the decisions of the pipeline and proves them: which jobs
//! a claim hands out, what a worker does with a batch, and how each job walks
//! through its stage. Everything that touches a database, a file or a child
//! process is left to the caller, which performs the actions these state
//! machines ask for and reports what happened.

pub mod auth;
pub mod clock;
pub mod error;
pub mod handler;
pub mod ids;
pub mod job;
pub mod layout;
pub mod pipeline;
pub mod queue;
pub mod queue_laws;
pub mod runner;
pub mod runs;
pub mod settings;
pub mod text;
pub mod video;
