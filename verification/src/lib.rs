//! Verified core of a media-acquisition job service.
//!
//! A caller submits a job (a single item or a collection of items), the job is
//! executed by escalating through a caller-ordered list of backend strategies,
//! progress is broadcast over a lossy multi-subscriber bus, and the job can be
//! cancelled cooperatively.  The orchestration logic (job state machine,
//! registry, escalation engine, collection expansion, progress bus) lives here
//! and is verified; the surrounding glue (argument parsing, request shapes,
//! input validation, rate limiting) is verified where it computes on plain
//! values and trusted only where it calls into outside crates.

pub mod escalate;
pub mod rate_limiting;
pub mod quality;
pub mod registry;
pub mod security;
pub mod runner;
pub mod batch;
pub mod bus;
pub mod cli;
pub mod collection;
pub mod converter;
pub mod csrf;
pub mod extractor;
pub mod input_validation;
pub mod job;
pub mod status;
pub mod text;
pub mod utils;
pub mod validation;
pub mod trusted;
pub mod types;
pub mod youtube;
