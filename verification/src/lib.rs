//! Plan execution and checkpointing for a coding agent.
//!
//! A plan is an ordered list of steps with a checkpoint that marks how far
//! execution has come. This crate holds what is decided about plans, and
//! leaves what is done about them (reading and writing files, calling
//! planners and tools, serving streams) to its callers.
//!
//! - [`plan`]: steps, plans and the checkpoint.
//! - [`store`]: the snapshot of a plan as bytes.
//! - [`service`]: creation, extension, execution and diagnosis of a plan.
//! - [`diagnostics`]: diagnostics and their grouping by file.
//! - [`progress`]: the events that tell a caller how a plan advances.
//! - [`pipeline`]: the channel that carries the events, and the framing of
//!   the caller's stream.
//! - [`identity`]: identifiers of plans and the context of a request.
//! - [`user_context`], [`editor`], [`snippet`], [`qa`]: what users and
//!   editors hand to the agent, and what the agent asks of a human.
//! - [`text`]: numerals and joined lines.

pub mod diagnostics;
pub mod editor;
pub mod identity;
pub mod pipeline;
pub mod plan;
pub mod progress;
pub mod qa;
pub mod service;
pub mod snippet;
pub mod store;
pub mod text;
pub mod user_context;
