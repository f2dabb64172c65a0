//! Workflow runtime: workflow definitions, run records, the step executor,
//! cooperative abort handling, the issue-branch merge action, and the
//! template and issue logic the tools around it use.

pub mod text;
pub mod entries;
pub mod clock;
pub mod ids;
pub mod action;
pub mod workflow;
pub mod abort;
pub mod run;
pub mod executor;
pub mod merge;
pub mod issues;
pub mod handlers;
pub mod template;
pub mod prompts;
pub mod cli;
