//! Governed runs: what the host asks for, and how it ended.
use crate::errands::Door;
use vstd::prelude::*;

verus! {

/// How a governed run ended.
#[derive(Debug)]
pub enum RunResult {
    Done(RunDone),
    Failed { error: String },
}

/// What a run that ended well left behind.
#[derive(Debug)]
pub struct RunDone {
    pub text: String,
    pub outcome: String,
    pub model: String,
    /// The inference slot that answered.
    pub slot: String,
    pub log_event_id: String,
    /// Did it do more than look at the world? The host's judgment, not the
    /// model's.
    pub acted: bool,
}

/// A run the host is to start. What is left out here is the host's default.
#[derive(Debug)]
pub struct RunRequest {
    pub task: String,
    pub task_class: Option<String>,
    pub tokens_per_run: Option<u64>,
    pub lane: Option<Lane>,
    /// The work harness to run in.
    pub harness: Option<String>,
    /// The door a person opened, where one did.
    pub door: Option<Door>,
}

/// Which allowance a run draws on.
#[derive(Debug, Clone, Copy, PartialEq, Eq, Structural)]
pub enum Lane {
    Responsive,
    Proactive,
}

} // verus!
