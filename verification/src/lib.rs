//! Verified core logic of the Wickeban task orchestration service: text
//! handling of agent output, prompt construction, interview bookkeeping,
//! routing and recovery decisions, and workspace path safety rules.

pub mod text;
pub mod interview;
pub mod herd;
pub mod status;
pub mod ids;
pub mod prompts;
pub mod assessment;
pub mod recovery;
pub mod paths;
pub mod mcp;
pub mod ralph;
pub mod context;
pub mod approvals;
pub mod execution;
pub mod compose;
pub mod swarm;
pub mod requests;
pub mod planning;
pub mod naming;
pub mod container;
pub mod ranking;
pub mod tags;
pub mod transcript;
