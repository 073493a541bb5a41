//! Entity-level review triage: classification, risk scoring and grouping of
//! the semantic changes between two snapshots of a source tree.

pub mod analyze;
pub mod bench;
pub mod classify;
pub mod diff;
pub mod findings;
pub mod github;
pub mod graph;
pub mod job;
pub mod llm;
pub mod noise;
pub mod order;
pub mod patch;
pub mod prompts;
pub mod risk;
pub mod riskmap;
pub mod scope;
pub mod search;
pub mod text;
pub mod types;
pub mod union_find;
pub mod untangle;
