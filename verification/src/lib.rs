//! Playwright shard orchestration: the planning logic behind running a
//! Playwright test suite as N parallel shards.

pub mod text;
pub mod cli;
pub mod env;
pub mod report;
pub mod shard;
pub mod laws;
