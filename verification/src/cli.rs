//! The orchestrator's settings, as given on the command line.

use vstd::prelude::*;
use vstd::string::*;

verus! {

/// Settings of one orchestrator run.
#[derive(Debug, Clone)]
pub struct Cli {
    /// Number of shards to split the test suite into
    pub shards: u32,
    /// Number of Playwright workers inside each shard
    pub workers: u32,
    /// Root of the project containing the Playwright config
    pub project_dir: String,
    /// Playwright config path relative to `project_dir`
    pub config: String,
    /// Optional grep filter passed to Playwright
    pub grep: Option<String>,
    /// Optional grep-invert filter
    pub grep_invert: Option<String>,
    /// Test file or glob to run
    pub file: Option<String>,
    /// Number of retries for failed tests within each shard
    pub retries: Option<u32>,
    /// Per-shard memory limit in MB
    pub memory_mb: u32,
    /// Run browsers in headed mode
    pub headed: bool,
    /// Extra environment variables for each shard, each written `KEY=VALUE`
    pub env: Vec<String>,
    /// Timeout per test in milliseconds
    pub timeout: Option<u64>,
    /// Suppress per-shard output, only show the summary
    pub quiet: bool,
}

/// Why a set of settings cannot be run.
#[derive(Debug, PartialEq, Eq, Structural)]
pub enum CliError {
    /// `--shards` was 0.
    NoShards,
}

impl CliError {
    /// The message shown to the user for this error.
    pub fn message(&self) -> (m: String)
        ensures
            m@ == "--shards must be >= 1"@,
    {
        match self {
            CliError::NoShards => String::from_str("--shards must be >= 1"),
        }
    }
}

impl Cli {
    /// A fixed set of settings: 4 shards of 2 workers, default config and memory,
    /// no filters and no extra environment.
    pub fn fixture() -> (c: Self)
        ensures
            c.shards == 4,
            c.workers == 2,
            c.project_dir@ == "/tmp/fake-project"@,
            c.config@ == "playwright/playwright.config.ts"@,
            c.grep is None,
            c.grep_invert is None,
            c.file is None,
            c.retries is None,
            c.memory_mb == 4096,
            !c.headed,
            c.env@.len() == 0,
            c.timeout is None,
            !c.quiet,
    {
        Cli {
            shards: 4,
            workers: 2,
            project_dir: String::from_str("/tmp/fake-project"),
            config: String::from_str("playwright/playwright.config.ts"),
            grep: None,
            grep_invert: None,
            file: None,
            retries: None,
            memory_mb: 4096,
            headed: false,
            env: Vec::new(),
            timeout: None,
            quiet: false,
        }
    }

    /// Checks that the settings can be run: at least one shard is asked for.
    pub fn validate(&self) -> (r: Result<(), CliError>)
        ensures
            r is Ok <==> self.shards >= 1,
            r is Err ==> r == Err::<(), CliError>(CliError::NoShards),
    {
        if self.shards == 0 {
            Err(CliError::NoShards)
        } else {
            Ok(())
        }
    }
}

}
