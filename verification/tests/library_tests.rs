use std::time::Duration;

use pso::cli::{Cli, CliError};
use pso::env::EnvMap;
use pso::report::{OutcomeTally, RunSummary, ShardOutcome, ShardResult};
use pso::shard::{
    build_args, build_env, launch_banner, local_playwright_path, playwright_bin,
    select_playwright_bin, shard_command, shard_env, shard_indices, start_message,
};
use pso::text::{decimal_string, prefixed_decimal, push_signed_decimal, split_once_char};

fn result(index: u32, outcome: ShardOutcome, out: &str) -> ShardResult {
    ShardResult {
        shard_index: index,
        outcome,
        duration: Duration::from_millis(1500),
        stdout: out.to_string(),
        stderr: String::new(),
    }
}

fn pairs(items: &[(&str, &str)]) -> Vec<(String, String)> {
    items.iter().map(|(k, v)| (k.to_string(), v.to_string())).collect()
}

#[test]
fn decimal_renders_numbers() {
    assert_eq!(decimal_string(0), "0");
    assert_eq!(decimal_string(7), "7");
    assert_eq!(decimal_string(10), "10");
    assert_eq!(decimal_string(4096), "4096");
    assert_eq!(decimal_string(u64::MAX), u64::MAX.to_string());
    assert_eq!(prefixed_decimal("--retries=", 12), "--retries=12");
}

#[test]
fn signed_decimal_renders_negatives() {
    let mut s = String::from("x");
    push_signed_decimal(&mut s, -1);
    assert_eq!(s, "x-1");
    let mut s = String::new();
    push_signed_decimal(&mut s, i32::MIN);
    assert_eq!(s, i32::MIN.to_string());
    let mut s = String::new();
    push_signed_decimal(&mut s, 137);
    assert_eq!(s, "137");
}

#[test]
fn split_once_splits_at_first_separator() {
    assert_eq!(
        split_once_char("A=b=c", '='),
        Some(("A".to_string(), "b=c".to_string()))
    );
    assert_eq!(split_once_char("=x", '='), Some((String::new(), "x".to_string())));
    assert_eq!(split_once_char("K=", '='), Some(("K".to_string(), String::new())));
    assert_eq!(split_once_char("plain", '='), None);
}

#[test]
fn env_map_insert_replaces_and_keeps_order() {
    let mut m = EnvMap::new();
    m.insert("A".into(), "1".into());
    m.insert("B".into(), "2".into());
    m.insert("A".into(), "3".into());
    assert_eq!(m.get("A").unwrap(), "3");
    assert_eq!(m.get("B").unwrap(), "2");
    assert!(m.get("C").is_none());
    assert!(m.contains_key("B"));
    assert_eq!(m.entries(), &pairs(&[("A", "3"), ("B", "2")]));
    let c = m.copy();
    assert_eq!(c.entries(), m.entries());
}

#[test]
fn build_env_keeps_inherited_variables() {
    let cli = Cli::fixture();
    let env = build_env(&cli, &pairs(&[("PATH", "/bin"), ("HOME", "/root")]));
    assert_eq!(env.get("PATH").unwrap(), "/bin");
    assert_eq!(env.get("HOME").unwrap(), "/root");
    assert_eq!(env.get("IS_SHARDED").unwrap(), "true");
}

#[test]
fn build_env_overrides_inherited_injected_variables() {
    let cli = Cli::fixture();
    let env = build_env(
        &cli,
        &pairs(&[("IS_SHARDED", "false"), ("WORKERS", "9"), ("HEADED", "1")]),
    );
    assert_eq!(env.get("IS_SHARDED").unwrap(), "true");
    assert_eq!(env.get("WORKERS").unwrap(), "2");
    // Not headed: the inherited HEADED is passed on as it was.
    assert_eq!(env.get("HEADED").unwrap(), "1");
}

#[test]
fn build_env_user_pairs_win() {
    let mut cli = Cli::fixture();
    cli.env = vec![
        "WORKERS=8".into(),
        "X=first".into(),
        "X=second".into(),
        "URL=http://h/?a=b".into(),
        "bad".into(),
    ];
    let env = build_env(&cli, &pairs(&[("X", "inherited")]));
    assert_eq!(env.get("WORKERS").unwrap(), "8");
    assert_eq!(env.get("X").unwrap(), "second");
    assert_eq!(env.get("URL").unwrap(), "http://h/?a=b");
    assert!(!env.contains_key("bad"));
}

#[test]
fn shard_env_adds_index_and_total() {
    let cli = Cli::fixture();
    let env = build_env(&cli, &Vec::new());
    let e = shard_env(&env, 3, 4);
    assert_eq!(e.get("SHARD_INDEX").unwrap(), "3");
    assert_eq!(e.get("SHARD_TOTAL").unwrap(), "4");
    assert_eq!(e.get("IS_SHARDED").unwrap(), "true");
    assert!(!env.contains_key("SHARD_INDEX"));
}

#[test]
fn shard_indices_run_from_one() {
    assert_eq!(shard_indices(3), vec![1, 2, 3]);
    assert!(shard_indices(0).is_empty());
}

#[test]
fn build_args_large_numbers_and_order() {
    let mut cli = Cli::fixture();
    cli.shards = 12;
    cli.workers = 16;
    cli.retries = Some(0);
    cli.timeout = Some(u64::MAX);
    cli.headed = true;
    cli.file = Some("a.spec.ts".into());
    cli.grep = Some("@g".into());
    let args = build_args(&cli, 10);
    assert_eq!(
        args,
        vec![
            "test",
            "--config=playwright/playwright.config.ts",
            "--shard=10/12",
            "--workers=16",
            "--grep=@g",
            "--retries=0",
            "--timeout=18446744073709551615",
            "--headed",
            "a.spec.ts",
        ]
    );
}

#[test]
fn shards_get_distinct_selections() {
    let cli = Cli::fixture();
    let a = build_args(&cli, 1);
    let b = build_args(&cli, 2);
    assert_ne!(a[2], b[2]);
    assert_eq!(a[..2], b[..2]);
    assert_eq!(a[3..], b[3..]);
}

#[test]
fn shard_command_through_npx() {
    let args = vec!["test".to_string(), "--shard=1/2".to_string()];
    let c = shard_command(&"npx".to_string(), &args);
    assert_eq!(c.program, "npx");
    assert_eq!(c.args, vec!["playwright", "test", "--shard=1/2"]);
    assert_eq!(c.display, "npx playwright test --shard=1/2");
}

#[test]
fn shard_command_with_local_runner() {
    let args = vec!["test".to_string()];
    let bin = "/p/node_modules/.bin/playwright".to_string();
    let c = shard_command(&bin, &args);
    assert_eq!(c.program, bin);
    assert_eq!(c.args, vec!["test"]);
    assert_eq!(c.display, "playwright test");
    let empty = shard_command(&bin, &Vec::new());
    assert_eq!(empty.display, "playwright ");
}

#[test]
fn shard_command_local_runner_under_npx_named_dir() {
    let args = vec!["test".to_string()];
    let bin = "/home/npx/proj/node_modules/.bin/playwright".to_string();
    let c = shard_command(&bin, &args);
    assert_eq!(c.program, bin);
    assert_eq!(c.args, vec!["test"]);
    assert_eq!(c.display, "playwright test");
}

#[test]
fn messages_render() {
    assert_eq!(
        start_message(2, 4, "npx playwright test"),
        "[shard 2/4] starting: npx playwright test"
    );
    assert_eq!(
        launch_banner(&Cli::fixture()),
        "\n=== PSO: Launching 4 shard(s), 2 worker(s) each, 4096MB per shard ===\n"
    );
}

#[test]
fn local_runner_path_joins() {
    assert_eq!(local_playwright_path("/tmp/x"), "/tmp/x/node_modules/.bin/playwright");
    assert_eq!(local_playwright_path("/tmp/x/"), "/tmp/x/node_modules/.bin/playwright");
    assert_eq!(local_playwright_path(""), "node_modules/.bin/playwright");
}

#[test]
fn playwright_bin_choice() {
    let dir = "/tmp/fake-project".to_string();
    assert_eq!(
        select_playwright_bin(&dir, true),
        "/tmp/fake-project/node_modules/.bin/playwright"
    );
    assert_eq!(select_playwright_bin(&dir, false), "npx");
    assert_eq!(playwright_bin(&"/nonexistent/dir/for/pso".to_string()), "npx");
}

#[test]
fn outcome_labels_and_markers() {
    assert_eq!(ShardOutcome::Passed.label(), "passed");
    assert_eq!(ShardOutcome::Failed { exit_code: 1 }.label(), "failed (exit 1)");
    assert_eq!(ShardOutcome::Failed { exit_code: -1 }.label(), "failed (exit -1)");
    assert_eq!(
        ShardOutcome::Error { message: "spawn failed".into() }.label(),
        "error: spawn failed"
    );
    assert_eq!(ShardOutcome::Passed.icon(), "\x1b[32m✓\x1b[0m");
    assert_eq!(ShardOutcome::Failed { exit_code: 1 }.icon(), "\x1b[31m✗\x1b[0m");
    assert_eq!(ShardOutcome::Error { message: String::new() }.icon(), "\x1b[33m!\x1b[0m");
    assert_eq!(ShardOutcome::Passed.marker(), "PASS");
    assert_eq!(ShardOutcome::Failed { exit_code: 2 }.marker(), "FAIL");
    assert_eq!(ShardOutcome::Error { message: String::new() }.marker(), "ERR ");
}

#[test]
fn outcome_from_exit_status() {
    assert!(matches!(ShardOutcome::from_exit(true, Some(0)), ShardOutcome::Passed));
    assert!(matches!(
        ShardOutcome::from_exit(false, Some(3)),
        ShardOutcome::Failed { exit_code: 3 }
    ));
    assert!(matches!(
        ShardOutcome::from_exit(false, None),
        ShardOutcome::Failed { exit_code: -1 }
    ));
}

#[test]
fn tally_and_exit_code() {
    let summary = RunSummary {
        total_shards: 4,
        workers_per_shard: 1,
        memory_mb: 1024,
        total_duration: Duration::from_secs(5),
        results: vec![
            result(1, ShardOutcome::Passed, ""),
            result(2, ShardOutcome::Failed { exit_code: 1 }, ""),
            result(3, ShardOutcome::Error { message: "x".into() }, ""),
            result(4, ShardOutcome::Passed, ""),
        ],
    };
    assert_eq!(summary.tally(), OutcomeTally { passed: 2, failed: 1, errored: 1 });
    assert_eq!(
        summary.tally().line(),
        "  \x1b[32m2 passed\x1b[0m, \x1b[31m1 failed\x1b[0m, \x1b[33m1 errors\x1b[0m"
    );
    assert_eq!(
        summary.header_line(),
        "  Shards: 4  |  Workers/shard: 1  |  Memory/shard: 1024MB"
    );
    assert_eq!(summary.exit_code(), 1);
    let ok = RunSummary {
        total_shards: 1,
        workers_per_shard: 1,
        memory_mb: 1024,
        total_duration: Duration::from_secs(5),
        results: vec![result(1, ShardOutcome::Passed, "")],
    };
    assert_eq!(ok.tally(), OutcomeTally { passed: 1, failed: 0, errored: 0 });
    assert_eq!(ok.exit_code(), 0);
}

#[test]
fn summary_sorts_results_by_shard() {
    let mut cli = Cli::fixture();
    cli.shards = 3;
    let results = vec![
        result(3, ShardOutcome::Passed, "c"),
        result(1, ShardOutcome::Failed { exit_code: 2 }, "a"),
        result(2, ShardOutcome::Passed, "b1"),
        result(2, ShardOutcome::Passed, "b2"),
    ];
    let s = RunSummary::new(&cli, results, Duration::from_secs(9));
    assert_eq!(s.total_shards, 3);
    assert_eq!(s.workers_per_shard, 2);
    assert_eq!(s.memory_mb, 4096);
    assert_eq!(s.total_duration, Duration::from_secs(9));
    let order: Vec<(u32, &str)> =
        s.results.iter().map(|r| (r.shard_index, r.stdout.as_str())).collect();
    assert_eq!(order, vec![(1, "a"), (2, "b1"), (2, "b2"), (3, "c")]);
}

#[test]
fn validate_rejects_zero_shards() {
    let mut cli = Cli::fixture();
    assert_eq!(cli.validate(), Ok(()));
    cli.shards = 0;
    let err = cli.validate().unwrap_err();
    assert_eq!(err, CliError::NoShards);
    assert_eq!(err.message(), "--shards must be >= 1");
}

#[test]
fn fixture_values() {
    let cli = Cli::fixture();
    assert_eq!(cli.shards, 4);
    assert_eq!(cli.workers, 2);
    assert_eq!(cli.project_dir, "/tmp/fake-project");
    assert_eq!(cli.config, "playwright/playwright.config.ts");
    assert_eq!(cli.memory_mb, 4096);
    assert!(cli.env.is_empty() && !cli.headed && !cli.quiet);
}

#[test]
fn summary_lists_each_shard_once_whatever_the_arrival_order() {
    let mut cli = Cli::fixture();
    cli.shards = 4;
    let arrived = vec![
        result(3, ShardOutcome::Passed, ""),
        result(4, ShardOutcome::Passed, ""),
        result(1, ShardOutcome::Passed, ""),
        result(2, ShardOutcome::Passed, ""),
    ];
    let s = RunSummary::new(&cli, arrived, Duration::from_secs(1));
    let indices: Vec<u32> = s.results.iter().map(|r| r.shard_index).collect();
    assert_eq!(indices, shard_indices(4));
}
