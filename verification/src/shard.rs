//! What each shard is run with: its environment and its Playwright arguments.

use vstd::prelude::*;
use vstd::string::*;

use crate::cli::Cli;
use crate::env::{map_of, pairs_view, EnvMap};
use crate::text::{
    decimal, decimal_string, join_seq, prefixed, prefixed_decimal, push_decimal, push_joined,
    push_string, split_once_char, split_once_spec, views,
};

verus! {

/// The map `m` after each `KEY=VALUE` pair of `pairs` is set in turn, split at its
/// first `=`; a pair without `=` is left out.
pub open spec fn apply_env_pairs(m: Map<Seq<char>, Seq<char>>, pairs: Seq<Seq<char>>) -> Map<
    Seq<char>,
    Seq<char>,
>
    decreases pairs.len(),
{
    if pairs.len() == 0 {
        m
    } else {
        let before = apply_env_pairs(m, pairs.drop_last());
        match split_once_spec(pairs.last(), '=') {
            Some((k, v)) => before.insert(k, v),
            None => before,
        }
    }
}

/// The variables that the orchestrator sets for every shard, over the
/// inherited environment `inherited`.
pub open spec fn injected_env(cli: Cli, inherited: Map<Seq<char>, Seq<char>>) -> Map<
    Seq<char>,
    Seq<char>,
> {
    let base = inherited.insert("IS_SHARDED"@, "true"@).insert(
        "WORKERS"@,
        decimal(cli.workers as nat),
    ).insert("NODE_OPTIONS"@, "--max-old-space-size="@ + decimal(cli.memory_mb as nat));
    if cli.headed {
        base.insert("HEADED"@, "1"@)
    } else {
        base
    }
}

/// The environment shared by every shard: the inherited variables, then the
/// orchestrator's own, then the user's `KEY=VALUE` pairs in order.
pub open spec fn env_spec(cli: Cli, inherited: Seq<(Seq<char>, Seq<char>)>) -> Map<
    Seq<char>,
    Seq<char>,
> {
    apply_env_pairs(injected_env(cli, map_of(inherited)), views(cli.env@))
}

/// Builds the environment shared by every shard from the process's own
/// environment `inherited`, listed as `(key, value)` pairs.
pub fn build_env(cli: &Cli, inherited: &Vec<(String, String)>) -> (env: EnvMap)
    ensures
        env@ == env_spec(*cli, pairs_view(inherited@)),
{
    let ghost ps = pairs_view(inherited@);
    let mut env = EnvMap::new();
    let n = inherited.len();
    let mut i: usize = 0;
    while i < n
        invariant
            n == inherited@.len(),
            ps == pairs_view(inherited@),
            i <= n,
            env@ == map_of(ps.take(i as int)),
        decreases n - i,
    {
        let key = inherited[i].0.clone();
        let value = inherited[i].1.clone();
        env.insert(key, value);
        assert(ps.take(i + 1).drop_last() =~= ps.take(i as int));
        i = i + 1;
    }
    assert(ps.take(n as int) =~= ps);

    env.insert(String::from_str("IS_SHARDED"), String::from_str("true"));
    env.insert(String::from_str("WORKERS"), decimal_string(cli.workers as u64));
    env.insert(
        String::from_str("NODE_OPTIONS"),
        prefixed_decimal("--max-old-space-size=", cli.memory_mb as u64),
    );
    if cli.headed {
        env.insert(String::from_str("HEADED"), String::from_str("1"));
    }
    let ghost base = env@;
    assert(base == injected_env(*cli, map_of(ps)));

    let ghost pairs = views(cli.env@);
    let m = cli.env.len();
    let mut j: usize = 0;
    while j < m
        invariant
            m == cli.env@.len(),
            pairs == views(cli.env@),
            j <= m,
            env@ == apply_env_pairs(base, pairs.take(j as int)),
        decreases m - j,
    {
        assert(pairs.take(j + 1).drop_last() =~= pairs.take(j as int));
        match split_once_char(cli.env[j].as_str(), '=') {
            Some((key, value)) => {
                env.insert(key, value);
            },
            None => {},
        }
        j = j + 1;
    }
    assert(pairs.take(m as int) =~= pairs);
    env
}

/// `"--shard=i/N"`: the Playwright option that selects shard `i` of `N`.
pub open spec fn shard_arg(shard_index: u32, shards: u32) -> Seq<char> {
    "--shard="@ + decimal(shard_index as nat) + "/"@ + decimal(shards as nat)
}

/// One argument `prefix + value` when the option is given, none otherwise.
pub open spec fn text_option(prefix: Seq<char>, value: Option<String>) -> Seq<Seq<char>> {
    match value {
        Some(v) => seq![prefix + v@],
        None => Seq::empty(),
    }
}

/// One argument `prefix + n` in decimal when the option is given, none otherwise.
pub open spec fn number_option(prefix: Seq<char>, value: Option<u64>) -> Seq<Seq<char>> {
    match value {
        Some(n) => seq![prefix + decimal(n as nat)],
        None => Seq::empty(),
    }
}

/// A `u32` option widened to `u64`.
pub open spec fn widen(value: Option<u32>) -> Option<u64> {
    match value {
        Some(n) => Some(n as u64),
        None => None,
    }
}

/// The four arguments that every shard gets: the `test` command, the config,
/// the shard selection and the worker count.
pub open spec fn fixed_args(cli: Cli, shard_index: u32) -> Seq<Seq<char>> {
    seq![
        "test"@,
        "--config="@ + cli.config@,
        shard_arg(shard_index, cli.shards),
        "--workers="@ + decimal(cli.workers as nat),
    ]
}

/// The arguments that follow from the optional settings, in order: grep,
/// grep-invert, retries, timeout, headed, and last the test file.
pub open spec fn optional_args(cli: Cli) -> Seq<Seq<char>> {
    text_option("--grep="@, cli.grep) + text_option("--grep-invert="@, cli.grep_invert)
        + number_option("--retries="@, widen(cli.retries)) + number_option(
        "--timeout="@,
        cli.timeout,
    ) + (if cli.headed {
        seq!["--headed"@]
    } else {
        Seq::empty()
    }) + match cli.file {
        Some(f) => seq![f@],
        None => Seq::empty(),
    }
}

/// The Playwright arguments of shard `shard_index`.
pub open spec fn args_spec(cli: Cli, shard_index: u32) -> Seq<Seq<char>> {
    fixed_args(cli, shard_index) + optional_args(cli)
}

/// Appends `prefix + value` to `args` when `value` is given.
fn push_text_option(args: &mut Vec<String>, prefix: &str, value: &Option<String>)
    ensures
        views(final(args)@) == views(old(args)@) + text_option(prefix@, *value),
{
    match value {
        Some(v) => push_string(args, prefixed(prefix, v.as_str())),
        None => {},
    }
    assert(views(args@) =~= views(old(args)@) + text_option(prefix@, *value));
}

/// Appends `prefix + n` in decimal to `args` when `value` is given.
fn push_number_option(args: &mut Vec<String>, prefix: &str, value: Option<u64>)
    ensures
        views(final(args)@) == views(old(args)@) + number_option(prefix@, value),
{
    match value {
        Some(n) => push_string(args, prefixed_decimal(prefix, n)),
        None => {},
    }
    assert(views(args@) =~= views(old(args)@) + number_option(prefix@, value));
}

/// Builds the Playwright command-line arguments for one shard.
pub fn build_args(cli: &Cli, shard_index: u32) -> (args: Vec<String>)
    ensures
        views(args@) == args_spec(*cli, shard_index),
{
    let mut args: Vec<String> = Vec::new();
    assert(views(args@) =~= Seq::<Seq<char>>::empty());
    push_string(&mut args, String::from_str("test"));
    push_string(&mut args, prefixed("--config=", cli.config.as_str()));
    let mut shard = prefixed_decimal("--shard=", shard_index as u64);
    shard.append("/");
    push_decimal(&mut shard, cli.shards as u64);
    push_string(&mut args, shard);
    push_string(&mut args, prefixed_decimal("--workers=", cli.workers as u64));
    assert(views(args@) =~= fixed_args(*cli, shard_index));

    push_text_option(&mut args, "--grep=", &cli.grep);
    push_text_option(&mut args, "--grep-invert=", &cli.grep_invert);
    let retries: Option<u64> = match cli.retries {
        Some(r) => Some(r as u64),
        None => None,
    };
    push_number_option(&mut args, "--retries=", retries);
    push_number_option(&mut args, "--timeout=", cli.timeout);
    let ghost before_headed = views(args@);
    if cli.headed {
        push_string(&mut args, String::from_str("--headed"));
    }
    assert(views(args@) =~= before_headed + (if cli.headed {
        seq!["--headed"@]
    } else {
        Seq::<Seq<char>>::empty()
    }));
    match &cli.file {
        Some(f) => push_string(&mut args, f.clone()),
        None => {},
    }
    assert(views(args@) =~= args_spec(*cli, shard_index));
    args
}

/// The environment of shard `shard_index` of `shards`: the shared one, with
/// `SHARD_INDEX` and `SHARD_TOTAL` set on top.
pub fn shard_env(env: &EnvMap, shard_index: u32, shards: u32) -> (r: EnvMap)
    ensures
        r@ == env@.insert("SHARD_INDEX"@, decimal(shard_index as nat)).insert(
            "SHARD_TOTAL"@,
            decimal(shards as nat),
        ),
{
    let mut r = env.copy();
    r.insert(String::from_str("SHARD_INDEX"), decimal_string(shard_index as u64));
    r.insert(String::from_str("SHARD_TOTAL"), decimal_string(shards as u64));
    r
}

/// The shard indices of a run of `shards` shards: 1 to `shards`, in order.
pub fn shard_indices(shards: u32) -> (v: Vec<u32>)
    ensures
        v@ == Seq::new(shards as nat, |k: int| (k + 1) as u32),
{
    let mut v: Vec<u32> = Vec::new();
    let mut i: u32 = 0;
    while i < shards
        invariant
            i <= shards,
            v@ == Seq::new(i as nat, |k: int| (k + 1) as u32),
        decreases shards - i,
    {
        v.push(i + 1);
        i = i + 1;
        assert(v@ =~= Seq::new(i as nat, |k: int| (k + 1) as u32));
    }
    v
}

/// A process to start: the program, its arguments, and how it is shown to the user.
pub struct ShardCommand {
    pub program: String,
    pub args: Vec<String>,
    pub display: String,
}

/// The runner is the `npx` fallback, not a project's own Playwright runner.
pub open spec fn runs_through_npx(bin: Seq<char>) -> bool {
    bin == "npx"@
}

/// The command that runs the Playwright `args` with the runner `bin`: through
/// `npx playwright` when `bin` is the `npx` fallback, else `bin` itself.
pub fn shard_command(bin: &String, args: &Vec<String>) -> (c: ShardCommand)
    ensures
        runs_through_npx(bin@) ==> {
            &&& c.program@ == "npx"@
            &&& views(c.args@) == seq!["playwright"@] + views(args@)
            &&& c.display@ == "npx playwright "@ + join_seq(views(args@), " "@)
        },
        !runs_through_npx(bin@) ==> {
            &&& c.program@ == bin@
            &&& views(c.args@) == views(args@)
            &&& c.display@ == "playwright "@ + join_seq(views(args@), " "@)
        },
{
    let npx_name = String::from_str("npx");
    let npx = *bin == npx_name;
    let mut argv: Vec<String> = Vec::new();
    let mut display: String;
    let program: String;
    if npx {
        program = String::from_str("npx");
        push_string(&mut argv, String::from_str("playwright"));
        display = String::from_str("npx playwright ");
    } else {
        program = bin.clone();
        display = String::from_str("playwright ");
    }
    let ghost prefix = views(argv@);
    let n = args.len();
    let mut i: usize = 0;
    while i < n
        invariant
            n == args@.len(),
            i <= n,
            views(argv@) == prefix + views(args@).take(i as int),
        decreases n - i,
    {
        push_string(&mut argv, args[i].clone());
        assert(views(args@).take(i + 1) =~= views(args@).take(i as int).push(args@[i as int]@));
        i = i + 1;
    }
    assert(views(args@).take(n as int) =~= views(args@));
    assert(npx ==> prefix =~= seq!["playwright"@]);
    assert(!npx ==> views(argv@) =~= views(args@));
    push_joined(&mut display, args, " ");
    ShardCommand { program, args: argv, display }
}

/// The line that announces the start of a shard.
pub fn start_message(shard_index: u32, shards: u32, display: &str) -> (s: String)
    ensures
        s@ == "[shard "@ + decimal(shard_index as nat) + "/"@ + decimal(shards as nat)
            + "] starting: "@ + display@,
{
    let mut s = prefixed_decimal("[shard ", shard_index as u64);
    s.append("/");
    push_decimal(&mut s, shards as u64);
    s.append("] starting: ");
    s.append(display);
    s
}

/// The banner printed when a run starts.
pub fn launch_banner(cli: &Cli) -> (s: String)
    ensures
        s@ == "\n=== PSO: Launching "@ + decimal(cli.shards as nat) + " shard(s), "@ + decimal(
            cli.workers as nat,
        ) + " worker(s) each, "@ + decimal(cli.memory_mb as nat) + "MB per shard ===\n"@,
{
    let mut s = prefixed_decimal("\n=== PSO: Launching ", cli.shards as u64);
    s.append(" shard(s), ");
    push_decimal(&mut s, cli.workers as u64);
    s.append(" worker(s) each, ");
    push_decimal(&mut s, cli.memory_mb as u64);
    s.append("MB per shard ===\n");
    s
}

/// `rel` appended to the directory `dir`, with a `/` between them unless
/// `dir` is empty or already ends with one.
pub open spec fn join_path(dir: Seq<char>, rel: Seq<char>) -> Seq<char> {
    if dir.len() == 0 || dir.last() == '/' {
        dir + rel
    } else {
        dir + "/"@ + rel
    }
}

/// Where a project keeps its own Playwright runner.
pub open spec fn local_playwright(project_dir: Seq<char>) -> Seq<char> {
    join_path(project_dir, "node_modules/.bin/playwright"@)
}

/// The path of the project's own Playwright runner under `project_dir`.
pub fn local_playwright_path(project_dir: &str) -> (p: String)
    ensures
        p@ == local_playwright(project_dir@),
{
    let mut p = String::from_str(project_dir);
    let n = project_dir.unicode_len();
    if n > 0 && project_dir.get_char(n - 1) != '/' {
        p.append("/");
    }
    p.append("node_modules/.bin/playwright");
    p
}

/// Whether a file or directory exists at `path`.
///
/// Calls `std::path::Path::exists`. Nothing is claimed of the result: it
/// depends on the file system at the moment of the call.
#[verifier::external_body]
fn path_exists(path: &str) -> (r: bool) {
    std::path::Path::new(path).exists()
}

/// The Playwright runner to use for `project_dir`, given whether the
/// project's own runner exists: that one if it does, else `npx`.
pub fn select_playwright_bin(project_dir: &String, local_exists: bool) -> (bin: String)
    ensures
        local_exists ==> bin@ == local_playwright(project_dir@),
        !local_exists ==> bin@ == "npx"@,
{
    if local_exists {
        local_playwright_path(project_dir.as_str())
    } else {
        String::from_str("npx")
    }
}

/// The Playwright runner to use for `project_dir`: the project's own
/// `node_modules/.bin/playwright` if it exists, else `npx`.
pub fn playwright_bin(project_dir: &String) -> (bin: String)
    ensures
        bin@ == local_playwright(project_dir@) || bin@ == "npx"@,
{
    let local = local_playwright_path(project_dir.as_str());
    let exists = path_exists(local.as_str());
    select_playwright_bin(project_dir, exists)
}

}
