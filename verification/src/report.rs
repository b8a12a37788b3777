//! Per-shard results and the summary of a whole run.

use std::time::Duration;

use vstd::prelude::*;
use vstd::string::*;

use crate::cli::Cli;
use crate::text::{decimal, push_decimal, push_signed_decimal, signed_decimal};

verus! {

broadcast use vstd::seq_lib::group_to_multiset_ensures;

/// How a shard ended.
#[derive(Debug)]
pub enum ShardOutcome {
    /// Playwright exited with success.
    Passed,
    /// Playwright exited with a failure status.
    Failed { exit_code: i32 },
    /// The Playwright process could not be run.
    Error { message: String },
}

/// The result of one shard.
#[derive(Debug)]
pub struct ShardResult {
    /// The shard's 1-based index.
    pub shard_index: u32,
    /// How the shard ended.
    pub outcome: ShardOutcome,
    /// How long the shard ran.
    pub duration: Duration,
    /// What the shard wrote to standard output.
    pub stdout: String,
    /// What the shard wrote to standard error.
    pub stderr: String,
}

/// The summary of one run of all shards.
#[derive(Debug)]
pub struct RunSummary {
    /// Number of shards the suite was split into.
    pub total_shards: u32,
    /// Playwright workers inside each shard.
    pub workers_per_shard: u32,
    /// Memory limit of each shard in MB.
    pub memory_mb: u32,
    /// Wall time of the whole run.
    pub total_duration: Duration,
    /// The result of each shard, in ascending order of shard index.
    pub results: Vec<ShardResult>,
}

/// How many shards passed, failed and could not be run.
#[derive(Debug, PartialEq, Eq, Structural)]
pub struct OutcomeTally {
    pub passed: usize,
    pub failed: usize,
    pub errored: usize,
}

/// Every result in `s` passed.
pub open spec fn every_passed(s: Seq<ShardResult>) -> bool {
    forall|i: int| 0 <= i < s.len() ==> (#[trigger] s[i]).outcome is Passed
}

/// How many results of `s` satisfy `p`.
pub open spec fn count_where(s: Seq<ShardResult>, p: spec_fn(ShardOutcome) -> bool) -> nat
    decreases s.len(),
{
    if s.len() == 0 {
        0
    } else {
        count_where(s.drop_last(), p) + if p(s.last().outcome) {
            1nat
        } else {
            0nat
        }
    }
}

/// The outcome is a pass.
pub open spec fn is_passed(o: ShardOutcome) -> bool {
    o is Passed
}

/// The outcome is a failure exit.
pub open spec fn is_failed(o: ShardOutcome) -> bool {
    o is Failed
}

/// The outcome is a failure to run.
pub open spec fn is_errored(o: ShardOutcome) -> bool {
    o is Error
}

/// The results are in ascending order of shard index.
pub open spec fn sorted_by_index(s: Seq<ShardResult>) -> bool {
    forall|i: int, j: int| 0 <= i < j < s.len() ==> s[i].shard_index <= s[j].shard_index
}

/// Whether a result belongs to shard `k`.
pub open spec fn of_shard(k: u32) -> spec_fn(ShardResult) -> bool {
    |r: ShardResult| r.shard_index == k
}

/// The results of `s` that belong to shard `k`, in their order in `s`.
pub open spec fn results_of_shard(s: Seq<ShardResult>, k: u32) -> Seq<ShardResult> {
    s.filter(of_shard(k))
}

proof fn lemma_no_results_of_shard(s: Seq<ShardResult>, k: u32)
    requires
        forall|i: int| 0 <= i < s.len() ==> s[i].shard_index != k,
    ensures
        results_of_shard(s, k) == Seq::<ShardResult>::empty(),
    decreases s.len(),
{
    reveal(Seq::filter);
    if s.len() > 0 {
        lemma_no_results_of_shard(s.drop_last(), k);
    }
}

/// Inserting `r` before every result of a higher shard index appends `r`
/// to the results of its own shard and leaves those of other shards alone.
proof fn lemma_insert_keeps_shard_order(s: Seq<ShardResult>, p: int, r: ShardResult, k: u32)
    requires
        0 <= p <= s.len(),
        forall|q: int| p <= q < s.len() ==> s[q].shard_index > r.shard_index,
    ensures
        results_of_shard(s.insert(p, r), k) == if r.shard_index == k {
            results_of_shard(s, k).push(r)
        } else {
            results_of_shard(s, k)
        },
{
    let a = s.take(p);
    let b = s.skip(p);
    assert(s =~= a + b);
    assert(s.insert(p, r) =~= a.push(r) + b);
    Seq::filter_distributes_over_add(a.push(r), b, of_shard(k));
    Seq::filter_distributes_over_add(a, b, of_shard(k));
    a.lemma_filter_push(r, of_shard(k));
    if r.shard_index == k {
        lemma_no_results_of_shard(b, k);
        assert(results_of_shard(s, k) =~= a.filter(of_shard(k)));
        assert(results_of_shard(s.insert(p, r), k) =~= a.filter(of_shard(k)).push(r));
    }
}

/// The label that the summary shows for an outcome.
pub open spec fn outcome_label(o: ShardOutcome) -> Seq<char> {
    match o {
        ShardOutcome::Passed => "passed"@,
        ShardOutcome::Failed { exit_code } => "failed (exit "@ + signed_decimal(exit_code as int)
            + ")"@,
        ShardOutcome::Error { message } => "error: "@ + message@,
    }
}

/// The four-character marker that heads a shard's output.
pub open spec fn outcome_marker(o: ShardOutcome) -> Seq<char> {
    match o {
        ShardOutcome::Passed => "PASS"@,
        ShardOutcome::Failed { .. } => "FAIL"@,
        ShardOutcome::Error { .. } => "ERR "@,
    }
}

/// The coloured sign that the summary shows before a shard's line.
pub open spec fn outcome_icon(o: ShardOutcome) -> Seq<char> {
    match o {
        ShardOutcome::Passed => "\x1b[32m✓\x1b[0m"@,
        ShardOutcome::Failed { .. } => "\x1b[31m✗\x1b[0m"@,
        ShardOutcome::Error { .. } => "\x1b[33m!\x1b[0m"@,
    }
}

impl OutcomeTally {
    /// The closing line of the summary: the three counts, coloured.
    pub fn line(&self) -> (s: String)
        ensures
            s@ == "  \x1b[32m"@ + decimal(self.passed as nat) + " passed\x1b[0m, \x1b[31m"@
                + decimal(self.failed as nat) + " failed\x1b[0m, \x1b[33m"@ + decimal(
                self.errored as nat,
            ) + " errors\x1b[0m"@,
    {
        let mut s = String::from_str("  \x1b[32m");
        push_decimal(&mut s, self.passed as u64);
        s.append(" passed\x1b[0m, \x1b[31m");
        push_decimal(&mut s, self.failed as u64);
        s.append(" failed\x1b[0m, \x1b[33m");
        push_decimal(&mut s, self.errored as u64);
        s.append(" errors\x1b[0m");
        s
    }
}

impl ShardOutcome {
    /// The coloured sign that the summary shows before this shard's line.
    pub fn icon(&self) -> (s: &'static str)
        ensures
            s@ == outcome_icon(*self),
    {
        match self {
            ShardOutcome::Passed => "\x1b[32m✓\x1b[0m",
            ShardOutcome::Failed { .. } => "\x1b[31m✗\x1b[0m",
            ShardOutcome::Error { .. } => "\x1b[33m!\x1b[0m",
        }
    }

    /// The outcome of a Playwright process that ran to its end: a pass on a
    /// success status, else a failure with the exit code, or -1 where the
    /// process has none (it was ended by a signal).
    pub fn from_exit(success: bool, code: Option<i32>) -> (o: ShardOutcome)
        ensures
            success ==> o is Passed,
            !success ==> o == (ShardOutcome::Failed {
                exit_code: match code {
                    Some(c) => c,
                    None => -1i32,
                },
            }),
    {
        if success {
            ShardOutcome::Passed
        } else {
            let exit_code = match code {
                Some(c) => c,
                None => -1,
            };
            ShardOutcome::Failed { exit_code }
        }
    }

    /// The label that the summary shows for this outcome.
    pub fn label(&self) -> (s: String)
        ensures
            s@ == outcome_label(*self),
    {
        match self {
            ShardOutcome::Passed => String::from_str("passed"),
            ShardOutcome::Failed { exit_code } => {
                let mut s = String::from_str("failed (exit ");
                push_signed_decimal(&mut s, *exit_code);
                s.append(")");
                s
            },
            ShardOutcome::Error { message } => {
                let mut s = String::from_str("error: ");
                s.append(message.as_str());
                s
            },
        }
    }

    /// The marker that heads this shard's output.
    pub fn marker(&self) -> (s: &'static str)
        ensures
            s@ == outcome_marker(*self),
    {
        match self {
            ShardOutcome::Passed => "PASS",
            ShardOutcome::Failed { .. } => "FAIL",
            ShardOutcome::Error { .. } => "ERR ",
        }
    }
}

impl RunSummary {
    /// Whether every shard passed (true when there are no results).
    pub fn all_passed(&self) -> (r: bool)
        ensures
            r == every_passed(self.results@),
    {
        let n = self.results.len();
        let mut i: usize = 0;
        while i < n
            invariant
                n == self.results@.len(),
                i <= n,
                forall|j: int| 0 <= j < i ==> (#[trigger] self.results@[j]).outcome is Passed,
            decreases n - i,
        {
            match self.results[i].outcome {
                ShardOutcome::Passed => {},
                _ => {
                    return false;
                },
            }
            i = i + 1;
        }
        true
    }

    /// How many shards passed, failed and could not be run.
    pub fn tally(&self) -> (t: OutcomeTally)
        ensures
            t.passed == count_where(self.results@, |o: ShardOutcome| is_passed(o)),
            t.failed == count_where(self.results@, |o: ShardOutcome| is_failed(o)),
            t.errored == count_where(self.results@, |o: ShardOutcome| is_errored(o)),
    {
        let ghost s = self.results@;
        let n = self.results.len();
        let mut passed: usize = 0;
        let mut failed: usize = 0;
        let mut errored: usize = 0;
        let mut i: usize = 0;
        while i < n
            invariant
                n == s.len(),
                s == self.results@,
                i <= n,
                passed + failed + errored == i,
                passed == count_where(s.take(i as int), |o: ShardOutcome| is_passed(o)),
                failed == count_where(s.take(i as int), |o: ShardOutcome| is_failed(o)),
                errored == count_where(s.take(i as int), |o: ShardOutcome| is_errored(o)),
            decreases n - i,
        {
            assert(s.take(i + 1).drop_last() =~= s.take(i as int));
            match self.results[i].outcome {
                ShardOutcome::Passed => {
                    passed = passed + 1;
                },
                ShardOutcome::Failed { .. } => {
                    failed = failed + 1;
                },
                ShardOutcome::Error { .. } => {
                    errored = errored + 1;
                },
            }
            i = i + 1;
        }
        assert(s.take(n as int) =~= s);
        OutcomeTally { passed, failed, errored }
    }

    /// The summary line that gives the shard count, the workers of each
    /// shard and the memory of each shard.
    pub fn header_line(&self) -> (s: String)
        ensures
            s@ == "  Shards: "@ + decimal(self.total_shards as nat) + "  |  Workers/shard: "@
                + decimal(self.workers_per_shard as nat) + "  |  Memory/shard: "@ + decimal(
                self.memory_mb as nat,
            ) + "MB"@,
    {
        let mut s = String::from_str("  Shards: ");
        push_decimal(&mut s, self.total_shards as u64);
        s.append("  |  Workers/shard: ");
        push_decimal(&mut s, self.workers_per_shard as u64);
        s.append("  |  Memory/shard: ");
        push_decimal(&mut s, self.memory_mb as u64);
        s.append("MB");
        s
    }

    /// The process exit code of the run: 0 when every shard passed, 1 otherwise.
    pub fn exit_code(&self) -> (c: u8)
        ensures
            c == (if every_passed(self.results@) {
                0u8
            } else {
                1u8
            }),
    {
        if self.all_passed() {
            0
        } else {
            1
        }
    }

    /// The summary of a run made with `cli`, whose shards gave `results` in
    /// any order and which took `total_duration`; the results are put in
    /// ascending order of shard index.
    pub fn new(cli: &Cli, results: Vec<ShardResult>, total_duration: Duration) -> (s: RunSummary)
        ensures
            s.total_shards == cli.shards,
            s.workers_per_shard == cli.workers,
            s.memory_mb == cli.memory_mb,
            s.total_duration == total_duration,
            sorted_by_index(s.results@),
            s.results@.to_multiset() == results@.to_multiset(),
            forall|k: u32| #[trigger]
                results_of_shard(s.results@, k) == results_of_shard(results@, k),
    {
        let ghost input = results@;
        let mut rest = results;
        let mut sorted: Vec<ShardResult> = Vec::new();
        let ghost mut done: int = 0;
        assert forall|k: u32| #[trigger]
            results_of_shard(sorted@, k) == results_of_shard(input.take(0), k) by {
            reveal(Seq::filter);
            assert(input.take(0) =~= Seq::<ShardResult>::empty());
        }
        while rest.len() > 0
            invariant
                0 <= done <= input.len(),
                rest@ == input.skip(done),
                sorted_by_index(sorted@),
                sorted@.to_multiset().add(rest@.to_multiset()) == input.to_multiset(),
                forall|k: u32| #[trigger]
                    results_of_shard(sorted@, k) == results_of_shard(input.take(done), k),
            decreases rest@.len(),
        {
            let ghost rest_before = rest@;
            let r = rest.remove(0);
            let key = r.shard_index;
            let len = sorted.len();
            let mut p: usize = 0;
            while p < len && sorted[p].shard_index <= key
                invariant
                    len == sorted@.len(),
                    p <= len,
                    forall|q: int| 0 <= q < p ==> sorted@[q].shard_index <= key,
                decreases len - p,
            {
                p = p + 1;
            }
            let ghost sorted_before = sorted@;
            sorted.insert(p, r);
            assert(sorted_by_index(sorted@)) by {
                assert forall|i: int, j: int| 0 <= i < j < sorted@.len() implies sorted@[i].shard_index
                    <= sorted@[j].shard_index by {
                    if i < p && j > p {
                        assert(sorted@[j] == sorted_before[j - 1]);
                        if p < len {
                            assert(sorted_before[p as int].shard_index > key);
                        }
                    }
                }
            }
            assert(rest_before.to_multiset() == rest@.to_multiset().insert(r)) by {
                assert(rest@ == rest_before.remove(0));
            }
            assert(sorted@.to_multiset().add(rest@.to_multiset()) =~= input.to_multiset());
            proof {
                assert(r == input[done]);
                assert(input.take(done + 1) =~= input.take(done).push(r));
                assert forall|k: u32| #[trigger]
                    results_of_shard(sorted@, k) == results_of_shard(input.take(done + 1), k) by {
                    assert forall|q: int| p <= q < sorted_before.len() implies sorted_before[q].shard_index
                        > key by {
                        assert(sorted_before[p as int].shard_index > key);
                    }
                    lemma_insert_keeps_shard_order(sorted_before, p as int, r, k);
                    input.take(done).lemma_filter_push(r, of_shard(k));
                }
                assert(rest@ =~= input.skip(done + 1));
                done = done + 1;
            }
        }
        assert(input.take(done) =~= input);
        RunSummary {
            total_shards: cli.shards,
            workers_per_shard: cli.workers,
            memory_mb: cli.memory_mb,
            total_duration,
            results: sorted,
        }
    }
}

}
