//! Properties that hold across the library's functions.

use vstd::prelude::*;

use crate::cli::Cli;
use crate::env::map_of;
use crate::report::{
    count_where, every_passed, is_errored, is_failed, is_passed, of_shard, results_of_shard,
    sorted_by_index, ShardOutcome, ShardResult,
};
use crate::shard::{apply_env_pairs, args_spec, env_spec, injected_env, optional_args, shard_arg};
use crate::text::{decimal, lemma_decimal_injective, split_once_spec, views};

verus! {

/// The `KEY=VALUE` pair `p` sets the variable `k`.
pub open spec fn pair_sets(p: Seq<char>, k: Seq<char>) -> bool {
    match split_once_spec(p, '=') {
        Some((key, _)) => key == k,
        None => false,
    }
}

/// Pairs that do not set `k` leave it as it was.
pub proof fn lemma_apply_untouched(
    m: Map<Seq<char>, Seq<char>>,
    pairs: Seq<Seq<char>>,
    k: Seq<char>,
)
    requires
        forall|i: int| 0 <= i < pairs.len() ==> !pair_sets(#[trigger] pairs[i], k),
    ensures
        apply_env_pairs(m, pairs).contains_key(k) == m.contains_key(k),
        m.contains_key(k) ==> apply_env_pairs(m, pairs)[k] == m[k],
    decreases pairs.len(),
{
    if pairs.len() > 0 {
        assert(!pair_sets(pairs[pairs.len() - 1], k));
        lemma_apply_untouched(m, pairs.drop_last(), k);
    }
}

/// The last pair that sets `k` gives `k` its value.
pub proof fn lemma_apply_last_wins(
    m: Map<Seq<char>, Seq<char>>,
    pairs: Seq<Seq<char>>,
    i: int,
    k: Seq<char>,
    v: Seq<char>,
)
    requires
        0 <= i < pairs.len(),
        split_once_spec(pairs[i], '=') == Some((k, v)),
        forall|j: int| i < j < pairs.len() ==> !pair_sets(#[trigger] pairs[j], k),
    ensures
        apply_env_pairs(m, pairs).contains_key(k),
        apply_env_pairs(m, pairs)[k] == v,
    decreases pairs.len(),
{
    if i < pairs.len() - 1 {
        assert(!pair_sets(pairs[pairs.len() - 1], k));
        lemma_apply_last_wins(m, pairs.drop_last(), i, k, v);
    }
}

/// A `-e KEY=VALUE` pair is passed to every shard: the last pair that sets a
/// variable decides its value, over the inherited environment and over the
/// orchestrator's own variables.
pub proof fn law_user_pair_wins(cli: Cli, inherited: Seq<(Seq<char>, Seq<char>)>, i: int)
    requires
        0 <= i < cli.env@.len(),
        split_once_spec(cli.env@[i]@, '=') is Some,
        forall|j: int|
            i < j < cli.env@.len() ==> !pair_sets(
                #[trigger] cli.env@[j]@,
                (split_once_spec(cli.env@[i]@, '=')->0).0,
            ),
    ensures
        ({
            let (k, v) = split_once_spec(cli.env@[i]@, '=')->0;
            env_spec(cli, inherited).contains_key(k) && env_spec(cli, inherited)[k] == v
        }),
{
    let (k, v) = split_once_spec(cli.env@[i]@, '=')->0;
    let pairs = views(cli.env@);
    assert forall|j: int| i < j < pairs.len() implies !pair_sets(#[trigger] pairs[j], k) by {
        assert(pairs[j] == cli.env@[j]@);
    }
    lemma_apply_last_wins(injected_env(cli, map_of(inherited)), pairs, i, k, v);
}

/// A pair without `=` is ignored: it sets no variable.
pub proof fn law_malformed_pair_ignored(p: Seq<char>, k: Seq<char>)
    requires
        !p.contains('='),
    ensures
        !pair_sets(p, k),
{
    p.index_of_first_ensures('=');
}

/// The variables that the orchestrator sets (`IS_SHARDED`, `WORKERS`,
/// `NODE_OPTIONS`, and `HEADED` in headed mode) take its values whatever the
/// inherited environment holds, unless a `-e` pair sets them.
pub proof fn law_injected_variables_override_inherited(
    cli: Cli,
    inherited: Seq<(Seq<char>, Seq<char>)>,
    k: Seq<char>,
)
    requires
        injected_env(cli, Map::empty()).contains_key(k),
        forall|j: int| 0 <= j < cli.env@.len() ==> !pair_sets(#[trigger] cli.env@[j]@, k),
    ensures
        env_spec(cli, inherited).contains_key(k),
        env_spec(cli, inherited)[k] == injected_env(cli, Map::empty())[k],
{
    let pairs = views(cli.env@);
    assert forall|j: int| 0 <= j < pairs.len() implies !pair_sets(#[trigger] pairs[j], k) by {
        assert(pairs[j] == cli.env@[j]@);
    }
    lemma_apply_untouched(injected_env(cli, map_of(inherited)), pairs, k);
}

/// An inherited variable that neither the orchestrator nor a `-e` pair sets
/// is passed on unchanged; a variable that none of the three sets is absent.
pub proof fn law_other_variables_inherited(
    cli: Cli,
    inherited: Seq<(Seq<char>, Seq<char>)>,
    k: Seq<char>,
)
    requires
        !injected_env(cli, Map::empty()).contains_key(k),
        forall|j: int| 0 <= j < cli.env@.len() ==> !pair_sets(#[trigger] cli.env@[j]@, k),
    ensures
        env_spec(cli, inherited).contains_key(k) == map_of(inherited).contains_key(k),
        map_of(inherited).contains_key(k) ==> env_spec(cli, inherited)[k] == map_of(inherited)[k],
{
    let pairs = views(cli.env@);
    assert forall|j: int| 0 <= j < pairs.len() implies !pair_sets(#[trigger] pairs[j], k) by {
        assert(pairs[j] == cli.env@[j]@);
    }
    lemma_apply_untouched(injected_env(cli, map_of(inherited)), pairs, k);
}

/// The shards of one run get the same arguments but for the shard
/// selection, which differs between any two different shards: no two shards
/// run the same slice of the suite.
pub proof fn law_shards_differ_only_in_selection(cli: Cli, i: u32, j: u32)
    ensures
        args_spec(cli, i).len() == args_spec(cli, j).len(),
        forall|q: int| 0 <= q < args_spec(cli, i).len() && q != 2 ==> args_spec(cli, i)[q]
            == args_spec(cli, j)[q],
        args_spec(cli, i)[2] == shard_arg(i, cli.shards),
        (args_spec(cli, i)[2] == args_spec(cli, j)[2]) <==> i == j,
{
    if shard_arg(i, cli.shards) == shard_arg(j, cli.shards) {
        let a = shard_arg(i, cli.shards);
        let b = shard_arg(j, cli.shards);
        let lead = "--shard="@.len();
        let di = decimal(i as nat);
        let dj = decimal(j as nat);
        assert(a =~= "--shard="@ + di + "/"@ + decimal(cli.shards as nat));
        assert(a.len() == lead + di.len() + "/"@.len() + decimal(cli.shards as nat).len());
        assert(b.len() == lead + dj.len() + "/"@.len() + decimal(cli.shards as nat).len());
        assert(di.len() == dj.len());
        assert(a.subrange(lead as int, (lead + di.len()) as int) =~= di);
        assert(b.subrange(lead as int, (lead + dj.len()) as int) =~= dj);
        lemma_decimal_injective(i as nat, j as nat);
    }
}

/// Every shard's arguments start with the `test` command, the config, the
/// shard selection and the worker count, and end with the test file when one
/// is given.
pub proof fn law_argument_layout(cli: Cli, i: u32)
    ensures
        args_spec(cli, i).len() >= 4,
        args_spec(cli, i)[0] == "test"@,
        args_spec(cli, i)[1] == "--config="@ + cli.config@,
        args_spec(cli, i)[3] == "--workers="@ + decimal(cli.workers as nat),
        args_spec(cli, i).len() == 4 + optional_args(cli).len(),
        cli.file matches Some(f) ==> args_spec(cli, i).last() == f@,
{
}

/// The run passed exactly when no shard failed or could not be run, and
/// exactly when every shard is counted as passed.
pub proof fn law_all_passed_iff_no_failures(s: Seq<ShardResult>)
    ensures
        count_where(s, |o: ShardOutcome| is_passed(o)) + count_where(s, |o: ShardOutcome| is_failed(o))
            + count_where(s, |o: ShardOutcome| is_errored(o)) == s.len(),
        every_passed(s) <==> count_where(s, |o: ShardOutcome| is_failed(o)) + count_where(
            s,
            |o: ShardOutcome| is_errored(o),
        ) == 0,
        every_passed(s) <==> count_where(s, |o: ShardOutcome| is_passed(o)) == s.len(),
    decreases s.len(),
{
    if s.len() > 0 {
        law_all_passed_iff_no_failures(s.drop_last());
        if every_passed(s) {
            assert(every_passed(s.drop_last())) by {
                assert forall|i: int| 0 <= i < s.drop_last().len() implies (
                #[trigger] s.drop_last()[i]).outcome is Passed by {
                    assert(s.drop_last()[i] == s[i]);
                }
            }
            assert(s[s.len() - 1].outcome is Passed);
        }
        if every_passed(s.drop_last()) && s.last().outcome is Passed {
            assert forall|i: int| 0 <= i < s.len() implies (#[trigger] s[i]).outcome is Passed by {
                if i < s.len() - 1 {
                    assert(s.drop_last()[i] == s[i]);
                }
            }
        }
    }
}

/// Headed mode is passed to the shards through `HEADED=1`, and only in
/// headed mode (when neither the inherited environment nor a `-e` pair sets it).
pub proof fn law_headed_flag(cli: Cli, inherited: Seq<(Seq<char>, Seq<char>)>)
    requires
        !map_of(inherited).contains_key("HEADED"@),
        forall|j: int| 0 <= j < cli.env@.len() ==> !pair_sets(#[trigger] cli.env@[j]@, "HEADED"@),
    ensures
        env_spec(cli, inherited).contains_key("HEADED"@) == cli.headed,
        cli.headed ==> env_spec(cli, inherited)["HEADED"@] == "1"@,
{
    reveal_strlit("HEADED");
    reveal_strlit("IS_SHARDED");
    reveal_strlit("WORKERS");
    reveal_strlit("NODE_OPTIONS");
    let pairs = views(cli.env@);
    assert forall|j: int| 0 <= j < pairs.len() implies !pair_sets(#[trigger] pairs[j], "HEADED"@) by {
        assert(pairs[j] == cli.env@[j]@);
    }
    lemma_apply_untouched(injected_env(cli, map_of(inherited)), pairs, "HEADED"@);
    assert("HEADED"@.len() == 6);
    assert("IS_SHARDED"@.len() == 10);
    assert("WORKERS"@.len() == 7);
    assert("NODE_OPTIONS"@.len() == 12);
}

/// The results of each shard, before and after the last result.
proof fn lemma_results_of_shard_last(s: Seq<ShardResult>)
    requires
        s.len() > 0,
    ensures
        results_of_shard(s, s.last().shard_index) == results_of_shard(
            s.drop_last(),
            s.last().shard_index,
        ).push(s.last()),
        forall|k: u32|
            k != s.last().shard_index ==> #[trigger] results_of_shard(s, k) == results_of_shard(
                s.drop_last(),
                k,
            ),
{
    reveal(Seq::filter);
}

/// A shard that has results in `s` has an index at most that of the last result.
proof fn lemma_shard_at_most_last(s: Seq<ShardResult>, k: u32)
    requires
        sorted_by_index(s),
        results_of_shard(s, k).len() > 0,
    ensures
        s.len() > 0,
        k <= s.last().shard_index,
{
    s.lemma_filter_pred(of_shard(k), 0);
    let x = results_of_shard(s, k)[0];
    assert(results_of_shard(s, k).contains(x));
    s.lemma_filter_contains_rev(of_shard(k), x);
    let i = choose|i: int| 0 <= i < s.len() && s[i] == x;
    assert(s[i].shard_index == k);
}

/// The summary does not depend on the order in which the shards finished:
/// two result lists in shard order that hold, shard by shard, the same
/// results in the same order are equal.
pub proof fn law_summary_independent_of_arrival_order(a: Seq<ShardResult>, b: Seq<ShardResult>)
    requires
        sorted_by_index(a),
        sorted_by_index(b),
        forall|k: u32| #[trigger] results_of_shard(a, k) == results_of_shard(b, k),
    ensures
        a == b,
    decreases a.len() + b.len(),
{
    reveal(Seq::filter);
    if a.len() == 0 && b.len() == 0 {
        assert(a =~= b);
        return;
    }
    if a.len() == 0 {
        lemma_results_of_shard_last(b);
        assert(results_of_shard(a, b.last().shard_index).len() == 0);
        return;
    }
    if b.len() == 0 {
        lemma_results_of_shard_last(a);
        assert(results_of_shard(b, a.last().shard_index).len() == 0);
        return;
    }
    let ka = a.last().shard_index;
    let kb = b.last().shard_index;
    lemma_results_of_shard_last(a);
    lemma_results_of_shard_last(b);
    assert(results_of_shard(b, ka).len() > 0);
    lemma_shard_at_most_last(b, ka);
    assert(results_of_shard(a, kb).len() > 0);
    lemma_shard_at_most_last(a, kb);
    assert(ka == kb);
    let a1 = a.drop_last();
    let b1 = b.drop_last();
    assert(results_of_shard(a, ka).last() == a.last());
    assert(results_of_shard(b, ka).last() == b.last());
    assert(results_of_shard(a1, ka) =~= results_of_shard(a, ka).drop_last());
    assert(results_of_shard(b1, ka) =~= results_of_shard(b, ka).drop_last());
    assert forall|k: u32| #[trigger] results_of_shard(a1, k) == results_of_shard(b1, k) by {
        if k != ka {
            assert(results_of_shard(a, k) == results_of_shard(a1, k));
            assert(results_of_shard(b, k) == results_of_shard(b1, k));
        }
    }
    law_summary_independent_of_arrival_order(a1, b1);
    assert(a =~= b1.push(b.last()));
    assert(b =~= b1.push(b.last()));
}

/// `SHARD_INDEX` and `SHARD_TOTAL` are not part of the environment shared by
/// the shards (unless inherited or set by a `-e` pair); each shard gets its own.
pub proof fn law_shard_variables_not_shared(cli: Cli, inherited: Seq<(Seq<char>, Seq<char>)>)
    requires
        !map_of(inherited).contains_key("SHARD_INDEX"@),
        !map_of(inherited).contains_key("SHARD_TOTAL"@),
        forall|j: int|
            0 <= j < cli.env@.len() ==> !pair_sets(#[trigger] cli.env@[j]@, "SHARD_INDEX"@),
        forall|j: int|
            0 <= j < cli.env@.len() ==> !pair_sets(#[trigger] cli.env@[j]@, "SHARD_TOTAL"@),
    ensures
        !env_spec(cli, inherited).contains_key("SHARD_INDEX"@),
        !env_spec(cli, inherited).contains_key("SHARD_TOTAL"@),
{
    reveal_strlit("SHARD_INDEX");
    reveal_strlit("SHARD_TOTAL");
    reveal_strlit("HEADED");
    reveal_strlit("IS_SHARDED");
    reveal_strlit("WORKERS");
    reveal_strlit("NODE_OPTIONS");
    assert("SHARD_INDEX"@.len() == 11);
    assert("SHARD_TOTAL"@.len() == 11);
    assert("HEADED"@.len() == 6);
    assert("IS_SHARDED"@.len() == 10);
    assert("WORKERS"@.len() == 7);
    assert("NODE_OPTIONS"@.len() == 12);
    law_other_variables_inherited(cli, inherited, "SHARD_INDEX"@);
    law_other_variables_inherited(cli, inherited, "SHARD_TOTAL"@);
}

/// A result list in shard order that holds, for each shard 1 to `n`, exactly
/// one result and no other results lists shard `i + 1` at position `i`.
pub proof fn law_sorted_results_list_each_shard(s: Seq<ShardResult>, n: nat)
    requires
        n <= u32::MAX,
        sorted_by_index(s),
        s.len() == n,
        forall|i: int| 0 <= i < s.len() ==> 1 <= #[trigger] s[i].shard_index <= n,
        forall|k: u32| 1 <= k <= n ==> #[trigger] results_of_shard(s, k).len() == 1,
    ensures
        forall|i: int| 0 <= i < n ==> #[trigger] s[i].shard_index == i + 1,
    decreases n,
{
    if n == 0 {
        return;
    }
    let top = n as u32;
    let last = s.last();
    assert(results_of_shard(s, top).len() == 1);
    lemma_shard_at_most_last(s, top);
    assert(last.shard_index == top);
    lemma_results_of_shard_last(s);
    let s1 = s.drop_last();
    assert forall|i: int| 0 <= i < s1.len() implies 1 <= #[trigger] s1[i].shard_index <= n - 1 by {
        assert(s1[i] == s[i]);
        if s1[i].shard_index == top {
            s1.lemma_filter_contains(of_shard(top), i);
            assert(results_of_shard(s1, top).contains(s1[i]));
        }
    }
    assert forall|k: u32| 1 <= k <= n - 1 implies #[trigger] results_of_shard(s1, k).len() == 1 by {
        assert(results_of_shard(s, k) == results_of_shard(s1, k));
    }
    assert(sorted_by_index(s1)) by {
        assert forall|i: int, j: int| 0 <= i < j < s1.len() implies s1[i].shard_index
            <= s1[j].shard_index by {
            assert(s1[i] == s[i] && s1[j] == s[j]);
        }
    }
    law_sorted_results_list_each_shard(s1, (n - 1) as nat);
    assert forall|i: int| 0 <= i < n implies #[trigger] s[i].shard_index == i + 1 by {
        if i < n - 1 {
            assert(s[i] == s1[i]);
        }
    }
}

/// When the shards of a run of `n` shards hand in one result each, in any
/// order, the summary of `RunSummary::new` (its results sorted, the same
/// results, each shard's results in arrival order) lists shard `i + 1` at
/// position `i`, each shard exactly once.
pub proof fn law_summary_lists_each_shard_once(
    arrived: Seq<ShardResult>,
    listed: Seq<ShardResult>,
    n: nat,
)
    requires
        n <= u32::MAX,
        arrived.len() == n,
        forall|i: int| 0 <= i < arrived.len() ==> 1 <= #[trigger] arrived[i].shard_index <= n,
        forall|k: u32| 1 <= k <= n ==> #[trigger] results_of_shard(arrived, k).len() == 1,
        sorted_by_index(listed),
        listed.to_multiset() == arrived.to_multiset(),
        forall|k: u32| #[trigger] results_of_shard(listed, k) == results_of_shard(arrived, k),
    ensures
        listed.len() == n,
        forall|i: int| 0 <= i < n ==> #[trigger] listed[i].shard_index == i + 1,
{
    broadcast use vstd::seq_lib::group_to_multiset_ensures;

    vstd::seq_lib::to_multiset_len(listed);
    vstd::seq_lib::to_multiset_len(arrived);
    assert(listed.len() == arrived.len());
    assert forall|i: int| 0 <= i < listed.len() implies 1 <= #[trigger] listed[i].shard_index
        <= n by {
        assert(listed.to_multiset().count(listed[i]) > 0);
        assert(arrived.contains(listed[i]));
        let j = choose|j: int| 0 <= j < arrived.len() && arrived[j] == listed[i];
        assert(1 <= arrived[j].shard_index <= n);
    }
    assert forall|k: u32| 1 <= k <= n implies #[trigger] results_of_shard(listed, k).len() == 1 by {
        assert(results_of_shard(listed, k) == results_of_shard(arrived, k));
    }
    law_sorted_results_list_each_shard(listed, n);
}

/// Shard `i` of a run selects slice `i` of an `N`-way split, where `N` is the
/// requested shard count: its selection argument is `--shard=i/N`. So the
/// shards `1..=N` of a run together select every slice of the suite.
pub proof fn law_shard_selection_is_i_of_n(cli: Cli, i: u32)
    ensures
        args_spec(cli, i)[2] == "--shard="@ + decimal(i as nat) + "/"@ + decimal(cli.shards as nat),
        forall|k: int|
            0 <= k < cli.shards ==> #[trigger] args_spec(cli, (k + 1) as u32)[2] == "--shard="@
                + decimal((k + 1) as nat) + "/"@ + decimal(cli.shards as nat),
{
}

/// The user's Playwright options reach every shard as given: the grep and
/// grep-invert patterns verbatim, the retry count and the timeout in decimal,
/// and `--headed` in headed mode.
pub proof fn law_options_passed_verbatim(cli: Cli, i: u32)
    ensures
        cli.grep matches Some(g) ==> args_spec(cli, i).contains("--grep="@ + g@),
        cli.grep_invert matches Some(g) ==> args_spec(cli, i).contains("--grep-invert="@ + g@),
        cli.retries matches Some(r) ==> args_spec(cli, i).contains(
            "--retries="@ + decimal(r as nat),
        ),
        cli.timeout matches Some(t) ==> args_spec(cli, i).contains(
            "--timeout="@ + decimal(t as nat),
        ),
        cli.headed ==> args_spec(cli, i).contains("--headed"@),
{
    let a = args_spec(cli, i);
    let g1: int = if cli.grep is Some { 1 } else { 0 };
    let g2: int = if cli.grep_invert is Some { 1 } else { 0 };
    let g3: int = if cli.retries is Some { 1 } else { 0 };
    let g4: int = if cli.timeout is Some { 1 } else { 0 };
    if let Some(g) = cli.grep {
        assert(a[4] == "--grep="@ + g@);
    }
    if let Some(g) = cli.grep_invert {
        assert(a[4 + g1] == "--grep-invert="@ + g@);
    }
    if let Some(r) = cli.retries {
        assert(a[4 + g1 + g2] == "--retries="@ + decimal(r as nat));
    }
    if let Some(t) = cli.timeout {
        assert(a[4 + g1 + g2 + g3] == "--timeout="@ + decimal(t as nat));
    }
    if cli.headed {
        assert(a[4 + g1 + g2 + g3 + g4] == "--headed"@);
    }
}

/// Every shard's environment holds `IS_SHARDED=true`, `WORKERS` set to the
/// worker count and `NODE_OPTIONS` set to the memory limit, for every set of
/// settings and every inherited environment, unless a `-e` pair sets the
/// variable itself.
pub proof fn law_orchestrator_variables_set(cli: Cli, inherited: Seq<(Seq<char>, Seq<char>)>)
    ensures
        (forall|j: int| 0 <= j < cli.env@.len() ==> !pair_sets(#[trigger] cli.env@[j]@, "IS_SHARDED"@))
            ==> env_spec(cli, inherited).contains_key("IS_SHARDED"@) && env_spec(cli, inherited)["IS_SHARDED"@]
            == "true"@,
        (forall|j: int| 0 <= j < cli.env@.len() ==> !pair_sets(#[trigger] cli.env@[j]@, "WORKERS"@))
            ==> env_spec(cli, inherited).contains_key("WORKERS"@) && env_spec(cli, inherited)["WORKERS"@]
            == decimal(cli.workers as nat),
        (forall|j: int|
            0 <= j < cli.env@.len() ==> !pair_sets(#[trigger] cli.env@[j]@, "NODE_OPTIONS"@))
            ==> env_spec(cli, inherited).contains_key("NODE_OPTIONS"@) && env_spec(
            cli,
            inherited,
        )["NODE_OPTIONS"@] == "--max-old-space-size="@ + decimal(cli.memory_mb as nat),
{
    reveal_strlit("HEADED");
    reveal_strlit("IS_SHARDED");
    reveal_strlit("WORKERS");
    reveal_strlit("NODE_OPTIONS");
    assert("HEADED"@.len() == 6);
    assert("IS_SHARDED"@.len() == 10);
    assert("WORKERS"@.len() == 7);
    assert("NODE_OPTIONS"@.len() == 12);
    let pairs = views(cli.env@);
    let m = injected_env(cli, map_of(inherited));
    assert(m.contains_key("IS_SHARDED"@) && m["IS_SHARDED"@] == "true"@);
    assert(m.contains_key("WORKERS"@) && m["WORKERS"@] == decimal(cli.workers as nat));
    assert(m.contains_key("NODE_OPTIONS"@) && m["NODE_OPTIONS"@] == "--max-old-space-size="@
        + decimal(cli.memory_mb as nat));
    if forall|j: int| 0 <= j < cli.env@.len() ==> !pair_sets(#[trigger] cli.env@[j]@, "IS_SHARDED"@) {
        assert forall|j: int| 0 <= j < pairs.len() implies !pair_sets(#[trigger] pairs[j], "IS_SHARDED"@) by {
            assert(pairs[j] == cli.env@[j]@);
        }
        lemma_apply_untouched(m, pairs, "IS_SHARDED"@);
    }
    if forall|j: int| 0 <= j < cli.env@.len() ==> !pair_sets(#[trigger] cli.env@[j]@, "WORKERS"@) {
        assert forall|j: int| 0 <= j < pairs.len() implies !pair_sets(#[trigger] pairs[j], "WORKERS"@) by {
            assert(pairs[j] == cli.env@[j]@);
        }
        lemma_apply_untouched(m, pairs, "WORKERS"@);
    }
    if forall|j: int|
        0 <= j < cli.env@.len() ==> !pair_sets(#[trigger] cli.env@[j]@, "NODE_OPTIONS"@) {
        assert forall|j: int| 0 <= j < pairs.len() implies !pair_sets(
            #[trigger] pairs[j],
            "NODE_OPTIONS"@,
        ) by {
            assert(pairs[j] == cli.env@[j]@);
        }
        lemma_apply_untouched(m, pairs, "NODE_OPTIONS"@);
    }
}

}
