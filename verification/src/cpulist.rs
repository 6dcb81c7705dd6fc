//! The textual CPU list that a cpuset controller reads, such as `0-2,4,6-8`.
//!
//! A list of core identifiers stands for the set of its entries. The text
//! names the maximal runs of consecutive identifiers in that set, in
//! ascending order: a run of one identifier by its number, a longer run by
//! its two ends joined with a dash, and the runs separated by commas.

use vstd::prelude::*;
use vstd::string::*;
use crate::decimal::{decimal, decimal_string};
use crate::error::InvalidInput;

verus! {

/// A stretch of consecutive core identifiers, both ends included.
pub struct Run {
    pub first: nat,
    pub last: nat,
}

/// The set of identifiers that occur in `cores`.
pub open spec fn core_set(cores: Seq<u32>) -> Set<nat> {
    Set::new(|n: nat| exists|i: int| 0 <= i < cores.len() && #[trigger] cores[i] == n)
}

/// Every run is non-empty, the runs ascend, and between two of them at least
/// one identifier is left out, so that no two runs could be merged.
pub open spec fn is_run_list(runs: Seq<Run>) -> bool {
    &&& forall|k: int| 0 <= k < runs.len() ==> (#[trigger] runs[k]).first <= runs[k].last
    &&& forall|j: int, k: int|
        0 <= j < k < runs.len() ==> (#[trigger] runs[j]).last + 1 < (#[trigger] runs[k]).first
}

/// Whether `n` lies in one of `runs`.
pub open spec fn covers(runs: Seq<Run>, n: nat) -> bool {
    exists|k: int| 0 <= k < runs.len() && (#[trigger] runs[k]).first <= n <= runs[k].last
}

/// `runs` is the list of the maximal runs of `set`.
pub open spec fn partitions(runs: Seq<Run>, set: Set<nat>) -> bool {
    &&& is_run_list(runs)
    &&& forall|n: nat| set.contains(n) <==> #[trigger] covers(runs, n)
}

/// The maximal runs of `set` in ascending order. A set has at most one such
/// list (`lemma_partition_unique`); every set of a list of cores has one.
pub open spec fn runs_of(set: Set<nat>) -> Seq<Run> {
    choose|runs: Seq<Run>| partitions(runs, set)
}

/// The text of one run.
pub open spec fn run_text(run: Run) -> Seq<char> {
    if run.first == run.last {
        decimal(run.first)
    } else {
        decimal(run.first) + seq!['-'] + decimal(run.last)
    }
}

/// The texts of `runs`, separated by commas.
pub open spec fn list_text(runs: Seq<Run>) -> Seq<char>
    decreases runs.len(),
{
    if runs.len() == 0 {
        Seq::empty()
    } else if runs.len() == 1 {
        run_text(runs[0])
    } else {
        list_text(runs.drop_last()) + seq![','] + run_text(runs.last())
    }
}

/// The CPU list text for `cores`.
pub open spec fn encoding(cores: Seq<u32>) -> Seq<char> {
    list_text(runs_of(core_set(cores)))
}

/// No run of a run list ends after the last one does.
proof fn lemma_last_run_ends_last(runs: Seq<Run>, k: int)
    requires
        is_run_list(runs),
        0 <= k < runs.len(),
    ensures
        runs[k].last <= runs.last().last,
        k < runs.len() - 1 ==> runs[k].last + 1 < runs.last().first,
{
}

/// Two run lists of one set end at the same identifier, one half of it.
proof fn lemma_last_end(a: Seq<Run>, b: Seq<Run>, set: Set<nat>)
    requires
        partitions(a, set),
        partitions(b, set),
        a.len() > 0,
    ensures
        b.len() > 0,
        a.last().last <= b.last().last,
{
    let n = a.last().last;
    assert(a[a.len() - 1].first <= n <= a[a.len() - 1].last);
    assert(covers(a, n));
    assert(covers(b, n));
    let k = choose|k: int| 0 <= k < b.len() && (#[trigger] b[k]).first <= n <= b[k].last;
    lemma_last_run_ends_last(b, k);
}

/// Two run lists of one set that end at the same identifier have last runs
/// that start at the same identifier, one half of it.
proof fn lemma_last_start(a: Seq<Run>, b: Seq<Run>, set: Set<nat>)
    requires
        partitions(a, set),
        partitions(b, set),
        a.len() > 0,
        b.len() > 0,
        a.last().last == b.last().last,
    ensures
        b.last().first <= a.last().first,
{
    if a.last().first < b.last().first {
        let n = (b.last().first - 1) as nat;
        assert(a[a.len() - 1].first <= n <= a[a.len() - 1].last);
        assert(covers(a, n));
        assert(covers(b, n));
        let k = choose|k: int| 0 <= k < b.len() && (#[trigger] b[k]).first <= n <= b[k].last;
        lemma_last_run_ends_last(b, k);
        assert(false);
    }
}

/// Without its last run, a run list is the run list of what lies below
/// that run.
proof fn lemma_drop_last_run(runs: Seq<Run>, set: Set<nat>)
    requires
        partitions(runs, set),
        runs.len() > 0,
    ensures
        partitions(
            runs.drop_last(),
            Set::new(|n: nat| set.contains(n) && n < runs.last().first),
        ),
{
    let rest = runs.drop_last();
    let below = Set::new(|n: nat| set.contains(n) && n < runs.last().first);
    assert forall|n: nat| below.contains(n) <==> #[trigger] covers(rest, n) by {
        if below.contains(n) {
            assert(covers(runs, n));
            let k = choose|k: int|
                0 <= k < runs.len() && (#[trigger] runs[k]).first <= n <= runs[k].last;
            assert(rest[k].first <= n <= rest[k].last);
        }
        if covers(rest, n) {
            let k = choose|k: int|
                0 <= k < rest.len() && (#[trigger] rest[k]).first <= n <= rest[k].last;
            assert(runs[k].first <= n <= runs[k].last);
            lemma_last_run_ends_last(runs, k);
            assert(covers(runs, n));
        }
    }
}

/// A set has at most one list of maximal runs.
pub proof fn lemma_partition_unique(a: Seq<Run>, b: Seq<Run>, set: Set<nat>)
    requires
        partitions(a, set),
        partitions(b, set),
    ensures
        a == b,
    decreases a.len(),
{
    if a.len() == 0 {
        if b.len() > 0 {
            lemma_last_end(b, a, set);
        }
        assert(a =~= b);
    } else {
        lemma_last_end(a, b, set);
        lemma_last_end(b, a, set);
        lemma_last_start(a, b, set);
        lemma_last_start(b, a, set);
        assert(a.last() == b.last());
        lemma_drop_last_run(a, set);
        lemma_drop_last_run(b, set);
        lemma_partition_unique(
            a.drop_last(),
            b.drop_last(),
            Set::new(|n: nat| set.contains(n) && n < a.last().first),
        );
        assert(a =~= a.drop_last().push(a.last()));
        assert(b =~= b.drop_last().push(b.last()));
    }
}

/// Whoever holds the maximal runs of the set of `cores` holds their CPU
/// list text.
pub proof fn lemma_encoding_of_runs(cores: Seq<u32>, runs: Seq<Run>)
    requires
        partitions(runs, core_set(cores)),
    ensures
        runs_of(core_set(cores)) == runs,
        encoding(cores) == list_text(runs),
{
    lemma_partition_unique(runs_of(core_set(cores)), runs, core_set(cores));
}

/// The order of the entries does not matter: two lists that hold the same
/// entries equally often have the same text.
pub proof fn theorem_order_independent(a: Seq<u32>, b: Seq<u32>)
    requires
        a.to_multiset() == b.to_multiset(),
    ensures
        encoding(a) == encoding(b),
{
    a.to_multiset_ensures();
    b.to_multiset_ensures();
    assert forall|n: nat| core_set(a).contains(n) <==> core_set(b).contains(n) by {
        if core_set(a).contains(n) {
            let i = choose|i: int| 0 <= i < a.len() && #[trigger] a[i] == n;
            assert(a.contains(a[i]));
            assert(b.to_multiset().count(a[i]) > 0);
            assert(b.contains(a[i]));
            let j = choose|j: int| 0 <= j < b.len() && b[j] == a[i];
            assert(b[j] == n);
        }
        if core_set(b).contains(n) {
            let i = choose|i: int| 0 <= i < b.len() && #[trigger] b[i] == n;
            assert(b.contains(b[i]));
            assert(a.to_multiset().count(b[i]) > 0);
            assert(a.contains(b[i]));
            let j = choose|j: int| 0 <= j < a.len() && a[j] == b[i];
            assert(a[j] == n);
        }
    }
    assert(core_set(a) =~= core_set(b));
}

/// An entry that occurs again does not matter: a list to which one of its
/// entries is added once more keeps its text.
pub proof fn theorem_duplicates_are_absorbed(cores: Seq<u32>, core: u32)
    requires
        cores.contains(core),
    ensures
        encoding(cores.push(core)) == encoding(cores),
{
    lemma_core_set_push(cores, core);
    let i = choose|i: int| 0 <= i < cores.len() && cores[i] == core;
    assert(core_set(cores).contains(cores[i] as nat));
    assert(core_set(cores).insert(core as nat) =~= core_set(cores));
}

/// The text of a run list that got one more run at its end.
proof fn lemma_list_text_push(runs: Seq<Run>, run: Run)
    ensures
        list_text(runs.push(run)) == if runs.len() == 0 {
            run_text(run)
        } else {
            list_text(runs) + seq![','] + run_text(run)
        },
{
    assert(runs.push(run).drop_last() =~= runs);
}

/// Whether the entries of `cores` ascend, no two of them equal.
pub open spec fn strictly_ascending(cores: Seq<u32>) -> bool {
    forall|i: int, j: int| 0 <= i < j < cores.len() ==> cores[i] < cores[j]
}

/// The entries of `cores` from `start` up to `end` (left out) are
/// consecutive identifiers.
spec fn consecutive(cores: Seq<u32>, start: int, end: int) -> bool {
    forall|j: int| start <= j < end ==> (#[trigger] cores[j]) == cores[start] + (j - start)
}

/// The maximal runs of a prefix of `cores`, followed by the run that the
/// next entries make up, are the maximal runs of the longer prefix.
proof fn lemma_close_run(cores: Seq<u32>, runs: Seq<Run>, start: int, end: int)
    requires
        0 <= start < end <= cores.len(),
        consecutive(cores, start, end),
        partitions(runs, core_set(cores.take(start))),
        forall|k: int| 0 <= k < runs.len() ==> (#[trigger] runs[k]).last + 1 < cores[start],
    ensures
        partitions(
            runs.push(Run { first: cores[start] as nat, last: cores[end - 1] as nat }),
            core_set(cores.take(end)),
        ),
{
    let run = Run { first: cores[start] as nat, last: cores[end - 1] as nat };
    let longer = runs.push(run);
    let before = core_set(cores.take(start));
    let after = core_set(cores.take(end));
    assert(cores[end - 1] == cores[start] + (end - 1 - start));
    assert(is_run_list(longer));
    assert forall|n: nat| after.contains(n) <==> #[trigger] covers(longer, n) by {
        if after.contains(n) {
            let i = choose|i: int| 0 <= i < cores.take(end).len() && cores.take(end)[i] == n;
            if i < start {
                assert(cores.take(start)[i] == n);
                assert(before.contains(n));
                assert(covers(runs, n));
                let k = choose|k: int|
                    0 <= k < runs.len() && (#[trigger] runs[k]).first <= n <= runs[k].last;
                assert(longer[k].first <= n <= longer[k].last);
            } else {
                assert(cores[i] == cores[start] + (i - start));
                assert(longer[runs.len() as int].first <= n <= longer[runs.len() as int].last);
            }
        }
        if covers(longer, n) {
            let k = choose|k: int|
                0 <= k < longer.len() && (#[trigger] longer[k]).first <= n <= longer[k].last;
            if k < runs.len() {
                assert(runs[k].first <= n <= runs[k].last);
                assert(covers(runs, n));
                assert(before.contains(n));
                let i = choose|i: int|
                    0 <= i < cores.take(start).len() && cores.take(start)[i] == n;
                assert(cores.take(end)[i] == n);
            } else {
                let i = start + (n - cores[start]);
                assert(cores[i] == cores[start] + (i - start));
                assert(cores.take(end)[i] == n);
            }
        }
    }
}

/// The set of a list that got one more entry at its end.
proof fn lemma_core_set_push(cores: Seq<u32>, core: u32)
    ensures
        core_set(cores.push(core)) == core_set(cores).insert(core as nat),
{
    let longer = cores.push(core);
    assert forall|n: nat|
        core_set(longer).contains(n) <==> core_set(cores).insert(core as nat).contains(n) by {
        if core_set(longer).contains(n) {
            let i = choose|i: int| 0 <= i < longer.len() && #[trigger] longer[i] == n;
            if i < cores.len() {
                assert(cores[i] == n);
            }
        }
        if core_set(cores).contains(n) {
            let i = choose|i: int| 0 <= i < cores.len() && #[trigger] cores[i] == n;
            assert(longer[i] == n);
        }
        if n == core as nat {
            assert(longer[cores.len() as int] == n);
        }
    }
    assert(core_set(longer) =~= core_set(cores).insert(core as nat));
}

/// The set of two lists, one after the other, is the union of their sets.
proof fn lemma_core_set_concat(left: Seq<u32>, right: Seq<u32>)
    ensures
        core_set(left + right) == core_set(left).union(core_set(right)),
{
    let both = left + right;
    assert forall|n: nat|
        core_set(both).contains(n) <==> core_set(left).union(core_set(right)).contains(n) by {
        if core_set(both).contains(n) {
            let i = choose|i: int| 0 <= i < both.len() && #[trigger] both[i] == n;
            if i < left.len() {
                assert(left[i] == n);
            } else {
                assert(right[i - left.len()] == n);
            }
        }
        if core_set(left).contains(n) {
            let i = choose|i: int| 0 <= i < left.len() && #[trigger] left[i] == n;
            assert(both[i] == n);
        }
        if core_set(right).contains(n) {
            let i = choose|i: int| 0 <= i < right.len() && #[trigger] right[i] == n;
            assert(both[left.len() + i] == n);
        }
    }
    assert(core_set(both) =~= core_set(left).union(core_set(right)));
}

/// The set of a prefix that is one entry longer.
proof fn lemma_core_set_take(cores: Seq<u32>, i: int)
    requires
        0 <= i < cores.len(),
    ensures
        core_set(cores.take(i + 1)) == core_set(cores.take(i)).insert(cores[i] as nat),
{
    assert(cores.take(i + 1) =~= cores.take(i).push(cores[i]));
    lemma_core_set_push(cores.take(i), cores[i]);
}

/// Merges two ascending vectors into one. An entry of both is taken once.
fn merge(left: &Vec<u32>, right: &Vec<u32>) -> (merged: Vec<u32>)
    requires
        strictly_ascending(left@),
        strictly_ascending(right@),
    ensures
        strictly_ascending(merged@),
        core_set(merged@) == core_set(left@).union(core_set(right@)),
{
    let mut merged: Vec<u32> = Vec::new();
    let mut i: usize = 0;
    let mut j: usize = 0;
    proof {
        assert(core_set(merged@) =~= core_set(left@.take(0)).union(core_set(right@.take(0))));
    }
    while i < left.len() || j < right.len()
        invariant
            i <= left.len(),
            j <= right.len(),
            strictly_ascending(left@),
            strictly_ascending(right@),
            strictly_ascending(merged@),
            forall|k: int|
                0 <= k < merged@.len() && i < left@.len() ==> (#[trigger] merged@[k])
                    < left@[i as int],
            forall|k: int|
                0 <= k < merged@.len() && j < right@.len() ==> (#[trigger] merged@[k])
                    < right@[j as int],
            core_set(merged@) == core_set(left@.take(i as int)).union(
                core_set(right@.take(j as int)),
            ),
        decreases left.len() - i + (right.len() - j),
    {
        let ghost before = merged@;
        let from_left = i < left.len();
        let from_right = j < right.len();
        let next = if from_left && (!from_right || left[i] <= right[j]) {
            left[i]
        } else {
            right[j]
        };
        let take_left = from_left && left[i] == next;
        let take_right = from_right && right[j] == next;
        merged.push(next);
        proof {
            lemma_core_set_push(before, next);
            if take_left {
                lemma_core_set_take(left@, i as int);
            }
            if take_right {
                lemma_core_set_take(right@, j as int);
            }
            assert(core_set(merged@) =~= core_set(
                left@.take(if take_left {
                    i + 1
                } else {
                    i as int
                }),
            ).union(
                core_set(
                    right@.take(
                        if take_right {
                            j + 1
                        } else {
                            j as int
                        },
                    ),
                ),
            ));
        }
        if take_left {
            i += 1;
        }
        if take_right {
            j += 1;
        }
    }
    proof {
        assert(left@.take(left@.len() as int) =~= left@);
        assert(right@.take(right@.len() as int) =~= right@);
    }
    merged
}

/// The entries of `cpus` from `from` up to `to` (left out) in ascending
/// order, each of them once.
fn sorted_between(cpus: &[u32], from: usize, to: usize) -> (sorted: Vec<u32>)
    requires
        from <= to <= cpus@.len(),
    ensures
        strictly_ascending(sorted@),
        core_set(sorted@) == core_set(cpus@.subrange(from as int, to as int)),
    decreases to - from,
{
    if to - from <= 1 {
        let mut sorted: Vec<u32> = Vec::new();
        if to - from == 1 {
            sorted.push(cpus[from]);
        }
        proof {
            assert(sorted@ =~= cpus@.subrange(from as int, to as int));
        }
        sorted
    } else {
        let middle = from + (to - from) / 2;
        let left = sorted_between(cpus, from, middle);
        let right = sorted_between(cpus, middle, to);
        proof {
            let lower = cpus@.subrange(from as int, middle as int);
            let upper = cpus@.subrange(middle as int, to as int);
            assert(cpus@.subrange(from as int, to as int) =~= lower + upper);
            lemma_core_set_concat(lower, upper);
        }
        merge(&left, &right)
    }
}

/// The entries of `cpus` in ascending order, each of them once.
fn sorted_cores(cpus: &[u32]) -> (sorted: Vec<u32>)
    ensures
        strictly_ascending(sorted@),
        core_set(sorted@) == core_set(cpus@),
{
    proof {
        assert(cpus@.subrange(0, cpus@.len() as int) =~= cpus@);
    }
    sorted_between(cpus, 0, cpus.len())
}

/// Appends the text of the run from `first` to `last` to `text`, after a
/// comma if `separate` is set.
fn append_run(text: &mut String, separate: bool, first: u32, last: u32)
    ensures
        final(text)@ == old(text)@ + (if separate {
            seq![',']
        } else {
            Seq::<char>::empty()
        }) + run_text(Run { first: first as nat, last: last as nat }),
{
    proof {
        reveal_strlit(",");
        reveal_strlit("-");
    }
    let ghost before = text@;
    if separate {
        text.append(",");
    }
    let ghost separated = text@;
    let from = decimal_string(first);
    text.append(from.as_str());
    if first != last {
        text.append("-");
        let to = decimal_string(last);
        text.append(to.as_str());
        proof {
            assert(text@ =~= separated + (decimal(first as nat) + seq!['-'] + decimal(
                last as nat,
            )));
        }
    }
    proof {
        assert(separated =~= before + (if separate {
            seq![',']
        } else {
            Seq::<char>::empty()
        }));
    }
}

/// Writes a non-empty list of CPU cores as a cpuset controller reads it:
/// `[0, 1, 2, 4, 6, 7, 8]` becomes `0-2,4,6-8`. Neither the order of the
/// entries nor an entry that occurs more than once changes the text.
pub fn format_cpu_list(cpus: &[u32]) -> (text: String)
    requires
        cpus@.len() > 0,
    ensures
        text@ == encoding(cpus@),
        partitions(runs_of(core_set(cpus@)), core_set(cpus@)),
{
    let sorted = sorted_cores(cpus);
    proof {
        assert(core_set(cpus@).contains(cpus@[0] as nat));
        assert(sorted@.len() > 0);
        assert(core_set(sorted@.take(0)) =~= Set::<nat>::empty());
    }
    let mut text = String::new();
    let ghost mut runs: Seq<Run> = Seq::empty();
    let mut start: usize = 0;
    let mut i: usize = 1;
    while i < sorted.len()
        invariant
            0 <= start < i <= sorted.len(),
            strictly_ascending(sorted@),
            consecutive(sorted@, start as int, i as int),
            partitions(runs, core_set(sorted@.take(start as int))),
            forall|k: int|
                0 <= k < runs.len() ==> (#[trigger] runs[k]).last + 1 < sorted@[start as int],
            text@ == list_text(runs),
            (start == 0) == (runs.len() == 0),
        decreases sorted.len() - i,
    {
        if sorted[i] - sorted[i - 1] > 1 {
            append_run(&mut text, start > 0, sorted[start], sorted[i - 1]);
            proof {
                let run = Run {
                    first: sorted@[start as int] as nat,
                    last: sorted@[i - 1] as nat,
                };
                lemma_close_run(sorted@, runs, start as int, i as int);
                lemma_list_text_push(runs, run);
                runs = runs.push(run);
            }
            start = i;
        }
        i += 1;
    }
    append_run(&mut text, start > 0, sorted[start], sorted[sorted.len() - 1]);
    proof {
        let run = Run {
            first: sorted@[start as int] as nat,
            last: sorted@[sorted@.len() - 1] as nat,
        };
        lemma_close_run(sorted@, runs, start as int, sorted@.len() as int);
        lemma_list_text_push(runs, run);
        assert(sorted@.take(sorted@.len() as int) =~= sorted@);
        lemma_encoding_of_runs(cpus@, runs.push(run));
    }
    text
}

/// Writes a list of CPU cores as a cpuset controller reads it, and refuses
/// the empty list, which no controller accepts.
pub fn encode(cpus: &[u32]) -> (result: Result<String, InvalidInput>)
    ensures
        match result {
            Ok(text) => cpus@.len() > 0 && text@ == encoding(cpus@),
            Err(error) => cpus@.len() == 0 && error == InvalidInput::EmptyCpuList,
        },
{
    if cpus.len() == 0 {
        Err(InvalidInput::EmptyCpuList)
    } else {
        Ok(format_cpu_list(cpus))
    }
}

} // verus!
