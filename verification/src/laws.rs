//! What holds of every pass, whatever the sessions and the policy.

use vstd::prelude::*;
use crate::config::{Cap, Policy};
use crate::select::{
    considered_positions, final_tally, lemma_qualifying, lemma_qualifying_grows, qualifying,
    selection, tally_after, KillOrder, Outcome, Verdict,
};
use crate::session::{oldest_first, FindIitRow};

verus! {

/// What the pass makes of the session at `i` when every session before it
/// was decided on in its turn.
pub open spec fn verdict_at(policy: Policy, ages: Seq<i64>, i: int) -> Verdict {
    policy.verdict(tally_after(policy, ages, i), ages[i] as int)
}

/// Deciding on the sessions one by one leads to the counts that the pass is
/// defined by: after the first `n` sessions, as many are reported as the
/// display cap lets through of the old enough among them, and a termination
/// is ordered for as many of those as the kill cap lets through.
pub proof fn stepwise_counts(policy: Policy, ages: Seq<i64>, n: int)
    requires
        0 <= n <= ages.len() <= usize::MAX,
    ensures
        tally_after(policy, ages, n).considered == policy.display_cap.clip(
            qualifying(policy, ages, n).len() as int,
        ),
        tally_after(policy, ages, n).killed == policy.kills_among(
            tally_after(policy, ages, n).considered as int,
        ),
        tally_after(policy, ages, n).considered <= n,
    decreases n,
{
    if n > 0 {
        stepwise_counts(policy, ages, n - 1);
        lemma_qualifying(policy, ages, n - 1);
    }
}

/// The counts reached one by one are the counts of the whole pass.
pub proof fn stepwise_pass_ends_in_final_tally(policy: Policy, ages: Seq<i64>)
    requires
        ages.len() <= usize::MAX,
    ensures
        tally_after(policy, ages, ages.len() as int) == final_tally(policy, ages),
{
    stepwise_counts(policy, ages, ages.len() as int);
    lemma_qualifying(policy, ages, ages.len() as int);
}

/// A session is reported when its turn comes exactly if the pass as a whole
/// reports it, and the same is ordered for its process.
pub proof fn stepwise_verdicts_match_selection(policy: Policy, ages: Seq<i64>, i: int)
    requires
        0 <= i < ages.len() <= usize::MAX,
    ensures
        verdict_at(policy, ages, i) is Consider <==> considered_positions(policy, ages).contains(i),
        forall|k: int|
            0 <= k < selection(policy, ages).len() && #[trigger] selection(policy, ages)[k].index
                == i ==> verdict_at(policy, ages, i) == Verdict::Consider(
                selection(policy, ages)[k].kill,
            ),
{
    let len = ages.len() as int;
    let before = qualifying(policy, ages, i);
    let all = qualifying(policy, ages, len);
    let shown = considered_positions(policy, ages);
    stepwise_counts(policy, ages, i);
    lemma_qualifying(policy, ages, i);
    lemma_qualifying(policy, ages, len);
    lemma_qualifying_grows(policy, ages, i, len);
    lemma_qualifying_grows(policy, ages, i + 1, len);
    if policy.old_enough(ages[i] as int) {
        // `i` follows the old enough before it, so it stands at `place`
        // among all of them, and nowhere else
        let place = before.len() as int;
        let with_i = qualifying(policy, ages, i + 1);
        assert(with_i == before.push(i));
        assert(all.take(with_i.len() as int)[place] == i);
        assert forall|k: int| 0 <= k < all.len() && all[k] == i implies k == place by {
            if k < place {
                assert(all[k] < all[place]);
            } else if k > place {
                assert(all[place] < all[k]);
            }
        }
        if verdict_at(policy, ages, i) is Consider {
            assert(shown[place] == i);
        }
    }
    if shown.contains(i) {
        let k = choose|k: int| 0 <= k < shown.len() && shown[k] == i;
        assert(all[k] == i);
    }
    assert forall|k: int|
        0 <= k < selection(policy, ages).len() && #[trigger] selection(policy, ages)[k].index
            == i implies verdict_at(policy, ages, i) == Verdict::Consider(
        selection(policy, ages)[k].kill,
    ) by {
        assert(shown[k] == i);
        assert(all[k] == i);
    }
}

/// The sessions are reported in the order in which they were handed in:
/// none is reported twice, none out of turn.
pub proof fn selection_keeps_order(policy: Policy, ages: Seq<i64>)
    requires
        ages.len() <= usize::MAX,
    ensures
        forall|k: int|
            0 <= k < selection(policy, ages).len() ==> (#[trigger] selection(policy, ages)[k]).index
                < ages.len(),
        forall|j: int, k: int|
            0 <= j < k < selection(policy, ages).len() ==> (#[trigger] selection(
                policy,
                ages,
            )[j]).index < (#[trigger] selection(policy, ages)[k]).index,
{
    lemma_qualifying(policy, ages, ages.len() as int);
}

/// Where the sessions are handed in oldest first, they are reported oldest
/// first, whatever their ages were found to be: of two reported sessions the
/// one reported earlier entered its state no later than the other.
pub proof fn selection_is_oldest_first(records: Seq<FindIitRow>, policy: Policy, ages: Seq<i64>)
    requires
        records.len() == ages.len() <= usize::MAX,
        oldest_first(records),
    ensures
        forall|j: int, k: int|
            0 <= j <= k < selection(policy, ages).len() ==> records[(#[trigger] selection(
                policy,
                ages,
            )[j]).index as int].state_change.nanoseconds() <= records[(#[trigger] selection(
                policy,
                ages,
            )[k]).index as int].state_change.nanoseconds(),
{
    selection_keeps_order(policy, ages);
}

/// Neither count ever exceeds its cap, and no more terminations are counted
/// than sessions reported: after any number of sessions, and at the end.
pub proof fn counts_stay_within_caps(policy: Policy, ages: Seq<i64>, n: int)
    requires
        0 <= n <= ages.len() <= usize::MAX,
    ensures
        tally_after(policy, ages, n).within(policy),
        final_tally(policy, ages).within(policy),
        selection(policy, ages).len() == final_tally(policy, ages).considered,
{
    stepwise_counts(policy, ages, n);
    stepwise_counts(policy, ages, ages.len() as int);
    stepwise_pass_ends_in_final_tally(policy, ages);
    lemma_qualifying(policy, ages, ages.len() as int);
}

/// A session younger than the minimum age is passed over whatever the caps:
/// it is not reported, and the counts are after it what they were before.
pub proof fn young_sessions_never_count(policy: Policy, ages: Seq<i64>, i: int)
    requires
        0 <= i < ages.len() <= usize::MAX,
        !policy.old_enough(ages[i] as int),
    ensures
        verdict_at(policy, ages, i) == Verdict::Skip,
        tally_after(policy, ages, i + 1) == tally_after(policy, ages, i),
        forall|k: int|
            0 <= k < selection(policy, ages).len() ==> (#[trigger] selection(policy, ages)[k]).index
                != i,
{
    lemma_qualifying(policy, ages, ages.len() as int);
}

/// Every reported session is at least as old as the minimum age.
pub proof fn reported_sessions_are_old_enough(policy: Policy, ages: Seq<i64>)
    requires
        ages.len() <= usize::MAX,
    ensures
        forall|k: int|
            0 <= k < selection(policy, ages).len() ==> policy.old_enough(
                (#[trigger] selection(policy, ages)[k]).age_minutes as int,
            ),
{
    lemma_qualifying(policy, ages, ages.len() as int);
}

/// In a dry run no termination is ever to be carried out, neither in the
/// pass as a whole nor at any single session; the count of terminations
/// still rises as if they were.
pub proof fn dry_run_executes_nothing(policy: Policy, ages: Seq<i64>)
    requires
        ages.len() <= usize::MAX,
        policy.dry_run,
    ensures
        forall|k: int|
            0 <= k < selection(policy, ages).len() ==> (#[trigger] selection(policy, ages)[k]).kill
                != KillOrder::Execute,
        forall|i: int|
            0 <= i < ages.len() ==> #[trigger] verdict_at(policy, ages, i) != Verdict::Consider(
                KillOrder::Execute,
            ),
        final_tally(policy, ages) == final_tally(Policy { dry_run: false, ..policy }, ages),
{
    let live = Policy { dry_run: false, ..policy };
    lemma_same_positions(policy, live, ages, ages.len() as int);
}

/// Two passes over the same sessions under the same policy report the same
/// sessions in the same order and end in the same counts. Where no
/// termination is enabled, none is ordered or counted.
pub proof fn passes_agree(policy: Policy, ages: Seq<i64>, first: Outcome, second: Outcome)
    requires
        ages.len() <= usize::MAX,
        first.entries@ == selection(policy, ages),
        first.tally == final_tally(policy, ages),
        second.entries@ == selection(policy, ages),
        second.tally == final_tally(policy, ages),
    ensures
        first.entries@ == second.entries@,
        first.tally == second.tally,
        !policy.kill_enabled ==> first.tally.killed == 0 && forall|k: int|
            0 <= k < first.entries@.len() ==> (#[trigger] first.entries@[k]).kill
                == KillOrder::Spare,
{
}

/// Whether reports are verbose changes nothing in what a pass reports or
/// counts.
pub proof fn verbosity_changes_nothing(policy: Policy, ages: Seq<i64>)
    requires
        ages.len() <= usize::MAX,
    ensures
        selection(policy, ages) == selection(Policy { verbose: !policy.verbose, ..policy }, ages),
        final_tally(policy, ages) == final_tally(
            Policy { verbose: !policy.verbose, ..policy },
            ages,
        ),
{
    let other = Policy { verbose: !policy.verbose, ..policy };
    lemma_same_positions(policy, other, ages, ages.len() as int);
    assert(selection(policy, ages) =~= selection(other, ages));
}

/// A pass without a kill cap goes as one whose kill cap is the number of
/// sessions handed in.
pub proof fn no_kill_cap_is_the_row_count(policy: Policy, ages: Seq<i64>)
    requires
        ages.len() <= usize::MAX,
        policy.kill_cap == Cap::Unbounded,
    ensures
        selection(policy, ages) == selection(
            Policy { kill_cap: Cap::AtMost(ages.len() as u64), ..policy },
            ages,
        ),
        final_tally(policy, ages) == final_tally(
            Policy { kill_cap: Cap::AtMost(ages.len() as u64), ..policy },
            ages,
        ),
{
    let capped = Policy { kill_cap: Cap::AtMost(ages.len() as u64), ..policy };
    lemma_same_positions(policy, capped, ages, ages.len() as int);
    lemma_qualifying(policy, ages, ages.len() as int);
    assert(selection(policy, ages) =~= selection(capped, ages));
}

/// Which sessions are old enough depends on the minimum age alone.
proof fn lemma_same_positions(a: Policy, b: Policy, ages: Seq<i64>, n: int)
    requires
        0 <= n <= ages.len(),
        a.minimum_age_minutes == b.minimum_age_minutes,
    ensures
        qualifying(a, ages, n) == qualifying(b, ages, n),
    decreases n,
{
    if n > 0 {
        lemma_same_positions(a, b, ages, n - 1);
    }
}

} // verus!
