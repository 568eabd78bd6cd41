//! The pass over the sessions: which are reported, which are terminated, and
//! when the pass ends.

use vstd::prelude::*;
use crate::config::Policy;
use crate::session::FindIitRow;
use crate::time::{minutes_between, Timestamp};

verus! {

/// What is to happen to the process behind a reported session.
#[derive(Clone, Copy, Debug, PartialEq, Eq, Structural)]
pub enum KillOrder {
    /// It is left alone.
    Spare,
    /// Its termination is announced and not carried out.
    Rehearse,
    /// It is terminated.
    Execute,
}

/// What the pass makes of one session.
#[derive(Clone, Copy, Debug, PartialEq, Eq, Structural)]
pub enum Verdict {
    /// Too young: passed over, and the pass goes on.
    Skip,
    /// Old enough, but the display cap is reached: the pass ends here.
    Stop,
    /// Reported, with what is to happen to its process.
    Consider(KillOrder),
}

/// The two counts of a pass.
#[derive(Clone, Copy, Debug, PartialEq, Eq, Structural)]
pub struct Tally {
    /// Sessions reported so far.
    pub considered: u64,
    /// Terminations ordered so far, rehearsed ones included.
    pub killed: u64,
}

/// One reported session.
#[derive(Clone, Copy, Debug, PartialEq, Eq, Structural)]
pub struct Entry {
    /// Where the session stands among those handed in, counted from zero.
    pub index: usize,
    /// Its age in whole minutes.
    pub age_minutes: i64,
    pub kill: KillOrder,
}

/// A whole pass: the reported sessions in the order of their report, and the
/// final counts.
#[derive(Debug, PartialEq, Eq)]
pub struct Outcome {
    pub entries: Vec<Entry>,
    pub tally: Tally,
}

impl Policy {
    /// Whether a session of this age is looked at at all.
    pub open spec fn old_enough(self, age_minutes: int) -> bool {
        age_minutes >= self.minimum_age_minutes
    }

    /// What happens to the process of a session that is reported after
    /// `killed` terminations were ordered.
    pub open spec fn kill_order(self, killed: int) -> KillOrder {
        if self.kill_enabled && self.kill_cap.admits(killed) {
            if self.dry_run {
                KillOrder::Rehearse
            } else {
                KillOrder::Execute
            }
        } else {
            KillOrder::Spare
        }
    }

    /// What the pass makes of a session of this age when the counts stand
    /// at `tally`.
    pub open spec fn verdict(self, tally: Tally, age_minutes: int) -> Verdict {
        if !self.old_enough(age_minutes) {
            Verdict::Skip
        } else if !self.display_cap.admits(tally.considered as int) {
            Verdict::Stop
        } else {
            Verdict::Consider(self.kill_order(tally.killed as int))
        }
    }

    /// The counts after a session of this age, once what its verdict asks
    /// for is done.
    pub open spec fn advance(self, tally: Tally, age_minutes: int) -> Tally {
        match self.verdict(tally, age_minutes) {
            Verdict::Skip => tally,
            Verdict::Stop => tally,
            Verdict::Consider(KillOrder::Spare) => Tally {
                considered: (tally.considered + 1) as u64,
                killed: tally.killed,
            },
            Verdict::Consider(_) => Tally {
                considered: (tally.considered + 1) as u64,
                killed: (tally.killed + 1) as u64,
            },
        }
    }

    /// How many terminations are ordered by the time `considered` sessions
    /// are reported.
    pub open spec fn kills_among(self, considered: int) -> int {
        if self.kill_enabled {
            self.kill_cap.clip(considered)
        } else {
            0
        }
    }
}

impl Tally {
    /// The counts before the first session.
    pub open spec fn zero() -> Tally {
        Tally { considered: 0, killed: 0 }
    }

    /// No more terminations than reports.
    pub open spec fn consistent(self) -> bool {
        self.killed <= self.considered
    }

    /// Both counts are within the caps of `policy`, and no termination is
    /// counted without a report.
    pub open spec fn within(self, policy: Policy) -> bool {
        &&& policy.display_cap.holds(self.considered as int)
        &&& policy.kill_cap.holds(self.killed as int)
        &&& self.killed <= self.considered
    }

    /// The counts before the first session.
    pub fn new() -> (tally: Tally)
        ensures
            tally == Tally::zero(),
    {
        Tally { considered: 0, killed: 0 }
    }
}

/// Decides on one session: what is to be done with it, and the counts once
/// that is done. Where the deed fails, the caller keeps the old counts.
pub fn step(policy: &Policy, tally: &Tally, age_minutes: i64) -> (r: (Verdict, Tally))
    requires
        tally.consistent(),
        tally.considered < u64::MAX,
    ensures
        r.0 == policy.verdict(*tally, age_minutes as int),
        r.1 == policy.advance(*tally, age_minutes as int),
        r.1.consistent(),
        tally.within(*policy) ==> r.1.within(*policy),
        policy.dry_run ==> r.0 != Verdict::Consider(KillOrder::Execute),
        !policy.kill_enabled ==> r.1.killed == tally.killed,
{
    if age_minutes < 0 || (age_minutes as u64) < policy.minimum_age_minutes {
        return (Verdict::Skip, *tally);
    }
    if !policy.display_cap.allows(tally.considered) {
        return (Verdict::Stop, *tally);
    }
    if policy.kill_enabled && policy.kill_cap.allows(tally.killed) {
        let kill = if policy.dry_run {
            KillOrder::Rehearse
        } else {
            KillOrder::Execute
        };
        (
            Verdict::Consider(kill),
            Tally { considered: tally.considered + 1, killed: tally.killed + 1 },
        )
    } else {
        (
            Verdict::Consider(KillOrder::Spare),
            Tally { considered: tally.considered + 1, killed: tally.killed },
        )
    }
}

/// The positions, in order, of the old enough among the first `n` ages.
pub open spec fn qualifying(policy: Policy, ages: Seq<i64>, n: int) -> Seq<int>
    decreases n,
{
    if n <= 0 {
        Seq::empty()
    } else if policy.old_enough(ages[n - 1] as int) {
        qualifying(policy, ages, n - 1).push(n - 1)
    } else {
        qualifying(policy, ages, n - 1)
    }
}

/// The positions of the sessions that a pass reports: the old enough, from
/// the front, as many as the display cap lets through.
pub open spec fn considered_positions(policy: Policy, ages: Seq<i64>) -> Seq<int> {
    let eligible = qualifying(policy, ages, ages.len() as int);
    eligible.take(policy.display_cap.clip(eligible.len() as int))
}

/// The entries of the sessions at `shown`: a termination is ordered for
/// each from the front, as far as the policy orders any.
pub open spec fn entries_for(policy: Policy, ages: Seq<i64>, shown: Seq<int>) -> Seq<Entry> {
    Seq::new(
        shown.len(),
        |k: int|
            Entry { index: shown[k] as usize, age_minutes: ages[shown[k]], kill: policy.kill_order(k) },
    )
}

/// What a pass over sessions of these ages reports, in order.
pub open spec fn selection(policy: Policy, ages: Seq<i64>) -> Seq<Entry> {
    entries_for(policy, ages, considered_positions(policy, ages))
}

/// The counts at the end of a pass over sessions of these ages.
pub open spec fn final_tally(policy: Policy, ages: Seq<i64>) -> Tally {
    let considered = considered_positions(policy, ages).len() as int;
    Tally { considered: considered as u64, killed: policy.kills_among(considered) as u64 }
}

/// The counts after the first `n` sessions, each decided on in its turn.
pub open spec fn tally_after(policy: Policy, ages: Seq<i64>, n: int) -> Tally
    decreases n,
{
    if n <= 0 {
        Tally::zero()
    } else {
        policy.advance(tally_after(policy, ages, n - 1), ages[n - 1] as int)
    }
}

/// The age in whole minutes of each session at the instant `now`.
pub open spec fn ages_of(records: Seq<FindIitRow>, now: Timestamp) -> Seq<i64> {
    Seq::new(records.len(), |i: int| minutes_between(now, records[i].state_change) as i64)
}

/// The old enough among the first `n` stand in rising order, each below `n`,
/// and none is left out.
pub proof fn lemma_qualifying(policy: Policy, ages: Seq<i64>, n: int)
    requires
        0 <= n <= ages.len(),
    ensures
        qualifying(policy, ages, n).len() <= n,
        forall|k: int|
            0 <= k < qualifying(policy, ages, n).len() ==> {
                &&& 0 <= #[trigger] qualifying(policy, ages, n)[k] < n
                &&& policy.old_enough(ages[qualifying(policy, ages, n)[k]] as int)
            },
        forall|j: int, k: int|
            0 <= j < k < qualifying(policy, ages, n).len() ==> #[trigger] qualifying(
                policy,
                ages,
                n,
            )[j] < #[trigger] qualifying(policy, ages, n)[k],
        forall|i: int|
            0 <= i < n && policy.old_enough(ages[i] as int) ==> qualifying(policy, ages, n).contains(
                i,
            ),
    decreases n,
{
    if n > 0 {
        lemma_qualifying(policy, ages, n - 1);
        let before = qualifying(policy, ages, n - 1);
        let now = qualifying(policy, ages, n);
        assert forall|i: int| 0 <= i < n && policy.old_enough(ages[i] as int) implies now.contains(
            i,
        ) by {
            if i < n - 1 {
                assert(before.contains(i));
                let k = choose|k: int| 0 <= k < before.len() && before[k] == i;
                assert(now[k] == i);
            } else {
                assert(now[now.len() - 1] == i);
            }
        }
    }
}

/// The old enough among the first `n` open the list of those among the
/// first `m`, where `n` is not above `m`.
pub proof fn lemma_qualifying_grows(policy: Policy, ages: Seq<i64>, n: int, m: int)
    requires
        0 <= n <= m <= ages.len(),
    ensures
        qualifying(policy, ages, n).len() <= qualifying(policy, ages, m).len(),
        qualifying(policy, ages, n) == qualifying(policy, ages, m).take(
            qualifying(policy, ages, n).len() as int,
        ),
    decreases m - n,
{
    if n < m {
        lemma_qualifying_grows(policy, ages, n, m - 1);
        let short = qualifying(policy, ages, n);
        let mid = qualifying(policy, ages, m - 1);
        let long = qualifying(policy, ages, m);
        assert(short =~= long.take(short.len() as int));
    } else {
        assert(qualifying(policy, ages, n) =~= qualifying(policy, ages, m).take(
            qualifying(policy, ages, n).len() as int,
        ));
    }
}

/// The pass over sessions of the given ages, each age as it was when its
/// session came up: the reported sessions in order, and the final counts.
pub fn select(policy: &Policy, ages: &Vec<i64>) -> (out: Outcome)
    ensures
        out.entries@ == selection(*policy, ages@),
        out.tally == final_tally(*policy, ages@),
        out.tally == tally_after(*policy, ages@, ages@.len() as int),
        out.tally.within(*policy),
{
    let mut entries: Vec<Entry> = Vec::new();
    let mut tally = Tally::new();
    let mut i: usize = 0;
    while i < ages.len()
        invariant
            i <= ages@.len(),
            tally == tally_after(*policy, ages@, i as int),
            tally.considered == entries@.len(),
            tally.considered <= i,
            tally.killed == policy.kills_among(tally.considered as int),
            tally.within(*policy),
            entries@.len() == policy.display_cap.clip(
                qualifying(*policy, ages@, i as int).len() as int,
            ),
            entries@ == entries_for(
                *policy,
                ages@,
                qualifying(*policy, ages@, i as int).take(entries@.len() as int),
            ),
        decreases ages@.len() - i,
    {
        let ghost before = qualifying(*policy, ages@, i as int);
        let age = ages[i];
        let (verdict, next) = step(policy, &tally, age);
        proof {
            lemma_qualifying(*policy, ages@, i as int);
        }
        match verdict {
            Verdict::Skip => {},
            Verdict::Stop => {
                proof {
                    lemma_cap_reached(*policy, ages@, i as int, ages@.len() as int);
                }
                return Outcome { entries, tally };
            },
            Verdict::Consider(kill) => {
                entries.push(Entry { index: i, age_minutes: age, kill });
                proof {
                    let grown = qualifying(*policy, ages@, i + 1);
                    assert(before.take(before.len() as int) =~= before);
                    assert(grown.take(grown.len() as int) =~= grown);
                    assert(entries@ =~= entries_for(*policy, ages@, grown));
                }
            },
        }
        tally = next;
        i = i + 1;
    }
    Outcome { entries, tally }
}

/// The age in whole minutes of each session at the instant `now`.
pub fn ages_at(records: &Vec<FindIitRow>, now: &Timestamp) -> (ages: Vec<i64>)
    ensures
        ages@ == ages_of(records@, *now),
{
    let mut ages: Vec<i64> = Vec::new();
    let mut i: usize = 0;
    while i < records.len()
        invariant
            i <= records@.len(),
            ages@.len() == i,
            forall|k: int| 0 <= k < i ==> #[trigger] ages@[k] == ages_of(records@, *now)[k],
        decreases records@.len() - i,
    {
        let elapsed = now.signed_duration_since(&records[i].state_change);
        ages.push(elapsed.num_minutes());
        i = i + 1;
    }
    assert(ages@ =~= ages_of(records@, *now));
    ages
}

/// The pass over `records` as it goes where the clock stands at `now`
/// throughout: the reported sessions in order, and the final counts.
pub fn process(records: &Vec<FindIitRow>, policy: &Policy, now: &Timestamp) -> (out: Outcome)
    ensures
        out.entries@ == selection(*policy, ages_of(records@, *now)),
        out.tally == final_tally(*policy, ages_of(records@, *now)),
        out.tally.within(*policy),
{
    let ages = ages_at(records, now);
    select(policy, &ages)
}

/// Once the display cap is reached, the sessions that follow change
/// neither what is reported nor the counts.
proof fn lemma_cap_reached(policy: Policy, ages: Seq<i64>, n: int, m: int)
    requires
        0 <= n <= m <= ages.len(),
        !policy.display_cap.admits(tally_after(policy, ages, n).considered as int),
        tally_after(policy, ages, n).considered == policy.display_cap.clip(
            qualifying(policy, ages, n).len() as int,
        ),
    ensures
        tally_after(policy, ages, m) == tally_after(policy, ages, n),
        policy.display_cap.clip(qualifying(policy, ages, m).len() as int) == tally_after(
            policy,
            ages,
            n,
        ).considered,
        qualifying(policy, ages, m).take(tally_after(policy, ages, n).considered as int)
            == qualifying(policy, ages, n).take(tally_after(policy, ages, n).considered as int),
    decreases m - n,
{
    if n < m {
        lemma_cap_reached(policy, ages, n, m - 1);
        let reached = tally_after(policy, ages, n).considered as int;
        let before = qualifying(policy, ages, m - 1);
        let grown = qualifying(policy, ages, m);
        assert(grown.take(reached) =~= before.take(reached));
    }
}

} // verus!
