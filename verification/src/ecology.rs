//! Keystone ranking and the perturbation schedule of the resilience test.

use vstd::prelude::*;

use crate::population::{spec_count_present, SpeciesPresence};

verus! {

/// The largest keystone score: a baseline of all five species against an
/// environment in which none survives.
pub const MAX_KEYSTONE_SCORE: u64 = 10;

/// The keystone score of an environment whose equilibrium keeps `richness`
/// species, against a baseline equilibrium that keeps `baseline` species.
/// A loss of species counts twice, a gain counts once.
pub open spec fn spec_keystone_score(baseline: nat, richness: nat) -> nat {
    if baseline > richness {
        2 * (baseline - richness) as nat
    } else {
        (richness - baseline) as nat
    }
}

/// The keystone score of each environment, in the order given.
pub open spec fn spec_keystone_scores(baseline: SpeciesPresence, outcomes: Seq<SpeciesPresence>) -> Seq<nat> {
    outcomes.map_values(
        |o: SpeciesPresence| spec_keystone_score(spec_count_present(baseline@), spec_count_present(o@)),
    )
}

/// Entry `a` of a ranking comes before entry `b`: a higher score first, and
/// among equal scores the environment that was given first.
pub open spec fn spec_ranked_before(a: (usize, u64), b: (usize, u64)) -> bool {
    a.1 > b.1 || (a.1 == b.1 && a.0 < b.0)
}

/// Environment `i` has an entry in the ranking `r`.
pub open spec fn spec_ranks_environment(r: Seq<(usize, u64)>, i: int) -> bool {
    exists|k: int| 0 <= k < r.len() && #[trigger] r[k].0 == i
}

/// The number of scores that are at least `t`.
pub open spec fn spec_num_at_least(s: Seq<u64>, t: int) -> nat
    decreases s.len(),
{
    if s.len() == 0 {
        0
    } else {
        spec_num_at_least(s.drop_last(), t) + if s.last() >= t { 1nat } else { 0nat }
    }
}

/// The number of scores that equal `t`.
pub open spec fn spec_num_equal(s: Seq<u64>, t: int) -> nat
    decreases s.len(),
{
    if s.len() == 0 {
        0
    } else {
        spec_num_equal(s.drop_last(), t) + if s.last() == t { 1nat } else { 0nat }
    }
}

proof fn lemma_num_at_least_step(s: Seq<u64>, t: int)
    ensures
        spec_num_at_least(s, t + 1) + spec_num_equal(s, t) == spec_num_at_least(s, t),
    decreases s.len(),
{
    if s.len() > 0 {
        lemma_num_at_least_step(s.drop_last(), t);
    }
}

proof fn lemma_num_at_least_above_all(s: Seq<u64>, t: int)
    requires
        forall|j: int| 0 <= j < s.len() ==> #[trigger] s[j] < t,
    ensures
        spec_num_at_least(s, t) == 0,
    decreases s.len(),
{
    if s.len() > 0 {
        assert(s.last() < t);
        lemma_num_at_least_above_all(s.drop_last(), t);
    }
}

proof fn lemma_num_at_least_zero(s: Seq<u64>)
    ensures
        spec_num_at_least(s, 0) == s.len(),
    decreases s.len(),
{
    if s.len() > 0 {
        lemma_num_at_least_zero(s.drop_last());
    }
}

/// Law: a keystone score counts the species an environment gains against the
/// baseline once, and the species it loses twice, whatever the baseline is.
pub proof fn lemma_keystone_score_counts_change(b: nat, g: nat, l: nat)
    ensures
        spec_keystone_score(b, b + g) == g,
        l <= b ==> spec_keystone_score(b, (b - l) as nat) == 2 * l,
        spec_keystone_score(b, b) == 0,
{
}

/// The resilience measurement: how well a population recovers from
/// perturbations of its species counts.
pub struct EcologicalResilience;

impl EcologicalResilience {
    /// Builds the list of `count` perturbations tested for resilience by
    /// cycling through the given templates: perturbation `k` is template
    /// `k % templates.len()`. With no templates the list is empty.
    pub fn perturbation_schedule<T: Copy>(templates: &[T], count: usize) -> (r: Vec<T>)
        ensures
            r.len() == if templates.len() == 0 { 0 } else { count as int },
            forall|k: int| 0 <= k < r.len() ==> #[trigger] r[k] == templates@[k % templates.len() as int],
    {
        let mut r: Vec<T> = Vec::new();
        let len = templates.len();
        if len == 0 {
            return r;
        }
        let mut i: usize = 0;
        while i < count
            invariant
                len == templates.len(),
                len > 0,
                i <= count,
                r.len() == i,
                forall|k: int| 0 <= k < i ==> #[trigger] r[k] == templates@[k % len as int],
            decreases count - i,
        {
            r.push(templates[i % len]);
            i = i + 1;
        }
        r
    }
}

/// Computes the keystone score of one environment: how far the number of
/// species that its equilibrium keeps falls short of, or exceeds, the
/// baseline equilibrium's.
pub fn keystone_score(baseline: &SpeciesPresence, outcome: &SpeciesPresence) -> (r: u64)
    ensures
        r == spec_keystone_score(spec_count_present(baseline@), spec_count_present(outcome@)),
        r <= MAX_KEYSTONE_SCORE,
        spec_count_present(outcome@) >= spec_count_present(baseline@) ==> r + spec_count_present(baseline@)
            == spec_count_present(outcome@),
        spec_count_present(outcome@) < spec_count_present(baseline@) ==> r + 2 * spec_count_present(outcome@)
            == 2 * spec_count_present(baseline@),
{
    let b = baseline.species_richness();
    let o = outcome.species_richness();
    if b > o {
        2 * ((b - o) as u64)
    } else {
        (o - b) as u64
    }
}

/// Ranks environments by keystone score.
///
/// `outcomes[i]` is the species presence at the equilibrium reached under
/// environment `i` alone, `baseline` the one reached under the averaged
/// environment. Returns each environment's index with its score, highest
/// score first; environments of equal score keep the order they were given in.
pub fn rank_keystones(baseline: &SpeciesPresence, outcomes: &Vec<SpeciesPresence>) -> (r: Vec<(usize, u64)>)
    ensures
        r.len() == outcomes.len(),
        forall|k: int|
            0 <= k < r.len() ==> #[trigger] r[k].0 < outcomes.len() && r[k].1
                == spec_keystone_scores(*baseline, outcomes@)[r[k].0 as int],
        forall|k: int, l: int|
            0 <= k < l < r.len() ==> spec_ranked_before(#[trigger] r[k], #[trigger] r[l]),
        forall|k: int, l: int|
            0 <= k < l < r.len() ==> #[trigger] r[k].1 >= #[trigger] r[l].1 && (r[k].1 == r[l].1 ==> r[k].0 < r[l].0),
        forall|i: int| 0 <= i < outcomes.len() ==> #[trigger] spec_ranks_environment(r@, i),
{
    let n = outcomes.len();
    let ghost expected = spec_keystone_scores(*baseline, outcomes@);
    let mut scores: Vec<u64> = Vec::new();
    let mut i: usize = 0;
    while i < n
        invariant
            n == outcomes.len(),
            expected == spec_keystone_scores(*baseline, outcomes@),
            i <= n,
            scores.len() == i,
            forall|j: int| 0 <= j < i ==> #[trigger] scores[j] == expected[j],
            forall|j: int| 0 <= j < i ==> #[trigger] scores[j] <= MAX_KEYSTONE_SCORE,
        decreases n - i,
    {
        let s = keystone_score(baseline, &outcomes[i]);
        scores.push(s);
        i = i + 1;
    }
    let ghost sc = scores@;
    let mut ranked: Vec<(usize, u64)> = Vec::new();
    let mut remaining: u64 = MAX_KEYSTONE_SCORE + 1;
    proof {
        lemma_num_at_least_above_all(sc, remaining as int);
    }
    while remaining > 0
        invariant
            n == outcomes.len(),
            sc == scores@,
            scores.len() == n,
            expected.len() == n,
            forall|j: int| 0 <= j < n ==> #[trigger] scores[j] == expected[j],
            forall|j: int| 0 <= j < n ==> #[trigger] scores[j] <= MAX_KEYSTONE_SCORE,
            remaining <= MAX_KEYSTONE_SCORE + 1,
            forall|k: int|
                0 <= k < ranked.len() ==> #[trigger] ranked[k].0 < n && ranked[k].1
                    == scores[ranked[k].0 as int] && ranked[k].1 >= remaining,
            forall|k: int, l: int|
                0 <= k < l < ranked.len() ==> spec_ranked_before(#[trigger] ranked[k], #[trigger] ranked[l]),
            forall|j: int|
                0 <= j < n && scores[j] >= remaining ==> #[trigger] spec_ranks_environment(ranked@, j),
            ranked.len() == spec_num_at_least(sc, remaining as int),
        decreases remaining,
    {
        let level = remaining - 1;
        let mut j: usize = 0;
        while j < n
            invariant
                n == outcomes.len(),
                sc == scores@,
                scores.len() == n,
                forall|m: int| 0 <= m < n ==> #[trigger] scores[m] <= MAX_KEYSTONE_SCORE,
                level + 1 == remaining,
                j <= n,
                forall|k: int|
                    0 <= k < ranked.len() ==> #[trigger] ranked[k].0 < n && ranked[k].1
                        == scores[ranked[k].0 as int] && (ranked[k].1 >= remaining || (
                    ranked[k].1 == level && ranked[k].0 < j)),
                forall|k: int, l: int|
                    0 <= k < l < ranked.len() ==> spec_ranked_before(#[trigger] ranked[k], #[trigger] ranked[l]),
                forall|m: int|
                    0 <= m < n && (scores[m] >= remaining || (scores[m] == level && m < j))
                        ==> #[trigger] spec_ranks_environment(ranked@, m),
                ranked.len() == spec_num_at_least(sc, remaining as int) + spec_num_equal(sc.take(j as int), level as int),
            decreases n - j,
        {
            assert(sc.take(j as int + 1).drop_last() =~= sc.take(j as int));
            if scores[j] == level {
                let ghost before = ranked@;
                ranked.push((j, level));
                assert forall|k: int, l: int|
                    0 <= k < l < ranked.len() implies spec_ranked_before(#[trigger] ranked[k], #[trigger] ranked[l]) by {
                    if l == before.len() {
                        assert(before[k].0 < n);
                        assert(before[k].1 >= remaining || (before[k].1 == level && before[k].0 < j));
                    } else {
                        assert(spec_ranked_before(before[k], before[l]));
                    }
                }
                assert forall|m: int|
                    0 <= m < n && (scores[m] >= remaining || (scores[m] == level && m < j + 1))
                        implies #[trigger] spec_ranks_environment(ranked@, m) by {
                    if m == j {
                        assert(ranked@[before.len() as int].0 == m);
                    } else {
                        assert(spec_ranks_environment(before, m));
                        let k = choose|k: int| 0 <= k < before.len() && #[trigger] before[k].0 == m;
                        assert(ranked@[k].0 == m);
                    }
                }
            }
            j = j + 1;
        }
        proof {
            assert(sc.take(n as int) =~= sc);
            lemma_num_at_least_step(sc, level as int);
        }
        remaining = level;
    }
    proof {
        lemma_num_at_least_zero(sc);
    }
    ranked
}

} // verus!
