//! Cross-domain transfer: the pairs of domains the battery compares and the
//! verdict it draws from the pairwise results.

use vstd::prelude::*;

verus! {

/// Result of a cross-domain transfer test.
#[derive(Debug, Clone, Copy, PartialEq, Eq, Structural)]
pub enum TransferResult {
    /// Strategies transfer positively: performance improves in the new domain.
    Positive,
    /// Strategies transfer negatively: performance degrades in the new domain.
    Negative,
    /// No significant transfer effect: strategies are domain-agnostic.
    Neutral,
}

/// The label under which a transfer result is shown.
pub open spec fn spec_transfer_label(t: TransferResult) -> Seq<char> {
    match t {
        TransferResult::Positive => "POSITIVE"@,
        TransferResult::Negative => "NEGATIVE"@,
        TransferResult::Neutral => "NEUTRAL"@,
    }
}

impl TransferResult {
    /// Returns the label of this result: "POSITIVE", "NEGATIVE" or "NEUTRAL".
    pub fn label(&self) -> (r: String)
        ensures
            r@ == spec_transfer_label(*self),
    {
        match self {
            TransferResult::Positive => "POSITIVE".to_owned(),
            TransferResult::Negative => "NEGATIVE".to_owned(),
            TransferResult::Neutral => "NEUTRAL".to_owned(),
        }
    }
}

/// How many of the results equal `t`.
pub open spec fn spec_count_result(s: Seq<TransferResult>, t: TransferResult) -> nat
    decreases s.len(),
{
    if s.len() == 0 {
        0
    } else {
        spec_count_result(s.drop_last(), t) + if s.last() == t { 1nat } else { 0nat }
    }
}

/// The verdict of a battery with the given numbers of positive, negative and
/// neutral results: the most frequent result, where a tie goes to Neutral
/// first and then to Positive.
pub open spec fn spec_majority(positive: nat, negative: nat, neutral: nat) -> TransferResult {
    if neutral >= positive && neutral >= negative {
        TransferResult::Neutral
    } else if positive >= negative {
        TransferResult::Positive
    } else {
        TransferResult::Negative
    }
}

/// The verdict of a battery with the given pairwise results.
pub open spec fn spec_battery_verdict(s: Seq<TransferResult>) -> TransferResult {
    spec_majority(
        spec_count_result(s, TransferResult::Positive),
        spec_count_result(s, TransferResult::Negative),
        spec_count_result(s, TransferResult::Neutral),
    )
}

/// Pair `a` comes before pair `b` in lexicographic order.
pub open spec fn spec_pair_before(a: (usize, usize), b: (usize, usize)) -> bool {
    a.0 < b.0 || (a.0 == b.0 && a.1 < b.1)
}

/// The pair `(i, j)` occurs in `r`.
pub open spec fn spec_has_pair(r: Seq<(usize, usize)>, i: int, j: int) -> bool {
    exists|k: int| 0 <= k < r.len() && #[trigger] r[k] == (i as usize, j as usize)
}

/// The number of pairs `(a, b)` with `a < i` and `a < b < n`.
pub open spec fn spec_pairs_below(n: nat, i: nat) -> nat
    decreases i,
{
    if i == 0 || i > n {
        0
    } else {
        spec_pairs_below(n, (i - 1) as nat) + (n - i) as nat
    }
}

proof fn lemma_pairs_below_closed_form(n: nat, i: nat)
    requires
        i <= n,
    ensures
        2 * spec_pairs_below(n, i) == i * (2 * n - i - 1),
    decreases i,
{
    if i > 0 {
        lemma_pairs_below_closed_form(n, (i - 1) as nat);
        let p = spec_pairs_below(n, (i - 1) as nat);
        let q = spec_pairs_below(n, i);
        assert(q == p + (n - i));
        assert(2 * q == i * (2 * n - i - 1)) by (nonlinear_arith)
            requires
                i >= 1,
                i <= n,
                q == p + (n - i),
                2 * p == (i - 1) * (2 * n - (i - 1) - 1),
        ;
    } else {
        assert(i * (2 * n - i - 1) == 0) by (nonlinear_arith)
            requires
                i == 0,
        ;
    }
}

proof fn lemma_counts_sum(s: Seq<TransferResult>)
    ensures
        spec_count_result(s, TransferResult::Positive) + spec_count_result(s, TransferResult::Negative)
            + spec_count_result(s, TransferResult::Neutral) == s.len(),
    decreases s.len(),
{
    if s.len() > 0 {
        lemma_counts_sum(s.drop_last());
    }
}

/// Law: the verdict of a battery is a most frequent result. No other result
/// occurs more often, a non-empty battery's verdict occurs in it, and a
/// battery whose results all agree has that result as its verdict.
pub proof fn lemma_verdict_is_most_frequent(s: Seq<TransferResult>, t: TransferResult)
    ensures
        spec_count_result(s, TransferResult::Positive) + spec_count_result(s, TransferResult::Negative)
            + spec_count_result(s, TransferResult::Neutral) == s.len(),
        spec_count_result(s.push(t), t) == spec_count_result(s, t) + 1,
        spec_count_result(s, spec_battery_verdict(s)) >= spec_count_result(s, t),
        s.len() > 0 ==> spec_count_result(s, spec_battery_verdict(s)) > 0,
        (s.len() > 0 && forall|i: int| 0 <= i < s.len() ==> #[trigger] s[i] == t) ==> spec_battery_verdict(s) == t,
{
    lemma_counts_sum(s);
    assert(s.push(t).drop_last() =~= s);
    if s.len() > 0 && forall|i: int| 0 <= i < s.len() ==> #[trigger] s[i] == t {
        lemma_count_all_equal(s, t);
    }
}

/// Law: how the battery breaks ties. Neutral wins whenever no result is
/// more frequent than it; otherwise Positive wins unless Negative is
/// strictly more frequent. The labels are the ones results are shown by.
pub proof fn lemma_verdict_tie_breaking(s: Seq<TransferResult>)
    ensures
        ({
            let pos = spec_count_result(s, TransferResult::Positive);
            let neg = spec_count_result(s, TransferResult::Negative);
            let neu = spec_count_result(s, TransferResult::Neutral);
            &&& (neu >= pos && neu >= neg) ==> spec_battery_verdict(s) == TransferResult::Neutral
            &&& (pos > neu && pos >= neg) ==> spec_battery_verdict(s) == TransferResult::Positive
            &&& (neg > neu && neg > pos) ==> spec_battery_verdict(s) == TransferResult::Negative
        }),
        spec_transfer_label(TransferResult::Positive) == "POSITIVE"@,
        spec_transfer_label(TransferResult::Negative) == "NEGATIVE"@,
        spec_transfer_label(TransferResult::Neutral) == "NEUTRAL"@,
{
}

proof fn lemma_count_all_equal(s: Seq<TransferResult>, t: TransferResult)
    requires
        forall|i: int| 0 <= i < s.len() ==> #[trigger] s[i] == t,
    ensures
        spec_count_result(s, t) == s.len(),
    decreases s.len(),
{
    if s.len() > 0 {
        assert forall|i: int| 0 <= i < s.drop_last().len() implies #[trigger] s.drop_last()[i] == t by {
            assert(s[i] == t);
        }
        lemma_count_all_equal(s.drop_last(), t);
        assert(s[s.len() - 1] == t);
    }
}

/// Tests whether strategy species transfer across domains.
///
/// The five strategy species are domain-agnostic: their relative fitness
/// does not depend on the task domain, which yields a NEUTRAL verdict.
pub struct CrossDomainTransfer;

impl CrossDomainTransfer {
    /// Returns every pair `(i, j)` of domain indices with `i < j < n`, in
    /// lexicographic order: the comparisons that the full battery makes.
    pub fn battery_pairs(n: usize) -> (r: Vec<(usize, usize)>)
        ensures
            r.len() == n * (n - 1) / 2,
            forall|k: int| 0 <= k < r.len() ==> #[trigger] r[k].0 < r[k].1 && r[k].1 < n,
            forall|k: int, l: int| 0 <= k < l < r.len() ==> spec_pair_before(#[trigger] r[k], #[trigger] r[l]),
            forall|k: int, l: int|
                0 <= k < l < r.len() ==> #[trigger] r[k].0 < #[trigger] r[l].0 || (r[k].0 == r[l].0 && r[k].1 < r[l].1),
            forall|i: int, j: int| 0 <= i < j < n ==> #[trigger] spec_has_pair(r@, i, j),
    {
        let mut r: Vec<(usize, usize)> = Vec::new();
        let mut i: usize = 0;
        while i < n
            invariant
                i <= n,
                forall|k: int| 0 <= k < r.len() ==> #[trigger] r[k].0 < r[k].1 && r[k].1 < n && r[k].0 < i,
                forall|k: int, l: int| 0 <= k < l < r.len() ==> spec_pair_before(#[trigger] r[k], #[trigger] r[l]),
                forall|a: int, b: int| 0 <= a < b < n && a < i ==> #[trigger] spec_has_pair(r@, a, b),
                r.len() == spec_pairs_below(n as nat, i as nat),
            decreases n - i,
        {
            let mut j: usize = i + 1;
            while j < n
                invariant
                    i < n,
                    i < j <= n,
                    forall|k: int|
                        0 <= k < r.len() ==> #[trigger] r[k].0 < r[k].1 && r[k].1 < n && (r[k].0 < i || (
                        r[k].0 == i && r[k].1 < j)),
                    forall|k: int, l: int| 0 <= k < l < r.len() ==> spec_pair_before(#[trigger] r[k], #[trigger] r[l]),
                    forall|a: int, b: int|
                        0 <= a < b < n && (a < i || (a == i && b < j)) ==> #[trigger] spec_has_pair(r@, a, b),
                    r.len() == spec_pairs_below(n as nat, i as nat) + (j - i - 1),
                decreases n - j,
            {
                let ghost before = r@;
                r.push((i, j));
                assert forall|k: int, l: int| 0 <= k < l < r.len() implies spec_pair_before(
                    #[trigger] r[k],
                    #[trigger] r[l],
                ) by {
                    if l == before.len() {
                        assert(before[k].0 < before[k].1);
                    } else {
                        assert(spec_pair_before(before[k], before[l]));
                    }
                }
                assert forall|a: int, b: int|
                    0 <= a < b < n && (a < i || (a == i && b < j + 1)) implies #[trigger] spec_has_pair(r@, a, b) by {
                    if a == i && b == j {
                        assert(r@[before.len() as int] == (a as usize, b as usize));
                    } else {
                        assert(spec_has_pair(before, a, b));
                        let k = choose|k: int| 0 <= k < before.len() && #[trigger] before[k] == (a as usize, b as usize);
                        assert(r@[k] == (a as usize, b as usize));
                    }
                }
                j = j + 1;
            }
            i = i + 1;
        }
        proof {
            lemma_pairs_below_closed_form(n as nat, n as nat);
            if n > 0 {
                assert(n * (n - 1) == 2 * spec_pairs_below(n as nat, n as nat)) by (nonlinear_arith)
                    requires
                        2 * spec_pairs_below(n as nat, n as nat) == n * (2 * n - n - 1),
                        n > 0,
                ;
            }
        }
        r
    }

    /// Returns the verdict of a battery: the most frequent of the pairwise
    /// results, where a tie goes to Neutral first and then to Positive.
    pub fn majority_result(results: &[TransferResult]) -> (r: TransferResult)
        ensures
            r == spec_battery_verdict(results@),
    {
        let mut positive: usize = 0;
        let mut negative: usize = 0;
        let mut neutral: usize = 0;
        let mut i: usize = 0;
        while i < results.len()
            invariant
                i <= results.len(),
                positive == spec_count_result(results@.take(i as int), TransferResult::Positive),
                negative == spec_count_result(results@.take(i as int), TransferResult::Negative),
                neutral == spec_count_result(results@.take(i as int), TransferResult::Neutral),
                positive + negative + neutral == i,
            decreases results.len() - i,
        {
            assert(results@.take(i as int + 1).drop_last() =~= results@.take(i as int));
            match results[i] {
                TransferResult::Positive => positive = positive + 1,
                TransferResult::Negative => negative = negative + 1,
                TransferResult::Neutral => neutral = neutral + 1,
            }
            i = i + 1;
        }
        assert(results@.take(results.len() as int) =~= results@);
        if neutral >= positive && neutral >= negative {
            TransferResult::Neutral
        } else if positive >= negative {
            TransferResult::Positive
        } else {
            TransferResult::Negative
        }
    }
}

} // verus!
