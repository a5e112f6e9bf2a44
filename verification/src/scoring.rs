//! The scoring engine: pure recomputation of an agent's aggregate score
//! and per-category averages from its non-expired feedback, folded with a
//! stake-derived bonus.
//!
//! The aggregate score weights each valid entry by its ordinal position
//! among the valid entries (oldest first), so strictly more recent
//! feedback carries strictly higher weight; category averages are plain
//! truncating means, deliberately without recency weighting.

use vstd::arithmetic::div_mod::{
    lemma_div_is_ordered,
    lemma_div_multiples_vanish,
    lemma_div_pos_is_pos,
};
use vstd::arithmetic::mul::{lemma_mul_inequality, lemma_mul_is_commutative};
use vstd::prelude::*;

use crate::types::{entry_wf, ratings_wf, rec_wf, AgentReputation, CategoryRatings, FeedbackEntry};

verus! {

/// Whether an entry submitted at `e.timestamp` still falls inside the
/// scoring window at time `now`.
pub open spec fn entry_valid_at(e: FeedbackEntry, now: u64, expiry: u64) -> bool {
    now - e.timestamp <= expiry
}

/// The subsequence of `h` that is still valid at `now`, in submission
/// order.
pub open spec fn valid_entries(h: Seq<FeedbackEntry>, now: u64, expiry: u64) -> Seq<FeedbackEntry>
    decreases h.len(),
{
    if h.len() == 0 {
        Seq::empty()
    } else if entry_valid_at(h.last(), now, expiry) {
        valid_entries(h.drop_last(), now, expiry).push(h.last())
    } else {
        valid_entries(h.drop_last(), now, expiry)
    }
}

/// The position-weighted sum of overall ratings: the i-th entry
/// (1-indexed from the oldest) contributes `rating * i`.
pub open spec fn weighted_rating_sum(s: Seq<FeedbackEntry>) -> int
    decreases s.len(),
{
    if s.len() == 0 {
        0
    } else {
        weighted_rating_sum(s.drop_last()) + s.last().rating * s.len()
    }
}

/// The sum of the weights `1 + 2 + ... + n`.
pub open spec fn weight_total(n: nat) -> int
    decreases n,
{
    if n == 0 {
        0
    } else {
        weight_total((n - 1) as nat) + n
    }
}

/// The componentwise sums of the five category sub-ratings over `s`:
/// accuracy, response time, communication, problem solving, ethics.
pub open spec fn category_sums(s: Seq<FeedbackEntry>) -> (int, int, int, int, int)
    decreases s.len(),
{
    if s.len() == 0 {
        (0, 0, 0, 0, 0)
    } else {
        let p = category_sums(s.drop_last());
        let c = s.last().category_ratings;
        (
            p.0 + c.accuracy,
            p.1 + c.response_time,
            p.2 + c.communication,
            p.3 + c.problem_solving,
            p.4 + c.ethics,
        )
    }
}

/// The stake-derived score bonus: 0 below the minimum stake, then a flat
/// staircase over multiples of the minimum — 1x gives 3 points, 2x 6, 3x
/// 9, 4x 12, and 5x or more caps at 15.
pub open spec fn stake_bonus_of(stake: u128, min_stake: u128) -> u32 {
    if stake < min_stake {
        0
    } else {
        let m = stake as int / min_stake as int;
        if m == 1 {
            3
        } else if m == 2 {
            6
        } else if m == 3 {
            9
        } else if m == 4 {
            12
        } else {
            15
        }
    }
}

/// The recomputed aggregate score of a record with history `h`,
/// lifetime counters `total_interactions` and `successful_interactions`
/// and current `score`, at time `now`.
///
/// If the agent has no interactions or no valid feedback the score is
/// left unchanged. Otherwise the position-weighted rating average is
/// scaled from the 0..=5 domain to 0..=100, averaged with the lifetime
/// success rate, increased by the stake bonus, and capped at 100.
pub open spec fn recomputed_score(
    h: Seq<FeedbackEntry>,
    total_interactions: u64,
    successful_interactions: u64,
    score: u32,
    now: u64,
    expiry: u64,
    stake: u128,
    min_stake: u128,
) -> int {
    let v = valid_entries(h, now, expiry);
    if total_interactions == 0 || v.len() == 0 {
        score as int
    } else {
        let raw = weighted_rating_sum(v) * 20 / weight_total(v.len());
        let success_rate = successful_interactions * 100 / total_interactions as int;
        let combined = (raw + success_rate) / 2;
        let boosted = combined + stake_bonus_of(stake, min_stake);
        if boosted > 100 {
            100
        } else {
            boosted
        }
    }
}

/// The recomputed per-category averages of a record with history `h`,
/// lifetime counter `total_interactions` and stored averages
/// `category_scores`, at time `now`: plain truncating means over the
/// valid entries, or the stored averages unchanged when there is no
/// interaction or no valid feedback.
pub open spec fn recomputed_categories(
    h: Seq<FeedbackEntry>,
    total_interactions: u64,
    category_scores: CategoryRatings,
    now: u64,
    expiry: u64,
) -> CategoryRatings {
    let v = valid_entries(h, now, expiry);
    if total_interactions == 0 || v.len() == 0 {
        category_scores
    } else {
        let s = category_sums(v);
        let n = v.len() as int;
        CategoryRatings {
            accuracy: (s.0 / n) as u8,
            response_time: (s.1 / n) as u8,
            communication: (s.2 / n) as u8,
            problem_solving: (s.3 / n) as u8,
            ethics: (s.4 / n) as u8,
        }
    }
}

/// The weight total over `n` entries lies between `n` and `n * n`.
pub proof fn lemma_weight_total_bounds(n: nat)
    ensures
        n <= weight_total(n) <= n * n,
    decreases n,
{
    if n > 0 {
        lemma_weight_total_bounds((n - 1) as nat);
        assert((n - 1) * (n - 1) + n <= n * n) by (nonlinear_arith)
            requires
                n >= 1,
        ;
    }
}

/// Every valid entry comes from the history, so validity filtering keeps
/// well-formedness, and never grows the sequence.
pub proof fn lemma_valid_entries_wf(h: Seq<FeedbackEntry>, now: u64, expiry: u64)
    requires
        forall|i: int| 0 <= i < h.len() ==> entry_wf(#[trigger] h[i]),
    ensures
        valid_entries(h, now, expiry).len() <= h.len(),
        forall|i: int|
            0 <= i < valid_entries(h, now, expiry).len() ==> entry_wf(
                #[trigger] valid_entries(h, now, expiry)[i],
            ),
    decreases h.len(),
{
    if h.len() > 0 {
        assert(forall|i: int| 0 <= i < h.drop_last().len() ==> entry_wf(#[trigger] h.drop_last()[i]));
        lemma_valid_entries_wf(h.drop_last(), now, expiry);
        assert(entry_wf(h.last()));
    }
}

/// With well-formed entries the weighted rating sum lies between 0 and
/// five times the weight total.
pub proof fn lemma_weighted_rating_sum_bounds(s: Seq<FeedbackEntry>)
    requires
        forall|i: int| 0 <= i < s.len() ==> entry_wf(#[trigger] s[i]),
    ensures
        0 <= weighted_rating_sum(s) <= 5 * weight_total(s.len()),
    decreases s.len(),
{
    if s.len() > 0 {
        assert(forall|i: int| 0 <= i < s.drop_last().len() ==> entry_wf(#[trigger] s.drop_last()[i]));
        lemma_weighted_rating_sum_bounds(s.drop_last());
        assert(entry_wf(s.last()));
        lemma_mul_inequality(s.last().rating as int, 5, s.len() as int);
    }
}

/// With well-formed entries each category sum lies between 0 and five
/// times the number of entries.
pub proof fn lemma_category_sums_bounds(s: Seq<FeedbackEntry>)
    requires
        forall|i: int| 0 <= i < s.len() ==> entry_wf(#[trigger] s[i]),
    ensures
        0 <= category_sums(s).0 <= 5 * s.len(),
        0 <= category_sums(s).1 <= 5 * s.len(),
        0 <= category_sums(s).2 <= 5 * s.len(),
        0 <= category_sums(s).3 <= 5 * s.len(),
        0 <= category_sums(s).4 <= 5 * s.len(),
    decreases s.len(),
{
    if s.len() > 0 {
        assert(forall|i: int| 0 <= i < s.drop_last().len() ==> entry_wf(#[trigger] s.drop_last()[i]));
        lemma_category_sums_bounds(s.drop_last());
        assert(entry_wf(s.last()));
    }
}

/// A quotient of a sum bounded by `bound * d` over `d` is bounded by
/// `bound`.
proof fn lemma_bounded_quotient(x: int, bound: int, d: int)
    requires
        0 <= x,
        x <= bound * d,
        0 < d,
        0 <= bound,
    ensures
        0 <= x / d <= bound,
{
    lemma_div_pos_is_pos(x, d);
    lemma_div_is_ordered(x, bound * d, d);
    lemma_div_multiples_vanish(bound, d);
    lemma_mul_is_commutative(bound, d);
}

/// The recomputed score always lands in `0..=100`.
pub proof fn lemma_recomputed_score_bounds(
    h: Seq<FeedbackEntry>,
    total_interactions: u64,
    successful_interactions: u64,
    score: u32,
    now: u64,
    expiry: u64,
    stake: u128,
    min_stake: u128,
)
    requires
        score <= 100,
        successful_interactions <= total_interactions,
        forall|i: int| 0 <= i < h.len() ==> entry_wf(#[trigger] h[i]),
        min_stake >= 1,
    ensures
        0 <= recomputed_score(
            h,
            total_interactions,
            successful_interactions,
            score,
            now,
            expiry,
            stake,
            min_stake,
        ) <= 100,
{
    let v = valid_entries(h, now, expiry);
    if total_interactions != 0 && v.len() != 0 {
        lemma_valid_entries_wf(h, now, expiry);
        lemma_weighted_rating_sum_bounds(v);
        lemma_weight_total_bounds(v.len());
        let w = weight_total(v.len());
        let raw = weighted_rating_sum(v) * 20 / w;
        assert(weighted_rating_sum(v) * 20 <= 100 * w) by {
            lemma_mul_inequality(weighted_rating_sum(v), 5 * w, 20);
            assert((5 * w) * 20 == 100 * w) by (nonlinear_arith);
        }
        lemma_bounded_quotient(weighted_rating_sum(v) * 20, 100, w);
        let success_rate = successful_interactions * 100 / total_interactions as int;
        assert(successful_interactions * 100 <= 100 * total_interactions) by {
            lemma_mul_inequality(
                successful_interactions as int,
                total_interactions as int,
                100,
            );
        }
        lemma_bounded_quotient(
            successful_interactions as int * 100,
            100,
            total_interactions as int,
        );
        lemma_bounded_quotient(raw + success_rate, 100, 2);
    }
}

/// The recomputed category averages always land in the rating domain.
pub proof fn lemma_recomputed_categories_wf(
    h: Seq<FeedbackEntry>,
    total_interactions: u64,
    category_scores: CategoryRatings,
    now: u64,
    expiry: u64,
)
    requires
        ratings_wf(category_scores),
        forall|i: int| 0 <= i < h.len() ==> entry_wf(#[trigger] h[i]),
    ensures
        ratings_wf(recomputed_categories(h, total_interactions, category_scores, now, expiry)),
{
    let v = valid_entries(h, now, expiry);
    if total_interactions != 0 && v.len() != 0 {
        lemma_valid_entries_wf(h, now, expiry);
        lemma_category_sums_bounds(v);
        let s = category_sums(v);
        let n = v.len() as int;
        lemma_bounded_quotient(s.0, 5, n);
        lemma_bounded_quotient(s.1, 5, n);
        lemma_bounded_quotient(s.2, 5, n);
        lemma_bounded_quotient(s.3, 5, n);
        lemma_bounded_quotient(s.4, 5, n);
    }
}

/// Running sums over the valid window of a feedback history.
struct FeedbackStats {
    /// Number of valid entries.
    count: usize,
    /// Position-weighted sum of overall ratings.
    weighted_sum: u128,
    /// Sum of the weights `1 + 2 + ... + count`.
    weight_sum: u128,
    /// Plain sum of accuracy sub-ratings.
    accuracy_sum: u64,
    /// Plain sum of response-time sub-ratings.
    response_time_sum: u64,
    /// Plain sum of communication sub-ratings.
    communication_sum: u64,
    /// Plain sum of problem-solving sub-ratings.
    problem_solving_sum: u64,
    /// Plain sum of ethics sub-ratings.
    ethics_sum: u64,
}

/// One pass over the history, summing the entries that are still inside
/// the scoring window.
fn collect_stats(h: &Vec<FeedbackEntry>, now: u64, expiry: u64) -> (st: FeedbackStats)
    requires
        h@.len() <= u32::MAX as nat,
        forall|i: int| 0 <= i < h@.len() ==> entry_wf(#[trigger] h@[i]),
        forall|i: int| 0 <= i < h@.len() ==> (#[trigger] h@[i]).timestamp <= now,
    ensures
        ({
            let v = valid_entries(h@, now, expiry);
            let s = category_sums(v);
            &&& st.count == v.len()
            &&& st.weighted_sum as int == weighted_rating_sum(v)
            &&& st.weight_sum as int == weight_total(v.len())
            &&& st.accuracy_sum as int == s.0
            &&& st.response_time_sum as int == s.1
            &&& st.communication_sum as int == s.2
            &&& st.problem_solving_sum as int == s.3
            &&& st.ethics_sum as int == s.4
        }),
{
    let mut st = FeedbackStats {
        count: 0,
        weighted_sum: 0,
        weight_sum: 0,
        accuracy_sum: 0,
        response_time_sum: 0,
        communication_sum: 0,
        problem_solving_sum: 0,
        ethics_sum: 0,
    };
    let mut i: usize = 0;
    proof {
        assert(h@.take(0) =~= Seq::<FeedbackEntry>::empty());
    }
    while i < h.len()
        invariant
            i <= h@.len(),
            h@.len() <= u32::MAX as nat,
            forall|k: int| 0 <= k < h@.len() ==> entry_wf(#[trigger] h@[k]),
            forall|k: int| 0 <= k < h@.len() ==> (#[trigger] h@[k]).timestamp <= now,
            ({
                let v = valid_entries(h@.take(i as int), now, expiry);
                let s = category_sums(v);
                &&& st.count == v.len()
                &&& st.weighted_sum as int == weighted_rating_sum(v)
                &&& st.weight_sum as int == weight_total(v.len())
                &&& st.accuracy_sum as int == s.0
                &&& st.response_time_sum as int == s.1
                &&& st.communication_sum as int == s.2
                &&& st.problem_solving_sum as int == s.3
                &&& st.ethics_sum as int == s.4
            }),
            st.count <= i,
        decreases h@.len() - i,
    {
        let ghost v = valid_entries(h@.take(i as int), now, expiry);
        let entry = &h[i];
        proof {
            assert(h@.take(i as int + 1).drop_last() =~= h@.take(i as int));
            assert(h@.take(i as int + 1).last() == h@[i as int]);
            assert(entry_wf(h@[i as int]));
            lemma_valid_entries_wf(h@.take(i as int), now, expiry);
            lemma_weighted_rating_sum_bounds(v);
            lemma_category_sums_bounds(v);
            lemma_weight_total_bounds(v.len());
            assert(v.len() * v.len() <= 0xffff_ffffu64 * 0xffff_ffffu64) by (nonlinear_arith)
                requires
                    v.len() <= 0xffff_ffffu64,
            ;
        }
        if now - entry.timestamp <= expiry {
            proof {
                assert(valid_entries(h@.take(i as int + 1), now, expiry) == v.push(h@[i as int]));
                assert(v.push(h@[i as int]).drop_last() =~= v);
                assert((entry.rating as int) * (v.len() + 1) <= 5 * (v.len() + 1))
                    by (nonlinear_arith)
                    requires
                        entry.rating <= 5,
                        v.len() >= 0,
                ;
                assert((v.len() + 1) * (v.len() + 1) <= 0x1_0000_0000u64 * 0x1_0000_0000u64)
                    by (nonlinear_arith)
                    requires
                        v.len() + 1 <= 0x1_0000_0000u64,
                ;
                lemma_weight_total_bounds((v.len() + 1) as nat);
            }
            let weight: u128 = st.count as u128 + 1;
            st.weighted_sum = st.weighted_sum + (entry.rating as u128) * weight;
            st.weight_sum = st.weight_sum + weight;
            st.accuracy_sum = st.accuracy_sum + entry.category_ratings.accuracy as u64;
            st.response_time_sum = st.response_time_sum + entry.category_ratings.response_time as u64;
            st.communication_sum = st.communication_sum + entry.category_ratings.communication as u64;
            st.problem_solving_sum = st.problem_solving_sum + entry.category_ratings.problem_solving as u64;
            st.ethics_sum = st.ethics_sum + entry.category_ratings.ethics as u64;
            st.count = st.count + 1;
        } else {
            proof {
                assert(valid_entries(h@.take(i as int + 1), now, expiry) == v);
            }
        }
        i = i + 1;
    }
    proof {
        assert(h@.take(h@.len() as int) =~= h@);
    }
    st
}

/// Recomputes the aggregate score of a record at time `now` from its
/// valid feedback, lifetime success rate and stake bonus; leaves the
/// score unchanged when there is no interaction or no valid feedback.
pub fn recalculate_reputation(
    rec: &AgentReputation,
    now: u64,
    expiry: u64,
    stake: u128,
    min_stake: u128,
) -> (new_score: u32)
    requires
        rec_wf(*rec),
        rec.last_update <= now,
        min_stake >= 1,
    ensures
        new_score as int == recomputed_score(
            rec.feedback_history@,
            rec.total_interactions,
            rec.successful_interactions,
            rec.score,
            now,
            expiry,
            stake,
            min_stake,
        ),
        new_score <= 100,
{
    proof {
        lemma_recomputed_score_bounds(
            rec.feedback_history@,
            rec.total_interactions,
            rec.successful_interactions,
            rec.score,
            now,
            expiry,
            stake,
            min_stake,
        );
    }
    if rec.total_interactions == 0 {
        return rec.score;
    }
    let st = collect_stats(&rec.feedback_history, now, expiry);
    if st.count == 0 {
        return rec.score;
    }
    let ghost v = valid_entries(rec.feedback_history@, now, expiry);
    proof {
        lemma_valid_entries_wf(rec.feedback_history@, now, expiry);
        lemma_weighted_rating_sum_bounds(v);
        lemma_weight_total_bounds(v.len());
        assert(weighted_rating_sum(v) * 20 <= 100 * weight_total(v.len())) by {
            lemma_mul_inequality(weighted_rating_sum(v), 5 * weight_total(v.len()), 20);
            assert((5 * weight_total(v.len())) * 20 == 100 * weight_total(v.len()))
                by (nonlinear_arith);
        }
        assert(v.len() * v.len() <= 0xffff_ffffu64 * 0xffff_ffffu64) by (nonlinear_arith)
            requires
                v.len() <= 0xffff_ffffu64,
        ;
        lemma_bounded_quotient(weighted_rating_sum(v) * 20, 100, weight_total(v.len()));
        lemma_mul_inequality(
            rec.successful_interactions as int,
            rec.total_interactions as int,
            100,
        );
        lemma_bounded_quotient(
            rec.successful_interactions as int * 100,
            100,
            rec.total_interactions as int,
        );
    }
    let raw: u128 = st.weighted_sum * 20 / st.weight_sum;
    let success_rate: u64 = rec.successful_interactions * 100 / rec.total_interactions;
    let combined: u64 = (raw as u64 + success_rate) / 2;
    let bonus = calculate_stake_bonus(stake, min_stake);
    let boosted: u64 = combined + bonus as u64;
    if boosted > 100 {
        100
    } else {
        boosted as u32
    }
}

/// Recomputes both the aggregate score and the per-category averages of
/// a record at time `now`; both are left unchanged when there is no
/// interaction or no valid feedback.
pub fn recalculate_reputation_with_categories(
    rec: &AgentReputation,
    now: u64,
    expiry: u64,
    stake: u128,
    min_stake: u128,
) -> (r: (u32, CategoryRatings))
    requires
        rec_wf(*rec),
        rec.last_update <= now,
        min_stake >= 1,
    ensures
        r.0 as int == recomputed_score(
            rec.feedback_history@,
            rec.total_interactions,
            rec.successful_interactions,
            rec.score,
            now,
            expiry,
            stake,
            min_stake,
        ),
        r.1 == recomputed_categories(
            rec.feedback_history@,
            rec.total_interactions,
            rec.category_scores,
            now,
            expiry,
        ),
        r.0 <= 100,
        ratings_wf(r.1),
{
    proof {
        lemma_recomputed_categories_wf(
            rec.feedback_history@,
            rec.total_interactions,
            rec.category_scores,
            now,
            expiry,
        );
    }
    let new_score = recalculate_reputation(rec, now, expiry, stake, min_stake);
    if rec.total_interactions == 0 {
        return (new_score, rec.category_scores);
    }
    let st = collect_stats(&rec.feedback_history, now, expiry);
    if st.count == 0 {
        return (new_score, rec.category_scores);
    }
    let ghost v = valid_entries(rec.feedback_history@, now, expiry);
    proof {
        lemma_valid_entries_wf(rec.feedback_history@, now, expiry);
        lemma_category_sums_bounds(v);
        let s = category_sums(v);
        let n = v.len() as int;
        lemma_bounded_quotient(s.0, 5, n);
        lemma_bounded_quotient(s.1, 5, n);
        lemma_bounded_quotient(s.2, 5, n);
        lemma_bounded_quotient(s.3, 5, n);
        lemma_bounded_quotient(s.4, 5, n);
    }
    let count = st.count as u64;
    let categories = CategoryRatings {
        accuracy: (st.accuracy_sum / count) as u8,
        response_time: (st.response_time_sum / count) as u8,
        communication: (st.communication_sum / count) as u8,
        problem_solving: (st.problem_solving_sum / count) as u8,
        ethics: (st.ethics_sum / count) as u8,
    };
    (new_score, categories)
}

/// Law: recomputation reads the feedback history only through its valid
/// window. Two histories that agree on the valid window recompute, with
/// the same counters, score and stored averages, to the same score and
/// the same averages, whatever expired entries surround them.
pub proof fn lemma_score_depends_only_on_valid_window(
    h1: Seq<FeedbackEntry>,
    h2: Seq<FeedbackEntry>,
    total_interactions: u64,
    successful_interactions: u64,
    score: u32,
    category_scores: CategoryRatings,
    now: u64,
    expiry: u64,
    stake: u128,
    min_stake: u128,
)
    requires
        valid_entries(h1, now, expiry) == valid_entries(h2, now, expiry),
    ensures
        recomputed_score(
            h1,
            total_interactions,
            successful_interactions,
            score,
            now,
            expiry,
            stake,
            min_stake,
        ) == recomputed_score(
            h2,
            total_interactions,
            successful_interactions,
            score,
            now,
            expiry,
            stake,
            min_stake,
        ),
        recomputed_categories(h1, total_interactions, category_scores, now, expiry)
            == recomputed_categories(h2, total_interactions, category_scores, now, expiry),
{
}

/// Law: an entry outside the scoring window is inert. Extending a
/// history by an expired entry leaves the valid window, and with it
/// every recomputation, exactly as it was.
pub proof fn lemma_expired_entry_ignored(
    h: Seq<FeedbackEntry>,
    e: FeedbackEntry,
    total_interactions: u64,
    successful_interactions: u64,
    score: u32,
    category_scores: CategoryRatings,
    now: u64,
    expiry: u64,
    stake: u128,
    min_stake: u128,
)
    requires
        !entry_valid_at(e, now, expiry),
    ensures
        recomputed_score(
            h.push(e),
            total_interactions,
            successful_interactions,
            score,
            now,
            expiry,
            stake,
            min_stake,
        ) == recomputed_score(
            h,
            total_interactions,
            successful_interactions,
            score,
            now,
            expiry,
            stake,
            min_stake,
        ),
        recomputed_categories(h.push(e), total_interactions, category_scores, now, expiry)
            == recomputed_categories(h, total_interactions, category_scores, now, expiry),
{
    assert(h.push(e).drop_last() =~= h);
    assert(valid_entries(h.push(e), now, expiry) == valid_entries(h, now, expiry));
    lemma_score_depends_only_on_valid_window(
        h.push(e),
        h,
        total_interactions,
        successful_interactions,
        score,
        category_scores,
        now,
        expiry,
        stake,
        min_stake,
    );
}

/// Law: recomputation is idempotent. Writing the recomputed score and
/// averages back into the record and recomputing again, with no new
/// feedback in between, yields the same score and the same averages.
pub proof fn lemma_recompute_idempotent(
    h: Seq<FeedbackEntry>,
    total_interactions: u64,
    successful_interactions: u64,
    score: u32,
    category_scores: CategoryRatings,
    now: u64,
    expiry: u64,
    stake: u128,
    min_stake: u128,
)
    requires
        score <= 100,
        successful_interactions <= total_interactions,
        forall|i: int| 0 <= i < h.len() ==> entry_wf(#[trigger] h[i]),
        min_stake >= 1,
    ensures
        ({
            let once = recomputed_score(
                h,
                total_interactions,
                successful_interactions,
                score,
                now,
                expiry,
                stake,
                min_stake,
            );
            recomputed_score(
                h,
                total_interactions,
                successful_interactions,
                once as u32,
                now,
                expiry,
                stake,
                min_stake,
            ) == once
        }),
        ({
            let once = recomputed_categories(h, total_interactions, category_scores, now, expiry);
            recomputed_categories(h, total_interactions, once, now, expiry) == once
        }),
{
    lemma_recomputed_score_bounds(
        h,
        total_interactions,
        successful_interactions,
        score,
        now,
        expiry,
        stake,
        min_stake,
    );
}

/// Computes the stake bonus staircase.
pub fn calculate_stake_bonus(stake: u128, min_stake: u128) -> (bonus: u32)
    requires
        min_stake >= 1,
    ensures
        bonus == stake_bonus_of(stake, min_stake),
        bonus <= 15,
{
    if stake < min_stake {
        return 0;
    }
    let multiple = stake / min_stake;
    if multiple == 1 {
        3
    } else if multiple == 2 {
        6
    } else if multiple == 3 {
        9
    } else if multiple == 4 {
        12
    } else {
        15
    }
}

} // verus!
