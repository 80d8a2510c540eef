//! The distance engine: a signed similarity score between a query and a
//! target, computed as a weighted edit distance plus a substring-occurrence
//! bonus. Lower scores mean higher similarity; the bonus can push a score
//! below zero.
//!
//! The recurrence deliberately charges the deletion step with the cost of the
//! *target* character at the current column, not the query character being
//! notionally removed. This asymmetry is part of the metric's contract and is
//! reproduced exactly by [`dp_cost`].

use vstd::prelude::*;

use crate::costs::CostModel;
use crate::costs::StandardCosts;
use crate::costs::MAX_UNIT_COST;
use crate::text::chars_of;
use crate::text::find_first_occurrence;
use crate::text::first_occurrence;
use crate::text::occurs_at;
use crate::text::occurs_in;

verus! {

/// Sum of the model's deletion costs over all characters of `s`.
pub open spec fn delete_sum<M: CostModel>(m: &M, s: Seq<char>) -> nat
    decreases s.len(),
{
    if s.len() == 0 {
        0
    } else {
        delete_sum(m, s.drop_last()) + m.delete_cost(s.last())
    }
}

/// The edit-distance table of the metric, cell by cell: `dp_cost(m, q, t, i, j)`
/// is the cost of turning the first `i` characters of the query `q` into the
/// first `j` characters of the target `t`.
///
/// Row 0 accumulates insertion costs of the target prefix, column 0 deletion
/// costs of the query prefix. An interior cell takes the cheapest of stepping
/// left (insert the target character), up (delete, charged with the *target*
/// character's deletion cost), or diagonally (free on a match, otherwise the
/// replacement cost).
pub open spec fn dp_cost<M: CostModel>(m: &M, q: Seq<char>, t: Seq<char>, i: int, j: int) -> int
    decreases (if i <= 0 { 0int } else { i }) + (if j <= 0 { 0int } else { j }),
{
    if i <= 0 && j <= 0 {
        0
    } else if i <= 0 {
        dp_cost(m, q, t, 0, j - 1) + m.insert_cost(t[j - 1])
    } else if j <= 0 {
        dp_cost(m, q, t, i - 1, 0) + m.delete_cost(q[i - 1])
    } else {
        let ins = dp_cost(m, q, t, i, j - 1) + m.insert_cost(t[j - 1]);
        let del = dp_cost(m, q, t, i - 1, j) + m.delete_cost(t[j - 1]);
        let diag = dp_cost(m, q, t, i - 1, j - 1) + (if q[i - 1] == t[j - 1] {
            0int
        } else {
            m.replace_cost(q[i - 1], t[j - 1]) as int
        });
        let low = if ins <= del {
            ins
        } else {
            del
        };
        if diag <= low {
            diag
        } else {
            low
        }
    }
}

/// The score of `q` against `t`: the full edit distance, adjusted by the
/// substring bonus when `q` occurs verbatim in `t` (at its first occurrence,
/// measured in code points). An empty target short-circuits to the plain
/// deletion total, with no bonus step.
pub open spec fn score_spec<M: CostModel>(m: &M, q: Seq<char>, t: Seq<char>) -> int {
    if t.len() == 0 {
        delete_sum(m, q) as int
    } else if occurs_in(q, t) {
        dp_cost(m, q, t, q.len() as int, t.len() as int) + m.substring_bonus_at(
            q,
            first_occurrence(q, t),
        )
    } else {
        dp_cost(m, q, t, q.len() as int, t.len() as int)
    }
}

/// Every cell of the table is non-negative and at most `(i + j)` single-step
/// costs; this is what keeps the executable arithmetic far from overflow.
pub proof fn lemma_dp_bounds<M: CostModel>(m: &M, q: Seq<char>, t: Seq<char>, i: int, j: int)
    requires
        0 <= i <= q.len(),
        0 <= j <= t.len(),
    ensures
        0 <= dp_cost(m, q, t, i, j) <= (i + j) * MAX_UNIT_COST,
    decreases i + j,
{
    if i == 0 && j == 0 {
    } else if i == 0 {
        lemma_dp_bounds(m, q, t, 0, j - 1);
        m.lemma_unit_cost_bounds(t[j - 1], t[j - 1], t[j - 1]);
    } else if j == 0 {
        lemma_dp_bounds(m, q, t, i - 1, 0);
        m.lemma_unit_cost_bounds(q[i - 1], q[i - 1], q[i - 1]);
    } else {
        lemma_dp_bounds(m, q, t, i, j - 1);
        lemma_dp_bounds(m, q, t, i - 1, j);
        lemma_dp_bounds(m, q, t, i - 1, j - 1);
        m.lemma_unit_cost_bounds(t[j - 1], q[i - 1], t[j - 1]);
    }
}

/// The distance engine, configured with a cost model that the scoring
/// functions consult for every single step.
pub struct Lyricism<M: CostModel> {
    /// The cost model that prices insertions, deletions, replacements and the
    /// substring bonus.
    pub model: M,
}

impl<M: CostModel> Lyricism<M> {
    /// An engine driven by the given cost model.
    pub fn new(model: M) -> (engine: Lyricism<M>)
        ensures
            engine.model == model,
    {
        Lyricism { model }
    }

    /// The signed similarity score of `query` against `target`: exactly
    /// [`score_spec`] of the two character sequences under the engine's model.
    ///
    /// The length bound keeps every intermediate value of the computation
    /// within `i64`; it admits any realistic catalog entry or query.
    pub fn distance(&self, query: &str, target: &str) -> (score: i64)
        requires
            query@.len() + target@.len() <= 0x3fff_ffff,
        ensures
            score == score_spec(&self.model, query@, target@),
    {
        let q = chars_of(query);
        let t = chars_of(target);
        let m = q.len();
        let n = t.len();

        if n == 0 {
            let mut acc: i64 = 0;
            let mut i: usize = 0;
            while i < m
                invariant
                    q@ == query@,
                    m == q@.len(),
                    m <= 0x3fff_ffff,
                    i <= m,
                    acc == delete_sum(&self.model, q@.subrange(0, i as int)),
                    0 <= acc <= i * MAX_UNIT_COST,
                decreases m - i,
            {
                let c = q[i];
                let dc = self.model.delete(c);
                proof {
                    self.model.lemma_unit_cost_bounds(c, c, c);
                    assert(q@.subrange(0, i + 1).drop_last() =~= q@.subrange(0, i as int));
                    assert(q@.subrange(0, i + 1).last() == q@[i as int]);
                }
                acc = acc + dc as i64;
                i = i + 1;
            }
            assert(q@.subrange(0, m as int) =~= q@);
            return acc;
        }
        // query_distances[k] holds column 0 of row k + 1: the cost of deleting
        // the first k + 1 query characters down to nothing.
        let mut qd: Vec<i64> = Vec::new();
        let mut i: usize = 0;
        while i < m
            invariant
                q@ == query@,
                t@ == target@,
                m == q@.len(),
                n == t@.len(),
                m + n <= 0x3fff_ffff,
                i <= m,
                qd@.len() == i,
                forall|k: int| 0 <= k < i ==> qd@[k] == dp_cost(&self.model, q@, t@, k + 1, 0),
                forall|k: int| 0 <= k < i ==> 0 <= #[trigger] qd@[k] <= (k + 1) * MAX_UNIT_COST,
            decreases m - i,
        {
            let c = q[i];
            let dc = self.model.delete(c);
            proof {
                self.model.lemma_unit_cost_bounds(c, c, c);
            }
            let prev: i64 = if i == 0 {
                0
            } else {
                qd[i - 1]
            };
            assert(dp_cost(&self.model, q@, t@, i + 1, 0) == dp_cost(
                &self.model,
                q@,
                t@,
                i as int,
                0,
            ) + self.model.delete_cost(q@[i as int]));
            assert(prev == dp_cost(&self.model, q@, t@, i as int, 0));
            qd.push(prev + dc as i64);
            i = i + 1;
        }
        // target_distances[k] holds row 0 at column k + 1: the cost of building
        // the first k + 1 target characters out of nothing by insertion.
        let mut td: Vec<i64> = Vec::new();
        let mut j: usize = 0;
        while j < n
            invariant
                q@ == query@,
                t@ == target@,
                m == q@.len(),
                n == t@.len(),
                m + n <= 0x3fff_ffff,
                j <= n,
                td@.len() == j,
                forall|k: int| 0 <= k < j ==> td@[k] == dp_cost(&self.model, q@, t@, 0, k + 1),
                forall|k: int| 0 <= k < j ==> 0 <= #[trigger] td@[k] <= (k + 1) * MAX_UNIT_COST,
            decreases n - j,
        {
            let c = t[j];
            let ic = self.model.insert(c);
            proof {
                self.model.lemma_unit_cost_bounds(c, c, c);
            }
            let prev: i64 = if j == 0 {
                0
            } else {
                td[j - 1]
            };
            assert(dp_cost(&self.model, q@, t@, 0, j + 1) == dp_cost(
                &self.model,
                q@,
                t@,
                0,
                j as int,
            ) + self.model.insert_cost(t@[j as int]));
            assert(prev == dp_cost(&self.model, q@, t@, 0, j as int));
            td.push(prev + ic as i64);
            j = j + 1;
        }

        let mut result: i64 = td[n - 1];
        let mut qi: usize = 0;
        while qi < m
            invariant
                q@ == query@,
                t@ == target@,
                m == q@.len(),
                n == t@.len(),
                1 <= n,
                m + n <= 0x3fff_ffff,
                qi <= m,
                qd@.len() == m,
                td@.len() == n,
                forall|k: int| 0 <= k < m ==> qd@[k] == dp_cost(&self.model, q@, t@, k + 1, 0),
                forall|k: int| 0 <= k < m ==> 0 <= #[trigger] qd@[k] <= (k + 1) * MAX_UNIT_COST,
                forall|k: int| 0 <= k < n ==> td@[k] == dp_cost(&self.model, q@, t@, qi as int, k + 1),
                forall|k: int| 0 <= k < n ==> 0 <= #[trigger] td@[k] <= (qi + k + 1) * MAX_UNIT_COST,
                result == dp_cost(&self.model, q@, t@, qi as int, n as int),
            decreases m - qi,
        {
            let qc = q[qi];
            let mut replace_base: i64 = if qi == 0 {
                0
            } else {
                qd[qi - 1]
            };
            let mut row_result: i64 = qd[qi];
            let mut ti: usize = 0;
            while ti < n
                invariant
                    q@ == query@,
                    t@ == target@,
                    m == q@.len(),
                    n == t@.len(),
                    m + n <= 0x3fff_ffff,
                    qi < m,
                    ti <= n,
                    qc == q@[qi as int],
                    td@.len() == n,
                    replace_base == dp_cost(&self.model, q@, t@, qi as int, ti as int),
                    0 <= replace_base <= (qi + ti) * MAX_UNIT_COST,
                    row_result == dp_cost(&self.model, q@, t@, qi + 1, ti as int),
                    0 <= row_result <= (qi + ti + 1) * MAX_UNIT_COST,
                    forall|k: int| ti <= k < n ==> td@[k] == dp_cost(&self.model, q@, t@, qi as int, k + 1),
                    forall|k: int| ti <= k < n ==> 0 <= #[trigger] td@[k] <= (qi + k + 1) * MAX_UNIT_COST,
                    forall|k: int| 0 <= k < ti ==> td@[k] == dp_cost(&self.model, q@, t@, qi + 1, k + 1),
                    forall|k: int| 0 <= k < ti ==> 0 <= #[trigger] td@[k] <= (qi + k + 2) * MAX_UNIT_COST,
                decreases n - ti,
            {
                let tc = t[ti];
                let delete_base: i64 = td[ti];
                let ic = self.model.insert(tc);
                let dc = self.model.delete(tc);
                proof {
                    self.model.lemma_unit_cost_bounds(tc, qc, tc);
                }
                let stretched: i64 = row_result + ic as i64;
                let shrunk: i64 = delete_base + dc as i64;
                let swapped: i64 = if qc == tc {
                    replace_base
                } else {
                    let rc = self.model.replace(qc, tc);
                    replace_base + rc as i64
                };
                let low: i64 = if stretched <= shrunk {
                    stretched
                } else {
                    shrunk
                };
                row_result = if swapped <= low {
                    swapped
                } else {
                    low
                };
                assert(row_result == dp_cost(&self.model, q@, t@, qi + 1, ti + 1));
                replace_base = delete_base;
                td[ti] = row_result;
                ti = ti + 1;
            }
            result = row_result;
            qi = qi + 1;
        }

        // result == dp_cost(m, n): apply the substring bonus if the query
        // occurs verbatim in the target.
        match find_first_occurrence(&q, &t) {
            Some(p) => {
                proof {
                    self.model.lemma_bonus_bounds(q@, p as int);
                    lemma_dp_bounds(&self.model, q@, t@, m as int, n as int);
                }
                let bonus = self.model.substring_bonus(query, p);
                result + bonus
            },
            None => result,
        }
    }
}

/// On the diagonal of the table for a string against itself, every cell is
/// zero under the reference model: matching characters step for free.
proof fn lemma_dp_self_diag(m: &StandardCosts, s: Seq<char>, i: int)
    requires
        0 <= i <= s.len(),
    ensures
        dp_cost(m, s, s, i, i) == 0,
    decreases i,
{
    if i > 0 {
        lemma_dp_self_diag(m, s, i - 1);
        lemma_dp_bounds(m, s, s, i, i - 1);
        lemma_dp_bounds(m, s, s, i - 1, i);
    }
}

/// Self-similarity: under the reference cost model, any string scored against
/// itself yields exactly `-20` per character. The edit distance between equal
/// strings is zero, and the string occurs in itself at position zero, so only
/// the bonus remains.
pub proof fn lemma_self_similarity(m: &StandardCosts, s: Seq<char>)
    ensures
        score_spec(m, s, s) == -20 * (s.len() as int),
{
    if s.len() == 0 {
    } else {
        lemma_dp_self_diag(m, s, s.len() as int);
        assert(s.subrange(0, s.len() as int) =~= s);
        assert(occurs_at(s, s, 0));
        crate::text::lemma_first_occurrence_exists(s, s, 0);
        assert(first_occurrence(s, s) == 0);
    }
}

/// Empty-target law: against an empty target, the score of `q` is exactly the
/// sum of the model's deletion costs over the characters of `q`, for any
/// cost model.
pub proof fn lemma_empty_target<M: CostModel>(m: &M, q: Seq<char>)
    ensures
        score_spec(m, q, Seq::<char>::empty()) == delete_sum(m, q),
{
}

/// Idempotence of scoring: the score is a pure function of the model and the
/// two strings, so two results for identical inputs are always equal.
pub proof fn lemma_score_deterministic<M: CostModel>(
    m: &M,
    q: Seq<char>,
    t: Seq<char>,
    score1: int,
    score2: int,
)
    requires
        score1 == score_spec(m, q, t),
        score2 == score_spec(m, q, t),
    ensures
        score1 == score2,
{
}

} // verus!
