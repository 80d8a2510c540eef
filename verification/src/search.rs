//! The retrieval selector: bounded top-K ranking and single best-match
//! selection over an immutable candidate catalog, each scoring every entry
//! once with the distance engine.
//!
//! Entries with equal scores are kept in catalog order, so both operations
//! are fully deterministic functions of the model, the catalog and the query.

use vstd::prelude::*;

use vstd::multiset::Multiset;
use vstd::seq_lib::group_to_multiset_ensures;
use vstd::seq_lib::lemma_multiset_commutative;

use crate::costs::CostModel;
use crate::distance::score_spec;
use crate::distance::Lyricism;

verus! {

/// One row of the candidate catalog: an identifier and the text it is found
/// by. The catalog is loaded once at startup and never mutated while serving.
#[derive(Clone, Debug, PartialEq, Eq)]
pub struct CandidateEntry {
    /// The identifier handed back to callers.
    pub id: i64,
    /// The text the query is matched against.
    pub title: String,
}

/// Every title of the catalog is short enough for the distance engine's
/// arithmetic, alongside any query within the same limit.
pub open spec fn catalog_within_limits(catalog: Seq<CandidateEntry>) -> bool {
    forall|i: int| 0 <= i < catalog.len() ==> #[trigger] catalog[i].title@.len() <= 0x1fff_ffff
}

/// The catalog scored against a query, in catalog order: each entry becomes
/// the pair of its score and its identifier.
pub open spec fn scored_entries<M: CostModel>(
    m: &M,
    catalog: Seq<CandidateEntry>,
    q: Seq<char>,
) -> Seq<(int, i64)> {
    Seq::new(catalog.len(), |i: int| (score_spec(m, q, catalog[i].title@), catalog[i].id))
}

/// Insert `x` into `s` after every element whose score is less than or equal
/// to its own: stable insertion, so earlier entries win ties.
pub open spec fn insert_ranked(s: Seq<(int, i64)>, x: (int, i64)) -> Seq<(int, i64)>
    decreases s.len(),
{
    if s.len() == 0 {
        seq![x]
    } else if s[0].0 <= x.0 {
        seq![s[0]] + insert_ranked(s.drop_first(), x)
    } else {
        seq![x] + s
    }
}

/// The position at which [`insert_ranked`] places `x`: the first index whose
/// score exceeds the score of `x`.
pub open spec fn insert_pos(s: Seq<(int, i64)>, x: (int, i64)) -> int
    decreases s.len(),
{
    if s.len() == 0 {
        0
    } else if s[0].0 <= x.0 {
        1 + insert_pos(s.drop_first(), x)
    } else {
        0
    }
}

/// All scored entries rearranged into ascending score order by stable
/// insertion: equal scores keep their catalog order.
pub open spec fn ranked(s: Seq<(int, i64)>) -> Seq<(int, i64)>
    decreases s.len(),
{
    if s.len() == 0 {
        Seq::empty()
    } else {
        insert_ranked(ranked(s.drop_last()), s.last())
    }
}

/// Scores never decrease along the sequence.
pub open spec fn sorted_by_score(s: Seq<(int, i64)>) -> bool {
    forall|a: int, b: int| 0 <= a <= b < s.len() ==> s[a].0 <= s[b].0
}

/// The `min(k, n)` best-scoring entries, best first.
pub open spec fn top_k_spec(s: Seq<(int, i64)>, k: int) -> Seq<(int, i64)> {
    if k <= ranked(s).len() {
        ranked(s).take(k)
    } else {
        ranked(s)
    }
}

/// The identifiers that `top_k` returns for this model, catalog, query and
/// bound, best score first.
pub open spec fn top_k_ids<M: CostModel>(
    m: &M,
    catalog: Seq<CandidateEntry>,
    q: Seq<char>,
    k: int,
) -> Seq<i64> {
    let sel = top_k_spec(scored_entries(m, catalog, q), k);
    Seq::new(sel.len(), |i: int| sel[i].1)
}

/// Top-K cardinality: for any catalog and bound, the returned identifier
/// list holds exactly `min(k, catalog size)` entries.
pub proof fn lemma_top_k_count<M: CostModel>(
    m: &M,
    catalog: Seq<CandidateEntry>,
    q: Seq<char>,
    k: int,
)
    requires
        0 <= k,
    ensures
        top_k_ids(m, catalog, q, k).len() == (if k <= catalog.len() {
            k
        } else {
            catalog.len() as int
        }),
{
    lemma_ranked_permutes(scored_entries(m, catalog, q));
}

/// The index of the entry `best_match` picks: the first entry whose score no
/// later entry strictly improves on.
pub open spec fn best_index(s: Seq<(int, i64)>) -> int
    decreases s.len(),
{
    if s.len() <= 1 {
        0
    } else {
        let b = best_index(s.drop_last());
        if s.last().0 < s[b].0 {
            s.len() - 1
        } else {
            b
        }
    }
}

/// [`insert_ranked`] splits the sequence at [`insert_pos`]: everything before
/// keeps a score within that of the new element, and the element displaced
/// (if any) scores strictly more.
pub proof fn lemma_insert_ranked_split(s: Seq<(int, i64)>, x: (int, i64))
    ensures
        0 <= insert_pos(s, x) <= s.len(),
        insert_ranked(s, x) == s.take(insert_pos(s, x)) + seq![x] + s.skip(insert_pos(s, x)),
        forall|i: int| 0 <= i < insert_pos(s, x) ==> s[i].0 <= x.0,
        insert_pos(s, x) < s.len() ==> s[insert_pos(s, x)].0 > x.0,
    decreases s.len(),
{
    if s.len() == 0 {
        assert(insert_ranked(s, x) =~= s.take(0) + seq![x] + s.skip(0));
    } else if s[0].0 <= x.0 {
        let s1 = s.drop_first();
        lemma_insert_ranked_split(s1, x);
        let p1 = insert_pos(s1, x);
        assert(s.take(1 + p1) =~= seq![s[0]] + s1.take(p1));
        assert(s.skip(1 + p1) =~= s1.skip(p1));
        assert(insert_ranked(s, x) =~= s.take(1 + p1) + seq![x] + s.skip(1 + p1));
        assert forall|i: int| 0 <= i < insert_pos(s, x) implies s[i].0 <= x.0 by {
            if i > 0 {
                assert(s[i] == s1[i - 1]);
            }
        }
        if insert_pos(s, x) < s.len() {
            assert(s[1 + p1] == s1[p1]);
        }
    } else {
        assert(insert_ranked(s, x) =~= s.take(0) + seq![x] + s.skip(0));
    }
}

/// Stable insertion into a sorted sequence stays sorted.
proof fn lemma_insert_ranked_sorted(s: Seq<(int, i64)>, x: (int, i64))
    requires
        sorted_by_score(s),
    ensures
        sorted_by_score(insert_ranked(s, x)),
{
    lemma_insert_ranked_split(s, x);
    let p = insert_pos(s, x);
    let r = insert_ranked(s, x);
    assert forall|a: int, b: int| 0 <= a <= b < r.len() implies r[a].0 <= r[b].0 by {
        if a < p {
            assert(r[a] == s[a]);
        } else if a == p {
            assert(r[a] == x);
        } else {
            assert(r[a] == s[a - 1]);
        }
        if b < p {
            assert(r[b] == s[b]);
        } else if b == p {
            assert(r[b] == x);
        } else {
            assert(r[b] == s[b - 1]);
        }
    }
}

/// Stable insertion adds exactly the new element to the contents.
proof fn lemma_insert_ranked_multiset(s: Seq<(int, i64)>, x: (int, i64))
    ensures
        insert_ranked(s, x).to_multiset() == s.to_multiset().insert(x),
{
    broadcast use group_to_multiset_ensures;

    lemma_insert_ranked_split(s, x);
    let p = insert_pos(s, x);
    lemma_multiset_commutative(s.take(p) + seq![x], s.skip(p));
    lemma_multiset_commutative(s.take(p), seq![x]);
    lemma_multiset_commutative(s.take(p), s.skip(p));
    assert(s.take(p) + s.skip(p) =~= s);
    assert(insert_ranked(s, x) =~= (s.take(p) + seq![x]) + s.skip(p));
    assert(seq![x] =~= Seq::<(int, i64)>::empty().push(x));
    assert(seq![x].to_multiset() =~= Multiset::<(int, i64)>::empty().insert(x));
    assert(insert_ranked(s, x).to_multiset() =~= s.to_multiset().insert(x));
}

/// Ranking reorders the scored entries and loses none of them: same length,
/// ascending scores, same contents.
pub proof fn lemma_ranked_permutes(s: Seq<(int, i64)>)
    ensures
        ranked(s).len() == s.len(),
        sorted_by_score(ranked(s)),
        ranked(s).to_multiset() == s.to_multiset(),
    decreases s.len(),
{
    broadcast use group_to_multiset_ensures;

    if s.len() == 0 {
    } else {
        let s1 = s.drop_last();
        lemma_ranked_permutes(s1);
        lemma_insert_ranked_split(ranked(s1), s.last());
        lemma_insert_ranked_sorted(ranked(s1), s.last());
        lemma_insert_ranked_multiset(ranked(s1), s.last());
        assert(s1.push(s.last()) =~= s);
        assert(s1.push(s.last()).to_multiset() == s1.to_multiset().insert(s.last()));
    }
}

/// Inserting into a prefix of length `k` and keeping the first `k` elements
/// gives the same result as inserting into the whole sequence first: entries
/// beyond the cut can never climb back above it.
proof fn lemma_insert_ranked_prefix(s: Seq<(int, i64)>, x: (int, i64), k: int)
    requires
        0 <= k <= s.len(),
    ensures
        insert_ranked(s.take(k), x).take(k) == insert_ranked(s, x).take(k),
{
    lemma_insert_ranked_split(s, x);
    lemma_insert_ranked_split(s.take(k), x);
    let p = insert_pos(s, x);
    let pt = insert_pos(s.take(k), x);
    if p < k {
        assert(pt == p) by {
            if pt < p {
                assert(s.take(k)[pt].0 > x.0);
                assert(s[pt].0 <= x.0);
            }
            if pt > p {
                assert(s.take(k)[p].0 <= x.0);
                assert(s[p].0 > x.0);
            }
        }
    } else {
        assert(pt == k) by {
            if pt < k {
                assert(s.take(k)[pt].0 > x.0);
                assert(s[pt].0 <= x.0);
            }
        }
    }
    assert(insert_ranked(s.take(k), x).take(k) =~= insert_ranked(s, x).take(k));
}

/// The first `min(k, n)` ranked entries score no worse than everything the
/// ranking placed after them, and the result is sorted best-first: the
/// top-K selection is admissible.
pub proof fn lemma_top_k_selection(s: Seq<(int, i64)>, k: int)
    requires
        0 <= k,
    ensures
        top_k_spec(s, k).len() == (if k <= s.len() {
            k
        } else {
            s.len() as int
        }),
        sorted_by_score(top_k_spec(s, k)),
        ranked(s).to_multiset() == s.to_multiset(),
        forall|a: int, b: int|
            0 <= a < top_k_spec(s, k).len() && top_k_spec(s, k).len() <= b < s.len()
                ==> #[trigger] top_k_spec(s, k)[a].0 <= #[trigger] ranked(s)[b].0,
{
    lemma_ranked_permutes(s);
}

/// The index `best_index` picks is in range, scores no worse than any entry,
/// and every earlier entry scores strictly worse.
pub proof fn lemma_best_index(s: Seq<(int, i64)>)
    requires
        s.len() > 0,
    ensures
        0 <= best_index(s) < s.len(),
        forall|i: int| 0 <= i < s.len() ==> s[best_index(s)].0 <= #[trigger] s[i].0,
        forall|i: int| 0 <= i < best_index(s) ==> s[best_index(s)].0 < #[trigger] s[i].0,
    decreases s.len(),
{
    if s.len() > 1 {
        let s1 = s.drop_last();
        lemma_best_index(s1);
        let b1 = best_index(s1);
        let b = best_index(s);
        assert(forall|i: int| 0 <= i < s1.len() ==> s1[i] == #[trigger] s[i]);
        if s.last().0 < s1[b1].0 {
            assert(b == s.len() - 1);
            assert forall|i: int| 0 <= i < s.len() implies s[b].0 <= #[trigger] s[i].0 by {
                if i < s.len() - 1 {
                    assert(s[i] == s1[i]);
                    assert(s1[b1].0 <= s1[i].0);
                }
            }
            assert forall|i: int| 0 <= i < b implies s[b].0 < #[trigger] s[i].0 by {
                assert(s[i] == s1[i]);
                assert(s1[b1].0 <= s1[i].0);
            }
        } else {
            assert(b == b1);
            assert forall|i: int| 0 <= i < s.len() implies s[b].0 <= #[trigger] s[i].0 by {
                if i < s.len() - 1 {
                    assert(s[i] == s1[i]);
                    assert(s1[b1].0 <= s1[i].0);
                }
            }
            assert forall|i: int| 0 <= i < b implies s[b].0 < #[trigger] s[i].0 by {
                assert(s[i] == s1[i]);
                assert(s1[b1].0 < s1[i].0);
            }
        }
    }
}

/// Best-match determinism: when two entries score identically, the one that
/// appears earlier in the catalog wins; the later one is never picked.
pub proof fn lemma_best_match_earliest(s: Seq<(int, i64)>, i: int, j: int)
    requires
        0 <= i < j < s.len(),
        s[i].0 == s[j].0,
    ensures
        best_index(s) != j,
{
    lemma_best_index(s);
}

/// Idempotence of retrieval: both selectors are pure functions of the model,
/// the catalog and the query, so two results for identical inputs are equal.
pub proof fn lemma_retrieval_deterministic<M: CostModel>(
    m: &M,
    catalog: Seq<CandidateEntry>,
    q: Seq<char>,
    k: int,
    ids1: Seq<i64>,
    ids2: Seq<i64>,
)
    requires
        ids1 == top_k_ids(m, catalog, q, k),
        ids2 == top_k_ids(m, catalog, q, k),
    ensures
        ids1 == ids2,
{
}

/// Idempotence of best-match selection: the chosen identifier is a pure
/// function of the model, the catalog and the query, so two results for
/// identical inputs are equal.
pub proof fn lemma_best_match_deterministic<M: CostModel>(
    m: &M,
    catalog: Seq<CandidateEntry>,
    q: Seq<char>,
    best1: Option<i64>,
    best2: Option<i64>,
)
    requires
        catalog.len() > 0,
        best1 == Some(scored_entries(m, catalog, q)[best_index(scored_entries(m, catalog, q))].1),
        best2 == Some(scored_entries(m, catalog, q)[best_index(scored_entries(m, catalog, q))].1),
    ensures
        best1 == best2,
{
}

impl<M: CostModel> Lyricism<M> {
    /// The identifiers of the up-to-`k` best-scoring catalog entries, best
    /// first. Returns exactly `min(k, catalog size)` identifiers; entries
    /// with equal scores appear in catalog order.
    pub fn top_k(&self, catalog: &Vec<CandidateEntry>, query: &str, k: usize) -> (ids: Vec<i64>)
        requires
            query@.len() <= 0x1fff_ffff,
            catalog_within_limits(catalog@),
        ensures
            ids@ == top_k_ids(&self.model, catalog@, query@, k as int),
    {
        let ghost all = scored_entries(&self.model, catalog@, query@);
        let mut kept: Vec<(i64, i64)> = Vec::new();
        let mut idx: usize = 0;
        while idx < catalog.len()
            invariant
                query@.len() <= 0x1fff_ffff,
                catalog_within_limits(catalog@),
                all == scored_entries(&self.model, catalog@, query@),
                idx <= catalog@.len(),
                kept@.len() == top_k_spec(all.take(idx as int), k as int).len(),
                forall|i: int|
                    0 <= i < kept@.len() ==> ((#[trigger] kept@[i]).0 as int, kept@[i].1)
                        == top_k_spec(all.take(idx as int), k as int)[i],
            decreases catalog@.len() - idx,
        {
            let entry = &catalog[idx];
            let score = self.distance(query, entry.title.as_str());
            let ghost x = (score as int, entry.id);
            let ghost prefix = all.take(idx as int);
            let ghost sorted_prefix = ranked(prefix);
            proof {
                lemma_ranked_permutes(prefix);
                lemma_insert_ranked_split(sorted_prefix, x);
                if k <= idx {
                    lemma_insert_ranked_prefix(sorted_prefix, x, k as int);
                }
                assert(all.take(idx + 1).drop_last() =~= prefix);
                assert(all.take(idx + 1).last() == x);
                assert(ranked(all.take(idx + 1)) == insert_ranked(sorted_prefix, x));
            }
            // Insert the new pair behind every kept entry scoring at most the
            // same, so ties keep catalog order.
            let mut pos: usize = 0;
            while pos < kept.len() && kept[pos].0 <= score
                invariant
                    pos <= kept@.len(),
                    forall|i: int|
                        0 <= i < kept@.len() ==> ((#[trigger] kept@[i]).0 as int, kept@[i].1)
                            == top_k_spec(all.take(idx as int), k as int)[i],
                    forall|i: int| 0 <= i < pos ==> (#[trigger] kept@[i]).0 <= score,
                decreases kept@.len() - pos,
            {
                pos = pos + 1;
            }
            proof {
                let cut = top_k_spec(prefix, k as int);
                lemma_insert_ranked_split(cut, x);
                let ip = insert_pos(cut, x);
                if ip < pos {
                    assert(cut[ip].0 > x.0);
                    assert((kept@[ip].0 as int, kept@[ip].1) == cut[ip]);
                    assert(kept@[ip].0 <= score);
                    assert(false);
                }
                if ip > pos {
                    assert(pos < kept@.len());
                    assert((kept@[pos as int].0 as int, kept@[pos as int].1) == cut[pos as int]);
                    assert(kept@[pos as int].0 > score);
                    assert(cut[pos as int].0 <= x.0);
                    assert(false);
                }
                assert(ip == pos as int);
            }
            kept.insert(pos, (score, entry.id));
            if kept.len() > k {
                kept.pop();
            }
            proof {
                let cut = top_k_spec(prefix, k as int);
                let grown = insert_ranked(cut, x);
                assert(kept@.len() == (if k as int <= grown.len() {
                    k as int
                } else {
                    grown.len() as int
                }));
                let full = insert_ranked(sorted_prefix, x);
                if k <= idx {
                    assert(cut == sorted_prefix.take(k as int));
                    assert(forall|i: int|
                        0 <= i < kept@.len() ==> ((#[trigger] kept@[i]).0 as int, kept@[i].1)
                            == grown.take(k as int)[i]);
                    assert(grown.take(k as int) == full.take(k as int));
                } else {
                    assert(cut == sorted_prefix);
                }
                assert(forall|i: int|
                    0 <= i < kept@.len() ==> ((#[trigger] kept@[i]).0 as int, kept@[i].1)
                        == top_k_spec(all.take(idx + 1), k as int)[i]);
            }
            idx = idx + 1;
        }
        proof {
            assert(all.take(catalog@.len() as int) =~= all);
        }
        let mut ids: Vec<i64> = Vec::new();
        let mut i: usize = 0;
        while i < kept.len()
            invariant
                i <= kept@.len(),
                kept@.len() == top_k_spec(all, k as int).len(),
                forall|j: int|
                    0 <= j < kept@.len() ==> ((#[trigger] kept@[j]).0 as int, kept@[j].1)
                        == top_k_spec(all, k as int)[j],
                ids@.len() == i,
                forall|j: int| 0 <= j < i ==> ids@[j] == top_k_spec(all, k as int)[j].1,
            decreases kept@.len() - i,
        {
            let id = kept[i].1;
            ids.push(id);
            i = i + 1;
        }
        proof {
            assert(ids@ =~= top_k_ids(&self.model, catalog@, query@, k as int));
        }
        ids
    }

    /// The identifier of the best-scoring catalog entry, or `None` when the
    /// catalog is empty. The running best is replaced only on a strict
    /// improvement, so among equal scores the earliest catalog entry wins.
    pub fn best_match(&self, catalog: &Vec<CandidateEntry>, query: &str) -> (best: Option<i64>)
        requires
            query@.len() <= 0x1fff_ffff,
            catalog_within_limits(catalog@),
        ensures
            best is Some <==> catalog@.len() > 0,
            catalog@.len() > 0 ==> {
                let all = scored_entries(&self.model, catalog@, query@);
                best == Some(all[best_index(all)].1) && (forall|i: int|
                    0 <= i < all.len() ==> all[best_index(all)].0 <= (#[trigger] all[i]).0) && (
                forall|i: int|
                    0 <= i < best_index(all) ==> all[best_index(all)].0 < (#[trigger] all[i]).0)
            },
    {
        proof {
            if catalog@.len() > 0 {
                lemma_best_index(scored_entries(&self.model, catalog@, query@));
            }
        }
        let ghost all = scored_entries(&self.model, catalog@, query@);
        if catalog.len() == 0 {
            return None;
        }
        let first = &catalog[0];
        let mut best_score = self.distance(query, first.title.as_str());
        let mut best_id = first.id;
        let mut idx: usize = 1;
        while idx < catalog.len()
            invariant
                query@.len() <= 0x1fff_ffff,
                catalog_within_limits(catalog@),
                all == scored_entries(&self.model, catalog@, query@),
                1 <= idx <= catalog@.len(),
                best_score as int == all.take(idx as int)[best_index(all.take(idx as int))].0,
                best_id == all.take(idx as int)[best_index(all.take(idx as int))].1,
            decreases catalog@.len() - idx,
        {
            let entry = &catalog[idx];
            let score = self.distance(query, entry.title.as_str());
            proof {
                let prefix = all.take(idx as int);
                lemma_best_index(prefix);
                assert(all.take(idx + 1).drop_last() =~= prefix);
                assert(all.take(idx + 1).last() == (score as int, entry.id));
            }
            if score < best_score {
                best_score = score;
                best_id = entry.id;
            }
            idx = idx + 1;
        }
        proof {
            assert(all.take(catalog@.len() as int) =~= all);
        }
        Some(best_id)
    }
}

} // verus!
