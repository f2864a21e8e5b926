use fuzzy_matcher::skim::SkimMatcherV2;
use fuzzy_matcher::FuzzyMatcher;
use vstd::prelude::*;

verus! {

#[verifier::external_type_specification]
#[verifier::external_body]
pub struct ExSkimMatcherV2(SkimMatcherV2);

/// The score that the skim scorer (default configuration) gives `choice`
/// against `pattern`: `None` when the pattern does not match at all.
pub uninterp spec fn skim_score(choice: Seq<char>, pattern: Seq<char>) -> Option<i64>;

/// Relies on `SkimMatcherV2::default`: a scorer with the default weights and
/// smart case handling.
#[verifier::external_body]
fn default_scorer() -> (r: SkimMatcherV2) {
    SkimMatcherV2::default()
}

/// Relies on `FuzzyMatcher::fuzzy_match` of `SkimMatcherV2`: the outcome
/// depends on the two strings alone, and an empty pattern scores `Some(0)`.
#[verifier::external_body]
fn skim_match(inner: &SkimMatcherV2, choice: &str, pattern: &str) -> (r: Option<i64>)
    ensures
        r == skim_score(choice@, pattern@),
        pattern@.len() == 0 ==> r == Some(0i64),
{
    inner.fuzzy_match(choice, pattern)
}

/// The score that orders candidates; only meaningful where the score is `Some`.
pub open spec fn score_key(scores: Seq<Option<i64>>, i: int) -> int {
    match scores[i] {
        Some(s) => s as int,
        None => 0,
    }
}

/// Candidate `i` comes strictly before candidate `j`: a higher score first,
/// and among equal scores the earlier input position first.
pub open spec fn ranks_before(scores: Seq<Option<i64>>, i: int, j: int) -> bool {
    score_key(scores, i) > score_key(scores, j) || (score_key(scores, i) == score_key(scores, j)
        && i < j)
}

/// `order` lists exactly the positions whose score is `Some`, best first,
/// equal scores in input order.
pub open spec fn is_ranking(scores: Seq<Option<i64>>, order: Seq<int>) -> bool {
    &&& forall|k: int| 0 <= k < order.len() ==> 0 <= #[trigger] order[k] < scores.len()
    &&& forall|k: int| 0 <= k < order.len() ==> (#[trigger] scores[order[k]]) is Some
    &&& forall|i: int| 0 <= i < scores.len() && (#[trigger] scores[i]) is Some ==> order.contains(i)
    &&& forall|a: int, b: int|
        0 <= a < b < order.len() ==> ranks_before(scores, #[trigger] order[a], #[trigger] order[b])
}

/// The positions of a `usize` vector, as integers.
pub open spec fn as_ints(v: Seq<usize>) -> Seq<int> {
    v.map_values(|x: usize| x as int)
}

/// Orders the positions of the matched entries of `scores` from the highest
/// score down; entries with equal scores keep their input order, and entries
/// without a score are left out.
pub fn rank_indices(scores: &[Option<i64>]) -> (r: Vec<usize>)
    ensures
        is_ranking(scores@, as_ints(r@)),
{
    let mut r: Vec<usize> = Vec::new();
    let n = scores.len();
    let mut i: usize = 0;
    while i < n
        invariant
            n == scores@.len(),
            i <= n,
            forall|k: int| 0 <= k < r@.len() ==> #[trigger] r@[k] < i,
            forall|k: int| 0 <= k < r@.len() ==> (#[trigger] scores@[r@[k] as int]) is Some,
            forall|j: int| 0 <= j < i && (#[trigger] scores@[j]) is Some ==> r@.contains(j as usize),
            forall|a: int, b: int|
                0 <= a < b < r@.len() ==> ranks_before(
                    scores@,
                    #[trigger] r@[a] as int,
                    #[trigger] r@[b] as int,
                ),
        decreases n - i,
    {
        if let Some(s) = scores[i] {
            let mut p: usize = 0;
            while p < r.len() && score_at(scores, r[p]) >= s
                invariant
                    p <= r@.len(),
                    i < n == scores@.len(),
                    scores@[i as int] == Some(s),
                    forall|k: int| 0 <= k < r@.len() ==> #[trigger] r@[k] < i,
                    forall|k: int| 0 <= k < r@.len() ==> (#[trigger] scores@[r@[k] as int]) is Some,
                    forall|j: int| 0 <= j < i && (#[trigger] scores@[j]) is Some ==> r@.contains(j as usize),
                    forall|a: int, b: int|
                        0 <= a < b < r@.len() ==> ranks_before(
                            scores@,
                            #[trigger] r@[a] as int,
                            #[trigger] r@[b] as int,
                        ),
                    forall|k: int| 0 <= k < p ==> score_key(scores@, #[trigger] r@[k] as int) >= s,
                decreases r@.len() - p,
            {
                p = p + 1;
            }
            proof {
                assert forall|k: int| p <= k < r@.len() implies score_key(
                    scores@,
                    #[trigger] r@[k] as int,
                ) < s by {
                    if k > p {
                        assert(ranks_before(scores@, r@[p as int] as int, r@[k] as int));
                    }
                }
            }
            let ghost old_r = r@;
            r.insert(p, i);
            proof {
                assert(r@ == old_r.insert(p as int, i));
                assert forall|j: int| 0 <= j < i + 1 && (#[trigger] scores@[j]) is Some implies r@.contains(
                    j as usize,
                ) by {
                    if j == i {
                        assert(r@[p as int] == i);
                    } else {
                        let k = choose|k: int| 0 <= k < old_r.len() && old_r[k] == j as usize;
                        if k < p {
                            assert(r@[k] == j as usize);
                        } else {
                            assert(r@[k + 1] == j as usize);
                        }
                    }
                }
            }
        }
        i = i + 1;
    }
    proof {
        let o = as_ints(r@);
        assert forall|j: int| 0 <= j < scores@.len() && (#[trigger] scores@[j]) is Some implies o.contains(j) by {
            let k = choose|k: int| 0 <= k < r@.len() && r@[k] == j as usize;
            assert(o[k] == j);
        }
    }
    r
}

/// The score at position `i`, where it is known to be present.
fn score_at(scores: &[Option<i64>], i: usize) -> (r: i64)
    requires
        i < scores@.len(),
        scores@[i as int] is Some,
    ensures
        r as int == score_key(scores@, i as int),
{
    match scores[i] {
        Some(s) => s,
        None => 0,
    }
}

/// Along a ranking the scores never increase: no later candidate scores higher
/// than an earlier one.
pub proof fn lemma_ranking_non_increasing(scores: Seq<Option<i64>>, order: Seq<int>, a: int, b: int)
    requires
        is_ranking(scores, order),
        0 <= a < b < order.len(),
    ensures
        scores[order[a]] is Some,
        scores[order[b]] is Some,
        score_key(scores, order[a]) >= score_key(scores, order[b]),
{
    assert(ranks_before(scores, order[a], order[b]));
}

proof fn lemma_rankings_agree_at(scores: Seq<Option<i64>>, o1: Seq<int>, o2: Seq<int>, k: int)
    requires
        is_ranking(scores, o1),
        is_ranking(scores, o2),
        0 <= k < o1.len(),
        0 <= k < o2.len(),
        forall|j: int| 0 <= j < k ==> o1[j] == o2[j],
    ensures
        o1[k] == o2[k],
{
    let x = o1[k];
    let y = o2[k];
    assert(scores[x] is Some);
    assert(scores[y] is Some);
    assert(o2.contains(x));
    assert(o1.contains(y));
    let m = choose|m: int| 0 <= m < o2.len() && o2[m] == x;
    let m1 = choose|m: int| 0 <= m < o1.len() && o1[m] == y;
    if m < k {
        assert(o1[m] == o2[m]);
        assert(ranks_before(scores, o1[m], o1[k]));
    }
    if m1 < k {
        assert(o1[m1] == o2[m1]);
        assert(ranks_before(scores, o2[m1], o2[k]));
    }
    if m > k && m1 > k {
        assert(ranks_before(scores, o2[k], o2[m]));
        assert(ranks_before(scores, o1[k], o1[m1]));
    }
}

proof fn lemma_rankings_agree_upto(scores: Seq<Option<i64>>, o1: Seq<int>, o2: Seq<int>, n: int)
    requires
        is_ranking(scores, o1),
        is_ranking(scores, o2),
        0 <= n <= o1.len(),
        n <= o2.len(),
    ensures
        forall|j: int| 0 <= j < n ==> o1[j] == o2[j],
    decreases n,
{
    if n > 0 {
        lemma_rankings_agree_upto(scores, o1, o2, n - 1);
        lemma_rankings_agree_at(scores, o1, o2, n - 1);
    }
}

proof fn lemma_ranking_not_longer(scores: Seq<Option<i64>>, o1: Seq<int>, o2: Seq<int>)
    requires
        is_ranking(scores, o1),
        is_ranking(scores, o2),
        forall|j: int| 0 <= j < o1.len() && j < o2.len() ==> o1[j] == o2[j],
    ensures
        o2.len() <= o1.len(),
{
    if o2.len() > o1.len() {
        let n = o1.len() as int;
        let y = o2[n];
        assert(scores[y] is Some);
        assert(o1.contains(y));
        let m = choose|m: int| 0 <= m < o1.len() && o1[m] == y;
        assert(o2[m] == y);
        assert(ranks_before(scores, o2[m], o2[n]));
    }
}

/// Ranking is deterministic: the same scores admit exactly one ranking, so
/// repeated calls with identical inputs return identical orders.
pub proof fn lemma_ranking_unique(scores: Seq<Option<i64>>, o1: Seq<int>, o2: Seq<int>)
    requires
        is_ranking(scores, o1),
        is_ranking(scores, o2),
    ensures
        o1 == o2,
{
    let n: int = if o1.len() <= o2.len() { o1.len() as int } else { o2.len() as int };
    lemma_rankings_agree_upto(scores, o1, o2, n);
    lemma_ranking_not_longer(scores, o1, o2);
    lemma_ranking_not_longer(scores, o2, o1);
    assert(o1 =~= o2);
}

/// The scores that `pattern` gives each candidate, in input order.
pub open spec fn scores_for(pattern: Seq<char>, candidates: Seq<String>) -> Seq<Option<i64>> {
    Seq::new(candidates.len(), |i: int| skim_score(candidates[i]@, pattern))
}

/// Ranks candidate paths against a query with a subsequence fuzzy scorer.
pub struct Matcher {
    inner: SkimMatcherV2,
}

impl Matcher {
    pub fn new() -> (r: Self) {
        Matcher { inner: default_scorer() }
    }

    /// The score of `candidate` against `pattern`, higher is better; `None`
    /// when the candidate does not match.
    pub fn score(&self, pattern: &str, candidate: &str) -> (r: Option<i64>)
        ensures
            r == skim_score(candidate@, pattern@),
            pattern@.len() == 0 ==> r == Some(0i64),
    {
        skim_match(&self.inner, candidate, pattern)
    }

    /// The candidates that match `pattern`, best score first; candidates with
    /// equal scores keep their input order.
    pub fn rank<'a>(&self, pattern: &str, candidates: &'a [String]) -> (r: Vec<&'a String>)
        ensures
            exists|order: Seq<int>|
                {
                    &&& is_ranking(scores_for(pattern@, candidates@), order)
                    &&& #[trigger] order.len() == r@.len()
                    &&& forall|k: int| 0 <= k < r@.len() ==> *r@[k] == candidates@[order[k]]
                },
    {
        let mut scores: Vec<Option<i64>> = Vec::new();
        let n = candidates.len();
        let mut i: usize = 0;
        while i < n
            invariant
                n == candidates@.len(),
                i <= n,
                scores@.len() == i,
                forall|k: int| 0 <= k < i ==> #[trigger] scores@[k] == skim_score(candidates@[k]@, pattern@),
            decreases n - i,
        {
            let s = self.score(pattern, candidates[i].as_str());
            scores.push(s);
            i = i + 1;
        }
        assert(scores@ =~= scores_for(pattern@, candidates@));
        let order = rank_indices(scores.as_slice());
        let mut r: Vec<&'a String> = Vec::new();
        let mut k: usize = 0;
        while k < order.len()
            invariant
                is_ranking(scores@, as_ints(order@)),
                scores@.len() == n == candidates@.len(),
                k <= order@.len(),
                r@.len() == k,
                forall|j: int| 0 <= j < k ==> *r@[j] == candidates@[order@[j] as int],
            decreases order@.len() - k,
        {
            let idx = order[k];
            assert(0 <= as_ints(order@)[k as int] < scores@.len());
            r.push(&candidates[idx]);
            k = k + 1;
        }
        let ghost o = as_ints(order@);
        assert(o.len() == r@.len());
        r
    }
}

} // verus!
