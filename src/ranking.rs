use vstd::prelude::*;
use fuzzy_matcher::FuzzyMatcher;
use fuzzy_matcher::skim::SkimMatcherV2;

verus! {

/// The relevance score that the skim fuzzy matcher (in its default
/// configuration) gives to `text` for the query `query`, or `None` when the
/// query does not match the text.
pub uninterp spec fn match_score_of(text: Seq<char>, query: Seq<char>) -> Option<i64>;

/// Relies on `SkimMatcherV2::default().fuzzy_match`: its result depends on the
/// two strings alone, and an empty pattern matches every text with score 0.
#[verifier::external_body]
pub(crate) fn match_score(text: &str, query: &Vec<char>) -> (r: Option<i64>)
    ensures
        r == match_score_of(text@, query@),
        query@.len() == 0 ==> r == Some(0i64),
{
    let pattern: String = query.iter().collect();
    SkimMatcherV2::default().fuzzy_match(text, &pattern)
}

/// One surviving candidate of a ranking: its score and its position in the
/// candidate list.
#[derive(Clone, Copy, Debug, PartialEq, Eq, Structural)]
pub struct RankedEntry {
    pub score: i64,
    pub original_index: usize,
}

/// The ranking order: higher score first, ties by lower insertion index.
pub open spec fn entry_before(a: RankedEntry, b: RankedEntry) -> bool {
    a.score > b.score || (a.score == b.score && a.original_index < b.original_index)
}

/// Every earlier entry comes strictly before every later one.
pub open spec fn strictly_ranked(s: Seq<RankedEntry>) -> bool {
    forall|i: int, j: int| 0 <= i < j < s.len() ==> entry_before(#[trigger] s[i], #[trigger] s[j])
}

/// Candidate `k` has an entry in `ranked`.
pub open spec fn listed(ranked: Seq<RankedEntry>, k: int) -> bool {
    exists|i: int| 0 <= i < ranked.len() && (#[trigger] ranked[i]).original_index == k
}

/// `ranked` is the ranking of the candidate texts `texts` under `query`: it is
/// in ranking order, each entry carries the match score of its candidate, and
/// every candidate that matches has an entry.
pub open spec fn is_ranking(texts: Seq<Seq<char>>, query: Seq<char>, ranked: Seq<RankedEntry>) -> bool {
    &&& strictly_ranked(ranked)
    &&& forall|i: int|
        0 <= i < ranked.len() ==> {
            &&& (#[trigger] ranked[i]).original_index < texts.len()
            &&& match_score_of(texts[ranked[i].original_index as int], query) == Some(ranked[i].score)
        }
    &&& forall|k: int|
        0 <= k < texts.len() && (#[trigger] match_score_of(texts[k], query)) is Some ==> listed(ranked, k)
}

/// Inserts `entry`, whose index is above every index already ranked, at the
/// place that keeps `ranked` in ranking order, and returns that place.
pub(crate) fn insert_ranked(ranked: &mut Vec<RankedEntry>, entry: RankedEntry) -> (p: usize)
    requires
        strictly_ranked(old(ranked)@),
        forall|i: int|
            0 <= i < old(ranked)@.len() ==> (#[trigger] old(ranked)@[i]).original_index
                < entry.original_index,
    ensures
        p <= old(ranked)@.len(),
        final(ranked)@ == old(ranked)@.insert(p as int, entry),
        strictly_ranked(final(ranked)@),
{
    let mut p: usize = 0;
    while p < ranked.len() && ranked[p].score >= entry.score
        invariant
            p <= ranked@.len(),
            forall|i: int| 0 <= i < p ==> (#[trigger] ranked@[i]).score >= entry.score,
        decreases ranked@.len() - p,
    {
        p += 1;
    }
    let ghost before = ranked@;
    proof {
        before.insert_ensures(p as int, entry);
        assert forall|j: int| p <= j < before.len() implies (#[trigger] before[j]).score < entry.score by {
            if p < j {
                assert(entry_before(before[p as int], before[j]));
            }
        }
    }
    ranked.insert(p, entry);
    proof {
        let after = ranked@;
        assert forall|i: int, j: int| 0 <= i < j < after.len() implies entry_before(
            #[trigger] after[i],
            #[trigger] after[j],
        ) by {
            if j < p {
            } else if j == p {
                assert(after[i] == before[i]);
            } else if i < p {
                assert(after[j] == before[j - 1]);
            } else if i == p {
                assert(after[j] == before[j - 1]);
            } else {
                assert(after[i] == before[i - 1]);
                assert(after[j] == before[j - 1]);
            }
        }
    }
    p
}

/// Two sequences in strict ranking order that hold the same entries are equal.
proof fn lemma_ranked_same_entries(a: Seq<RankedEntry>, b: Seq<RankedEntry>)
    requires
        strictly_ranked(a),
        strictly_ranked(b),
        forall|e: RankedEntry| a.contains(e) <==> b.contains(e),
    ensures
        a == b,
    decreases a.len(),
{
    if a.len() == 0 {
        if b.len() > 0 {
            assert(b.contains(b[0]));
        }
        assert(a =~= b);
    } else {
        assert(a.contains(a[0]));
        let j = choose|j: int| 0 <= j < b.len() && b[j] == a[0];
        assert(b.contains(b[0]));
        let i = choose|i: int| 0 <= i < a.len() && a[i] == b[0];
        if i > 0 {
            assert(entry_before(a[0], a[i]));
            if j > 0 {
                assert(entry_before(b[0], b[j]));
            }
            assert(false);
        }
        assert(a[0] == b[0]);
        let ta = a.drop_first();
        let tb = b.drop_first();
        assert forall|e: RankedEntry| ta.contains(e) <==> tb.contains(e) by {
            if ta.contains(e) {
                let k = choose|k: int| 0 <= k < ta.len() && ta[k] == e;
                assert(entry_before(a[0], a[k + 1]));
                assert(a.contains(e));
                let m = choose|m: int| 0 <= m < b.len() && b[m] == e;
                assert(m != 0);
                assert(tb[m - 1] == e);
            }
            if tb.contains(e) {
                let k = choose|k: int| 0 <= k < tb.len() && tb[k] == e;
                assert(entry_before(b[0], b[k + 1]));
                assert(b.contains(e));
                let m = choose|m: int| 0 <= m < a.len() && a[m] == e;
                assert(m != 0);
                assert(ta[m - 1] == e);
            }
        }
        assert forall|x: int, y: int| 0 <= x < y < ta.len() implies entry_before(
            #[trigger] ta[x],
            #[trigger] ta[y],
        ) by {
            assert(entry_before(a[x + 1], a[y + 1]));
        }
        assert forall|x: int, y: int| 0 <= x < y < tb.len() implies entry_before(
            #[trigger] tb[x],
            #[trigger] tb[y],
        ) by {
            assert(entry_before(b[x + 1], b[y + 1]));
        }
        lemma_ranked_same_entries(ta, tb);
        assert(a =~= seq![a[0]] + ta);
        assert(b =~= seq![b[0]] + tb);
    }
}

/// Ranking is deterministic: any two rankings of the same candidate texts
/// under the same query are the same sequence.
pub proof fn lemma_ranking_deterministic(
    texts: Seq<Seq<char>>,
    query: Seq<char>,
    r1: Seq<RankedEntry>,
    r2: Seq<RankedEntry>,
)
    requires
        is_ranking(texts, query, r1),
        is_ranking(texts, query, r2),
    ensures
        r1 == r2,
{
    assert forall|e: RankedEntry| r1.contains(e) <==> r2.contains(e) by {
        if r1.contains(e) {
            let i = choose|i: int| 0 <= i < r1.len() && r1[i] == e;
            let k = e.original_index as int;
            assert(match_score_of(texts[k], query) == Some(r1[i].score));
            assert(listed(r2, k));
            let j = choose|j: int| 0 <= j < r2.len() && (#[trigger] r2[j]).original_index == k;
            assert(r2[j] == e);
        }
        if r2.contains(e) {
            let i = choose|i: int| 0 <= i < r2.len() && r2[i] == e;
            let k = e.original_index as int;
            assert(match_score_of(texts[k], query) == Some(r2[i].score));
            assert(listed(r1, k));
            let j = choose|j: int| 0 <= j < r1.len() && (#[trigger] r1[j]).original_index == k;
            assert(r1[j] == e);
        }
    }
    lemma_ranked_same_entries(r1, r2);
}

} // verus!
