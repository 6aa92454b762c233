use vstd::prelude::*;
use crate::ranking::{
    RankedEntry, entry_before, insert_ranked, is_ranking, listed, match_score, match_score_of,
    strictly_ranked,
};

verus! {

struct ListItem<T> {
    display: String,
    value: T,
}

/// Why a list could not hand back a chosen candidate.
#[derive(Clone, Copy, Debug, PartialEq, Eq, Structural)]
pub enum PickError {
    /// The list holds no candidates at all.
    Empty,
    /// No ranked entry stands at the selected position.
    NoSelection,
    /// The user cancelled the pick.
    Cancelled,
}

/// Candidates (a display text and a payload each), kept in insertion order,
/// together with their ranking under the last query it was computed for.
pub struct FilterableList<T> {
    items: Vec<ListItem<T>>,
    prompt_text: String,
    filtered_items: Vec<RankedEntry>,
    needs_refilter: bool,
}

impl<T> FilterableList<T> {
    /// The display texts of the candidates, in insertion order.
    pub closed spec fn displays(&self) -> Seq<Seq<char>> {
        self.items@.map_values(|it: ListItem<T>| it.display@)
    }

    /// The payloads of the candidates, in insertion order.
    pub closed spec fn values(&self) -> Seq<T> {
        self.items@.map_values(|it: ListItem<T>| it.value)
    }

    /// The current ranking.
    pub closed spec fn ranked(&self) -> Seq<RankedEntry> {
        self.filtered_items@
    }

    /// The prompt shown in front of the query.
    pub closed spec fn prompt(&self) -> Seq<char> {
        self.prompt_text@
    }

    /// Whether the ranking may be out of date.
    pub closed spec fn stale(&self) -> bool {
        self.needs_refilter
    }

    /// Every ranked entry points at a candidate.
    pub closed spec fn wf(&self) -> bool {
        forall|i: int|
            0 <= i < self.filtered_items@.len() ==> (#[trigger] self.filtered_items@[i]).original_index
                < self.items@.len()
    }

    pub fn new(prompt_text: impl Into<String>) -> (r: Self)
        ensures
            r.displays().len() == 0,
            r.values().len() == 0,
            r.ranked().len() == 0,
            !r.stale(),
            r.wf(),
    {
        FilterableList {
            items: Vec::new(),
            prompt_text: prompt_text.into(),
            filtered_items: Vec::new(),
            needs_refilter: false,
        }
    }

    /// Number of candidates.
    pub fn len(&self) -> (r: usize)
        ensures
            r == self.displays().len(),
            r == self.values().len(),
    {
        self.items.len()
    }

    pub fn is_empty(&self) -> (r: bool)
        ensures
            r <==> self.displays().len() == 0,
    {
        self.items.len() == 0
    }
}

impl<T> FilterableList<T> {
    /// Appends a candidate; the ranking is out of date afterwards.
    pub fn insert(&mut self, display: impl Into<String>, value: T)
        requires
            old(self).wf(),
        ensures
            final(self).wf(),
            final(self).displays().len() == old(self).displays().len() + 1,
            final(self).displays().drop_last() == old(self).displays(),
            final(self).values() == old(self).values().push(value),
            final(self).ranked() == old(self).ranked(),
            final(self).prompt() == old(self).prompt(),
            final(self).stale(),
    {
        let display: String = display.into();
        let ghost before = self.items@;
        self.items.push(ListItem { display, value });
        self.needs_refilter = true;
        proof {
            assert(self.items@.drop_last() == before);
            assert(self.displays().drop_last() =~= old(self).displays());
            assert(self.values() =~= old(self).values().push(value));
        }
    }

    /// Appends a candidate shown by its `Display` text.
    pub fn insert_formatted(&mut self, value: T)
        where
            T: std::fmt::Display,
        requires
            old(self).wf(),
        ensures
            final(self).wf(),
            final(self).displays().len() == old(self).displays().len() + 1,
            final(self).displays().drop_last() == old(self).displays(),
            final(self).values() == old(self).values().push(value),
            final(self).ranked() == old(self).ranked(),
            final(self).prompt() == old(self).prompt(),
            final(self).stale(),
    {
        let display = value.to_string();
        self.insert(display, value);
    }

    /// Ranks every candidate against `query`: candidates without a match
    /// score are left out, the rest are ordered by descending score and then
    /// by insertion order. With an empty query every candidate is kept, in
    /// insertion order.
    pub fn recompute(&mut self, query: &Vec<char>)
        requires
            old(self).wf(),
        ensures
            final(self).wf(),
            is_ranking(final(self).displays(), query@, final(self).ranked()),
            query@.len() == 0 ==> {
                &&& final(self).ranked().len() == final(self).displays().len()
                &&& forall|i: int|
                    0 <= i < final(self).ranked().len() ==> (#[trigger] final(self).ranked()[i]).original_index
                        == i
            },
            final(self).displays() == old(self).displays(),
            final(self).values() == old(self).values(),
            final(self).prompt() == old(self).prompt(),
            !final(self).stale(),
    {
        let ghost texts = self.displays();
        let mut ranked: Vec<RankedEntry> = Vec::new();
        let mut k: usize = 0;
        while k < self.items.len()
            invariant
                k <= self.items@.len(),
                texts == self.displays(),
                texts.len() == self.items@.len(),
                strictly_ranked(ranked@),
                forall|i: int|
                    0 <= i < ranked@.len() ==> {
                        &&& (#[trigger] ranked@[i]).original_index < k
                        &&& match_score_of(texts[ranked@[i].original_index as int], query@)
                            == Some(ranked@[i].score)
                    },
                forall|j: int|
                    0 <= j < k && (#[trigger] match_score_of(texts[j], query@)) is Some ==> listed(
                        ranked@,
                        j,
                    ),
                query@.len() == 0 ==> {
                    &&& ranked@.len() == k
                    &&& forall|i: int|
                        0 <= i < ranked@.len() ==> (#[trigger] ranked@[i]).original_index == i
                            && ranked@[i].score == 0
                },
            decreases self.items@.len() - k,
        {
            let score = match_score(self.items[k].display.as_str(), query);
            assert(texts[k as int] == self.items@[k as int].display@);
            match score {
                Some(s) => {
                    let entry = RankedEntry { score: s, original_index: k };
                    let ghost before = ranked@;
                    let p = insert_ranked(&mut ranked, entry);
                    proof {
                        before.insert_ensures(p as int, entry);
                        assert forall|j: int|
                            0 <= j < k + 1 && (#[trigger] match_score_of(texts[j], query@)) is Some
                        implies listed(ranked@, j) by {
                            if j == k {
                                assert(ranked@[p as int].original_index == j);
                            } else {
                                let w = choose|w: int|
                                    0 <= w < before.len() && (#[trigger] before[w]).original_index
                                        == j;
                                if w < p {
                                    assert(ranked@[w].original_index == j);
                                } else {
                                    assert(ranked@[w + 1].original_index == j);
                                }
                            }
                        }
                        if query@.len() == 0 {
                            if p < before.len() {
                                assert(ranked@[p + 1] == before[p as int]);
                                assert(entry_before(ranked@[p as int], ranked@[p + 1]));
                                assert(false);
                            }
                            assert(ranked@ =~= before.push(entry));
                        }
                    }
                },
                None => {},
            }
            k += 1;
        }
        self.filtered_items = ranked;
        self.needs_refilter = false;
    }

    /// Recomputes the ranking only when it may be out of date.
    pub fn refresh(&mut self, query: &Vec<char>)
        requires
            old(self).wf(),
        ensures
            final(self).wf(),
            old(self).stale() ==> is_ranking(final(self).displays(), query@, final(self).ranked()),
            !old(self).stale() ==> *final(self) == *old(self),
            final(self).displays() == old(self).displays(),
            final(self).values() == old(self).values(),
            final(self).prompt() == old(self).prompt(),
            !final(self).stale(),
    {
        if self.needs_refilter {
            self.recompute(query);
        }
    }

    /// Marks the ranking as out of date (the query changed).
    pub fn invalidate(&mut self)
        requires
            old(self).wf(),
        ensures
            final(self).wf(),
            final(self).displays() == old(self).displays(),
            final(self).values() == old(self).values(),
            final(self).ranked() == old(self).ranked(),
            final(self).prompt() == old(self).prompt(),
            final(self).stale(),
    {
        self.needs_refilter = true;
    }

    /// Removes and returns the candidate that the ranked entry at `selected`
    /// points at. Fails, and changes nothing, when there is no such entry
    /// (in particular when the ranking is empty).
    pub fn finalize(&mut self, selected: usize) -> (r: Result<T, PickError>)
        requires
            old(self).wf(),
        ensures
            final(self).wf(),
            r is Ok <==> selected < old(self).ranked().len(),
            r is Err ==> r == Err::<T, PickError>(PickError::NoSelection) && *final(self) == *old(self),
            r is Ok ==> {
                let k = old(self).ranked()[selected as int].original_index as int;
                &&& r == Ok::<T, PickError>(old(self).values()[k])
                &&& final(self).values() == old(self).values().remove(k)
                &&& final(self).displays() == old(self).displays().remove(k)
                &&& final(self).ranked().len() == 0
                &&& final(self).prompt() == old(self).prompt()
                &&& final(self).stale()
            },
    {
        if selected >= self.filtered_items.len() {
            return Err(PickError::NoSelection);
        }
        let k = self.filtered_items[selected].original_index;
        let ghost before = self.items@;
        let item = self.items.remove(k);
        self.filtered_items.clear();
        self.needs_refilter = true;
        proof {
            assert(self.values() =~= old(self).values().remove(k as int));
            assert(self.displays() =~= old(self).displays().remove(k as int));
        }
        Ok(item.value)
    }

    /// The display text of candidate `i`.
    pub fn display(&self, i: usize) -> (r: &str)
        requires
            i < self.displays().len(),
        ensures
            r@ == self.displays()[i as int],
    {
        self.items[i].display.as_str()
    }

    pub fn prompt_text(&self) -> (r: &str)
        ensures
            r@ == self.prompt(),
    {
        self.prompt_text.as_str()
    }

    /// Number of ranked entries.
    pub fn ranked_len(&self) -> (r: usize)
        ensures
            r == self.ranked().len(),
    {
        self.filtered_items.len()
    }

    /// The ranked entry at position `i`.
    pub fn ranked_entry(&self, i: usize) -> (r: RankedEntry)
        requires
            self.wf(),
            i < self.ranked().len(),
        ensures
            r == self.ranked()[i as int],
            r.original_index < self.displays().len(),
    {
        self.filtered_items[i]
    }
}

} // verus!
