use vstd::prelude::*;
use crate::list::{FilterableList, PickError};
use crate::picker::{
    Action, KeyPress, PickerState, action_after, caret_after, clamp_caret, clamp_offset,
    clamp_selected, min, query_after, sat_add, sat_sub, selected_after,
};
use crate::ranking::is_ranking;

verus! {

/// One row of the list part of a frame: the screen line below the prompt
/// line (counting from 1), the candidate shown there, and whether it is the
/// selected one.
#[derive(Clone, Copy, Debug, PartialEq, Eq, Structural)]
pub struct FrameRow {
    pub line: usize,
    pub item: usize,
    pub selected: bool,
}

/// A running pick: the candidates and the editing and selection state,
/// kept consistent between key presses.
pub struct Session<T> {
    list: FilterableList<T>,
    state: PickerState,
}

impl<T> Session<T> {
    pub closed spec fn spec_list(&self) -> FilterableList<T> {
        self.list
    }

    pub closed spec fn spec_state(&self) -> PickerState {
        self.state
    }

    /// Between key presses the ranking is that of the current query and the
    /// caret lies within the query.
    pub closed spec fn wf(&self) -> bool {
        &&& self.list.wf()
        &&& !self.list.stale()
        &&& is_ranking(self.list.displays(), self.state.query@, self.list.ranked())
        &&& self.state.caret <= self.state.query@.len()
    }

    /// Ranks the candidates for the query (if it changed) and reclamps for
    /// `rows` visible rows.
    fn prepare(&mut self, rows: usize)
        requires
            old(self).list.wf(),
            !old(self).list.stale() ==> is_ranking(
                old(self).list.displays(),
                old(self).state.query@,
                old(self).list.ranked(),
            ),
        ensures
            final(self).wf(),
            final(self).list.displays() == old(self).list.displays(),
            final(self).list.values() == old(self).list.values(),
            final(self).list.prompt() == old(self).list.prompt(),
            !old(self).list.stale() ==> final(self).list == old(self).list,
            final(self).state.query@ == old(self).state.query@,
            final(self).state.caret == clamp_caret(
                old(self).state.caret as int,
                old(self).state.query@.len() as int,
            ),
            final(self).state.selected == clamp_selected(
                old(self).state.selected as int,
                final(self).list.ranked().len() as int,
            ),
            final(self).state.offset == clamp_offset(
                old(self).state.offset as int,
                final(self).state.selected as int,
                final(self).list.ranked().len() as int,
                rows as int,
            ),
    {
        self.list.refresh(&self.state.query);
        let n = self.list.ranked_len();
        self.state.reclamp(n, rows);
    }

    /// Starts a pick over `list` with `rows` visible rows; fails when the
    /// list holds no candidates.
    pub fn new(list: FilterableList<T>, rows: usize) -> (r: Result<Self, PickError>)
        requires
            list.wf(),
        ensures
            r is Err <==> list.displays().len() == 0,
            r is Err ==> r == Err::<Self, PickError>(PickError::Empty),
            r is Ok ==> {
                let s = r->Ok_0;
                &&& s.wf()
                &&& s.spec_list().displays() == list.displays()
                &&& s.spec_list().values() == list.values()
                &&& s.spec_list().prompt() == list.prompt()
                &&& s.spec_state().query@.len() == 0
                &&& s.spec_state().caret == 0
                &&& is_ranking(s.spec_list().displays(), Seq::<char>::empty(), s.spec_list().ranked())
                &&& s.spec_state().selected == 0
                &&& s.spec_state().offset == clamp_offset(0, 0, s.spec_list().ranked().len() as int, rows as int)
            },
    {
        if list.is_empty() {
            return Err(PickError::Empty);
        }
        let mut list = list;
        list.invalidate();
        let mut s = Session { list, state: PickerState::new() };
        s.prepare(rows);
        assert(s.state.query@ =~= Seq::<char>::empty());
        Ok(s)
    }

    /// Applies one key press, then brings the ranking and the view up to
    /// date for `rows` visible rows.
    pub fn step(&mut self, key: KeyPress, rows: usize) -> (r: Action)
        requires
            old(self).wf(),
        ensures
            final(self).wf(),
            is_ranking(
                final(self).spec_list().displays(),
                final(self).spec_state().query@,
                final(self).spec_list().ranked(),
            ),
            r == action_after(
                old(self).spec_state().query@,
                old(self).spec_state().caret as int,
                key,
                old(self).spec_list().ranked().len() as int,
            ),
            final(self).spec_list().displays() == old(self).spec_list().displays(),
            final(self).spec_list().values() == old(self).spec_list().values(),
            final(self).spec_list().prompt() == old(self).spec_list().prompt(),
            final(self).spec_state().query@ == query_after(
                old(self).spec_state().query@,
                old(self).spec_state().caret as int,
                key,
            ),
            final(self).spec_state().caret == clamp_caret(
                caret_after(old(self).spec_state().query@, old(self).spec_state().caret as int, key),
                final(self).spec_state().query@.len() as int,
            ),
            final(self).spec_state().selected == clamp_selected(
                selected_after(
                    old(self).spec_state().selected as int,
                    key,
                    old(self).spec_list().ranked().len() as int,
                    rows as int,
                ),
                final(self).spec_list().ranked().len() as int,
            ),
            final(self).spec_state().offset == clamp_offset(
                old(self).spec_state().offset as int,
                final(self).spec_state().selected as int,
                final(self).spec_list().ranked().len() as int,
                rows as int,
            ),
    {
        let n = self.list.ranked_len();
        let action = self.state.handle_key(key, n, rows);
        if action == Action::Refilter {
            self.list.invalidate();
        }
        self.prepare(rows);
        action
    }

    /// Reclamps for a new number of visible rows (the terminal was resized).
    pub fn refit(&mut self, rows: usize)
        requires
            old(self).wf(),
        ensures
            final(self).wf(),
            final(self).spec_list() == old(self).spec_list(),
            final(self).spec_state().query@ == old(self).spec_state().query@,
            final(self).spec_state().caret == old(self).spec_state().caret,
            final(self).spec_state().selected == clamp_selected(
                old(self).spec_state().selected as int,
                old(self).spec_list().ranked().len() as int,
            ),
            final(self).spec_state().offset == clamp_offset(
                old(self).spec_state().offset as int,
                final(self).spec_state().selected as int,
                old(self).spec_list().ranked().len() as int,
                rows as int,
            ),
    {
        self.prepare(rows);
    }

    /// The list rows of the current frame: the ranked entries from the scroll
    /// offset on, at most `rows` of them.
    pub fn frame(&self, rows: usize) -> (r: Vec<FrameRow>)
        requires
            self.wf(),
        ensures
            r@.len() == min(
                rows as int,
                sat_sub(self.spec_list().ranked().len() as int, self.spec_state().offset as int),
            ),
            forall|k: int|
                0 <= k < r@.len() ==> #[trigger] r@[k] == (FrameRow {
                    line: (k + 1) as usize,
                    item: self.spec_list().ranked()[self.spec_state().offset + k].original_index,
                    selected: self.spec_state().offset + k == self.spec_state().selected,
                }),
            forall|k: int| 0 <= k < r@.len() ==> (#[trigger] r@[k]).item < self.spec_list().displays().len(),
    {
        let n = self.list.ranked_len();
        let offset = self.state.offset;
        let mut rows_out: Vec<FrameRow> = Vec::new();
        let mut k: usize = 0;
        while k < rows && offset < n && k < n - offset
            invariant
                self.wf(),
                n == self.spec_list().ranked().len(),
                offset == self.spec_state().offset,
                k <= rows,
                offset < n ==> k <= n - offset,
                offset >= n ==> k == 0,
                rows_out@.len() == k,
                forall|j: int|
                    0 <= j < k ==> #[trigger] rows_out@[j] == (FrameRow {
                        line: (j + 1) as usize,
                        item: self.spec_list().ranked()[offset + j].original_index,
                        selected: offset + j == self.spec_state().selected,
                    }),
                forall|j: int| 0 <= j < k ==> (#[trigger] rows_out@[j]).item < self.spec_list().displays().len(),
            decreases rows - k,
        {
            let entry = self.list.ranked_entry(offset + k);
            rows_out.push(FrameRow { line: k + 1, item: entry.original_index, selected: offset + k == self.state.selected });
            k += 1;
        }
        assert(k == min(rows as int, sat_sub(n as int, offset as int)));
        rows_out
    }

    /// The screen column of the caret on the prompt line: prompt length plus
    /// caret, saturating.
    pub fn cursor_column(&self) -> (r: usize)
        ensures
            r == sat_add(self.spec_list().prompt().len() as int, self.spec_state().caret as int),
    {
        let p = self.list.prompt_text().unicode_len();
        if p <= usize::MAX - self.state.caret {
            p + self.state.caret
        } else {
            usize::MAX
        }
    }

    pub fn list(&self) -> (r: &FilterableList<T>)
        ensures
            *r == self.spec_list(),
    {
        &self.list
    }

    pub fn state(&self) -> (r: &PickerState)
        ensures
            *r == self.spec_state(),
    {
        &self.state
    }

    /// Ends the pick with the selected candidate, removed from the list.
    pub fn finish(self) -> (r: Result<T, PickError>)
        requires
            self.wf(),
        ensures
            r is Ok <==> self.spec_state().selected < self.spec_list().ranked().len(),
            r is Err ==> r == Err::<T, PickError>(PickError::NoSelection),
            r is Ok ==> r == Ok::<T, PickError>(
                self.spec_list().values()[self.spec_list().ranked()[self.spec_state().selected as int].original_index as int],
            ),
    {
        let mut list = self.list;
        list.finalize(self.state.selected)
    }
}

} // verus!
