use vstd::prelude::*;

verus! {

/// `a + b`, saturating at `usize::MAX`.
pub open spec fn sat_add(a: int, b: int) -> int {
    if a + b > usize::MAX {
        usize::MAX as int
    } else {
        a + b
    }
}

/// `a - b`, saturating at zero.
pub open spec fn sat_sub(a: int, b: int) -> int {
    if a >= b {
        a - b
    } else {
        0
    }
}

pub open spec fn min(a: int, b: int) -> int {
    if a <= b {
        a
    } else {
        b
    }
}

/// The keys that the picker tells apart.
#[derive(Clone, Copy, Debug, PartialEq, Eq, Structural)]
pub enum KeyCode {
    Enter,
    Esc,
    Backspace,
    Delete,
    Home,
    End,
    Left,
    Right,
    Up,
    Down,
    PageUp,
    PageDown,
    Char(char),
    Other,
}

/// A key press; `ctrl` holds when Control is the only modifier.
#[derive(Clone, Copy, Debug, PartialEq, Eq, Structural)]
pub struct KeyPress {
    pub code: KeyCode,
    pub ctrl: bool,
}

/// What the caller of the picker has to do after a key press.
#[derive(Clone, Copy, Debug, PartialEq, Eq, Structural)]
pub enum Action {
    /// Keep going; the query is unchanged.
    Stay,
    /// Keep going; the query changed, so the ranking must be recomputed.
    Refilter,
    /// The selected entry is chosen.
    Resolve,
    /// The user gave up.
    Cancel,
}

pub open spec fn is_cancel(key: KeyPress) -> bool {
    key.code == KeyCode::Esc || (key.ctrl && key.code == KeyCode::Char('c'))
}

pub open spec fn is_clear(key: KeyPress) -> bool {
    key.ctrl && (key.code == KeyCode::Backspace || key.code == KeyCode::Char('h'))
}

/// Printable ASCII: space through tilde.
pub open spec fn is_printable(c: char) -> bool {
    ' ' <= c <= '~'
}

/// The query after `key`, typed with the caret at `caret`.
pub open spec fn query_after(query: Seq<char>, caret: int, key: KeyPress) -> Seq<char> {
    if is_cancel(key) {
        query
    } else if is_clear(key) {
        Seq::empty()
    } else {
        match key.code {
            KeyCode::Backspace => if 0 < caret <= query.len() {
                query.remove(caret - 1)
            } else {
                query
            },
            KeyCode::Delete => if 0 <= caret < query.len() {
                query.remove(caret)
            } else {
                query
            },
            KeyCode::Char(c) => if is_printable(c) && 0 <= caret <= query.len() && query.len()
                < usize::MAX {
                query.insert(caret, c)
            } else {
                query
            },
            _ => query,
        }
    }
}

/// The caret after `key`; Right may move it past the end of the query.
pub open spec fn caret_after(query: Seq<char>, caret: int, key: KeyPress) -> int {
    if is_cancel(key) {
        caret
    } else if is_clear(key) {
        0
    } else {
        match key.code {
            KeyCode::Backspace => if 0 < caret <= query.len() {
                caret - 1
            } else {
                caret
            },
            KeyCode::Home => 0,
            KeyCode::End => query.len() as int,
            KeyCode::Left => sat_sub(caret, 1),
            KeyCode::Right => sat_add(caret, 1),
            KeyCode::Char(c) => if is_printable(c) && 0 <= caret <= query.len() && query.len()
                < usize::MAX {
                caret + 1
            } else {
                caret
            },
            _ => caret,
        }
    }
}

/// The selected position after `key`; Down and PageDown may move it past
/// the last ranked entry.
pub open spec fn selected_after(selected: int, key: KeyPress, ranked_len: int, rows: int) -> int {
    match key.code {
        KeyCode::Up => sat_sub(selected, 1),
        KeyCode::Down => sat_add(selected, 1),
        KeyCode::PageUp => if key.ctrl {
            0
        } else {
            sat_sub(selected, rows)
        },
        KeyCode::PageDown => if key.ctrl {
            ranked_len
        } else {
            sat_add(selected, rows)
        },
        _ => selected,
    }
}

/// What the caller must do after `key`.
pub open spec fn action_after(query: Seq<char>, caret: int, key: KeyPress, ranked_len: int) -> Action {
    if key.code == KeyCode::Enter {
        if ranked_len > 0 {
            Action::Resolve
        } else {
            Action::Stay
        }
    } else if is_cancel(key) {
        Action::Cancel
    } else if query_after(query, caret, key) != query {
        Action::Refilter
    } else {
        Action::Stay
    }
}

/// Reclamp, first step: the caret within the query.
pub open spec fn clamp_caret(caret: int, query_len: int) -> int {
    min(caret, query_len)
}

/// Reclamp, second step: the selection within a non-empty ranking.
pub open spec fn clamp_selected(selected: int, ranked_len: int) -> int {
    if ranked_len > 0 {
        min(selected, ranked_len - 1)
    } else {
        selected
    }
}

/// Reclamp, third to fifth steps: the scroll offset, given the clamped
/// selection.
pub open spec fn clamp_offset(offset: int, selected: int, ranked_len: int, rows: int) -> int {
    let o = min(offset, sat_sub(ranked_len, rows));
    if selected >= o + rows {
        min(selected - rows + 1, usize::MAX as int)
    } else if selected < o {
        selected
    } else {
        o
    }
}

/// The query being typed, its caret, the selected position in the ranking
/// and the scroll offset of the visible window.
pub struct PickerState {
    pub query: Vec<char>,
    pub caret: usize,
    pub selected: usize,
    pub offset: usize,
}

impl PickerState {
    pub fn new() -> (r: Self)
        ensures
            r.query@.len() == 0,
            r.caret == 0,
            r.selected == 0,
            r.offset == 0,
    {
        PickerState { query: Vec::new(), caret: 0, selected: 0, offset: 0 }
    }

    /// Brings caret, selection and scroll offset back in bounds for a ranking
    /// of `ranked_len` entries shown in `rows` rows.
    pub fn reclamp(&mut self, ranked_len: usize, rows: usize)
        ensures
            final(self).query@ == old(self).query@,
            final(self).caret == clamp_caret(old(self).caret as int, old(self).query@.len() as int),
            final(self).selected == clamp_selected(old(self).selected as int, ranked_len as int),
            final(self).offset == clamp_offset(
                old(self).offset as int,
                final(self).selected as int,
                ranked_len as int,
                rows as int,
            ),
            final(self).caret <= final(self).query@.len(),
            ranked_len > 0 && rows > 0 ==> {
                &&& final(self).selected < ranked_len
                &&& final(self).offset <= final(self).selected
                &&& final(self).selected < final(self).offset + rows
                &&& final(self).offset <= sat_sub(ranked_len as int, rows as int)
            },
    {
        if self.caret > self.query.len() {
            self.caret = self.query.len();
        }
        if ranked_len > 0 && self.selected > ranked_len - 1 {
            self.selected = ranked_len - 1;
        }
        let limit: usize = if ranked_len >= rows {
            ranked_len - rows
        } else {
            0
        };
        if self.offset > limit {
            self.offset = limit;
        }
        if self.selected >= self.offset && self.selected - self.offset >= rows {
            if rows > 0 {
                self.offset = (self.selected - rows) + 1;
            } else if self.selected < usize::MAX {
                self.offset = self.selected + 1;
            } else {
                self.offset = self.selected;
            }
        } else if self.selected < self.offset {
            self.offset = self.selected;
        }
    }

    /// Applies one key press to the query, the caret and the selection.
    /// Expects the caret within the query, as `reclamp` leaves it.
    pub fn handle_key(&mut self, key: KeyPress, ranked_len: usize, rows: usize) -> (r: Action)
        requires
            old(self).caret <= old(self).query@.len(),
        ensures
            final(self).query@ == query_after(old(self).query@, old(self).caret as int, key),
            final(self).caret == caret_after(old(self).query@, old(self).caret as int, key),
            final(self).selected == selected_after(
                old(self).selected as int,
                key,
                ranked_len as int,
                rows as int,
            ),
            final(self).offset == old(self).offset,
            r == action_after(old(self).query@, old(self).caret as int, key, ranked_len as int),
    {
        let cancel = match key.code {
            KeyCode::Esc => true,
            KeyCode::Char(c) => key.ctrl && c == 'c',
            _ => false,
        };
        let clear = key.ctrl && match key.code {
            KeyCode::Backspace => true,
            KeyCode::Char(c) => c == 'h',
            _ => false,
        };
        let mut changed = false;
        if key.code == KeyCode::Enter {
        } else if cancel {
        } else if clear {
            changed = self.query.len() > 0;
            self.query.clear();
            self.caret = 0;
        } else {
            match key.code {
                KeyCode::Backspace => {
                    if self.caret > 0 {
                        self.query.remove(self.caret - 1);
                        self.caret = self.caret - 1;
                        changed = true;
                    }
                },
                KeyCode::Delete => {
                    if self.caret < self.query.len() {
                        self.query.remove(self.caret);
                        changed = true;
                    }
                },
                KeyCode::Home => {
                    self.caret = 0;
                },
                KeyCode::End => {
                    self.caret = self.query.len();
                },
                KeyCode::Left => {
                    if self.caret > 0 {
                        self.caret = self.caret - 1;
                    }
                },
                KeyCode::Right => {
                    if self.caret < usize::MAX {
                        self.caret = self.caret + 1;
                    }
                },
                KeyCode::Up => {
                    if self.selected > 0 {
                        self.selected = self.selected - 1;
                    }
                },
                KeyCode::Down => {
                    if self.selected < usize::MAX {
                        self.selected = self.selected + 1;
                    }
                },
                KeyCode::PageUp => {
                    if key.ctrl {
                        self.selected = 0;
                    } else if self.selected >= rows {
                        self.selected = self.selected - rows;
                    } else {
                        self.selected = 0;
                    }
                },
                KeyCode::PageDown => {
                    if key.ctrl {
                        self.selected = ranked_len;
                    } else if self.selected <= usize::MAX - rows {
                        self.selected = self.selected + rows;
                    } else {
                        self.selected = usize::MAX;
                    }
                },
                KeyCode::Char(c) => {
                    if ' ' <= c && c <= '~' && self.query.len() < usize::MAX {
                        self.query.insert(self.caret, c);
                        self.caret = self.caret + 1;
                        changed = true;
                    }
                },
                _ => {},
            }
        }
        proof {
            if changed {
                assert(self.query@.len() != old(self).query@.len());
            } else {
                assert(self.query@ =~= old(self).query@);
            }
        }
        if key.code == KeyCode::Enter {
            if ranked_len > 0 {
                Action::Resolve
            } else {
                Action::Stay
            }
        } else if cancel {
            Action::Cancel
        } else if changed {
            Action::Refilter
        } else {
            Action::Stay
        }
    }
}

/// Reclamping is idempotent: a second pass right after the first changes
/// neither caret, selection nor scroll offset. (With no visible row and a
/// non-empty ranking no offset can show the selection, and the passes differ.)
pub proof fn lemma_reclamp_idempotent(
    caret: usize,
    query_len: usize,
    selected: usize,
    offset: usize,
    ranked_len: usize,
    rows: usize,
)
    requires
        rows >= 1 || ranked_len == 0,
    ensures
        ({
            let c1 = clamp_caret(caret as int, query_len as int);
            let s1 = clamp_selected(selected as int, ranked_len as int);
            let o1 = clamp_offset(offset as int, s1, ranked_len as int, rows as int);
            let s2 = clamp_selected(s1, ranked_len as int);
            &&& clamp_caret(c1, query_len as int) == c1
            &&& s2 == s1
            &&& clamp_offset(o1, s2, ranked_len as int, rows as int) == o1
        }),
{
}

/// The key Backspace, without modifiers.
pub open spec fn backspace_key() -> KeyPress {
    KeyPress { code: KeyCode::Backspace, ctrl: false }
}

/// Query and caret after `n` presses of Backspace.
pub open spec fn after_backspaces(query: Seq<char>, caret: int, n: nat) -> (Seq<char>, int)
    decreases n,
{
    if n == 0 {
        (query, caret)
    } else {
        after_backspaces(
            query_after(query, caret, backspace_key()),
            caret_after(query, caret, backspace_key()),
            (n - 1) as nat,
        )
    }
}

/// With the caret at the end of the query, pressing Backspace once per
/// character empties the query and brings the caret to 0.
pub proof fn lemma_backspaces_empty_query(query: Seq<char>, caret: int)
    requires
        caret == query.len(),
    ensures
        after_backspaces(query, caret, query.len()) == (Seq::<char>::empty(), 0int),
    decreases query.len(),
{
    if query.len() == 0 {
        assert(query =~= Seq::<char>::empty());
    } else {
        let q1 = query_after(query, caret, backspace_key());
        assert(q1 =~= query.drop_last());
        lemma_backspaces_empty_query(q1, caret - 1);
        assert((query.len() - 1) as nat == q1.len());
    }
}

/// Ctrl-Backspace empties the query and brings the caret to 0, from any
/// query and caret.
pub proof fn lemma_ctrl_backspace_clears(query: Seq<char>, caret: int)
    ensures
        query_after(query, caret, KeyPress { code: KeyCode::Backspace, ctrl: true })
            == Seq::<char>::empty(),
        caret_after(query, caret, KeyPress { code: KeyCode::Backspace, ctrl: true }) == 0,
{
}

} // verus!
