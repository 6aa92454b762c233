use git_utils::{Action, KeyCode, KeyPress, PickerState};

fn key(code: KeyCode) -> KeyPress {
    KeyPress { code, ctrl: false }
}

fn ctrl(code: KeyCode) -> KeyPress {
    KeyPress { code, ctrl: true }
}

fn typed(s: &str) -> PickerState {
    let mut st = PickerState::new();
    for c in s.chars() {
        assert_eq!(st.handle_key(key(KeyCode::Char(c)), 0, 3), Action::Refilter);
    }
    st
}

fn text(st: &PickerState) -> String {
    st.query.iter().collect()
}

#[test]
fn down_nine_times_scrolls_to_the_end() {
    let mut st = PickerState::new();
    st.reclamp(10, 3);
    for _ in 0..9 {
        assert_eq!(st.handle_key(key(KeyCode::Down), 10, 3), Action::Stay);
        st.reclamp(10, 3);
    }
    assert_eq!(st.selected, 9);
    assert_eq!(st.offset, 7);
}

#[test]
fn escape_and_ctrl_c_cancel_without_change() {
    for k in [key(KeyCode::Esc), ctrl(KeyCode::Esc), ctrl(KeyCode::Char('c'))] {
        let mut st = typed("ab");
        st.selected = 1;
        assert_eq!(st.handle_key(k, 5, 3), Action::Cancel);
        assert_eq!(text(&st), "ab");
        assert_eq!(st.caret, 2);
        assert_eq!(st.selected, 1);
    }
}

#[test]
fn enter_resolves_only_with_ranked_entries() {
    let mut st = typed("a");
    assert_eq!(st.handle_key(key(KeyCode::Enter), 0, 3), Action::Stay);
    assert_eq!(st.handle_key(key(KeyCode::Enter), 2, 3), Action::Resolve);
}

#[test]
fn repeated_backspace_empties_the_query() {
    let mut st = typed("hello");
    for _ in 0..5 {
        assert_eq!(st.handle_key(key(KeyCode::Backspace), 0, 3), Action::Refilter);
    }
    assert_eq!(text(&st), "");
    assert_eq!(st.caret, 0);
    assert_eq!(st.handle_key(key(KeyCode::Backspace), 0, 3), Action::Stay);
}

#[test]
fn backspace_at_start_changes_nothing() {
    let mut st = typed("ab");
    st.handle_key(key(KeyCode::Home), 0, 3);
    assert_eq!(st.handle_key(key(KeyCode::Backspace), 0, 3), Action::Stay);
    assert_eq!(text(&st), "ab");
}

#[test]
fn ctrl_backspace_and_ctrl_h_clear_in_one_step() {
    for k in [ctrl(KeyCode::Backspace), ctrl(KeyCode::Char('h'))] {
        let mut st = typed("feature");
        st.handle_key(key(KeyCode::Left), 0, 3);
        assert_eq!(st.handle_key(k, 0, 3), Action::Refilter);
        assert_eq!(text(&st), "");
        assert_eq!(st.caret, 0);
    }
    let mut empty = PickerState::new();
    assert_eq!(empty.handle_key(ctrl(KeyCode::Backspace), 0, 3), Action::Stay);
}

#[test]
fn editing_in_the_middle() {
    let mut st = typed("abd");
    st.handle_key(key(KeyCode::Left), 0, 3);
    st.handle_key(key(KeyCode::Char('c')), 0, 3);
    assert_eq!(text(&st), "abcd");
    assert_eq!(st.caret, 3);
    assert_eq!(st.handle_key(key(KeyCode::Delete), 0, 3), Action::Refilter);
    assert_eq!(text(&st), "abc");
    assert_eq!(st.handle_key(key(KeyCode::Delete), 0, 3), Action::Stay);
    st.handle_key(key(KeyCode::Home), 0, 3);
    assert_eq!(st.caret, 0);
    st.handle_key(key(KeyCode::Delete), 0, 3);
    assert_eq!(text(&st), "bc");
    st.handle_key(key(KeyCode::End), 0, 3);
    assert_eq!(st.caret, 2);
}

#[test]
fn only_printable_ascii_is_typed() {
    let mut st = PickerState::new();
    assert_eq!(st.handle_key(key(KeyCode::Char('é')), 0, 3), Action::Stay);
    assert_eq!(st.handle_key(key(KeyCode::Char('\t')), 0, 3), Action::Stay);
    assert_eq!(st.handle_key(key(KeyCode::Char(' ')), 0, 3), Action::Refilter);
    assert_eq!(st.handle_key(ctrl(KeyCode::Char('x')), 0, 3), Action::Refilter);
    assert_eq!(text(&st), " x");
}

#[test]
fn right_may_pass_the_end_until_reclamp() {
    let mut st = typed("ab");
    st.handle_key(key(KeyCode::Right), 0, 3);
    assert_eq!(st.caret, 3);
    st.reclamp(0, 3);
    assert_eq!(st.caret, 2);
    st.handle_key(key(KeyCode::Left), 0, 3);
    st.handle_key(key(KeyCode::Left), 0, 3);
    st.handle_key(key(KeyCode::Left), 0, 3);
    assert_eq!(st.caret, 0);
}

#[test]
fn selection_keys() {
    let mut st = PickerState::new();
    st.handle_key(key(KeyCode::Up), 20, 4);
    assert_eq!(st.selected, 0);
    st.handle_key(key(KeyCode::PageDown), 20, 4);
    assert_eq!(st.selected, 4);
    st.handle_key(key(KeyCode::PageUp), 20, 4);
    assert_eq!(st.selected, 0);
    st.handle_key(ctrl(KeyCode::PageDown), 20, 4);
    assert_eq!(st.selected, 20);
    st.reclamp(20, 4);
    assert_eq!(st.selected, 19);
    assert_eq!(st.offset, 16);
    st.handle_key(ctrl(KeyCode::PageUp), 20, 4);
    assert_eq!(st.selected, 0);
    st.reclamp(20, 4);
    assert_eq!(st.offset, 0);
}

#[test]
fn selection_saturates() {
    let mut st = PickerState::new();
    st.selected = usize::MAX - 1;
    st.handle_key(key(KeyCode::PageDown), 0, 5);
    assert_eq!(st.selected, usize::MAX);
    st.handle_key(key(KeyCode::Down), 0, 5);
    assert_eq!(st.selected, usize::MAX);
}

#[test]
fn reclamp_twice_equals_once() {
    let cases = [
        (0usize, 0usize, 10usize, 3usize),
        (9, 0, 10, 3),
        (50, 40, 10, 3),
        (2, 8, 10, 3),
        (5, 5, 0, 3),
        (4, 1, 6, 1),
        (3, 9, 20, 25),
    ];
    for (sel, off, len, rows) in cases {
        let mut st = typed("abc");
        st.caret = 7;
        st.selected = sel;
        st.offset = off;
        st.reclamp(len, rows);
        let once = (st.caret, st.selected, st.offset);
        st.reclamp(len, rows);
        assert_eq!((st.caret, st.selected, st.offset), once);
    }
}

#[test]
fn reclamp_steps() {
    let mut st = typed("abc");
    st.caret = 10;
    st.selected = 12;
    st.offset = 11;
    st.reclamp(10, 3);
    assert_eq!(st.caret, 3);
    assert_eq!(st.selected, 9);
    assert_eq!(st.offset, 7);
    st.selected = 2;
    st.reclamp(10, 3);
    assert_eq!(st.offset, 2);
    st.selected = 30;
    st.offset = 4;
    st.reclamp(0, 3);
    assert_eq!(st.selected, 30);
    assert_eq!(st.offset, 28);
}
