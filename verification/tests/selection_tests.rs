use lightignore::selection::{EventInput, KeyCode, KeyInput, Modifiers, SelectionState,
    SessionAction};

fn s(x: &str) -> String {
    x.to_string()
}

fn no_mods() -> Modifiers {
    Modifiers { shift: false, control: false, other: false }
}

fn ctrl() -> Modifiers {
    Modifiers { shift: false, control: true, other: false }
}

fn key(code: KeyCode) -> KeyInput {
    KeyInput { code, mods: no_mods() }
}

fn type_query(state: &mut SelectionState, text: &str) {
    for ch in text.chars() {
        let consumed = state.handle_search_key(&key(KeyCode::Char(ch)));
        assert!(consumed);
    }
}

#[test]
fn new_session_shows_everything() {
    let state = SelectionState::new(vec![s("Rust"), s("Python"), s("Go")]);
    assert_eq!(state.filtered_indices, vec![0, 1, 2]);
    assert_eq!(state.cursor, 0);
    assert_eq!(state.viewport_offset, 0);
    assert!(!state.search_active);
    assert!(state.selected.is_empty());
    assert_eq!(state.total_count(), 3);
    assert_eq!(state.visible_count(), 3);
    assert!(state.filter_matches_full_list());
}

#[test]
fn filter_is_case_insensitive_both_ways() {
    let mut state = SelectionState::new(vec![s("Rust"), s("Python"), s("rusty"), s("TRUST")]);
    type_query(&mut state, "rust");
    assert_eq!(state.filtered_indices, vec![0, 2, 3]);
    state.clear_search();
    type_query(&mut state, "RUST");
    assert_eq!(state.filtered_indices, vec![0, 2, 3]);
}

#[test]
fn filter_matches_substring_in_the_middle() {
    let mut state = SelectionState::new(vec![s("community"), s("unity"), s("core")]);
    type_query(&mut state, "nit");
    assert_eq!(state.filtered_indices, vec![0, 1]);
    assert_eq!(state.cursor, 0);
    assert_eq!(state.viewport_offset, 0);
}

#[test]
fn filter_with_no_match_leaves_cursor_at_origin() {
    let mut state = SelectionState::new(vec![s("alpha"), s("beta")]);
    type_query(&mut state, "zz");
    assert_eq!(state.filtered_indices.len(), 0);
    assert_eq!(state.cursor, 0);
    assert_eq!(state.current_item_index(), None);
    state.toggle_current();
    assert!(state.selected.is_empty());
}

#[test]
fn selection_is_keyed_by_canonical_index() {
    let mut state = SelectionState::new(vec![s("Apple"), s("Banana"), s("Cherry")]);
    type_query(&mut state, "an");
    assert_eq!(state.filtered_indices, vec![1]);
    state.toggle_current();
    assert_eq!(state.selected, vec![1]);
    state.clear_search();
    assert_eq!(state.filtered_indices, vec![0, 1, 2]);
    assert_eq!(state.selected, vec![1]);
    assert_eq!(state.finish(), vec![s("Banana")]);
}

#[test]
fn toggle_twice_restores_the_selection() {
    let mut state = SelectionState::new(vec![s("a"), s("b")]);
    state.toggle_current();
    assert_eq!(state.selected, vec![0]);
    state.toggle_current();
    assert!(state.selected.is_empty());
}

#[test]
fn select_all_under_partial_filter_keeps_outside_selection() {
    let mut state = SelectionState::new(vec![s("A"), s("B"), s("C")]);
    state.apply_previous_selection(&vec![s("B")]);
    assert_eq!(state.selected, vec![1]);
    type_query(&mut state, "A");
    assert_eq!(state.filtered_indices, vec![0]);
    state.select_all();
    assert_eq!(state.selected, vec![0, 1]);
    state.clear_search();
    assert_eq!(state.finish(), vec![s("A"), s("B")]);
}

#[test]
fn select_all_under_full_filter_rebuilds_the_selection() {
    let mut state = SelectionState::new(vec![s("A"), s("B"), s("C")]);
    state.apply_previous_selection(&vec![s("B")]);
    state.select_all();
    assert_eq!(state.selected, vec![0, 1, 2]);
}

#[test]
fn clear_all_under_partial_filter_spares_outside_selection() {
    let mut state = SelectionState::new(vec![s("A"), s("B"), s("C")]);
    state.apply_previous_selection(&vec![s("A"), s("B")]);
    type_query(&mut state, "A");
    state.clear_all();
    assert_eq!(state.selected, vec![1]);
}

#[test]
fn clear_all_under_full_filter_empties_the_selection() {
    let mut state = SelectionState::new(vec![s("A"), s("B"), s("C")]);
    state.select_all();
    state.clear_all();
    assert!(state.selected.is_empty());
}

#[test]
fn round_trip_preserves_previous_selection() {
    let mut state = SelectionState::new(vec![s("W"), s("X"), s("Y"), s("Z")]);
    state.apply_previous_selection(&vec![s("X"), s("Z")]);
    assert_eq!(state.finish(), vec![s("X"), s("Z")]);
}

#[test]
fn unknown_previous_selection_entries_are_ignored() {
    let mut state = SelectionState::new(vec![s("W"), s("X")]);
    state.apply_previous_selection(&vec![s("X"), s("missing")]);
    assert_eq!(state.finish(), vec![s("X")]);
}

#[test]
fn select_item_ignores_out_of_range_indices() {
    let mut state = SelectionState::new(vec![s("a"), s("b")]);
    state.select_item(1);
    state.select_item(7);
    assert_eq!(state.selected, vec![1]);
}

#[test]
fn typing_a_non_hotkey_letter_starts_a_search() {
    let mut state = SelectionState::new(vec![s("go"), s("git")]);
    assert!(!state.search_active);
    let consumed = state.handle_search_key(&key(KeyCode::Char('g')));
    assert!(consumed);
    assert!(state.search_active);
    assert_eq!(state.search_query_text(), s("g"));
    assert_eq!(state.filtered_indices, vec![0, 1]);
}

#[test]
fn backspace_empties_the_query_before_leaving_search_mode() {
    let mut state = SelectionState::new(vec![s("go"), s("rust")]);
    state.handle_search_key(&key(KeyCode::Char('g')));
    assert_eq!(state.search_query_text(), s("g"));
    let consumed = state.handle_search_key(&key(KeyCode::Backspace));
    assert!(consumed);
    assert_eq!(state.search_query_text(), s(""));
    assert!(state.search_active);
    let consumed = state.handle_search_key(&key(KeyCode::Backspace));
    assert!(consumed);
    assert!(!state.search_active);
}

#[test]
fn slash_enters_search_mode_keeping_the_query() {
    let mut state = SelectionState::new(vec![s("go"), s("git")]);
    type_query(&mut state, "g");
    let consumed = state.handle_search_key(&key(KeyCode::Enter));
    assert!(consumed);
    assert!(!state.search_active);
    assert_eq!(state.search_query_text(), s("g"));
    let consumed = state.handle_search_key(&key(KeyCode::Char('/')));
    assert!(consumed);
    assert!(state.search_active);
    assert_eq!(state.search_query_text(), s("g"));
}

#[test]
fn escape_while_searching_clears_the_query() {
    let mut state = SelectionState::new(vec![s("go"), s("git")]);
    type_query(&mut state, "gi");
    assert_eq!(state.filtered_indices, vec![1]);
    let action = state.handle_event(&EventInput::Key(key(KeyCode::Esc)));
    assert_eq!(action, SessionAction::Continue);
    assert!(!state.search_active);
    assert_eq!(state.search_query_text(), s(""));
    assert_eq!(state.filtered_indices, vec![0, 1]);
}

#[test]
fn delete_while_searching_clears_the_query() {
    let mut state = SelectionState::new(vec![s("go"), s("git")]);
    type_query(&mut state, "gi");
    let consumed = state.handle_search_key(&key(KeyCode::Delete));
    assert!(consumed);
    assert!(!state.search_active);
    assert_eq!(state.search_query_text(), s(""));
}

#[test]
fn delete_on_an_empty_query_still_exits_search_mode() {
    let mut state = SelectionState::new(vec![s("go"), s("git")]);
    let consumed = state.handle_search_key(&key(KeyCode::Char('/')));
    assert!(consumed);
    assert!(state.search_active);
    let consumed = state.handle_search_key(&key(KeyCode::Delete));
    assert!(consumed);
    assert!(!state.search_active);
    assert_eq!(state.search_query_text(), s(""));
}

#[test]
fn enter_while_searching_confirms_the_query_not_the_session() {
    let mut state = SelectionState::new(vec![s("go"), s("git")]);
    type_query(&mut state, "g");
    let action = state.handle_event(&EventInput::Key(key(KeyCode::Enter)));
    assert_eq!(action, SessionAction::Continue);
    assert!(!state.search_active);
    assert_eq!(state.search_query_text(), s("g"));
}

#[test]
fn hotkeys_are_literal_query_text_while_searching() {
    let mut state = SelectionState::new(vec![s("quick"), s("joke")]);
    state.handle_search_key(&key(KeyCode::Char('/')));
    for ch in ['q', 'j', 'k'] {
        let consumed = state.handle_search_key(&key(KeyCode::Char(ch)));
        assert!(consumed);
    }
    assert_eq!(state.search_query_text(), s("qjk"));
    assert!(state.search_active);
}

#[test]
fn navigation_moves_by_rows_and_pages_on_a_known_grid() {
    let names: Vec<String> = (0..10).map(|i| format!("i{}", i)).collect();
    let mut state = SelectionState::new(names);
    // Width 26 gives (26 - 2) / (2 + 4) = 4 columns; height 7 gives 2 rows.
    let layout = state.layout_for_size(26, 7);
    assert_eq!(layout.columns, 4);
    assert_eq!(layout.column_width, 6);
    assert_eq!(layout.rows_visible, 2);

    state.move_down();
    assert_eq!(state.cursor, 4);
    state.move_right();
    state.move_right();
    state.move_right();
    assert_eq!(state.cursor, 7);
    state.move_down();
    assert_eq!(state.cursor, 9);
    assert_eq!(state.viewport_offset, 8);
    state.move_up();
    assert_eq!(state.cursor, 5);
    assert_eq!(state.viewport_offset, 0);
    state.page_down();
    assert_eq!(state.cursor, 9);
    state.page_up();
    assert_eq!(state.cursor, 1);
    state.move_end();
    assert_eq!(state.cursor, 9);
    state.move_home();
    assert_eq!(state.cursor, 0);
    state.move_left();
    assert_eq!(state.cursor, 0);
    state.move_up();
    assert_eq!(state.cursor, 0);
}

#[test]
fn viewport_offset_stays_a_multiple_of_the_page_capacity() {
    let names: Vec<String> = (0..30).map(|i| format!("n{}", i)).collect();
    let mut state = SelectionState::new(names);
    let layout = state.layout_for_size(20, 8);
    let capacity = layout.columns * layout.rows_visible;
    for _ in 0..12 {
        state.move_down();
        assert_eq!(state.viewport_offset % capacity, 0);
        assert!(state.cursor < 30);
    }
    for _ in 0..5 {
        state.move_left();
        assert_eq!(state.viewport_offset % capacity, 0);
    }
}

#[test]
fn resize_changes_neither_cursor_nor_selection() {
    let names: Vec<String> = (0..12).map(|i| format!("x{}", i)).collect();
    let mut state = SelectionState::new(names);
    state.layout_for_size(26, 7);
    state.move_down();
    state.toggle_current();
    let cursor_before = state.cursor;
    let selected_before = state.selected.clone();
    let action = state.handle_event(&EventInput::Resize);
    assert_eq!(action, SessionAction::Continue);
    assert_eq!(state.cursor, cursor_before);
    assert_eq!(state.selected, selected_before);
    assert!(state.cached_layout.is_none());
    // The next layout request recomputes lazily; the cursor still stays.
    state.layout_for_size(40, 12);
    assert_eq!(state.cursor, cursor_before);
    assert_eq!(state.selected, selected_before);
}

#[test]
fn escape_and_quit_cancel_while_navigating() {
    let mut state = SelectionState::new(vec![s("a"), s("b")]);
    assert_eq!(state.handle_event(&EventInput::Key(key(KeyCode::Esc))), SessionAction::Cancel);
    assert_eq!(
        state.handle_event(&EventInput::Key(key(KeyCode::Char('q')))),
        SessionAction::Cancel,
    );
}

#[test]
fn enter_confirms_while_navigating() {
    let mut state = SelectionState::new(vec![s("a"), s("b")]);
    assert_eq!(state.handle_event(&EventInput::Key(key(KeyCode::Enter))), SessionAction::Confirm);
}

#[test]
fn quit_letter_is_query_text_while_searching() {
    let mut state = SelectionState::new(vec![s("quark"), s("gluon")]);
    state.handle_search_key(&key(KeyCode::Char('/')));
    let action = state.handle_event(&EventInput::Key(key(KeyCode::Char('q'))));
    assert_eq!(action, SessionAction::Continue);
    assert_eq!(state.search_query_text(), s("q"));
    assert_eq!(state.filtered_indices, vec![0]);
}

#[test]
fn space_toggles_while_navigating() {
    let mut state = SelectionState::new(vec![s("a"), s("b")]);
    let action = state.handle_event(&EventInput::Key(key(KeyCode::Char(' '))));
    assert_eq!(action, SessionAction::Continue);
    assert_eq!(state.selected, vec![0]);
}

#[test]
fn control_shortcuts_select_and_clear() {
    let mut state = SelectionState::new(vec![s("a"), s("b"), s("c")]);
    let select_all = KeyInput { code: KeyCode::Char('a'), mods: ctrl() };
    let clear_all = KeyInput { code: KeyCode::Char('u'), mods: ctrl() };
    assert_eq!(state.handle_event(&EventInput::Key(select_all)), SessionAction::Continue);
    assert_eq!(state.selected, vec![0, 1, 2]);
    assert_eq!(state.handle_event(&EventInput::Key(clear_all)), SessionAction::Continue);
    assert!(state.selected.is_empty());
}

#[test]
fn arrow_keys_navigate_through_events() {
    let names: Vec<String> = (0..10).map(|i| format!("i{}", i)).collect();
    let mut state = SelectionState::new(names);
    state.layout_for_size(26, 7);
    assert_eq!(state.handle_event(&EventInput::Key(key(KeyCode::Down))), SessionAction::Continue);
    assert_eq!(state.cursor, 4);
    assert_eq!(state.handle_event(&EventInput::Key(key(KeyCode::Right))), SessionAction::Continue);
    assert_eq!(state.cursor, 5);
    assert_eq!(state.handle_event(&EventInput::Key(key(KeyCode::Up))), SessionAction::Continue);
    assert_eq!(state.cursor, 1);
    assert_eq!(state.handle_event(&EventInput::Key(key(KeyCode::Left))), SessionAction::Continue);
    assert_eq!(state.cursor, 0);
    assert_eq!(state.handle_event(&EventInput::Key(key(KeyCode::End))), SessionAction::Continue);
    assert_eq!(state.cursor, 9);
    assert_eq!(state.handle_event(&EventInput::Key(key(KeyCode::Home))), SessionAction::Continue);
    assert_eq!(state.cursor, 0);
}

#[test]
fn render_cells_enumerate_the_visible_page() {
    let names: Vec<String> = (0..10).map(|i| format!("i{}", i)).collect();
    let mut state = SelectionState::new(names);
    let layout = state.layout_for_size(26, 7);
    state.toggle_current();
    state.move_end();
    // Cursor 9 lies on the second page of capacity 8: offset 8, two cells.
    let cells = state.render_cells(&layout);
    assert_eq!(cells.len(), 2);
    assert_eq!(cells[0].filtered_pos, 8);
    assert_eq!(cells[0].canonical, 8);
    assert_eq!(cells[0].row, 0);
    assert_eq!(cells[0].col, 0);
    assert!(!cells[0].is_cursor);
    assert!(!cells[0].is_selected);
    assert_eq!(cells[1].filtered_pos, 9);
    assert!(cells[1].is_cursor);
    state.move_home();
    let cells = state.render_cells(&layout);
    assert_eq!(cells.len(), 8);
    assert!(cells[0].is_cursor);
    assert!(cells[0].is_selected);
    assert_eq!(cells[5].row, 1);
    assert_eq!(cells[5].col, 1);
}

#[test]
fn filter_clamps_the_cursor_through_query_editing() {
    let mut state = SelectionState::new(vec![s("aa"), s("ab"), s("b")]);
    state.layout_for_size(80, 24);
    state.move_end();
    assert_eq!(state.cursor, 2);
    type_query(&mut state, "a");
    assert_eq!(state.filtered_indices, vec![0, 1]);
    assert_eq!(state.cursor, 0);
    assert_eq!(state.viewport_offset, 0);
}

#[test]
fn viewport_realigns_to_the_new_capacity_after_a_resize() {
    let names: Vec<String> = (0..10).map(|i| format!("i{}", i)).collect();
    let mut state = SelectionState::new(names);
    state.layout_for_size(26, 7);
    state.move_end();
    assert_eq!(state.cursor, 9);
    assert_eq!(state.viewport_offset, 8);
    state.handle_event(&EventInput::Resize);
    // A narrower terminal: 3 columns x 3 rows, a page of nine cells.
    let layout = state.layout_for_size(20, 8);
    assert_eq!(layout.columns * layout.rows_visible, 9);
    assert_eq!(state.cursor, 9);
    assert_eq!(state.viewport_offset, 9);
}

#[test]
fn unrecognized_events_change_nothing() {
    let mut state = SelectionState::new(vec![s("a"), s("b")]);
    state.toggle_current();
    let action = state.handle_event(&EventInput::Other);
    assert_eq!(action, SessionAction::Continue);
    assert_eq!(state.selected, vec![0]);
    assert_eq!(state.cursor, 0);
}
