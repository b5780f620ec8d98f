//! The interactive multi-select component: item list, case-insensitive
//! substring filter, selection set keyed by canonical indices, cursor and
//! viewport over the filtered view, and the key-routing state machine.

use vstd::prelude::*;

use crate::strkit::{contains_string, is_substring_of, list_contains_string, lower_of,
    str_contains, string_pop, string_push, to_lowercase};

verus! {

/// One item of the filtered view matches the query: the folded query occurs
/// in the folded item text. The empty query matches everything.
pub open spec fn item_matches(item: Seq<char>, query: Seq<char>) -> bool {
    if query.len() == 0 {
        true
    } else {
        is_substring_of(lower_of(query), lower_of(item))
    }
}

/// The canonical indices below `n` whose item matches `query`, in ascending
/// order.
pub open spec fn matching_indices_up_to(items: Seq<Seq<char>>, query: Seq<char>, n: int) -> Seq<
    usize,
>
    decreases n,
{
    if n <= 0 {
        Seq::empty()
    } else if item_matches(items[n - 1], query) {
        matching_indices_up_to(items, query, n - 1).push((n - 1) as usize)
    } else {
        matching_indices_up_to(items, query, n - 1)
    }
}

/// The filtered view determined by `items` and `query`: every matching
/// canonical index, in ascending order.
pub open spec fn matching_indices(items: Seq<Seq<char>>, query: Seq<char>) -> Seq<usize> {
    matching_indices_up_to(items, query, items.len() as int)
}

pub open spec fn strictly_increasing(s: Seq<usize>) -> bool {
    forall|i: int, j: int| 0 <= i < j < s.len() ==> s[i] < s[j]
}

/// The keys the session reads, reduced to what the routing logic looks at.
#[derive(Clone, Copy, PartialEq, Eq, Structural, Debug)]
pub enum KeyCode {
    Esc,
    Backspace,
    Delete,
    Enter,
    Up,
    Down,
    Left,
    Right,
    PageUp,
    PageDown,
    Home,
    End,
    Char(char),
    Other,
}

/// Modifier state of a key press. Everything beyond shift and control is
/// folded into `other`, since the routing only distinguishes those.
#[derive(Clone, Copy, PartialEq, Eq, Structural, Debug)]
pub struct Modifiers {
    pub shift: bool,
    pub control: bool,
    pub other: bool,
}

/// One key press.
#[derive(Clone, Copy, PartialEq, Eq, Structural, Debug)]
pub struct KeyInput {
    pub code: KeyCode,
    pub mods: Modifiers,
}

pub open spec fn mods_none(m: Modifiers) -> bool {
    !m.shift && !m.control && !m.other
}

/// A control code: the Unicode control categories C0 (with DEL) and C1.
pub open spec fn spec_is_control(c: char) -> bool {
    (c as u32) < 0x20 || (0x7f <= c as u32 && c as u32 <= 0x9f)
}

/// A character that counts as query text: printable, with no modifiers or
/// shift alone.
pub open spec fn spec_is_typable(c: char, m: Modifiers) -> bool {
    !spec_is_control(c) && !m.control && !m.other
}

/// Letters reserved as navigation hotkeys while navigating: the directional
/// letters, the quit letter, and the toggle key.
pub open spec fn spec_is_reserved_hotkey(c: char) -> bool {
    c == 'q' || c == 'j' || c == 'k' || c == 'h' || c == 'l' || c == ' '
}

/// The state left behind by a query change that restarts the view from the
/// top: same items and selection, view refiltered, cursor and viewport at
/// the origin, layout dropped.
pub open spec fn refiltered_top(pre: SelectionState, post: SelectionState) -> bool {
    &&& post.items == pre.items
    &&& post.selected == pre.selected
    &&& post.filter_synced()
    &&& post.cursor == 0
    &&& post.viewport_offset == 0
    &&& post.cached_layout is None
}

/// Effect of clearing the search: the query empties, search mode ends, and
/// the view is refiltered only when there was a query to clear.
pub open spec fn search_cleared(pre: SelectionState, post: SelectionState) -> bool {
    if pre.search_query@.len() == 0 {
        post == (SelectionState { search_active: false, ..pre })
    } else {
        refiltered_top(pre, post) && post.search_query@ == Seq::<char>::empty()
            && !post.search_active
    }
}

/// Effect of removing the last query character.
pub open spec fn search_popped(pre: SelectionState, post: SelectionState) -> bool {
    &&& refiltered_top(pre, post)
    &&& post.search_query@ == pre.search_query@.drop_last()
    &&& post.search_active == pre.search_active
}

/// Effect of appending one query character.
pub open spec fn search_pushed(pre: SelectionState, post: SelectionState, c: char) -> bool {
    &&& refiltered_top(pre, post)
    &&& post.search_query@ == pre.search_query@.push(c)
    &&& post.search_active == pre.search_active
}

/// Effect of an implicit search start: the query is replaced by the one
/// typed character and search mode begins.
pub open spec fn search_started(pre: SelectionState, post: SelectionState, c: char) -> bool {
    &&& refiltered_top(pre, post)
    &&& post.search_query@ =~= seq![c]
    &&& post.search_active
}

/// Full effect of routing one key through the search-entry layer.
pub open spec fn search_key_post(pre: SelectionState, post: SelectionState, key: KeyInput) -> bool {
    if pre.search_active {
        match key.code {
            KeyCode::Esc => search_cleared(pre, post),
            KeyCode::Backspace => if pre.search_query@.len() == 0 {
                post == (SelectionState { search_active: false, ..pre })
            } else {
                search_popped(pre, post)
            },
            KeyCode::Delete => search_cleared(pre, post),
            KeyCode::Enter => post == (SelectionState { search_active: false, ..pre }),
            KeyCode::Char(c) => if spec_is_typable(c, key.mods) {
                search_pushed(pre, post, c)
            } else {
                post == pre
            },
            _ => post == pre,
        }
    } else {
        match key.code {
            KeyCode::Char(c) => if c == '/' && mods_none(key.mods) {
                post == (SelectionState { search_active: true, ..pre })
            } else if spec_is_typable(c, key.mods) && !spec_is_reserved_hotkey(c) {
                search_started(pre, post, c)
            } else {
                post == pre
            },
            _ => post == pre,
        }
    }
}

/// Whether a key press is consumed by the search-entry layer (as opposed to
/// falling through to the navigation commands).
pub open spec fn search_key_consumes(active: bool, query: Seq<char>, key: KeyInput) -> bool {
    if active {
        match key.code {
            KeyCode::Esc => true,
            KeyCode::Backspace => true,
            KeyCode::Delete => true,
            KeyCode::Enter => true,
            KeyCode::Char(c) => spec_is_typable(c, key.mods),
            _ => false,
        }
    } else {
        match key.code {
            KeyCode::Char(c) => (c == '/' && mods_none(key.mods)) || (spec_is_typable(c, key.mods)
                && !spec_is_reserved_hotkey(c)),
            _ => false,
        }
    }
}

/// One event of the session loop, as the routing logic sees it.
#[derive(Clone, Copy, PartialEq, Eq, Structural, Debug)]
pub enum EventInput {
    Key(KeyInput),
    Resize,
    Other,
}

/// What the session loop does after one event.
#[derive(Clone, Copy, PartialEq, Eq, Structural, Debug)]
pub enum SessionAction {
    Continue,
    Cancel,
    Confirm,
}

/// The action one event produces: cancel on Escape or the quit letter while
/// navigating, confirm on Enter while navigating, otherwise the session
/// goes on. Keys the search-entry layer consumes never end the session.
pub open spec fn event_outcome(pre: SelectionState, ev: EventInput) -> SessionAction {
    match ev {
        EventInput::Key(key) => if search_key_consumes(
            pre.search_active,
            pre.search_query@,
            key,
        ) {
            SessionAction::Continue
        } else {
            match key.code {
                KeyCode::Esc => SessionAction::Cancel,
                KeyCode::Enter => SessionAction::Confirm,
                KeyCode::Char(c) => if c == 'q' {
                    SessionAction::Cancel
                } else {
                    SessionAction::Continue
                },
                _ => SessionAction::Continue,
            }
        },
        _ => SessionAction::Continue,
    }
}

/// The state change one event produces.
pub open spec fn event_state_post(
    pre: SelectionState,
    post: SelectionState,
    ev: EventInput,
) -> bool {
    match ev {
        EventInput::Key(key) => if search_key_consumes(
            pre.search_active,
            pre.search_query@,
            key,
        ) {
            search_key_post(pre, post, key)
        } else {
            match key.code {
                KeyCode::Esc => post == pre,
                KeyCode::Enter => post == pre,
                KeyCode::Up => moved_up(pre, post),
                KeyCode::Down => moved_down(pre, post),
                KeyCode::Left => moved_left(pre, post),
                KeyCode::Right => moved_right(pre, post),
                KeyCode::PageUp => paged_up(pre, post),
                KeyCode::PageDown => paged_down(pre, post),
                KeyCode::Home => moved_home(pre, post),
                KeyCode::End => moved_end(pre, post),
                KeyCode::Char(c) => if c == 'q' {
                    post == pre
                } else if c == ' ' || c == '\u{3000}' {
                    toggled_current(pre, post)
                } else if c == 'k' {
                    moved_up(pre, post)
                } else if c == 'j' {
                    moved_down(pre, post)
                } else if c == 'h' {
                    moved_left(pre, post)
                } else if c == 'l' {
                    moved_right(pre, post)
                } else if c == 'a' && key.mods.control {
                    selected_all(pre, post)
                } else if c == 'u' && key.mods.control {
                    cleared_all(pre, post)
                } else {
                    post == pre
                },
                _ => post == pre,
            }
        },
        EventInput::Resize => post == (SelectionState { cached_layout: None, ..pre }),
        EventInput::Other => post == pre,
    }
}

/// Cached grid geometry: how many columns fit, how wide each is, and how
/// many item rows are visible at once.
#[derive(Clone, Copy, PartialEq, Eq, Structural, Debug)]
pub struct Layout {
    pub columns: usize,
    pub column_width: usize,
    pub rows_visible: usize,
}

/// Geometry a layout computed from real terminal dimensions always has.
pub open spec fn layout_wf(l: Layout) -> bool {
    &&& 1 <= l.columns <= 0xffff
    &&& 1 <= l.rows_visible <= 0xffff
}

/// Cells one page of the grid holds.
pub open spec fn page_capacity(l: Layout) -> int {
    l.columns * l.rows_visible
}

/// First cell of the page that `cursor` lies on.
pub open spec fn page_start(cursor: int, capacity: int) -> int {
    (cursor / capacity) * capacity
}

/// Width of the widest of the first `n` filtered items, in characters.
pub open spec fn max_filtered_width(items: Seq<Seq<char>>, filtered: Seq<usize>, n: int) -> int
    decreases n,
{
    if n <= 0 {
        0
    } else {
        let prev = max_filtered_width(items, filtered, n - 1);
        let w = items[filtered[n - 1] as int].len() as int;
        if w > prev {
            w
        } else {
            prev
        }
    }
}

/// The grid geometry determined by a terminal of `w` x `h` cells, a widest
/// filtered item of `max_item_len` characters, and `count` filtered items:
/// each column is the widest item plus checkbox padding; as many columns as
/// fit beside a two-cell margin, at least one and never more than the item
/// count; five rows are reserved for header, footer and margin.
pub open spec fn spec_layout(w: int, h: int, max_item_len: int, count: int) -> Layout {
    let column_width = if max_item_len + 4 <= usize::MAX {
        max_item_len + 4
    } else {
        usize::MAX as int
    };
    let term_width = if w >= 2 {
        w - 2
    } else {
        0
    };
    let cols_fit = if term_width / column_width >= 1 {
        term_width / column_width
    } else {
        1
    };
    let count_cap = if count >= 1 {
        count
    } else {
        1
    };
    let columns = if cols_fit <= count_cap {
        cols_fit
    } else {
        count_cap
    };
    let rows_free = if h >= 5 {
        h - 5
    } else {
        0
    };
    let rows_visible = if rows_free >= 1 {
        rows_free
    } else {
        1
    };
    Layout {
        columns: columns as usize,
        column_width: column_width as usize,
        rows_visible: rows_visible as usize,
    }
}

/// The layout a state computes for a terminal of `w` x `h` cells.
pub open spec fn spec_state_layout(s: SelectionState, w: int, h: int) -> Layout {
    spec_layout(
        w,
        h,
        max_filtered_width(
            s.items.deep_view(),
            s.filtered_indices@,
            s.filtered_indices@.len() as int,
        ),
        s.filtered_indices@.len() as int,
    )
}

/// The layout a navigation step ran under: the cached one when present,
/// else one freshly computed from some terminal dimensions (the queried
/// size, or the 80 x 24 fallback when no terminal answers).
pub open spec fn layout_from(pre: SelectionState, l: Layout) -> bool {
    match pre.cached_layout {
        Some(c) => l == c,
        None => exists|w: u16, h: u16| l == spec_state_layout(pre, w as int, h as int),
    }
}

/// Common effect of every navigation step: only the cursor, the viewport
/// and the layout cache change; the cursor lands on `target` clamped into
/// the filtered view; the viewport starts the cursor's page.
pub open spec fn nav_moved(
    pre: SelectionState,
    post: SelectionState,
    l: Layout,
    target: int,
) -> bool {
    &&& post.items == pre.items
    &&& post.filtered_indices == pre.filtered_indices
    &&& post.selected == pre.selected
    &&& post.search_query == pre.search_query
    &&& post.search_active == pre.search_active
    &&& post.cached_layout == Some(l)
    &&& post.cursor as int == if pre.filtered_indices@.len() == 0 {
        0int
    } else if target < pre.filtered_indices@.len() {
        target
    } else {
        pre.filtered_indices@.len() - 1
    }
    &&& post.viewport_offset as int == page_start(post.cursor as int, page_capacity(l))
}

pub open spec fn spec_up(c: int, cols: int) -> int {
    if c >= cols {
        c - cols
    } else {
        c
    }
}

pub open spec fn spec_down(c: int, cols: int, n: int) -> int {
    if c + cols < n {
        c + cols
    } else {
        n - 1
    }
}

/// The start of the cursor's page lies at or before the cursor and is a
/// multiple of the page capacity.
pub proof fn lemma_page_start_bounds(c: int, cap: int)
    requires
        0 <= c,
        1 <= cap,
    ensures
        0 <= page_start(c, cap) <= c,
        page_start(c, cap) % cap == 0,
{
    let q = c / cap;
    vstd::arithmetic::div_mod::lemma_fundamental_div_mod(c, cap);
    vstd::arithmetic::div_mod::lemma_mod_bound(c, cap);
    vstd::arithmetic::div_mod::lemma_mod_multiples_basic(q, cap);
    vstd::arithmetic::div_mod::lemma_div_pos_is_pos(c, cap);
    assert(cap * q == q * cap) by (nonlinear_arith);
    assert(0 <= q * cap) by (nonlinear_arith)
        requires
            0 <= q,
            1 <= cap,
    ;
}

/// A navigation step of stride one column upward.
pub open spec fn moved_up(pre: SelectionState, post: SelectionState) -> bool {
    exists|l: Layout|
        #[trigger] layout_from(pre, l) && nav_moved(
            pre,
            post,
            l,
            spec_up(pre.cursor as int, l.columns as int),
        )
}

/// A navigation step of stride one column downward.
pub open spec fn moved_down(pre: SelectionState, post: SelectionState) -> bool {
    exists|l: Layout|
        #[trigger] layout_from(pre, l) && nav_moved(
            pre,
            post,
            l,
            spec_down(pre.cursor as int, l.columns as int, pre.filtered_indices@.len() as int),
        )
}

/// A navigation step one position to the left.
pub open spec fn moved_left(pre: SelectionState, post: SelectionState) -> bool {
    exists|l: Layout|
        #[trigger] layout_from(pre, l) && nav_moved(pre, post, l, spec_left(pre.cursor as int))
}

/// A navigation step one position to the right.
pub open spec fn moved_right(pre: SelectionState, post: SelectionState) -> bool {
    exists|l: Layout|
        #[trigger] layout_from(pre, l) && nav_moved(
            pre,
            post,
            l,
            spec_right(pre.cursor as int, pre.filtered_indices@.len() as int),
        )
}

/// A navigation step one page backward.
pub open spec fn paged_up(pre: SelectionState, post: SelectionState) -> bool {
    exists|l: Layout|
        #[trigger] layout_from(pre, l) && nav_moved(
            pre,
            post,
            l,
            spec_page_back(pre.cursor as int, page_capacity(l)),
        )
}

/// A navigation step one page forward.
pub open spec fn paged_down(pre: SelectionState, post: SelectionState) -> bool {
    exists|l: Layout|
        #[trigger] layout_from(pre, l) && nav_moved(
            pre,
            post,
            l,
            spec_down(pre.cursor as int, page_capacity(l), pre.filtered_indices@.len() as int),
        )
}

/// A jump to the first filtered position.
pub open spec fn moved_home(pre: SelectionState, post: SelectionState) -> bool {
    exists|l: Layout| #[trigger] layout_from(pre, l) && nav_moved(pre, post, l, 0)
}

/// A jump to the last filtered position; nothing moves on an empty view.
pub open spec fn moved_end(pre: SelectionState, post: SelectionState) -> bool {
    if pre.filtered_indices@.len() == 0 {
        post == pre
    } else {
        exists|l: Layout|
            #[trigger] layout_from(pre, l) && nav_moved(
                pre,
                post,
                l,
                pre.filtered_indices@.len() - 1,
            )
    }
}

/// Everything but the selection set stays as it was.
pub open spec fn non_selection_fields_unchanged(pre: SelectionState, post: SelectionState) -> bool {
    &&& post.items == pre.items
    &&& post.filtered_indices == pre.filtered_indices
    &&& post.search_query == pre.search_query
    &&& post.search_active == pre.search_active
    &&& post.cursor == pre.cursor
    &&& post.viewport_offset == pre.viewport_offset
    &&& post.cached_layout == pre.cached_layout
}

/// Effect of toggling the item under the cursor: membership of its
/// canonical index flips; an empty view leaves everything alone.
pub open spec fn toggled_current(pre: SelectionState, post: SelectionState) -> bool {
    &&& non_selection_fields_unchanged(pre, post)
    &&& if pre.filtered_indices@.len() == 0 {
        post.selected == pre.selected
    } else {
        let c = pre.filtered_indices@[pre.cursor as int];
        post.selected_set() == if pre.selected@.contains(c) {
            pre.selected_set().remove(c)
        } else {
            pre.selected_set().insert(c)
        }
    }
}

/// Effect of select-all: under the full view the selection becomes exactly
/// the whole list; under a narrower filter the filtered indices join it.
pub open spec fn selected_all(pre: SelectionState, post: SelectionState) -> bool {
    &&& non_selection_fields_unchanged(pre, post)
    &&& if pre.filtered_indices@.len() == pre.items@.len() {
        post.selected@ == pre.filtered_indices@ && post.selected@.len() == pre.items@.len() && (
        forall|i: int| 0 <= i < post.selected@.len() ==> (#[trigger] post.selected@[i]) == i)
    } else {
        post.selected_set() == pre.selected_set().union(pre.filtered_indices@.to_set())
    }
}

/// Effect of clear-all: under the full view the selection empties; under a
/// narrower filter only the filtered indices leave it.
pub open spec fn cleared_all(pre: SelectionState, post: SelectionState) -> bool {
    &&& non_selection_fields_unchanged(pre, post)
    &&& if pre.filtered_indices@.len() == pre.items@.len() {
        post.selected@ == Seq::<usize>::empty()
    } else {
        post.selected_set() == pre.selected_set().difference(pre.filtered_indices@.to_set())
    }
}

pub open spec fn spec_page_back(c: int, cap: int) -> int {
    if c >= cap {
        c - cap
    } else {
        0
    }
}

pub open spec fn spec_left(c: int) -> int {
    if c > 0 {
        c - 1
    } else {
        0
    }
}

pub open spec fn spec_right(c: int, n: int) -> int {
    if c + 1 < n {
        c + 1
    } else {
        c
    }
}

/// The state of one selection session.
pub struct SelectionState {
    /// The immutable item list; positions in it are the canonical identity
    /// of an item.
    pub items: Vec<String>,
    /// Canonical indices of the items matching the current query, ascending.
    pub filtered_indices: Vec<usize>,
    /// Selected canonical indices, ascending and without duplicates.
    pub selected: Vec<usize>,
    /// Position within the filtered view (0 when the view is empty).
    pub cursor: usize,
    /// Filtered-view index of the first visible grid cell.
    pub viewport_offset: usize,
    /// Grid geometry, recomputed lazily after invalidation.
    pub cached_layout: Option<Layout>,
    /// The live search query.
    pub search_query: String,
    /// Whether keystrokes are currently captured as query text.
    pub search_active: bool,
}

impl SelectionState {
    /// Structural well-formedness: every stored index is in range, the index
    /// vectors are ascending, the cursor sits inside the non-empty filtered
    /// view, and the viewport offset starts the cursor's page whenever a
    /// layout is cached.
    pub open spec fn wf(self) -> bool {
        &&& strictly_increasing(self.selected@)
        &&& forall|i: int|
            0 <= i < self.selected@.len() ==> (#[trigger] self.selected@[i]) < self.items@.len()
        &&& strictly_increasing(self.filtered_indices@)
        &&& forall|i: int|
            0 <= i < self.filtered_indices@.len() ==> (#[trigger] self.filtered_indices@[i])
                < self.items@.len()
        &&& if self.filtered_indices@.len() == 0 {
            self.cursor == 0 && self.viewport_offset == 0
        } else {
            self.cursor < self.filtered_indices@.len()
        }
        &&& match self.cached_layout {
            Some(l) => layout_wf(l) && self.viewport_offset == page_start(
                self.cursor as int,
                page_capacity(l),
            ),
            None => true,
        }
    }

    /// The filtered view is exactly the one the current query determines.
    pub open spec fn filter_synced(self) -> bool {
        self.filtered_indices@ == matching_indices(self.items.deep_view(), self.search_query@)
    }

    /// The selected canonical indices, as a set.
    pub open spec fn selected_set(self) -> Set<usize> {
        self.selected@.to_set()
    }

    pub fn new(items: Vec<String>) -> (r: SelectionState)
        ensures
            r.wf(),
            r.filter_synced(),
            r.items == items,
            r.selected@ == Seq::<usize>::empty(),
            r.search_query@ == Seq::<char>::empty(),
            !r.search_active,
            r.cursor == 0,
            r.viewport_offset == 0,
            r.cached_layout is None,
    {
        let mut state = SelectionState {
            items,
            filtered_indices: Vec::new(),
            selected: Vec::new(),
            cursor: 0,
            viewport_offset: 0,
            cached_layout: None,
            search_query: String::new(),
            search_active: false,
        };
        state.refresh_filter(true);
        state
    }

    /// Drop the cached layout so the next use recomputes geometry.
    pub fn invalidate_cache(&mut self)
        requires
            old(self).wf(),
        ensures
            final(self).wf(),
            *final(self) == (SelectionState { cached_layout: None, ..*old(self) }),
    {
        self.cached_layout = None;
    }

    /// Recompute the filtered view from the current query. With
    /// `reset_position` the cursor and viewport return to the top; without
    /// it both are clamped into the new view. Either way the cached layout
    /// is dropped, since the widest filtered item may have changed.
    fn refresh_filter(&mut self, reset_position: bool)
        ensures
            final(self).filter_synced(),
            final(self).items == old(self).items,
            final(self).selected == old(self).selected,
            final(self).search_query == old(self).search_query,
            final(self).search_active == old(self).search_active,
            final(self).cached_layout is None,
            strictly_increasing(old(self).selected@) && (forall|i: int|
                0 <= i < old(self).selected@.len() ==> (#[trigger] old(self).selected@[i]) < old(
                    self,
                ).items@.len()) ==> final(self).wf(),
            reset_position ==> final(self).cursor == 0 && final(self).viewport_offset == 0,
            !reset_position ==> {
                let n = final(self).filtered_indices@.len();
                if n == 0 {
                    final(self).cursor == 0 && final(self).viewport_offset == 0
                } else {
                    final(self).cursor == if old(self).cursor < n - 1 {
                        old(self).cursor as int
                    } else {
                        n - 1
                    } && final(self).viewport_offset == if old(self).viewport_offset < n - 1 {
                        old(self).viewport_offset as int
                    } else {
                        n - 1
                    }
                }
            },
    {
        let ghost pre_selected = self.selected@;
        let n = self.items.len();
        let mut result: Vec<usize> = Vec::new();
        if self.search_query.as_str().is_empty() {
            let mut i: usize = 0;
            while i < n
                invariant
                    i <= n,
                    n == self.items@.len(),
                    self.search_query@.len() == 0,
                    result@ == matching_indices_up_to(self.items.deep_view(), self.search_query@, i as int),
                decreases n - i,
            {
                result.push(i);
                i += 1;
            }
        } else {
            let needle = to_lowercase(self.search_query.as_str());
            let mut i: usize = 0;
            while i < n
                invariant
                    i <= n,
                    n == self.items@.len(),
                    self.search_query@.len() > 0,
                    needle@ == lower_of(self.search_query@),
                    result@ == matching_indices_up_to(self.items.deep_view(), self.search_query@, i as int),
                decreases n - i,
            {
                let lowered = to_lowercase(self.items[i].as_str());
                if str_contains(lowered.as_str(), needle.as_str()) {
                    result.push(i);
                }
                i += 1;
            }
        }
        proof {
            lemma_matching_indices_range(self.items.deep_view(), self.search_query@);
        }
        self.filtered_indices = result;

        if reset_position {
            self.cursor = 0;
            self.viewport_offset = 0;
        } else if self.filtered_indices.len() > 0 {
            let last_index = self.filtered_indices.len() - 1;
            if self.cursor > last_index {
                self.cursor = last_index;
            }
            if self.viewport_offset > last_index {
                self.viewport_offset = last_index;
            }
        } else {
            self.cursor = 0;
            self.viewport_offset = 0;
        }

        self.cached_layout = None;
    }

    pub fn total_count(&self) -> (r: usize)
        ensures
            r == self.items@.len(),
    {
        self.items.len()
    }

    pub fn visible_count(&self) -> (r: usize)
        ensures
            r == self.filtered_indices@.len(),
    {
        self.filtered_indices.len()
    }

    /// The canonical index under the cursor, if the filtered view shows
    /// anything.
    pub fn current_item_index(&self) -> (r: Option<usize>)
        ensures
            r == if self.cursor < self.filtered_indices@.len() {
                Some(self.filtered_indices@[self.cursor as int])
            } else {
                Option::<usize>::None
            },
    {
        if self.cursor < self.filtered_indices.len() {
            Some(self.filtered_indices[self.cursor])
        } else {
            None
        }
    }

    /// Whether the filter currently shows every item.
    pub fn filter_matches_full_list(&self) -> (r: bool)
        ensures
            r == (self.filtered_indices@.len() == self.items@.len()),
    {
        self.filtered_indices.len() == self.items.len()
    }

    /// Start capturing keystrokes as query text; the query is kept.
    pub fn enter_search_mode(&mut self)
        requires
            old(self).wf(),
        ensures
            final(self).wf(),
            *final(self) == (SelectionState { search_active: true, ..*old(self) }),
    {
        self.search_active = true;
    }

    /// Stop capturing keystrokes as query text; the query is kept.
    pub fn exit_search_mode(&mut self)
        requires
            old(self).wf(),
        ensures
            final(self).wf(),
            *final(self) == (SelectionState { search_active: false, ..*old(self) }),
    {
        self.search_active = false;
    }

    /// Append one character to the query and refilter from the top.
    pub fn push_search_char(&mut self, ch: char)
        requires
            old(self).wf(),
        ensures
            final(self).wf(),
            final(self).filter_synced(),
            final(self).search_query@ == old(self).search_query@.push(ch),
            final(self).items == old(self).items,
            final(self).selected == old(self).selected,
            final(self).search_active == old(self).search_active,
            final(self).cursor == 0,
            final(self).viewport_offset == 0,
            final(self).cached_layout is None,
    {
        string_push(&mut self.search_query, ch);
        self.refresh_filter(true);
    }

    /// Remove the last query character (if any) and refilter from the top.
    /// Search mode stays as it is: backspacing an already-empty query is the
    /// caller's signal to leave it, not this function's.
    pub fn pop_search_char(&mut self)
        requires
            old(self).wf(),
        ensures
            final(self).wf(),
            final(self).filter_synced(),
            final(self).search_query@ == if old(self).search_query@.len() > 0 {
                old(self).search_query@.drop_last()
            } else {
                old(self).search_query@
            },
            final(self).items == old(self).items,
            final(self).selected == old(self).selected,
            final(self).search_active == old(self).search_active,
            final(self).cursor == 0,
            final(self).viewport_offset == 0,
            final(self).cached_layout is None,
    {
        let _ = string_pop(&mut self.search_query);
        self.refresh_filter(true);
    }

    /// Clear the query entirely and leave search mode. The filter is only
    /// recomputed when there was a query to clear.
    pub fn clear_search(&mut self)
        requires
            old(self).wf(),
        ensures
            final(self).wf(),
            final(self).search_query@ == Seq::<char>::empty(),
            !final(self).search_active,
            final(self).items == old(self).items,
            final(self).selected == old(self).selected,
            old(self).search_query@.len() > 0 ==> final(self).filter_synced()
                && final(self).cursor == 0 && final(self).viewport_offset == 0
                && final(self).cached_layout is None,
            old(self).search_query@.len() == 0 ==> *final(self) == (SelectionState {
                search_active: false,
                ..*old(self)
            }),
    {
        if !self.search_query.as_str().is_empty() {
            self.search_query = String::new();
            self.refresh_filter(true);
        }
        self.search_active = false;
    }

    /// A character that is captured as query text: printable, with no
    /// modifiers beyond shift.
    pub fn is_typable_char(ch: char, mods: Modifiers) -> (r: bool)
        ensures
            r == spec_is_typable(ch, mods),
    {
        let u = ch as u32;
        let control_code = u < 0x20 || (0x7f <= u && u <= 0x9f);
        !control_code && !mods.control && !mods.other
    }

    /// A letter that acts as a navigation command while navigating.
    pub fn is_reserved_hotkey(ch: char) -> (r: bool)
        ensures
            r == spec_is_reserved_hotkey(ch),
    {
        ch == 'q' || ch == 'j' || ch == 'k' || ch == 'h' || ch == 'l' || ch == ' '
    }

    /// Route one key through the search-entry layer. Returns true when the
    /// key was consumed here; a false return leaves the state untouched and
    /// hands the key to the navigation commands.
    ///
    /// While searching, Enter confirms the query (keeping it) and leaves
    /// search mode without ending the session, and every printable key —
    /// the navigation hotkeys included — is literal query text. Backspace
    /// on an empty query leaves search mode; on a non-empty query it edits.
    /// Escape and Delete clear the query and leave search mode, whether or
    /// not there was anything to clear.
    pub fn handle_search_key(&mut self, key: &KeyInput) -> (r: bool)
        requires
            old(self).wf(),
        ensures
            final(self).wf(),
            r == search_key_consumes(old(self).search_active, old(self).search_query@, *key),
            r ==> search_key_post(*old(self), *final(self), *key),
            !r ==> *final(self) == *old(self),
    {
        if self.search_active {
            match key.code {
                KeyCode::Esc => {
                    self.clear_search();
                    true
                },
                KeyCode::Backspace => {
                    if self.search_query.as_str().is_empty() {
                        self.exit_search_mode();
                    } else {
                        self.pop_search_char();
                    }
                    true
                },
                KeyCode::Delete => {
                    self.clear_search();
                    true
                },
                KeyCode::Enter => {
                    self.exit_search_mode();
                    true
                },
                KeyCode::Char(ch) => {
                    if Self::is_typable_char(ch, key.mods) {
                        self.push_search_char(ch);
                        true
                    } else {
                        false
                    }
                },
                _ => false,
            }
        } else {
            match key.code {
                KeyCode::Char(ch) => {
                    if ch == '/' && !key.mods.shift && !key.mods.control && !key.mods.other {
                        self.enter_search_mode();
                        true
                    } else if Self::is_typable_char(ch, key.mods) && !Self::is_reserved_hotkey(
                        ch,
                    ) {
                        self.search_query = String::new();
                        self.enter_search_mode();
                        self.push_search_char(ch);
                        true
                    } else {
                        false
                    }
                },
                _ => false,
            }
        }
    }

    /// Width in characters of the widest currently-filtered item.
    fn max_filtered_item_width(&self) -> (r: usize)
        requires
            forall|i: int|
                0 <= i < self.filtered_indices@.len() ==> (#[trigger] self.filtered_indices@[i])
                    < self.items@.len(),
        ensures
            r as int == max_filtered_width(
                self.items.deep_view(),
                self.filtered_indices@,
                self.filtered_indices@.len() as int,
            ),
    {
        let mut widest: usize = 0;
        let mut j: usize = 0;
        let n = self.filtered_indices.len();
        while j < n
            invariant
                j <= n,
                n == self.filtered_indices@.len(),
                forall|i: int|
                    0 <= i < self.filtered_indices@.len() ==> (
                    #[trigger] self.filtered_indices@[i]) < self.items@.len(),
                widest as int == max_filtered_width(
                    self.items.deep_view(),
                    self.filtered_indices@,
                    j as int,
                ),
            decreases n - j,
        {
            let idx = self.filtered_indices[j];
            let w = self.items[idx].as_str().unicode_len();
            if w > widest {
                widest = w;
            }
            j += 1;
        }
        widest
    }

    /// Compute the grid geometry for the given terminal dimensions, cache
    /// it, and return it. The cursor and viewport are left alone; callers
    /// re-derive the viewport afterwards.
    fn compute_and_cache_layout(&mut self, width: u16, height: u16) -> (l: Layout)
        requires
            forall|i: int|
                0 <= i < old(self).filtered_indices@.len() ==> (#[trigger] old(
                    self,
                ).filtered_indices@[i]) < old(self).items@.len(),
        ensures
            l == spec_state_layout(*old(self), width as int, height as int),
            layout_wf(l),
            *final(self) == (SelectionState { cached_layout: Some(l), ..*old(self) }),
    {
        let widest = self.max_filtered_item_width();
        let column_width: usize = if widest <= usize::MAX - 4 {
            widest + 4
        } else {
            usize::MAX
        };
        let term_width: usize = if width >= 2 {
            (width - 2) as usize
        } else {
            0
        };
        let mut columns: usize = term_width / column_width;
        if columns < 1 {
            columns = 1;
        }
        let count = self.filtered_indices.len();
        let count_cap: usize = if count >= 1 {
            count
        } else {
            1
        };
        if columns > count_cap {
            columns = count_cap;
        }
        let rows_free: usize = if height >= 5 {
            (height - 5) as usize
        } else {
            0
        };
        let rows_visible: usize = if rows_free >= 1 {
            rows_free
        } else {
            1
        };
        let l = Layout { columns, column_width, rows_visible };
        self.cached_layout = Some(l);
        l
    }

    /// The current grid geometry: the cached layout when one is present,
    /// else one computed from the terminal size — or from the conservative
    /// 80 x 24 fallback when no terminal answers — and cached.
    fn layout(&mut self) -> (l: Layout)
        requires
            forall|i: int|
                0 <= i < old(self).filtered_indices@.len() ==> (#[trigger] old(
                    self,
                ).filtered_indices@[i]) < old(self).items@.len(),
            match old(self).cached_layout {
                Some(c) => layout_wf(c),
                None => true,
            },
        ensures
            layout_wf(l),
            layout_from(*old(self), l),
            *final(self) == (SelectionState { cached_layout: Some(l), ..*old(self) }),
    {
        match self.cached_layout {
            Some(l) => l,
            None => {
                let (width, height) = match query_terminal_size() {
                    Some(dims) => dims,
                    None => (80u16, 24u16),
                };
                self.compute_and_cache_layout(width, height)
            },
        }
    }

    /// Re-derive the viewport offset so the displayed page is the cursor's
    /// page, clamping the cursor into the filtered view first.
    fn ensure_visible(&mut self, layout: &Layout)
        requires
            layout_wf(*layout),
        ensures
            final(self).items == old(self).items,
            final(self).filtered_indices == old(self).filtered_indices,
            final(self).selected == old(self).selected,
            final(self).search_query == old(self).search_query,
            final(self).search_active == old(self).search_active,
            final(self).cached_layout == old(self).cached_layout,
            final(self).cursor as int == if old(self).filtered_indices@.len() == 0 {
                0int
            } else if old(self).cursor < old(self).filtered_indices@.len() {
                old(self).cursor as int
            } else {
                old(self).filtered_indices@.len() - 1
            },
            final(self).viewport_offset as int == page_start(
                final(self).cursor as int,
                page_capacity(*layout),
            ),
            old(self).filtered_indices@.len() == 0 ==> final(self).viewport_offset == 0,
    {
        proof {
            assert(1 <= layout.columns * layout.rows_visible <= 0xffff * 0xffff)
                by (nonlinear_arith)
                requires
                    1 <= layout.columns <= 0xffff,
                    1 <= layout.rows_visible <= 0xffff,
            ;
        }
        let visible = self.filtered_indices.len();
        if visible == 0 {
            self.cursor = 0;
            self.viewport_offset = 0;
            proof {
                lemma_page_start_bounds(0, page_capacity(*layout));
            }
            return ;
        }
        if self.cursor >= visible {
            self.cursor = visible - 1;
        }
        let capacity = layout.columns * layout.rows_visible;
        let page = self.cursor / capacity;
        proof {
            lemma_page_start_bounds(self.cursor as int, capacity as int);
        }
        self.viewport_offset = page * capacity;
    }

    /// Move the cursor up one row, clamping at the first row.
    pub fn move_up(&mut self)
        requires
            old(self).wf(),
        ensures
            final(self).wf(),
            moved_up(*old(self), *final(self)),
    {
        let layout = self.layout();
        if self.cursor >= layout.columns {
            self.cursor = self.cursor - layout.columns;
        }
        self.ensure_visible(&layout);
    }

    /// Move the cursor down one row, clamping at the last filtered item.
    pub fn move_down(&mut self)
        requires
            old(self).wf(),
        ensures
            final(self).wf(),
            moved_down(*old(self), *final(self)),
    {
        let layout = self.layout();
        let visible = self.filtered_indices.len();
        if visible == 0 {
            proof {
                assert(1 <= layout.columns * layout.rows_visible) by (nonlinear_arith)
                    requires
                        1 <= layout.columns,
                        1 <= layout.rows_visible,
                ;
                lemma_page_start_bounds(0, page_capacity(layout));
            }
            return ;
        }
        if visible - self.cursor > layout.columns {
            self.cursor = self.cursor + layout.columns;
        } else {
            self.cursor = visible - 1;
        }
        self.ensure_visible(&layout);
    }

    /// Move the cursor one position left, clamping at the view's start.
    pub fn move_left(&mut self)
        requires
            old(self).wf(),
        ensures
            final(self).wf(),
            moved_left(*old(self), *final(self)),
    {
        let layout = self.layout();
        if self.cursor > 0 {
            self.cursor = self.cursor - 1;
        }
        self.ensure_visible(&layout);
    }

    /// Move the cursor one position right, clamping at the view's end.
    pub fn move_right(&mut self)
        requires
            old(self).wf(),
        ensures
            final(self).wf(),
            moved_right(*old(self), *final(self)),
    {
        let layout = self.layout();
        let visible = self.filtered_indices.len();
        if visible > 0 && self.cursor < visible - 1 {
            self.cursor = self.cursor + 1;
        }
        self.ensure_visible(&layout);
    }

    /// Move the cursor one page up, clamping at the view's start.
    pub fn page_up(&mut self)
        requires
            old(self).wf(),
        ensures
            final(self).wf(),
            paged_up(*old(self), *final(self)),
    {
        let layout = self.layout();
        proof {
            assert(1 <= layout.rows_visible * layout.columns <= 0xffff * 0xffff
                && layout.rows_visible * layout.columns == layout.columns * layout.rows_visible)
                by (nonlinear_arith)
                requires
                    1 <= layout.columns <= 0xffff,
                    1 <= layout.rows_visible <= 0xffff,
            ;
        }
        let step = layout.rows_visible * layout.columns;
        if self.cursor >= step {
            self.cursor = self.cursor - step;
        } else {
            self.cursor = 0;
        }
        self.ensure_visible(&layout);
    }

    /// Move the cursor one page down, clamping at the last filtered item.
    pub fn page_down(&mut self)
        requires
            old(self).wf(),
        ensures
            final(self).wf(),
            paged_down(*old(self), *final(self)),
    {
        let layout = self.layout();
        proof {
            assert(1 <= layout.rows_visible * layout.columns <= 0xffff * 0xffff
                && layout.rows_visible * layout.columns == layout.columns * layout.rows_visible)
                by (nonlinear_arith)
                requires
                    1 <= layout.columns <= 0xffff,
                    1 <= layout.rows_visible <= 0xffff,
            ;
        }
        let step = layout.rows_visible * layout.columns;
        let visible = self.filtered_indices.len();
        if visible == 0 {
            proof {
                assert(1 <= layout.columns * layout.rows_visible) by (nonlinear_arith)
                    requires
                        1 <= layout.columns,
                        1 <= layout.rows_visible,
                ;
                lemma_page_start_bounds(0, page_capacity(layout));
            }
            return ;
        }
        if visible - self.cursor > step {
            self.cursor = self.cursor + step;
        } else {
            self.cursor = visible - 1;
        }
        self.ensure_visible(&layout);
    }

    /// Jump to the first filtered position.
    pub fn move_home(&mut self)
        requires
            old(self).wf(),
        ensures
            final(self).wf(),
            moved_home(*old(self), *final(self)),
    {
        let layout = self.layout();
        self.cursor = 0;
        self.ensure_visible(&layout);
    }

    /// Jump to the last filtered position; nothing happens on an empty
    /// view.
    pub fn move_end(&mut self)
        requires
            old(self).wf(),
        ensures
            final(self).wf(),
            moved_end(*old(self), *final(self)),
    {
        let visible = self.filtered_indices.len();
        if visible > 0 {
            let layout = self.layout();
            self.cursor = visible - 1;
            self.ensure_visible(&layout);
        }
    }

    /// Flip membership of the canonical index under the cursor in the
    /// selection set; a no-op when the filtered view is empty. Selection is
    /// keyed by canonical index, never by filtered position.
    pub fn toggle_current(&mut self)
        requires
            old(self).wf(),
        ensures
            final(self).wf(),
            toggled_current(*old(self), *final(self)),
    {
        if self.cursor < self.filtered_indices.len() {
            let c = self.filtered_indices[self.cursor];
            if sorted_contains(&self.selected, c) {
                sorted_remove(&mut self.selected, c);
            } else {
                sorted_insert(&mut self.selected, c);
            }
            proof {
                assert forall|i: int| 0 <= i < self.selected@.len() implies (
                #[trigger] self.selected@[i]) < self.items@.len() by {
                    let y = self.selected@[i];
                    assert(self.selected@.contains(y));
                    if old(self).selected@.contains(y) {
                        let k = choose|k: int|
                            0 <= k < old(self).selected@.len() && old(self).selected@[k] == y;
                    }
                }
            }
        }
    }

    /// Select what the filter shows. Under the full view the selection is
    /// rebuilt as exactly the whole item list; under a narrower filter the
    /// filtered indices are added to whatever is already selected, so items
    /// outside the filter keep their prior state.
    pub fn select_all(&mut self)
        requires
            old(self).wf(),
        ensures
            final(self).wf(),
            selected_all(*old(self), *final(self)),
    {
        let n = self.filtered_indices.len();
        if n == self.items.len() {
            let mut fresh: Vec<usize> = Vec::new();
            let mut j: usize = 0;
            while j < n
                invariant
                    j <= n,
                    n == self.filtered_indices@.len(),
                    fresh@ == self.filtered_indices@.subrange(0, j as int),
                decreases n - j,
            {
                fresh.push(self.filtered_indices[j]);
                j += 1;
            }
            proof {
                assert(fresh@ == self.filtered_indices@.subrange(
                    0,
                    self.filtered_indices@.len() as int,
                ));
                assert(self.filtered_indices@.subrange(0, self.filtered_indices@.len() as int)
                    =~= self.filtered_indices@);
                lemma_full_filter_is_identity(
                    self.filtered_indices@,
                    self.filtered_indices@.len() as int,
                );
            }
            self.selected = fresh;
        } else {
            let mut j: usize = 0;
            while j < n
                invariant
                    j <= n,
                    n == self.filtered_indices@.len(),
                    self.items == old(self).items,
                    self.filtered_indices == old(self).filtered_indices,
                    self.search_query == old(self).search_query,
                    self.search_active == old(self).search_active,
                    self.cursor == old(self).cursor,
                    self.viewport_offset == old(self).viewport_offset,
                    self.cached_layout == old(self).cached_layout,
                    strictly_increasing(self.selected@),
                    forall|y: usize|
                        self.selected@.contains(y) <==> old(self).selected@.contains(y) || old(
                            self,
                        ).filtered_indices@.subrange(0, j as int).contains(y),
                decreases n - j,
            {
                let c = self.filtered_indices[j];
                sorted_insert(&mut self.selected, c);
                proof {
                    let prefix = old(self).filtered_indices@.subrange(0, j as int);
                    let prefix1 = old(self).filtered_indices@.subrange(0, j + 1 as int);
                    assert(prefix1 =~= prefix.push(c));
                    assert forall|y: usize| prefix1.contains(y) implies prefix.contains(y) || y
                        == c by {
                        let k = choose|k: int| 0 <= k < prefix1.len() && prefix1[k] == y;
                        if k < prefix.len() {
                            assert(prefix[k] == y);
                        }
                    }
                    assert forall|y: usize| prefix.contains(y) implies prefix1.contains(y) by {
                        let k = choose|k: int| 0 <= k < prefix.len() && prefix[k] == y;
                        assert(prefix1[k] == y);
                    }
                    assert(prefix1[j as int] == c);
                    assert(prefix1.contains(c));
                }
                j += 1;
            }
            proof {
                assert(old(self).filtered_indices@.subrange(
                    0,
                    old(self).filtered_indices@.len() as int,
                ) =~= old(self).filtered_indices@);
                assert(final(self).selected_set() =~= old(self).selected_set().union(
                    old(self).filtered_indices@.to_set(),
                ));
                assert forall|i: int| 0 <= i < self.selected@.len() implies (
                #[trigger] self.selected@[i]) < self.items@.len() by {
                    let y = self.selected@[i];
                    assert(self.selected@.contains(y));
                    if old(self).selected@.contains(y) {
                        let k = choose|k: int|
                            0 <= k < old(self).selected@.len() && old(self).selected@[k] == y;
                    } else {
                        let k = choose|k: int|
                            0 <= k < old(self).filtered_indices@.len() && old(
                                self,
                            ).filtered_indices@[k] == y;
                    }
                }
            }
        }
    }

    /// Clear what the filter shows. Under the full view the whole selection
    /// empties; under a narrower filter only the filtered indices leave the
    /// selection, so items outside the filter keep their prior state.
    pub fn clear_all(&mut self)
        requires
            old(self).wf(),
        ensures
            final(self).wf(),
            cleared_all(*old(self), *final(self)),
    {
        let n = self.filtered_indices.len();
        if n == self.items.len() {
            self.selected = Vec::new();
        } else {
            let mut j: usize = 0;
            while j < n
                invariant
                    j <= n,
                    n == self.filtered_indices@.len(),
                    self.items == old(self).items,
                    self.filtered_indices == old(self).filtered_indices,
                    self.search_query == old(self).search_query,
                    self.search_active == old(self).search_active,
                    self.cursor == old(self).cursor,
                    self.viewport_offset == old(self).viewport_offset,
                    self.cached_layout == old(self).cached_layout,
                    strictly_increasing(self.selected@),
                    forall|y: usize|
                        self.selected@.contains(y) <==> old(self).selected@.contains(y) && !old(
                            self,
                        ).filtered_indices@.subrange(0, j as int).contains(y),
                decreases n - j,
            {
                let c = self.filtered_indices[j];
                sorted_remove(&mut self.selected, c);
                proof {
                    let prefix = old(self).filtered_indices@.subrange(0, j as int);
                    let prefix1 = old(self).filtered_indices@.subrange(0, j + 1 as int);
                    assert(prefix1 =~= prefix.push(c));
                    assert forall|y: usize| prefix1.contains(y) implies prefix.contains(y) || y
                        == c by {
                        let k = choose|k: int| 0 <= k < prefix1.len() && prefix1[k] == y;
                        if k < prefix.len() {
                            assert(prefix[k] == y);
                        }
                    }
                    assert forall|y: usize| prefix.contains(y) implies prefix1.contains(y) by {
                        let k = choose|k: int| 0 <= k < prefix.len() && prefix[k] == y;
                        assert(prefix1[k] == y);
                    }
                    assert(prefix1[j as int] == c);
                    assert(prefix1.contains(c));
                }
                j += 1;
            }
            proof {
                assert(old(self).filtered_indices@.subrange(
                    0,
                    old(self).filtered_indices@.len() as int,
                ) =~= old(self).filtered_indices@);
                assert(final(self).selected_set() =~= old(self).selected_set().difference(
                    old(self).filtered_indices@.to_set(),
                ));
                assert forall|i: int| 0 <= i < self.selected@.len() implies (
                #[trigger] self.selected@[i]) < self.items@.len() by {
                    let y = self.selected@[i];
                    assert(self.selected@.contains(y));
                    let k = choose|k: int|
                        0 <= k < old(self).selected@.len() && old(self).selected@[k] == y;
                }
            }
        }
    }

    /// Pre-select one canonical index; indices beyond the item list are
    /// ignored.
    pub fn select_item(&mut self, idx: usize)
        requires
            old(self).wf(),
        ensures
            final(self).wf(),
            final(self).items == old(self).items,
            final(self).filtered_indices == old(self).filtered_indices,
            final(self).search_query == old(self).search_query,
            final(self).search_active == old(self).search_active,
            final(self).cursor == old(self).cursor,
            final(self).viewport_offset == old(self).viewport_offset,
            final(self).cached_layout == old(self).cached_layout,
            idx < old(self).items@.len()
                ==> final(self).selected_set() == old(self).selected_set().insert(idx),
            idx >= old(self).items@.len() ==> final(self).selected == old(self).selected,
    {
        if idx < self.items.len() {
            sorted_insert(&mut self.selected, idx);
            proof {
                assert forall|i: int| 0 <= i < self.selected@.len() implies (
                #[trigger] self.selected@[i]) < self.items@.len() by {
                    let y = self.selected@[i];
                    assert(self.selected@.contains(y));
                    if old(self).selected@.contains(y) {
                        let k = choose|k: int|
                            0 <= k < old(self).selected@.len() && old(self).selected@[k] == y;
                    }
                }
            }
        }
    }

    /// Seed the selection with every item whose display text occurs in
    /// `previous`; unrecognized entries are silently ignored.
    pub fn apply_previous_selection(&mut self, previous: &Vec<String>)
        requires
            old(self).wf(),
        ensures
            final(self).wf(),
            final(self).items == old(self).items,
            final(self).filtered_indices == old(self).filtered_indices,
            final(self).search_query == old(self).search_query,
            final(self).search_active == old(self).search_active,
            final(self).cursor == old(self).cursor,
            final(self).viewport_offset == old(self).viewport_offset,
            final(self).cached_layout == old(self).cached_layout,
            forall|y: usize|
                final(self).selected@.contains(y) <==> old(self).selected@.contains(y) || (y < old(
                    self,
                ).items@.len() && contains_string(previous@, old(self).items@[y as int]@)),
    {
        let n = self.items.len();
        let mut idx: usize = 0;
        while idx < n
            invariant
                idx <= n,
                n == self.items@.len(),
                self.items == old(self).items,
                self.filtered_indices == old(self).filtered_indices,
                self.search_query == old(self).search_query,
                self.search_active == old(self).search_active,
                self.cursor == old(self).cursor,
                self.viewport_offset == old(self).viewport_offset,
                self.cached_layout == old(self).cached_layout,
                strictly_increasing(self.selected@),
                forall|y: usize|
                    self.selected@.contains(y) <==> old(self).selected@.contains(y) || (y < idx
                        && contains_string(previous@, old(self).items@[y as int]@)),
            decreases n - idx,
        {
            let hit = list_contains_string(previous, &self.items[idx]);
            if hit {
                sorted_insert(&mut self.selected, idx);
            }
            idx += 1;
        }
        proof {
            assert forall|i: int| 0 <= i < self.selected@.len() implies (
            #[trigger] self.selected@[i]) < self.items@.len() by {
                let y = self.selected@[i];
                assert(self.selected@.contains(y));
                if old(self).selected@.contains(y) {
                    let k = choose|k: int|
                        0 <= k < old(self).selected@.len() && old(self).selected@[k] == y;
                }
            }
        }
    }

    /// Consume the session and return the selected display strings, in
    /// ascending canonical order.
    pub fn finish(self) -> (r: Vec<String>)
        requires
            self.wf(),
        ensures
            r@.len() == self.selected@.len(),
            forall|j: int|
                0 <= j < r@.len() ==> r@[j] == self.items@[self.selected@[j] as int],
    {
        let mut out: Vec<String> = Vec::new();
        let n = self.selected.len();
        let mut j: usize = 0;
        while j < n
            invariant
                j <= n,
                n == self.selected@.len(),
                strictly_increasing(self.selected@),
                forall|i: int|
                    0 <= i < self.selected@.len() ==> (#[trigger] self.selected@[i])
                        < self.items@.len(),
                out@.len() == j,
                forall|i: int| 0 <= i < j ==> out@[i] == self.items@[self.selected@[i] as int],
            decreases n - j,
        {
            let idx = self.selected[j];
            out.push(self.items[idx].clone());
            j += 1;
        }
        out
    }

    /// Route one event of the session loop: search-entry capture first,
    /// then the navigation, toggle and bulk commands, cancel and confirm.
    /// A resize only drops the cached layout; the cursor and the selection
    /// stay as they were.
    pub fn handle_event(&mut self, ev: &EventInput) -> (r: SessionAction)
        requires
            old(self).wf(),
        ensures
            final(self).wf(),
            r == event_outcome(*old(self), *ev),
            event_state_post(*old(self), *final(self), *ev),
    {
        match *ev {
            EventInput::Key(key) => {
                if self.handle_search_key(&key) {
                    return SessionAction::Continue;
                }
                match key.code {
                    KeyCode::Esc => SessionAction::Cancel,
                    KeyCode::Enter => SessionAction::Confirm,
                    KeyCode::Up => {
                        self.move_up();
                        SessionAction::Continue
                    },
                    KeyCode::Down => {
                        self.move_down();
                        SessionAction::Continue
                    },
                    KeyCode::Left => {
                        self.move_left();
                        SessionAction::Continue
                    },
                    KeyCode::Right => {
                        self.move_right();
                        SessionAction::Continue
                    },
                    KeyCode::PageUp => {
                        self.page_up();
                        SessionAction::Continue
                    },
                    KeyCode::PageDown => {
                        self.page_down();
                        SessionAction::Continue
                    },
                    KeyCode::Home => {
                        self.move_home();
                        SessionAction::Continue
                    },
                    KeyCode::End => {
                        self.move_end();
                        SessionAction::Continue
                    },
                    KeyCode::Char(c) => {
                        if c == 'q' {
                            SessionAction::Cancel
                        } else if c == ' ' || c == '\u{3000}' {
                            self.toggle_current();
                            SessionAction::Continue
                        } else if c == 'k' {
                            self.move_up();
                            SessionAction::Continue
                        } else if c == 'j' {
                            self.move_down();
                            SessionAction::Continue
                        } else if c == 'h' {
                            self.move_left();
                            SessionAction::Continue
                        } else if c == 'l' {
                            self.move_right();
                            SessionAction::Continue
                        } else if c == 'a' && key.mods.control {
                            self.select_all();
                            SessionAction::Continue
                        } else if c == 'u' && key.mods.control {
                            self.clear_all();
                            SessionAction::Continue
                        } else {
                            SessionAction::Continue
                        }
                    },
                    _ => SessionAction::Continue,
                }
            },
            EventInput::Resize => {
                self.invalidate_cache();
                SessionAction::Continue
            },
            EventInput::Other => SessionAction::Continue,
        }
    }

    /// Compute and cache the grid geometry for the given terminal size and
    /// re-derive the viewport for it; the cursor and selection stay put.
    pub fn layout_for_size(&mut self, width: u16, height: u16) -> (l: Layout)
        requires
            old(self).wf(),
        ensures
            final(self).wf(),
            l == spec_state_layout(*old(self), width as int, height as int),
            layout_wf(l),
            final(self).items == old(self).items,
            final(self).filtered_indices == old(self).filtered_indices,
            final(self).selected == old(self).selected,
            final(self).search_query == old(self).search_query,
            final(self).search_active == old(self).search_active,
            final(self).cached_layout == Some(l),
            final(self).cursor == old(self).cursor,
            final(self).viewport_offset as int == page_start(
                old(self).cursor as int,
                page_capacity(l),
            ),
    {
        let l = self.compute_and_cache_layout(width, height);
        self.ensure_visible(&l);
        l
    }

    /// The current query text, for display.
    pub fn search_query_text(&self) -> (r: String)
        ensures
            r@ == self.search_query@,
    {
        self.search_query.clone()
    }

    /// The visible page of the grid, in row-major order: for each visible
    /// slot, where it sits, which canonical item it shows, and whether it
    /// carries the cursor or a selection mark. Pure state, ready to paint.
    pub fn render_cells(&self, layout: &Layout) -> (r: Vec<CellPlan>)
        requires
            self.wf(),
            layout_wf(*layout),
        ensures
            r@.len() == ({
                let remaining = if self.viewport_offset < self.filtered_indices@.len() {
                    self.filtered_indices@.len() - self.viewport_offset
                } else {
                    0int
                };
                if remaining < page_capacity(*layout) {
                    remaining
                } else {
                    page_capacity(*layout)
                }
            }),
            forall|k: int|
                0 <= k < r@.len() ==> {
                    let cell = #[trigger] r@[k];
                    &&& cell.filtered_pos == self.viewport_offset + k
                    &&& cell.row == k / (layout.columns as int)
                    &&& cell.col == k % (layout.columns as int)
                    &&& cell.canonical == self.filtered_indices@[self.viewport_offset + k]
                    &&& cell.is_cursor == (self.cursor == self.viewport_offset + k)
                    &&& cell.is_selected == self.selected@.contains(cell.canonical)
                },
    {
        proof {
            assert(1 <= layout.columns * layout.rows_visible <= 0xffff * 0xffff)
                by (nonlinear_arith)
                requires
                    1 <= layout.columns <= 0xffff,
                    1 <= layout.rows_visible <= 0xffff,
            ;
        }
        let capacity = layout.columns * layout.rows_visible;
        let visible = self.filtered_indices.len();
        let remaining = if self.viewport_offset < visible {
            visible - self.viewport_offset
        } else {
            0
        };
        let count = if remaining < capacity {
            remaining
        } else {
            capacity
        };
        let mut cells: Vec<CellPlan> = Vec::new();
        let mut k: usize = 0;
        while k < count
            invariant
                k <= count,
                count == 0 || self.viewport_offset + count <= self.filtered_indices@.len(),
                self.filtered_indices@.len() <= usize::MAX,
                self.wf(),
                1 <= layout.columns,
                cells@.len() == k,
                forall|i: int|
                    0 <= i < k ==> {
                        let cell = #[trigger] cells@[i];
                        &&& cell.filtered_pos == self.viewport_offset + i
                        &&& cell.row == i / (layout.columns as int)
                        &&& cell.col == i % (layout.columns as int)
                        &&& cell.canonical == self.filtered_indices@[self.viewport_offset + i]
                        &&& cell.is_cursor == (self.cursor == self.viewport_offset + i)
                        &&& cell.is_selected == self.selected@.contains(cell.canonical)
                    },
            decreases count - k,
        {
            let filtered_pos = self.viewport_offset + k;
            let canonical = self.filtered_indices[filtered_pos];
            let cell = CellPlan {
                row: k / layout.columns,
                col: k % layout.columns,
                filtered_pos,
                canonical,
                is_cursor: self.cursor == filtered_pos,
                is_selected: sorted_contains(&self.selected, canonical),
            };
            cells.push(cell);
            k += 1;
        }
        cells
    }
}

/// One visible grid slot, ready to paint.
#[derive(Clone, Copy, PartialEq, Eq, Structural, Debug)]
pub struct CellPlan {
    /// Grid row within the visible page.
    pub row: usize,
    /// Grid column within the visible page.
    pub col: usize,
    /// Position within the filtered view.
    pub filtered_pos: usize,
    /// Canonical index of the item shown here.
    pub canonical: usize,
    /// This slot carries the cursor.
    pub is_cursor: bool,
    /// The item shown here is selected.
    pub is_selected: bool,
}

/// Under the empty query the filtered view is the identity over the whole
/// item list.
pub proof fn lemma_empty_query_identity(items: Seq<Seq<char>>)
    requires
        items.len() <= usize::MAX,
    ensures
        matching_indices(items, Seq::<char>::empty()).len() == items.len(),
        forall|i: int|
            0 <= i < items.len() ==> matching_indices(items, Seq::<char>::empty())[i] == i,
{
    lemma_empty_query_identity_up_to(items, items.len() as int);
}

proof fn lemma_empty_query_identity_up_to(items: Seq<Seq<char>>, n: int)
    requires
        0 <= n <= items.len() <= usize::MAX,
    ensures
        matching_indices_up_to(items, Seq::<char>::empty(), n).len() == n,
        forall|i: int| 0 <= i < n ==> matching_indices_up_to(items, Seq::<char>::empty(), n)[i] == i,
    decreases n,
{
    if n > 0 {
        lemma_empty_query_identity_up_to(items, n - 1);
    }
}

/// A strictly ascending sequence of `n` indices below `n` is the identity.
pub proof fn lemma_full_filter_is_identity(f: Seq<usize>, n: int)
    requires
        strictly_increasing(f),
        f.len() == n,
        forall|i: int| 0 <= i < n ==> (#[trigger] f[i]) < n,
    ensures
        forall|i: int| 0 <= i < n ==> (#[trigger] f[i]) == i,
{
    assert forall|i: int| 0 <= i < n implies (#[trigger] f[i]) == i by {
        lemma_increasing_lower_bound(f, i);
        lemma_increasing_upper_bound(f, n, i);
    }
}

proof fn lemma_increasing_lower_bound(f: Seq<usize>, i: int)
    requires
        strictly_increasing(f),
        0 <= i < f.len(),
    ensures
        f[i] >= i,
    decreases i,
{
    if i > 0 {
        lemma_increasing_lower_bound(f, i - 1);
    }
}

proof fn lemma_increasing_upper_bound(f: Seq<usize>, n: int, i: int)
    requires
        strictly_increasing(f),
        f.len() == n,
        forall|k: int| 0 <= k < n ==> (#[trigger] f[k]) < n,
        0 <= i < n,
    ensures
        f[i] <= i,
    decreases n - i,
{
    if i < n - 1 {
        lemma_increasing_upper_bound(f, n, i + 1);
    }
}

/// The cursor invariant: in every well-formed state the cursor lies inside
/// the non-empty filtered view (and rests at the origin of an empty one),
/// and whenever a layout is cached the viewport offset is a multiple of
/// its page capacity — the displayed page is the cursor's page.
pub proof fn lemma_cursor_invariant(s: SelectionState)
    requires
        s.wf(),
    ensures
        s.filtered_indices@.len() > 0 ==> s.cursor < s.filtered_indices@.len(),
        s.filtered_indices@.len() == 0 ==> s.cursor == 0,
        match s.cached_layout {
            Some(l) => (s.viewport_offset as int) % page_capacity(l) == 0,
            None => true,
        },
{
    match s.cached_layout {
        Some(l) => {
            assert(1 <= l.columns * l.rows_visible) by (nonlinear_arith)
                requires
                    1 <= l.columns,
                    1 <= l.rows_visible,
            ;
            lemma_page_start_bounds(s.cursor as int, page_capacity(l));
        },
        None => {},
    }
}

/// Selection identity stability: toggling the item at filtered position
/// `p` flips membership of the canonical index stored there — and once the
/// filter is cleared, that same canonical item sits at the filtered
/// position equal to its canonical index, still carrying the flipped
/// state. Selection is keyed by canonical index, never filtered position.
pub proof fn lemma_selection_identity_stability(
    items: Seq<Seq<char>>,
    query: Seq<char>,
    sel: Set<usize>,
    p: int,
)
    requires
        items.len() <= usize::MAX,
        0 <= p < matching_indices(items, query).len(),
    ensures
        ({
            let f = matching_indices(items, query);
            let c = f[p];
            let toggled = if sel.contains(c) {
                sel.remove(c)
            } else {
                sel.insert(c)
            };
            let full = matching_indices(items, Seq::<char>::empty());
            &&& toggled.contains(c) == !sel.contains(c)
            &&& full.len() == items.len()
            &&& c < full.len()
            &&& full[c as int] == c
            &&& toggled.contains(full[c as int]) == !sel.contains(c)
        }),
{
    lemma_matching_indices_range(items, query);
    lemma_empty_query_identity(items);
}

/// Whether `x` occurs in `v`.
fn sorted_contains(v: &Vec<usize>, x: usize) -> (r: bool)
    ensures
        r == v@.contains(x),
{
    let n = v.len();
    let mut i: usize = 0;
    while i < n
        invariant
            i <= n,
            n == v@.len(),
            forall|k: int| 0 <= k < i ==> (#[trigger] v@[k]) != x,
        decreases n - i,
    {
        if v[i] == x {
            proof {
                assert(v@.contains(x));
            }
            return true;
        }
        i += 1;
    }
    false
}



/// Insert `x` into the ascending, duplicate-free vector `v`, keeping it so;
/// nothing changes when `x` is already present.
fn sorted_insert(v: &mut Vec<usize>, x: usize)
    requires
        strictly_increasing(old(v)@),
    ensures
        strictly_increasing(final(v)@),
        forall|y: usize| final(v)@.contains(y) <==> old(v)@.contains(y) || y == x,
        final(v)@.to_set() == old(v)@.to_set().insert(x),
{
    let n = v.len();
    let mut pos: usize = 0;
    while pos < n && v[pos] < x
        invariant
            pos <= n,
            n == v@.len(),
            strictly_increasing(v@),
            v@ == old(v)@,
            forall|k: int| 0 <= k < pos ==> (#[trigger] v@[k]) < x,
        decreases n - pos,
    {
        pos += 1;
    }
    if pos < n && v[pos] == x {
        proof {
            assert(old(v)@.contains(x));
            assert(final(v)@.to_set() =~= old(v)@.to_set().insert(x));
        }
        return ;
    }
    let ghost pre = v@;
    v.insert(pos, x);
    proof {
        pre.insert_ensures(pos as int, x);
        assert(v@ == pre.insert(pos as int, x));
        // Everything left of the insertion point is below x; everything
        // right of it is above x.
        assert forall|i: int, j: int| 0 <= i < j < v@.len() implies v@[i] < v@[j] by {
            if j < pos {
                assert(v@[i] == pre[i] && v@[j] == pre[j]);
            } else if j == pos {
                assert(v@[i] == pre[i] && pre[i] < x);
            } else if i == pos {
                assert(v@[j] == pre[j - 1]);
                assert(pre[j - 1] >= pre[pos as int] > x || j - 1 == pos);
                assert(pre[j - 1] > x);
            } else if i < pos {
                assert(v@[i] == pre[i] && v@[j] == pre[j - 1]);
                assert(pre[i] < x);
                assert(pre[j - 1] >= pre[pos as int] > x || j - 1 == pos);
            } else {
                assert(v@[i] == pre[i - 1] && v@[j] == pre[j - 1]);
            }
        }
        assert forall|y: usize| final(v)@.contains(y) <==> pre.contains(y) || y == x by {
            if final(v)@.contains(y) {
                let k = choose|k: int| 0 <= k < v@.len() && v@[k] == y;
                if k < pos {
                    assert(pre[k] == y);
                } else if k > pos {
                    assert(pre[k - 1] == y);
                }
            }
            if pre.contains(y) {
                let k = choose|k: int| 0 <= k < pre.len() && pre[k] == y;
                if k < pos {
                    assert(v@[k] == y);
                } else {
                    assert(v@[k + 1] == y);
                }
            }
            if y == x {
                assert(v@[pos as int] == x);
            }
        }
        assert(final(v)@.to_set() =~= old(v)@.to_set().insert(x));
    }
}

/// Remove `x` from the ascending, duplicate-free vector `v`, keeping it so;
/// nothing changes when `x` is absent.
fn sorted_remove(v: &mut Vec<usize>, x: usize)
    requires
        strictly_increasing(old(v)@),
    ensures
        strictly_increasing(final(v)@),
        forall|y: usize| final(v)@.contains(y) <==> old(v)@.contains(y) && y != x,
        final(v)@.to_set() == old(v)@.to_set().remove(x),
{
    let n = v.len();
    let mut pos: usize = 0;
    while pos < n && v[pos] < x
        invariant
            pos <= n,
            n == v@.len(),
            strictly_increasing(v@),
            v@ == old(v)@,
            forall|k: int| 0 <= k < pos ==> (#[trigger] v@[k]) < x,
        decreases n - pos,
    {
        pos += 1;
    }
    if pos < n && v[pos] == x {
        let ghost pre = v@;
        let _ = v.remove(pos);
        proof {
            pre.remove_ensures(pos as int);
            assert(v@ == pre.remove(pos as int));
            assert forall|i: int, j: int| 0 <= i < j < v@.len() implies v@[i] < v@[j] by {
                if j < pos {
                    assert(v@[i] == pre[i] && v@[j] == pre[j]);
                } else if i < pos {
                    assert(v@[i] == pre[i] && v@[j] == pre[j + 1]);
                } else {
                    assert(v@[i] == pre[i + 1] && v@[j] == pre[j + 1]);
                }
            }
            assert forall|y: usize| final(v)@.contains(y) <==> pre.contains(y) && y != x by {
                if final(v)@.contains(y) {
                    let k = choose|k: int| 0 <= k < v@.len() && v@[k] == y;
                    if k < pos {
                        assert(pre[k] == y);
                        assert(pre[k] < x);
                    } else {
                        assert(pre[k + 1] == y);
                        assert(pre[k + 1] > pre[pos as int]);
                    }
                }
                if pre.contains(y) && y != x {
                    let k = choose|k: int| 0 <= k < pre.len() && pre[k] == y;
                    if k < pos {
                        assert(v@[k] == y);
                    } else {
                        assert(k != pos);
                        assert(v@[k - 1] == y);
                    }
                }
            }
            assert(final(v)@.to_set() =~= old(v)@.to_set().remove(x));
        }
    } else {
        proof {
            assert forall|y: usize| v@.contains(y) implies y != x by {
                let k = choose|k: int| 0 <= k < v@.len() && v@[k] == y;
                if k >= pos {
                    assert(v@[k] >= v@[pos as int] || k == pos);
                }
            }
            assert(final(v)@.to_set() =~= old(v)@.to_set().remove(x));
        }
    }
}

/// Relies on `crossterm::terminal::size`: reports the terminal's
/// `(columns, rows)`, or nothing when no terminal can be queried. The value
/// depends on the environment, so nothing is promised of it.
#[verifier::external_body]
pub(crate) fn query_terminal_size() -> (r: Option<(u16, u16)>) {
    crossterm::terminal::size().ok()
}

/// Every index the filter model yields is a position of `items`, they
/// ascend strictly, each matches the query, and every matching position is
/// present: the filtered view is exactly the matching indices, in order.
pub proof fn lemma_matching_indices_range(items: Seq<Seq<char>>, query: Seq<char>)
    requires
        items.len() <= usize::MAX,
    ensures
        ({
            let f = matching_indices(items, query);
            &&& strictly_increasing(f)
            &&& forall|j: int|
                0 <= j < f.len() ==> (#[trigger] f[j]) < items.len() && item_matches(
                    items[f[j] as int],
                    query,
                )
            &&& forall|i: int|
                0 <= i < items.len() && item_matches(#[trigger] items[i], query) ==> f.contains(
                    i as usize,
                )
        }),
{
    lemma_matching_indices_up_to(items, query, items.len() as int);
}

proof fn lemma_matching_indices_up_to(items: Seq<Seq<char>>, query: Seq<char>, n: int)
    requires
        n <= items.len() <= usize::MAX,
    ensures
        ({
            let f = matching_indices_up_to(items, query, n);
            &&& strictly_increasing(f)
            &&& forall|j: int|
                0 <= j < f.len() ==> (#[trigger] f[j]) < n && item_matches(
                    items[f[j] as int],
                    query,
                )
            &&& forall|i: int|
                0 <= i < n && item_matches(#[trigger] items[i], query) ==> f.contains(i as usize)
        }),
    decreases n,
{
    if n > 0 {
        lemma_matching_indices_up_to(items, query, n - 1);
        let prev = matching_indices_up_to(items, query, n - 1);
        let f = matching_indices_up_to(items, query, n);
        if item_matches(items[n - 1], query) {
            assert(f == prev.push((n - 1) as usize));
            assert forall|i: int|
                0 <= i < n && item_matches(#[trigger] items[i], query) implies f.contains(
                i as usize,
            ) by {
                if i < n - 1 {
                    assert(prev.contains(i as usize));
                    let k = choose|k: int| 0 <= k < prev.len() && prev[k] == i as usize;
                    assert(f[k] == i as usize);
                } else {
                    assert(f[f.len() - 1] == i as usize);
                }
            }
        } else {
            assert forall|i: int|
                0 <= i < n && item_matches(#[trigger] items[i], query) implies f.contains(
                i as usize,
            ) by {
                assert(prev.contains(i as usize));
            }
        }
    }
}

} // verus!
