//! Moving the shown part of the buffer.
use vstd::prelude::*;
use crate::binary_search::{closest_index, closest_from_bound, is_lower_bound, sorted};
use crate::keys::KeyCode;
use crate::window::{LogriaConfig, MainWindow, ScrollState, centered_end};

verus! {

/// `new` differs from `old` in its configuration alone.
pub open spec fn only_config_changed(new: &MainWindow, old: &MainWindow) -> bool {
    &&& new.input_type == old.input_type
    &&& new.previous_input_type == old.previous_input_type
    &&& new.actions@ == old.actions@
    &&& new.length_finder == old.length_finder
}

/// The end of the shown range after one step up.
pub open spec fn end_after_up(end: usize) -> usize {
    if end <= 2 { 1 } else { (end - 1) as usize }
}

/// The end of the shown range after one step down, given `n` messages.
pub open spec fn end_after_down(end: usize, n: nat) -> usize {
    if end + 1 <= n { (end + 1) as usize } else { n as usize }
}

/// The end of the shown range after `k` steps up.
pub open spec fn end_after_ups(end: usize, k: nat) -> usize {
    if k == 0 { end } else if end <= k + 1 { 1 } else { (end - k) as usize }
}

/// The end of the shown range after `k` steps down, given `n` messages.
pub open spec fn end_after_downs(end: usize, k: nat, n: nat) -> usize {
    if k == 0 { end } else if end + k <= n { (end + k) as usize } else { n as usize }
}

/// Scroll up one message; the end of the shown range stays at least 1.
pub fn up(window: &mut MainWindow)
    ensures
        final(window).config == (LogriaConfig {
            scroll_state: ScrollState::Free,
            current_end: end_after_up(old(window).config.current_end),
            ..old(window).config
        }),
        only_config_changed(final(window), old(window)),
{
    window.config.scroll_state = ScrollState::Free;
    let e = window.config.current_end;
    let lowered = if e > 0 { e - 1 } else { 0 };
    window.config.current_end = if lowered > 1 { lowered } else { 1 };
}

/// Scroll down one message, never past the last one.
pub fn down(window: &mut MainWindow)
    requires
        old(window).config.current_end < usize::MAX,
    ensures
        final(window).config == (LogriaConfig {
            scroll_state: ScrollState::Free,
            current_end: end_after_down(old(window).config.current_end, old(window).num_messages()),
            ..old(window).config
        }),
        only_config_changed(final(window), old(window)),
{
    window.config.scroll_state = ScrollState::Free;
    let num_messages = window.number_of_messages();
    let next = window.config.current_end + 1;
    window.config.current_end = if num_messages < next { num_messages } else { next };
}

/// Scroll up a page: one step per row of the window.
pub fn pg_up(window: &mut MainWindow)
    ensures
        final(window).config == (LogriaConfig {
            scroll_state: if old(window).config.last_row == 0 { old(window).config.scroll_state } else { ScrollState::Free },
            current_end: end_after_ups(old(window).config.current_end, old(window).config.last_row as nat),
            ..old(window).config
        }),
        only_config_changed(final(window), old(window)),
{
    let rows = window.config.last_row;
    let mut k: u16 = 0;
    while k < rows
        invariant
            k <= rows,
            rows == old(window).config.last_row,
            window.config == (LogriaConfig {
                scroll_state: if k == 0 { old(window).config.scroll_state } else { ScrollState::Free },
                current_end: end_after_ups(old(window).config.current_end, k as nat),
                ..old(window).config
            }),
            only_config_changed(window, old(window)),
        decreases rows - k,
    {
        up(window);
        k = k + 1;
    }
}

/// Scroll down a page: one step per row of the window.
pub fn pg_down(window: &mut MainWindow)
    requires
        old(window).config.current_end < usize::MAX,
        old(window).num_messages() < usize::MAX,
    ensures
        final(window).config == (LogriaConfig {
            scroll_state: if old(window).config.last_row == 0 { old(window).config.scroll_state } else { ScrollState::Free },
            current_end: end_after_downs(old(window).config.current_end, old(window).config.last_row as nat, old(window).num_messages()),
            ..old(window).config
        }),
        only_config_changed(final(window), old(window)),
{
    let rows = window.config.last_row;
    let ghost n = old(window).num_messages();
    let mut k: u16 = 0;
    while k < rows
        invariant
            k <= rows,
            rows == old(window).config.last_row,
            n == old(window).num_messages(),
            n < usize::MAX,
            old(window).config.current_end < usize::MAX,
            window.config == (LogriaConfig {
                scroll_state: if k == 0 { old(window).config.scroll_state } else { ScrollState::Free },
                current_end: end_after_downs(old(window).config.current_end, k as nat, n),
                ..old(window).config
            }),
            only_config_changed(window, old(window)),
        decreases rows - k,
    {
        assert(window.num_messages() == n);
        down(window);
        k = k + 1;
    }
}

/// Follow the newest messages.
pub fn bottom(window: &mut MainWindow)
    ensures
        final(window).config == (LogriaConfig { scroll_state: ScrollState::Bottom, ..old(window).config }),
        only_config_changed(final(window), old(window)),
{
    window.config.scroll_state = ScrollState::Bottom;
}

/// Show the oldest messages.
pub fn top(window: &mut MainWindow)
    ensures
        final(window).config == (LogriaConfig { scroll_state: ScrollState::Top, ..old(window).config }),
        only_config_changed(final(window), old(window)),
{
    window.config.scroll_state = ScrollState::Top;
}

/// `(start + end) / 2` without overflow.
pub open spec fn midpoint(start: usize, end: usize) -> usize {
    ((start + end) / 2) as usize
}

/// The match the highlight search moves to, by scroll state; for a free
/// scroll, `closest` is the match nearest the middle of the last render.
pub open spec fn next_match(state: ScrollState, current: usize, len: nat, closest: Option<usize>, scroll_up: bool) -> usize {
    match state {
        ScrollState::Free => match closest {
            Some(i) => i,
            None => current,
        },
        ScrollState::Top => 0,
        ScrollState::Bottom => if len == 0 { 0 } else { (len - 1) as usize },
        ScrollState::Centered => if scroll_up {
            if current == 0 { 0 } else { (current - 1) as usize }
        } else {
            let last: int = if len == 0 { 0 } else { len - 1 };
            if current + 1 <= last { (current + 1) as usize } else { last as usize }
        },
    }
}

/// `n` is `c` after the highlight search moved to its next match.
pub open spec fn match_moved(c: LogriaConfig, n: LogriaConfig, scroll_up: bool) -> bool {
    let rows = c.matched_rows@;
    let mid = midpoint(c.previous_render.0, c.previous_render.1);
    &&& forall|p: int| is_lower_bound(rows, mid, p) ==> n.current_matched_row == next_match(
        c.scroll_state,
        c.current_matched_row,
        rows.len(),
        closest_from_bound(rows, mid, p),
        scroll_up,
    )
    &&& c.scroll_state != ScrollState::Free ==> n.current_matched_row == next_match(
        c.scroll_state,
        c.current_matched_row,
        rows.len(),
        None,
        scroll_up,
    )
    &&& n == (LogriaConfig {
        current_matched_row: n.current_matched_row,
        scroll_state: if c.scroll_state == ScrollState::Free || rows.len() > 0 {
            ScrollState::Centered
        } else {
            c.scroll_state
        },
        ..c
    })
}

/// Move to the match that the highlight search should show next.
pub fn update_current_match_index(window: &mut MainWindow, scroll_up: bool)
    requires
        old(window).config.scroll_state == ScrollState::Free ==> sorted(old(window).config.matched_rows@),
        old(window).config.scroll_state == ScrollState::Centered && !scroll_up ==> old(window).config.current_matched_row < usize::MAX,
    ensures
        match_moved(old(window).config, final(window).config, scroll_up),
        only_config_changed(final(window), old(window)),
{
    match window.config.scroll_state {
        ScrollState::Free => {
            let (start, end) = window.config.previous_render;
            let render_midpoint = start / 2 + end / 2 + (start % 2 + end % 2) / 2;
            assert(render_midpoint == midpoint(start, end));
            window.config.current_matched_row = match closest_index(window.config.matched_rows.as_slice(), render_midpoint) {
                Some(i) => i,
                None => window.config.current_matched_row,
            };
            window.config.scroll_state = ScrollState::Centered;
        },
        ScrollState::Top => {
            window.config.current_matched_row = 0;
            if !window.config.matched_rows.is_empty() {
                window.config.scroll_state = ScrollState::Centered;
            }
        },
        ScrollState::Bottom => {
            let len = window.config.matched_rows.len();
            window.config.current_matched_row = if len > 0 { len - 1 } else { 0 };
            if !window.config.matched_rows.is_empty() {
                window.config.scroll_state = ScrollState::Centered;
            }
        },
        ScrollState::Centered => {
            let current = window.config.current_matched_row;
            if scroll_up {
                window.config.current_matched_row = if current > 0 { current - 1 } else { 0 };
            } else {
                let len = window.config.matched_rows.len();
                let last = if len > 0 { len - 1 } else { 0 };
                window.config.current_matched_row = if current + 1 <= last { current + 1 } else { last };
            }
        },
    }
}

/// One step down undoes one step up, away from the two ends of the buffer.
pub proof fn law_down_undoes_up(end: usize, n: nat)
    requires
        2 <= end <= n,
    ensures
        end_after_down(end_after_up(end), n) == end,
{
}

/// A page down undoes a page up, away from the two ends of the buffer.
pub proof fn law_pg_down_undoes_pg_up(end: usize, rows: nat, n: nat)
    requires
        rows + 1 <= end <= n,
    ensures
        end_after_downs(end_after_ups(end, rows), rows, n) == end,
{
}

/// Scrolling down never passes the last message, scrolling up never
/// leaves the first row.
pub proof fn law_scroll_bounds(end: usize, k: nat, n: nat)
    requires
        k > 0,
    ensures
        end_after_downs(end, k, n) <= n || end_after_downs(end, k, n) == end,
        end <= n ==> end_after_downs(end, k, n) <= n,
        end_after_ups(end, k) >= 1,
{
}

/// In the centered state the current match is inside the rendered range.
pub proof fn law_centered_match_visible(w: &MainWindow)
    requires
        w.config.scroll_state == ScrollState::Centered,
        w.config.current_matched_row < w.config.matched_rows@.len(),
        w.config.matched_rows@[w.config.current_matched_row as int] < w.num_messages(),
        w.config.last_row >= 1,
        w.num_messages() <= usize::MAX,
    ensures
        w.render_position().0 <= w.config.matched_rows@[w.config.current_matched_row as int] < w.render_position().1,
{
    let n = w.num_messages() as int;
    let lr = w.config.last_row as int;
    let mid = w.config.matched_rows@[w.config.current_matched_row as int] as int;
    if n > lr {
        let e = centered_end(mid, lr, n);
        assert(e >= mid + 1);
        assert(e > lr ==> e - lr <= mid);
    }
}

/// The highlight search keeps its current match among the matches.
pub proof fn law_match_index_in_range(state: ScrollState, current: usize, len: nat, closest: Option<usize>, scroll_up: bool)
    requires
        len > 0,
        state == ScrollState::Centered ==> current < len,
        closest matches Some(i) ==> i < len,
        state == ScrollState::Free ==> closest is Some,
    ensures
        next_match(state, current, len, closest, scroll_up) < len,
{
}

/// A sorted list has a lower bound for every value.
proof fn lemma_lower_bound_exists(s: Seq<usize>, t: usize) -> (p: int)
    requires
        sorted(s),
    ensures
        is_lower_bound(s, t, p),
    decreases s.len(),
{
    if s.len() == 0 {
        0
    } else {
        let d = s.drop_last();
        assert(sorted(d)) by {
            assert forall|i: int, j: int| 0 <= i <= j < d.len() implies d[i] <= d[j] by {
                assert(d[i] == s[i] && d[j] == s[j]);
            }
        }
        let q = lemma_lower_bound_exists(d, t);
        assert forall|i: int| 0 <= i < q implies s[i] < t by {
            assert(d[i] == s[i]);
        }
        assert forall|i: int| q <= i < s.len() - 1 implies s[i] >= t by {
            assert(d[i] == s[i]);
        }
        if q < s.len() - 1 {
            assert(d[q] == s[q]);
            assert(s[s.len() - 1] >= s[q]);
            q
        } else if s[s.len() - 1] < t {
            s.len() as int
        } else {
            q
        }
    }
}

/// Moving to the next match, in any scroll state, keeps the current match
/// among the matches and centers the view on it, changing nothing else but
/// the match and the scroll state.
pub proof fn law_move_keeps_match_in_range(c: LogriaConfig, n: LogriaConfig, scroll_up: bool)
    requires
        match_moved(c, n, scroll_up),
        c.matched_rows@.len() > 0,
        c.scroll_state == ScrollState::Centered ==> c.current_matched_row < c.matched_rows@.len(),
        c.scroll_state == ScrollState::Free ==> sorted(c.matched_rows@),
    ensures
        n.current_matched_row < n.matched_rows@.len(),
        n.scroll_state == ScrollState::Centered,
        n.matched_rows == c.matched_rows,
        n.previous_render == c.previous_render,
        n.current_end == c.current_end,
{
    let rows = c.matched_rows@;
    if c.scroll_state == ScrollState::Free {
        let mid = midpoint(c.previous_render.0, c.previous_render.1);
        let p = lemma_lower_bound_exists(rows, mid);
        assert(is_lower_bound(rows, mid, p));
    }
}

/// Whether a key scrolls. With `swapped_pages`, Page Up pages down and Page
/// Down pages up.
pub open spec fn is_scroll_key(key: KeyCode) -> bool {
    match key {
        KeyCode::Down | KeyCode::Up | KeyCode::Left | KeyCode::Right | KeyCode::Home | KeyCode::End
        | KeyCode::PageUp | KeyCode::PageDown => true,
        _ => false,
    }
}

/// Whether Page Up pages down for this key mapping.
pub open spec fn pages_down(key: KeyCode, swapped_pages: bool) -> bool {
    (key == KeyCode::PageUp && swapped_pages) || (key == KeyCode::PageDown && !swapped_pages)
}

/// Whether scrolling with `key` cannot overflow.
pub open spec fn scroll_safe(w: &MainWindow, key: KeyCode, swapped_pages: bool) -> bool {
    &&& key == KeyCode::Down ==> w.config.current_end < usize::MAX
    &&& pages_down(key, swapped_pages) ==> w.config.current_end < usize::MAX && w.num_messages() < usize::MAX
}

/// The configuration after scrolling with `key` over `n` messages.
pub open spec fn scrolled(c: LogriaConfig, key: KeyCode, n: nat, swapped_pages: bool) -> LogriaConfig {
    match key {
        KeyCode::Down => LogriaConfig { scroll_state: ScrollState::Free, current_end: end_after_down(c.current_end, n), ..c },
        KeyCode::Up => LogriaConfig { scroll_state: ScrollState::Free, current_end: end_after_up(c.current_end), ..c },
        KeyCode::Left | KeyCode::Home => LogriaConfig { scroll_state: ScrollState::Top, ..c },
        KeyCode::Right | KeyCode::End => LogriaConfig { scroll_state: ScrollState::Bottom, ..c },
        KeyCode::PageUp | KeyCode::PageDown => if pages_down(key, swapped_pages) {
            LogriaConfig {
                scroll_state: if c.last_row == 0 { c.scroll_state } else { ScrollState::Free },
                current_end: end_after_downs(c.current_end, c.last_row as nat, n),
                ..c
            }
        } else {
            LogriaConfig {
                scroll_state: if c.last_row == 0 { c.scroll_state } else { ScrollState::Free },
                current_end: end_after_ups(c.current_end, c.last_row as nat),
                ..c
            }
        },
        _ => c,
    }
}

/// Whether `key` scrolls (see `is_scroll_key`).
pub fn scrolls(key: KeyCode) -> (r: bool)
    ensures
        r == is_scroll_key(key),
{
    match key {
        KeyCode::Down | KeyCode::Up | KeyCode::Left | KeyCode::Right | KeyCode::Home | KeyCode::End
        | KeyCode::PageUp | KeyCode::PageDown => true,
        _ => false,
    }
}

/// Whether scrolling with `key` cannot overflow (see `scroll_safe`).
pub fn scroll_is_safe(window: &MainWindow, key: KeyCode, swapped_pages: bool) -> (r: bool)
    ensures
        r == scroll_safe(window, key, swapped_pages),
{
    let end_ok = window.config.current_end < usize::MAX;
    let pages = (key == KeyCode::PageUp && swapped_pages) || (key == KeyCode::PageDown && !swapped_pages);
    (key != KeyCode::Down || end_ok) && (!pages || (end_ok && window.number_of_messages() < usize::MAX))
}

/// Scroll with a key if it is a scroll key; returns whether it was.
pub fn scroll_by_key(window: &mut MainWindow, key: KeyCode, swapped_pages: bool) -> (r: bool)
    requires
        scroll_safe(old(window), key, swapped_pages),
    ensures
        r == is_scroll_key(key),
        final(window).config == scrolled(old(window).config, key, old(window).num_messages(), swapped_pages),
        only_config_changed(final(window), old(window)),
{
    match key {
        KeyCode::Down => down(window),
        KeyCode::Up => up(window),
        KeyCode::Left | KeyCode::Home => top(window),
        KeyCode::Right | KeyCode::End => bottom(window),
        KeyCode::PageUp => {
            if swapped_pages {
                pg_down(window)
            } else {
                pg_up(window)
            }
        },
        KeyCode::PageDown => {
            if swapped_pages {
                pg_up(window)
            } else {
                pg_down(window)
            }
        },
        _ => {
            return false;
        },
    }
    true
}

} // verus!
