//! Highlight mode: every message stays on screen, the matches of the typed
//! pattern are colored, and Page Up and Page Down jump between matches.
use vstd::prelude::*;
use crate::binary_search::sorted;
use crate::constants::{COMMAND_CHAR, HIGHLIGHT_CHAR, TOGGLE_HIGHLIGHT_CHAR};
use crate::history::Tape;
use crate::keys::KeyCode;
use crate::pattern::bytes_regex_error;
use crate::render::{lemma_redraw_keeps, redrawn};
use crate::scroll::{is_scroll_key, match_moved, only_config_changed, scroll_by_key, scroll_safe, scrolled, update_current_match_index};
use crate::search::{lemma_matching_bounds, matching_indexes, message_matches, SearchState};
use crate::user_input::{after_key, key_safe};
use crate::window::{eq_but_render, lemma_ready, InputType, LogriaConfig, MainWindow, ScrollState};

verus! {

/// Handles keys in highlight mode.
pub struct HighlightHandler {
    pub search: SearchState,
}

/// The matched rows are in order and all below the next message to search.
pub open spec fn rows_ordered(w: &MainWindow) -> bool {
    &&& sorted(w.config.matched_rows@)
    &&& forall|i: int| 0 <= i < w.config.matched_rows@.len() ==> #[trigger] w.config.matched_rows@[i] < w.config.last_index_regexed
}

/// Whether a window can take a key in highlight mode without failing.
pub open spec fn highlight_ready(w: &MainWindow) -> bool {
    &&& w.sized()
    &&& w.rows_valid()
    &&& rows_ordered(w)
    &&& w.input_type != InputType::Parser
}

/// Whether a scroll key cannot overflow in highlight mode, where the page
/// keys jump between matches.
pub open spec fn highlight_scroll_safe(w: &MainWindow, key: KeyCode) -> bool {
    &&& key == KeyCode::Down ==> w.config.current_end < usize::MAX
    &&& key == KeyCode::PageDown && w.config.scroll_state == ScrollState::Centered ==> w.config.current_matched_row < usize::MAX
}

/// `c` with the match and the scroll state of `n`.
pub open spec fn moved_config(c: LogriaConfig, n: LogriaConfig) -> LogriaConfig {
    LogriaConfig { current_matched_row: n.current_matched_row, scroll_state: n.scroll_state, ..c }
}

/// What a key does in highlight mode, up to what a render records.
pub open spec fn highlight_outcome(old_h: &HighlightHandler, new_h: &HighlightHandler, old_w: &MainWindow, new_w: &MainWindow, key: KeyCode) -> bool {
    let c = old_w.config;
    let typed = old_h.search.input().content;
    if old_h.search.pattern() is Some {
        if key == KeyCode::PageUp || key == KeyCode::PageDown {
            &&& match_moved(c, moved_config(c, new_w.config), key == KeyCode::PageUp)
            &&& eq_but_render(new_w.config, moved_config(c, new_w.config))
            &&& new_w.input_type == old_w.input_type
        } else if is_scroll_key(key) {
            &&& eq_but_render(new_w.config, scrolled(c, key, old_w.num_messages(), false))
            &&& new_w.input_type == old_w.input_type
        } else if key == KeyCode::Char(HIGHLIGHT_CHAR) {
            &&& new_h.search.pattern() is None
            &&& new_w.config.matched_rows@.len() == 0
            &&& eq_but_render(new_w.config, LogriaConfig {
                regex_pattern: None,
                matched_rows: new_w.config.matched_rows,
                last_index_regexed: 0,
                highlight_match: false,
                scroll_state: ScrollState::Free,
                ..c
            })
            &&& new_w.input_type == old_w.input_type
        } else if key == KeyCode::Char(TOGGLE_HIGHLIGHT_CHAR) {
            &&& eq_but_render(new_w.config, LogriaConfig { highlight_match: !c.highlight_match, ..c })
            &&& new_w.input_type == old_w.input_type
        } else if key == KeyCode::Char(COMMAND_CHAR) {
            &&& eq_but_render(new_w.config, LogriaConfig { delete_func: None, ..c })
            &&& new_w.input_type == InputType::Command
        } else if key == KeyCode::Esc {
            &&& new_h.search.pattern() is None
            &&& new_w.config.matched_rows@.len() == 0
            &&& eq_but_render(new_w.config, LogriaConfig {
                regex_pattern: None,
                matched_rows: new_w.config.matched_rows,
                last_index_regexed: 0,
                highlight_match: false,
                scroll_state: ScrollState::Free,
                current_matched_row: 0,
                current_status: None,
                ..c
            })
            &&& new_w.input_type == InputType::Normal
        } else {
            &&& eq_but_render(new_w.config, c)
            &&& new_w.input_type == old_w.input_type
        }
    } else {
        if key == KeyCode::Enter {
            &&& new_h.search.input().content.len() == 0
            &&& new_w.input_type == old_w.input_type
            &&& new_w.config.highlight_match
            &&& (bytes_regex_error(typed) is None ==> {
                &&& new_h.search.pattern() == Some(typed)
                &&& new_w.config.regex_pattern matches Some(p) && p@ == typed
                &&& new_w.config.matched_rows@ == c.matched_rows@ + matching_indexes(
                    typed,
                    old_h.search.ansi(),
                    old_w.msgs(),
                    c.last_index_regexed as int,
                    old_w.msgs().len() as int,
                )
            })
            &&& (bytes_regex_error(typed) is Some ==> {
                &&& new_h.search.pattern() is None
                &&& eq_but_render(new_w.config, LogriaConfig { highlight_match: true, ..c })
            })
        } else if key == KeyCode::Esc {
            &&& new_h.search.pattern() is None
            &&& new_w.config.matched_rows@.len() == 0
            &&& eq_but_render(new_w.config, LogriaConfig {
                regex_pattern: None,
                matched_rows: new_w.config.matched_rows,
                last_index_regexed: 0,
                highlight_match: false,
                scroll_state: ScrollState::Free,
                current_matched_row: 0,
                current_status: None,
                ..c
            })
            &&& new_w.input_type == InputType::Normal
        } else {
            &&& new_h.search.pattern() is None
            &&& new_h.search.input() == after_key(old_h.search.input(), key, c.width, c.height)
            &&& eq_but_render(new_w.config, c)
            &&& new_w.input_type == old_w.input_type
        }
    }
}

/// A render after a key keeps what the key did.
proof fn lemma_outcome_after_render(
    old_h: &HighlightHandler,
    new_h: &HighlightHandler,
    old_w: &MainWindow,
    mid: &MainWindow,
    fin: &MainWindow,
    key: KeyCode,
)
    requires
        highlight_outcome(old_h, new_h, old_w, mid, key),
        eq_but_render(fin.config, mid.config),
        fin.input_type == mid.input_type,
    ensures
        highlight_outcome(old_h, new_h, old_w, fin, key),
{
    if old_h.search.pattern() is Some && (key == KeyCode::PageUp || key == KeyCode::PageDown) {
        assert(moved_config(old_w.config, fin.config) == moved_config(old_w.config, mid.config));
    }
}

impl HighlightHandler {
    /// A handler with no pattern yet, over the given history.
    pub fn new(history: Tape) -> (r: HighlightHandler)
        requires
            history.wf(),
        ensures
            r.search.wf(),
            r.search.pattern() is None,
            r.search.input().content.len() == 0,
            r.search.input().history == history@,
    {
        HighlightHandler { search: SearchState::new(history) }
    }

    /// Whether a message matches the pattern once its color codes are
    /// removed. There must be a pattern.
    pub fn test(&self, message: &str) -> (r: bool)
        requires
            self.search.pattern() is Some,
        ensures
            r == message_matches(self.search.pattern()->Some_0, self.search.ansi(), message@),
    {
        self.search.test(message)
    }

    /// Take the typed pattern (see `SearchState::set_pattern`).
    pub fn set_pattern(&mut self, window: &mut MainWindow)
        requires
            old(self).search.wf(),
            old(window).sized(),
        ensures
            final(self).search.wf(),
            final(self).search.ansi() == old(self).search.ansi(),
            final(self).search.input().content.len() == 0,
            ({
                let typed = old(self).search.input().content;
                &&& bytes_regex_error(typed) is None ==> {
                    &&& final(self).search.pattern() == Some(typed)
                    &&& final(window).config.regex_pattern matches Some(p) && p@ == typed
                    &&& final(window).config.current_status matches Some(s)
                        && s@ == "Highlight with pattern /"@ + typed + "/"@
                }
                &&& bytes_regex_error(typed) matches Some(e) ==> {
                    &&& final(self).search.pattern() is None
                    &&& final(window).config.regex_pattern == old(window).config.regex_pattern
                    &&& final(window).config.current_status == old(window).config.current_status
                }
            }),
            final(window).config == (LogriaConfig {
                regex_pattern: final(window).config.regex_pattern,
                current_status: final(window).config.current_status,
                highlight_match: true,
                ..old(window).config
            }),
            final(window).input_type == old(window).input_type,
            final(window).length_finder == old(window).length_finder,
    {
        self.search.set_pattern(window, "Highlight");
        proof {
            reveal_strlit("Highlight");
            reveal_strlit(" with pattern /");
            reveal_strlit("Highlight with pattern /");
            assert("Highlight"@ + " with pattern /"@ =~= "Highlight with pattern /"@);
        }
    }

    /// Jump to the previous match.
    pub fn pg_up(&self, window: &mut MainWindow)
        requires
            old(window).config.scroll_state == ScrollState::Free ==> sorted(old(window).config.matched_rows@),
        ensures
            match_moved(old(window).config, final(window).config, true),
            only_config_changed(final(window), old(window)),
    {
        update_current_match_index(window, true);
    }

    /// Jump to the next match.
    pub fn pg_down(&self, window: &mut MainWindow)
        requires
            old(window).config.scroll_state == ScrollState::Free ==> sorted(old(window).config.matched_rows@),
            old(window).config.scroll_state == ScrollState::Centered ==> old(window).config.current_matched_row < usize::MAX,
        ensures
            match_moved(old(window).config, final(window).config, false),
            only_config_changed(final(window), old(window)),
    {
        update_current_match_index(window, false);
    }

    /// Record the matches among the messages not yet searched; no progress
    /// is reported.
    pub fn process_matches(&mut self, window: &mut MainWindow)
        requires
            old(window).sized(),
            old(window).msgs().len() <= usize::MAX / 100,
        ensures
            final(self).search.pattern() == old(self).search.pattern(),
            final(self).search.input() == old(self).search.input(),
            final(self).search.ansi() == old(self).search.ansi(),
            final(window).input_type == old(window).input_type,
            final(window).msgs() == old(window).msgs(),
            old(window).rows_valid() ==> final(window).rows_valid(),
            rows_ordered(old(window)) ==> rows_ordered(final(window)),
            old(self).search.pattern() matches Some(p) ==> {
                let start = old(window).config.last_index_regexed as int;
                let end = old(window).msgs().len() as int;
                &&& final(window).config.matched_rows@ == old(window).config.matched_rows@
                    + matching_indexes(p, old(self).search.ansi(), old(window).msgs(), start, end)
                &&& final(window).config == (LogriaConfig {
                    matched_rows: final(window).config.matched_rows,
                    last_index_regexed: if start < end { end as usize } else { start as usize },
                    ..old(window).config
                })
                &&& final(window).ui() == old(window).ui()
            },
            old(self).search.pattern() is None ==> *final(window) == *old(window),
    {
        self.search.scan(window, false);
        proof {
            if old(self).search.pattern() is Some {
                let p = old(self).search.pattern()->Some_0;
                let start = old(window).config.last_index_regexed as int;
                let end = old(window).msgs().len() as int;
                let found = matching_indexes(p, old(self).search.ansi(), old(window).msgs(), start, end);
                let rows = window.config.matched_rows@;
                let n0 = old(window).config.matched_rows@.len();
                lemma_matching_bounds(p, old(self).search.ansi(), old(window).msgs(), start, end);
                assert(window.ui() =~= old(window).ui());
                assert forall|i: int| n0 <= i < rows.len() implies #[trigger] rows[i] == found[i - n0] && start <= rows[i] < end by {}
                if old(window).rows_valid() {
                    assert forall|i: int| 0 <= i < rows.len() implies #[trigger] rows[i] < window.msgs().len() by {
                        if i < n0 {
                            assert(rows[i] == old(window).config.matched_rows@[i]);
                        }
                    }
                }
                if rows_ordered(old(window)) {
                    assert forall|i: int, j: int| 0 <= i <= j < rows.len() implies rows[i] <= rows[j] by {
                        if j < n0 {
                            assert(rows[i] == old(window).config.matched_rows@[i]);
                            assert(rows[j] == old(window).config.matched_rows@[j]);
                        } else if i < n0 {
                            assert(rows[i] == old(window).config.matched_rows@[i]);
                        } else if i < j {
                            assert(found[i - n0] < found[j - n0]);
                        }
                    }
                    assert forall|i: int| 0 <= i < rows.len() implies #[trigger] rows[i] < window.config.last_index_regexed by {
                        if i < n0 {
                            assert(rows[i] == old(window).config.matched_rows@[i]);
                        }
                    }
                }
            }
        }
    }

    /// Forget the pattern and its matches, and stop following them.
    pub fn clear_matches(&mut self, window: &mut MainWindow)
        requires
            old(window).sized(),
        ensures
            final(self).search.pattern() is None,
            final(self).search.input() == old(self).search.input(),
            final(window).config.matched_rows@.len() == 0,
            final(window).config == (LogriaConfig {
                regex_pattern: None,
                matched_rows: final(window).config.matched_rows,
                last_index_regexed: 0,
                highlight_match: false,
                scroll_state: ScrollState::Free,
                ..old(window).config
            }),
            final(window).input_type == old(window).input_type,
            final(window).length_finder == old(window).length_finder,
    {
        self.search.clear_matches(window);
        window.config.scroll_state = ScrollState::Free;
    }

    /// Forget the pattern and go back to normal mode, leaving the match
    /// that was followed.
    pub fn return_to_normal(&mut self, window: &mut MainWindow)
        requires
            old(self).search.wf(),
            old(window).sized(),
            old(window).rows_valid(),
        ensures
            final(self).search.wf(),
            final(self).search.pattern() is None,
            final(window).config.matched_rows@.len() == 0,
            eq_but_render(final(window).config, LogriaConfig {
                regex_pattern: None,
                matched_rows: final(window).config.matched_rows,
                last_index_regexed: 0,
                highlight_match: false,
                scroll_state: ScrollState::Free,
                current_matched_row: 0,
                current_status: None,
                ..old(window).config
            }),
            final(window).input_type == InputType::Normal,
    {
        self.clear_matches(window);
        window.config.current_matched_row = 0;
        if window.config.scroll_state == ScrollState::Centered {
            window.config.scroll_state = ScrollState::Free;
        }
        self.search.finish_return_to_normal(window);
    }

    /// Render, keeping what the render does not change.
    fn redraw(window: &mut MainWindow)
        requires
            highlight_ready(old(window)),
        ensures
            crate::render::render_post(&MainWindow { config: LogriaConfig { previous_render: (0usize, 0usize), ..old(window).config }, ..*old(window) }, final(window)),
            highlight_ready(final(window)),
            eq_but_render(final(window).config, old(window).config),
            final(window).input_type == old(window).input_type,
            final(window).previous_input_type == old(window).previous_input_type,
            final(window).length_finder == old(window).length_finder,
    {
        proof {
            lemma_ready(window);
        }
        let ghost before = *window;
        window.redraw();
        proof {
            lemma_redraw_keeps(&before, window);
        }
    }

    /// Whether `receive_input` can take `key`: a move must not overflow
    /// while a pattern is set, and an edit must suit the editor while none is.
    pub fn can_take(&self, window: &MainWindow, key: KeyCode) -> (r: bool)
        requires
            self.search.wf(),
        ensures
            r == ({
                &&& self.search.pattern() is Some ==> highlight_scroll_safe(window, key)
                &&& self.search.pattern() is None && key != KeyCode::Enter && key != KeyCode::Esc
                    ==> key_safe(self.search.input(), key, window.config.width)
            }),
    {
        if self.search.has_pattern() {
            (key != KeyCode::Down || window.config.current_end < usize::MAX)
                && (!(key == KeyCode::PageDown && window.config.scroll_state == ScrollState::Centered)
                || window.config.current_matched_row < usize::MAX)
        } else if key == KeyCode::Enter || key == KeyCode::Esc {
            true
        } else {
            self.search.can_edit(key, window.config.width)
        }
    }

    /// React to a key in highlight mode. With a pattern: scroll, jump to
    /// the previous or next match, start a new pattern, toggle the
    /// highlighting, enter command mode or leave. While typing one: take it
    /// on Enter and search with it, leave on Escape, or edit it. A render
    /// follows.
    pub fn receive_input(&mut self, window: &mut MainWindow, key: KeyCode)
        requires
            old(self).search.wf(),
            highlight_ready(old(window)),
            old(window).msgs().len() <= usize::MAX / 100,
            old(self).search.pattern() is Some ==> highlight_scroll_safe(old(window), key),
            old(self).search.pattern() is None && key != KeyCode::Enter && key != KeyCode::Esc
                ==> key_safe(old(self).search.input(), key, old(window).config.width),
        ensures
            final(self).search.wf(),
            highlight_ready(final(window)),
            highlight_outcome(old(self), final(self), old(window), final(window), key),
            exists|mid: MainWindow| #[trigger] redrawn(&mid, final(window)) && highlight_outcome(old(self), final(self), old(window), &mid, key),
    {
        if self.search.has_pattern() {
            self.receive_with_pattern(window, key);
        } else {
            self.receive_typing(window, key);
        }
        let ghost mid = *window;
        Self::redraw(window);
        proof {
            lemma_outcome_after_render(old(self), self, old(window), &mid, window, key);
            assert(redrawn(&mid, window));
        }
    }

    fn jump(&self, window: &mut MainWindow, up: bool)
        requires
            highlight_ready(old(window)),
            old(window).config.scroll_state == ScrollState::Centered && !up ==> old(window).config.current_matched_row < usize::MAX,
        ensures
            highlight_ready(final(window)),
            match_moved(old(window).config, moved_config(old(window).config, final(window).config), up),
            final(window).config == moved_config(old(window).config, final(window).config),
            final(window).input_type == old(window).input_type,
    {
        if up {
            self.pg_up(window);
        } else {
            self.pg_down(window);
        }
    }

    fn receive_with_pattern(&mut self, window: &mut MainWindow, key: KeyCode)
        requires
            old(self).search.wf(),
            highlight_ready(old(window)),
            old(self).search.pattern() is Some,
            highlight_scroll_safe(old(window), key),
        ensures
            final(self).search.wf(),
            highlight_ready(final(window)),
            highlight_outcome(old(self), final(self), old(window), final(window), key),
    {
        if key == KeyCode::PageUp || key == KeyCode::PageDown {
            self.jump(window, key == KeyCode::PageUp);
        } else if scroll_by_key(window, key, false) {
        } else if key == KeyCode::Char(HIGHLIGHT_CHAR) {
            self.clear_matches(window);
            Self::redraw(window);
            window.set_cli_cursor(None);
        } else if key == KeyCode::Char(TOGGLE_HIGHLIGHT_CHAR) {
            window.config.highlight_match = !window.config.highlight_match;
            Self::redraw(window);
        } else if key == KeyCode::Char(COMMAND_CHAR) {
            window.set_command_mode(None);
        } else if key == KeyCode::Esc {
            self.return_to_normal(window);
        }
    }

    fn receive_typing(&mut self, window: &mut MainWindow, key: KeyCode)
        requires
            old(self).search.wf(),
            highlight_ready(old(window)),
            old(window).msgs().len() <= usize::MAX / 100,
            old(self).search.pattern() is None,
            key != KeyCode::Enter && key != KeyCode::Esc ==> key_safe(old(self).search.input(), key, old(window).config.width),
        ensures
            final(self).search.wf(),
            highlight_ready(final(window)),
            highlight_outcome(old(self), final(self), old(window), final(window), key),
    {
        if key == KeyCode::Enter {
            self.set_pattern(window);
            if self.search.has_pattern() {
                window.reset_output();
                self.process_matches(window);
            }
            Self::redraw(window);
        } else if key == KeyCode::Esc {
            self.return_to_normal(window);
        } else {
            self.search.edit(window, key);
        }
    }
}

} // verus!
