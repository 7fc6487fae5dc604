//! Regex mode: only the messages that match the typed pattern are shown.
use vstd::prelude::*;
use crate::constants::{COMMAND_CHAR, REGEX_CHAR, TOGGLE_HIGHLIGHT_CHAR};
use crate::history::Tape;
use crate::keys::KeyCode;
use crate::pattern::bytes_regex_error;
use crate::render::{lemma_redraw_keeps, redrawn};
use crate::scroll::{is_scroll_key, scroll_by_key, scroll_is_safe, scroll_safe, scrolled};
use crate::search::{lemma_matching_bounds, matching_indexes, SearchState};
use crate::user_input::{after_key, key_safe};
use crate::window::{eq_but_render, lemma_ready, InputType, LogriaConfig, MainWindow};

verus! {

/// Handles keys in regex mode.
pub struct RegexHandler {
    pub search: SearchState,
}

/// Whether a window can take a key in regex mode without failing.
pub open spec fn regex_ready(w: &MainWindow) -> bool {
    &&& w.sized()
    &&& w.rows_valid()
    &&& w.msgs().len() <= usize::MAX / 100
    &&& w.input_type != InputType::Parser
}

/// What a key does in regex mode, up to what a render records.
pub open spec fn regex_outcome(old_h: &RegexHandler, new_h: &RegexHandler, old_w: &MainWindow, new_w: &MainWindow, key: KeyCode) -> bool {
    let c = old_w.config;
    let typed = old_h.search.input().content;
    if old_h.search.pattern() is Some {
        if is_scroll_key(key) {
            &&& eq_but_render(new_w.config, scrolled(c, key, old_w.num_messages(), false))
            &&& new_w.input_type == old_w.input_type
        } else if key == KeyCode::Char(REGEX_CHAR) {
            &&& new_h.search.pattern() is None
            &&& new_w.config.matched_rows@.len() == 0
            &&& eq_but_render(new_w.config, LogriaConfig {
                regex_pattern: None,
                matched_rows: new_w.config.matched_rows,
                last_index_regexed: 0,
                highlight_match: false,
                ..c
            })
            &&& new_w.input_type == old_w.input_type
        } else if key == KeyCode::Char(TOGGLE_HIGHLIGHT_CHAR) {
            &&& eq_but_render(new_w.config, LogriaConfig { highlight_match: !c.highlight_match, ..c })
            &&& new_w.input_type == old_w.input_type
        } else if key == KeyCode::Char(COMMAND_CHAR) {
            &&& eq_but_render(new_w.config, LogriaConfig { delete_func: None, ..c })
            &&& new_w.input_type == InputType::Command
        } else if key == KeyCode::Esc {
            &&& new_h.search.pattern() is None
            &&& new_w.config.matched_rows@.len() == 0
            &&& eq_but_render(new_w.config, LogriaConfig {
                regex_pattern: None,
                matched_rows: new_w.config.matched_rows,
                last_index_regexed: 0,
                highlight_match: false,
                current_status: None,
                ..c
            })
            &&& new_w.input_type == InputType::Normal
        } else {
            &&& eq_but_render(new_w.config, c)
            &&& new_w.input_type == old_w.input_type
        }
    } else {
        if key == KeyCode::Enter {
            &&& new_h.search.input().content.len() == 0
            &&& new_w.input_type == old_w.input_type
            &&& new_w.config.highlight_match
            &&& (bytes_regex_error(typed) is None ==> {
                &&& new_h.search.pattern() == Some(typed)
                &&& new_w.config.regex_pattern matches Some(p) && p@ == typed
                &&& new_w.config.matched_rows@ == c.matched_rows@ + matching_indexes(
                    typed,
                    old_h.search.ansi(),
                    old_w.msgs(),
                    c.last_index_regexed as int,
                    old_w.msgs().len() as int,
                )
            })
            &&& (bytes_regex_error(typed) is Some ==> {
                &&& new_h.search.pattern() is None
                &&& eq_but_render(new_w.config, LogriaConfig { highlight_match: true, ..c })
            })
        } else if key == KeyCode::Esc {
            &&& new_h.search.pattern() is None
            &&& new_w.config.matched_rows@.len() == 0
            &&& eq_but_render(new_w.config, LogriaConfig {
                regex_pattern: None,
                matched_rows: new_w.config.matched_rows,
                last_index_regexed: 0,
                highlight_match: false,
                current_status: None,
                ..c
            })
            &&& new_w.input_type == InputType::Normal
        } else {
            &&& new_h.search.pattern() is None
            &&& new_h.search.input() == after_key(old_h.search.input(), key, c.width, c.height)
            &&& eq_but_render(new_w.config, c)
            &&& new_w.input_type == old_w.input_type
        }
    }
}

impl RegexHandler {
    /// A handler with no pattern yet, over the given history.
    pub fn new(history: Tape) -> (r: RegexHandler)
        requires
            history.wf(),
        ensures
            r.search.wf(),
            r.search.pattern() is None,
            r.search.input().content.len() == 0,
            r.search.input().history == history@,
    {
        RegexHandler { search: SearchState::new(history) }
    }

    /// Record the matches among the messages not yet searched.
    pub fn process_matches(&mut self, window: &mut MainWindow)
        requires
            old(window).sized(),
            old(window).msgs().len() <= usize::MAX / 100,
        ensures
            final(self).search.pattern() == old(self).search.pattern(),
            final(self).search.input() == old(self).search.input(),
            final(self).search.ansi() == old(self).search.ansi(),
            final(window).input_type == old(window).input_type,
            final(window).msgs() == old(window).msgs(),
            old(window).rows_valid() ==> final(window).rows_valid(),
            old(self).search.pattern() matches Some(p) ==> {
                let start = old(window).config.last_index_regexed as int;
                let end = old(window).msgs().len() as int;
                &&& final(window).config.matched_rows@ == old(window).config.matched_rows@
                + matching_indexes(p, old(self).search.ansi(), old(window).msgs(), start, end)
                &&& final(window).config == (LogriaConfig {
                        matched_rows: final(window).config.matched_rows,
                        last_index_regexed: if start < end { end as usize } else { start as usize },
                        ..old(window).config
                })
            },
            old(self).search.pattern() is None ==> *final(window) == *old(window),
    {
        self.search.process_matches(window);
        proof {
            if old(self).search.pattern() is Some && old(window).rows_valid() {
                let p = old(self).search.pattern()->Some_0;
                lemma_matching_bounds(
                    p,
                    old(self).search.ansi(),
                    old(window).msgs(),
                    old(window).config.last_index_regexed as int,
                    old(window).msgs().len() as int,
                );
                assert forall|i: int| 0 <= i < window.config.matched_rows@.len() implies #[trigger] window.config.matched_rows@[i] < window.msgs().len() by {
                    if i >= old(window).config.matched_rows@.len() {
                        let k = i - old(window).config.matched_rows@.len();
                        assert(window.config.matched_rows@[i] == matching_indexes(
                                p,
                                old(self).search.ansi(),
                                old(window).msgs(),
                                old(window).config.last_index_regexed as int,
                                old(window).msgs().len() as int,
                            )[k]);
                    }
                }
            }
        }
    }

    /// Forget the pattern and go back to normal mode.
    pub fn return_to_normal(&mut self, window: &mut MainWindow)
        requires
            old(self).search.wf(),
            old(window).sized(),
            old(window).rows_valid(),
        ensures
            final(self).search.wf(),
            final(self).search.pattern() is None,
            final(window).config.matched_rows@.len() == 0,
            eq_but_render(final(window).config, LogriaConfig {
                    regex_pattern: None,
                    matched_rows: final(window).config.matched_rows,
                    last_index_regexed: 0,
                    highlight_match: false,
                    current_status: None,
                    ..old(window).config
            }),
            final(window).input_type == InputType::Normal,
    {
        self.search.return_to_normal(window);
    }

    /// Forget the pattern and its matches.
    pub fn clear_matches(&mut self, window: &mut MainWindow)
        requires
            old(window).sized(),
        ensures
            final(self).search.pattern() is None,
            final(self).search.input() == old(self).search.input(),
            final(window).config.matched_rows@.len() == 0,
            final(window).config == (LogriaConfig {
                    regex_pattern: None,
                    matched_rows: final(window).config.matched_rows,
                    last_index_regexed: 0,
                    highlight_match: false,
                    ..old(window).config
            }),
            final(window).input_type == old(window).input_type,
    {
        self.search.clear_matches(window);
    }

    /// Render, keeping what the render does not change.
    fn redraw(window: &mut MainWindow)
        requires
            regex_ready(old(window)),
        ensures
            crate::render::render_post(&MainWindow { config: LogriaConfig { previous_render: (0usize, 0usize), ..old(window).config }, ..*old(window) }, final(window)),
            regex_ready(final(window)),
            eq_but_render(final(window).config, old(window).config),
            final(window).input_type == old(window).input_type,
            final(window).previous_input_type == old(window).previous_input_type,
            final(window).length_finder == old(window).length_finder,
    {
        proof {
            lemma_ready(window);
        }
        let ghost before = *window;
        window.redraw();
        proof {
            lemma_redraw_keeps(&before, window);
        }
    }

    /// Whether `receive_input` can take `key`: a scroll must not overflow
    /// while a pattern is set, and an edit must suit the editor while none is.
    pub fn can_take(&self, window: &MainWindow, key: KeyCode) -> (r: bool)
        requires
            self.search.wf(),
        ensures
            r == ({
                &&& self.search.pattern() is Some ==> scroll_safe(window, key, false)
                &&& self.search.pattern() is None && key != KeyCode::Enter && key != KeyCode::Esc
                    ==> key_safe(self.search.input(), key, window.config.width)
            }),
    {
        if self.search.has_pattern() {
            scroll_is_safe(window, key, false)
        } else if key == KeyCode::Enter || key == KeyCode::Esc {
            true
        } else {
            self.search.can_edit(key, window.config.width)
        }
    }

    /// React to a key in regex mode. With a pattern: scroll, start a new
    /// pattern, toggle the highlighting, enter command mode or leave. While
    /// typing one: take it on Enter and search with it, leave on Escape, or
    /// edit it. A render follows.
    pub fn receive_input(&mut self, window: &mut MainWindow, key: KeyCode)
        requires
            old(self).search.wf(),
            regex_ready(old(window)),
            old(self).search.pattern() is Some ==> scroll_safe(old(window), key, false),
            old(self).search.pattern() is None && key != KeyCode::Enter && key != KeyCode::Esc
            ==> key_safe(old(self).search.input(), key, old(window).config.width),
        ensures
            final(self).search.wf(),
            regex_ready(final(window)),
            regex_outcome(old(self), final(self), old(window), final(window), key),
            exists|mid: MainWindow| #[trigger] redrawn(&mid, final(window)) && regex_outcome(old(self), final(self), old(window), &mid, key),
    {
        if self.search.has_pattern() {
            self.receive_with_pattern(window, key);
        } else {
            self.receive_typing(window, key);
        }
        let ghost mid = *window;
        Self::redraw(window);
        assert(regex_outcome(old(self), self, old(window), window, key));
        assert(redrawn(&mid, window));
    }

    fn receive_with_pattern(&mut self, window: &mut MainWindow, key: KeyCode)
        requires
            old(self).search.wf(),
            regex_ready(old(window)),
            old(self).search.pattern() is Some,
            scroll_safe(old(window), key, false),
        ensures
            final(self).search.wf(),
            regex_ready(final(window)),
            regex_outcome(old(self), final(self), old(window), final(window), key),
    {
        if scroll_by_key(window, key, false) {
        } else if key == KeyCode::Char(REGEX_CHAR) {
            self.clear_matches(window);
            Self::redraw(window);
            window.set_cli_cursor(None);
        } else if key == KeyCode::Char(TOGGLE_HIGHLIGHT_CHAR) {
            window.config.highlight_match = !window.config.highlight_match;
            Self::redraw(window);
        } else if key == KeyCode::Char(COMMAND_CHAR) {
            window.set_command_mode(None);
        } else if key == KeyCode::Esc {
            self.return_to_normal(window);
        }
    }

    fn receive_typing(&mut self, window: &mut MainWindow, key: KeyCode)
        requires
            old(self).search.wf(),
            regex_ready(old(window)),
            old(self).search.pattern() is None,
            key != KeyCode::Enter && key != KeyCode::Esc ==> key_safe(old(self).search.input(), key, old(window).config.width),
        ensures
            final(self).search.wf(),
            regex_ready(final(window)),
            regex_outcome(old(self), final(self), old(window), final(window), key),
    {
        if key == KeyCode::Enter {
            self.search.set_pattern(window, "Regex");
            if self.search.has_pattern() {
                window.reset_output();
                self.process_matches(window);
            }
            Self::redraw(window);
        } else if key == KeyCode::Esc {
            self.return_to_normal(window);
        } else {
            self.search.edit(window, key);
        }
    }
}

} // verus!
