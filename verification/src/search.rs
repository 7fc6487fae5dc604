//! Searching the messages with a pattern the user types: the state shared
//! by filtering and highlighting.
use vstd::prelude::*;
use vstd::utf8::encode_utf8;
use crate::history::Tape;
use crate::pattern::{bytes_regex_error, regex_is_match, BytesPattern};
use crate::sanitizers::{strip_colors, LengthFinder};
use crate::text::{decimal, push_str, usize_to_string};
use crate::user_input::{InputView, UserInputHandler, key_safe};
use crate::render::lemma_redraw_keeps;
use crate::window::{eq_but_render, lemma_ready, ActionView, InputType, LogriaConfig, MainWindow, same_state, write_to_command_line_ui, reset_command_line_ui, set_cli_cursor_ui};

verus! {

/// Progress is reported for runs longer than this many messages.
pub const THRESHOLD: usize = 25_000;
/// Progress is reported every this many messages.
pub const STEP: usize = 999;

/// Whether a message matches `pattern` once its color codes are removed.
pub open spec fn message_matches(pattern: Seq<char>, ansi: Option<Seq<char>>, message: Seq<char>) -> bool {
    regex_is_match(pattern, strip_colors(ansi, encode_utf8(message)))
}

/// The indexes from `start` to `end` of the messages that match, in order.
pub open spec fn matching_indexes(pattern: Seq<char>, ansi: Option<Seq<char>>, msgs: Seq<String>, start: int, end: int) -> Seq<usize>
    decreases end - start,
{
    if end <= start {
        Seq::empty()
    } else {
        let before = matching_indexes(pattern, ansi, msgs, start, end - 1);
        if message_matches(pattern, ansi, msgs[end - 1]@) {
            before.push((end - 1) as usize)
        } else {
            before
        }
    }
}

/// The matching indexes lie in the run they come from.
pub proof fn lemma_matching_bounds(pattern: Seq<char>, ansi: Option<Seq<char>>, msgs: Seq<String>, start: int, end: int)
    requires
        0 <= start,
        end <= usize::MAX,
    ensures
        forall|i: int| 0 <= i < matching_indexes(pattern, ansi, msgs, start, end).len()
            ==> start <= #[trigger] matching_indexes(pattern, ansi, msgs, start, end)[i] < end,
        forall|i: int, j: int| 0 <= i < j < matching_indexes(pattern, ansi, msgs, start, end).len()
            ==> matching_indexes(pattern, ansi, msgs, start, end)[i] < matching_indexes(pattern, ansi, msgs, start, end)[j],
    decreases end - start,
{
    if end > start {
        lemma_matching_bounds(pattern, ansi, msgs, start, end - 1);
        let before = matching_indexes(pattern, ansi, msgs, start, end - 1);
        let all = matching_indexes(pattern, ansi, msgs, start, end);
        if message_matches(pattern, ansi, msgs[end - 1]@) {
            assert(all == before.push((end - 1) as usize));
            assert forall|i: int| 0 <= i < all.len() implies start <= #[trigger] all[i] < end by {
                if i < before.len() {
                    assert(all[i] == before[i]);
                }
            }
            assert forall|i: int, j: int| 0 <= i < j < all.len() implies all[i] < all[j] by {
                assert(all[i] == before[i]);
                if j < before.len() {
                    assert(all[j] == before[j]);
                }
            }
        } else {
            assert(all == before);
        }
    }
}

/// Whether progress is reported after handling message `index` of the run
/// `start..end`.
pub open spec fn reports_progress(start: int, end: int, index: int) -> bool {
    end - start > THRESHOLD && (index % (STEP as int) == 0 || index == end - 1)
}

/// The progress line after handling message `index` of the run `start..end`.
pub open spec fn progress_line(start: int, end: int, index: int) -> Seq<char> {
    let done = index + 1 - start;
    let word = if index == end - 1 { "Processed"@ } else { "Processing"@ };
    word + " messages: "@ + decimal(done as nat) + "/"@ + decimal((end - start) as nat) + " ("@
        + decimal(((done * 100) / (end - start)) as nat) + "%)"@
}

/// The terminal work of reporting progress for messages `start..k` of the
/// run `start..end`.
pub open spec fn progress_ui(w: &MainWindow, start: int, end: int, k: int) -> Seq<ActionView>
    decreases k - start,
{
    if k <= start {
        Seq::empty()
    } else {
        progress_ui(w, start, end, k - 1) + if reports_progress(start, end, k - 1) {
            write_to_command_line_ui(w, progress_line(start, end, k - 1))
        } else {
            Seq::empty()
        }
    }
}

/// Report progress on the command line when a run is long; gives whether
/// it did.
pub fn update_progress(window: &mut MainWindow, start: usize, end: usize, index: usize) -> (r: bool)
    requires
        old(window).sized(),
        start <= index < end,
        end - start <= usize::MAX / 100,
    ensures
        r == reports_progress(start as int, end as int, index as int),
        final(window).ui() == old(window).ui() + if r {
            write_to_command_line_ui(old(window), progress_line(start as int, end as int, index as int))
        } else {
            Seq::empty()
        },
        same_state(final(window), old(window)),
{
    if end - start > THRESHOLD && (index % STEP == 0 || index == end - 1) {
        let word = if index == end - 1 { "Processed" } else { "Processing" };
        let done = index + 1 - start;
        assert(done * 100 <= usize::MAX) by (nonlinear_arith)
            requires
                done <= end - start,
                end - start <= usize::MAX / 100,
        ;
        let mut text = word.to_owned();
        push_str(&mut text, " messages: ");
        push_str(&mut text, usize_to_string(done).as_str());
        push_str(&mut text, "/");
        push_str(&mut text, usize_to_string(end - start).as_str());
        push_str(&mut text, " (");
        push_str(&mut text, usize_to_string((done * 100) / (end - start)).as_str());
        push_str(&mut text, "%)");
        window.write_to_command_line(text.as_str());
        return true;
    }
    assert(window.ui() =~= old(window).ui() + Seq::<ActionView>::empty());
    false
}

/// The terminal work of `write_status`.
pub open spec fn status_ui(w: &MainWindow) -> Seq<ActionView> {
    match w.config.current_status {
        Some(s) => write_to_command_line_ui(w, s@),
        None => Seq::empty(),
    }
}

/// What a search has typed and found.
pub struct SearchState {
    /// The pattern searched for, once one compiled.
    pub current_pattern: Option<BytesPattern>,
    pub input_handler: UserInputHandler,
    color: LengthFinder,
}

impl SearchState {
    /// The color pattern removed before matching.
    pub closed spec fn ansi(&self) -> Option<Seq<char>> {
        self.color.pattern()
    }

    /// The pattern searched for, by its text.
    pub closed spec fn pattern(&self) -> Option<Seq<char>> {
        match self.current_pattern {
            Some(p) => Some(p@),
            None => None,
        }
    }

    /// The editor of the pattern.
    pub closed spec fn input(&self) -> InputView {
        self.input_handler@
    }

    pub open spec fn wf(&self) -> bool {
        self.input().history.items.len() > 0 && self.input().history.current_index < self.input().history.items.len()
    }

    closed spec fn inner_wf(&self) -> bool {
        self.input_handler.wf()
    }

    proof fn lemma_wf(&self)
        ensures
            self.wf() <==> self.inner_wf(),
    {
    }

    /// No pattern yet, an empty line over the given history.
    pub fn new(history: Tape) -> (r: SearchState)
        requires
            history.wf(),
        ensures
            r.wf(),
            r.pattern() is None,
            r.input().content.len() == 0,
            r.input().last_write == 1,
            r.input().history == history@,
            r.ansi() matches Some(p) ==> p == crate::sanitizers::ANSI_COLOR_PATTERN@,
            r.ansi() is Some <==> bytes_regex_error(crate::sanitizers::ANSI_COLOR_PATTERN@) is None,
    {
        SearchState { current_pattern: None, input_handler: UserInputHandler::new(history), color: LengthFinder::new() }
    }

    /// Whether the pattern editor can take `key` (see `key_safe`).
    pub fn can_edit(&self, key: crate::keys::KeyCode, width: u16) -> (r: bool)
        requires
            self.wf(),
        ensures
            r == key_safe(self.input(), key, width),
    {
        proof {
            self.lemma_wf();
        }
        self.input_handler.can_take(key, width)
    }

    /// Whether there is a pattern.
    pub fn has_pattern(&self) -> (r: bool)
        ensures
            r == self.pattern() is Some,
    {
        self.current_pattern.is_some()
    }

    /// Edit the typed pattern with a key.
    pub fn edit(&mut self, window: &mut MainWindow, key: crate::keys::KeyCode)
        requires
            old(self).wf(),
            old(window).sized(),
            crate::user_input::key_safe(old(self).input(), key, old(window).config.width),
        ensures
            final(self).wf(),
            final(self).pattern() == old(self).pattern(),
            final(self).ansi() == old(self).ansi(),
            final(self).input() == crate::user_input::after_key(old(self).input(), key, old(window).config.width, old(window).config.height),
            final(window).ui() == old(window).ui().push(crate::window::ActionView::ShowCursor) + crate::user_input::key_ui(old(window), old(self).input(), key)
                + seq![crate::window::ActionView::Flush],
            same_state(final(window), old(window)),
    {
        proof {
            self.lemma_wf();
        }
        self.input_handler.receive_input(window, key);
    }

    /// Whether a message matches the pattern once its color codes are
    /// removed. There must be a pattern.
    pub fn test(&self, message: &str) -> (r: bool)
        requires
            self.pattern() is Some,
        ensures
            r == message_matches(self.pattern()->Some_0, self.ansi(), message@),
    {
        let clean_message = self.color.remove_colors(message.as_bytes());
        match &self.current_pattern {
            Some(pattern) => pattern.is_match(clean_message.as_slice()),
            None => vstd::pervasive::unreached(),
        }
    }

    /// Take the typed pattern: when it compiles, search with it and say so
    /// in the status; else say why not.
    pub fn set_pattern(&mut self, window: &mut MainWindow, mode_name: &str)
        requires
            old(self).wf(),
            old(window).sized(),
        ensures
            final(self).wf(),
            final(self).ansi() == old(self).ansi(),
            final(self).input().content.len() == 0,
            final(self).input().last_write == 1,
            ({
                let typed = old(self).input().content;
                &&& bytes_regex_error(typed) is None ==> {
                    &&& final(self).pattern() == Some(typed)
                    &&& final(window).config.regex_pattern matches Some(p) && p@ == typed
                    &&& final(window).config.current_status matches Some(s)
                        && s@ == mode_name@ + " with pattern /"@ + typed + "/"@
                }
                &&& bytes_regex_error(typed) matches Some(e) ==> {
                    &&& final(self).pattern() is None
                    &&& final(window).config.regex_pattern == old(window).config.regex_pattern
                    &&& final(window).config.current_status == old(window).config.current_status
                }
            }),
            final(window).config == (LogriaConfig {
                regex_pattern: final(window).config.regex_pattern,
                current_status: final(window).config.current_status,
                highlight_match: true,
                ..old(window).config
            }),
            final(window).input_type == old(window).input_type,
            final(window).previous_input_type == old(window).previous_input_type,
            final(window).length_finder == old(window).length_finder,
    {
        proof {
            self.lemma_wf();
        }
        let pattern = self.input_handler.gather(window);
        match BytesPattern::new(pattern.as_str()) {
            Ok(regex) => {
                let mut status = mode_name.to_owned();
                push_str(&mut status, " with pattern /");
                push_str(&mut status, pattern.as_str());
                push_str(&mut status, "/");
                window.config.current_status = Some(status);
                window.write_status();
                window.config.regex_pattern = Some(regex.clone());
                self.current_pattern = Some(regex);
            },
            Err(e) => {
                let mut text = "Invalid regex: /".to_owned();
                push_str(&mut text, pattern.as_str());
                push_str(&mut text, "/ (");
                push_str(&mut text, e.as_str());
                push_str(&mut text, ")");
                window.write_to_command_line(text.as_str());
                self.current_pattern = None;
            },
        }
        window.set_cli_cursor(Some(crate::constants::NORMAL_STR));
        window.config.highlight_match = true;
    }

    /// Record which of the messages not yet searched match the pattern, in
    /// order, reporting progress on long runs.
    pub fn process_matches(&self, window: &mut MainWindow)
        requires
            old(window).sized(),
            old(window).msgs().len() <= usize::MAX / 100,
        ensures
            ({
                let start = old(window).config.last_index_regexed as int;
                let end = old(window).msgs().len() as int;
                match self.pattern() {
                    None => *final(window) == *old(window),
                    Some(p) => {
                        &&& final(window).config == (LogriaConfig {
                            matched_rows: final(window).config.matched_rows,
                            last_index_regexed: if start < end { end as usize } else { start as usize },
                            ..old(window).config
                        })
                        &&& final(window).config.matched_rows@ == old(window).config.matched_rows@
                            + matching_indexes(p, self.ansi(), old(window).msgs(), start, end)
                        &&& final(window).ui() == old(window).ui() + progress_ui(old(window), start, end, end) + if start < end
                            && end - start > THRESHOLD {
                            status_ui(old(window))
                        } else {
                            Seq::empty()
                        }
                        &&& final(window).input_type == old(window).input_type
                        &&& final(window).previous_input_type == old(window).previous_input_type
                        &&& final(window).length_finder == old(window).length_finder
                    },
                }
            }),
    {
        self.scan(window, true);
    }

    /// Record which of the messages not yet searched match the pattern, in
    /// order; with `report`, progress is reported on long runs.
    pub fn scan(&self, window: &mut MainWindow, report: bool)
        requires
            old(window).sized(),
            old(window).msgs().len() <= usize::MAX / 100,
        ensures
            ({
                let start = old(window).config.last_index_regexed as int;
                let end = old(window).msgs().len() as int;
                match self.pattern() {
                    None => *final(window) == *old(window),
                    Some(p) => {
                        &&& final(window).config == (LogriaConfig {
                            matched_rows: final(window).config.matched_rows,
                            last_index_regexed: if start < end { end as usize } else { start as usize },
                            ..old(window).config
                        })
                        &&& final(window).config.matched_rows@ == old(window).config.matched_rows@
                            + matching_indexes(p, self.ansi(), old(window).msgs(), start, end)
                        &&& final(window).ui() == old(window).ui() + if report { progress_ui(old(window), start, end, end) } else { Seq::empty() } + if report && start < end
                            && end - start > THRESHOLD {
                            status_ui(old(window))
                        } else {
                            Seq::empty()
                        }
                        &&& final(window).input_type == old(window).input_type
                        &&& final(window).previous_input_type == old(window).previous_input_type
                        &&& final(window).length_finder == old(window).length_finder
                    },
                }
            }),
    {
        if self.current_pattern.is_none() {
            return;
        }
        let ghost p = self.pattern()->Some_0;
        let start = window.config.last_index_regexed;
        let end = window.messages().len();
        let mut wrote_progress = false;
        let mut index = start;
        let ghost w0 = *window;
        if start < end {
            while index < end
                invariant
                    start <= index <= end,
                    self.pattern() == Some(p),
                    end == w0.msgs().len(),
                    end <= usize::MAX / 100,
                    w0 == *old(window),
                    self.step_inv(window, &w0, start, end, index, report),
                    index > start ==> wrote_progress == (report && reports_progress(start as int, end as int, index - 1)),
                decreases end - index,
            {
                wrote_progress = self.process_one(window, Ghost(w0), start, end, index, report);
                index = index + 1;
            }
            if wrote_progress {
                window.write_status();
            }
        } else {
            assert(old(window).config.matched_rows@ =~= old(window).config.matched_rows@ + Seq::<usize>::empty());
            assert(old(window).ui() =~= old(window).ui() + Seq::<ActionView>::empty() + Seq::<ActionView>::empty());
            assert(old(window).config =~= (LogriaConfig {
                matched_rows: old(window).config.matched_rows,
                last_index_regexed: start,
                ..old(window).config
            }));
        }
    }

    /// The state of a search run after the messages `start..index`.
    pub closed spec fn step_inv(&self, window: &MainWindow, w0: &MainWindow, start: usize, end: usize, index: usize, report: bool) -> bool {
        let p = self.pattern()->Some_0;
        &&& window.msgs() == w0.msgs()
        &&& window.config == (LogriaConfig {
            matched_rows: window.config.matched_rows,
            last_index_regexed: index,
            ..w0.config
        })
        &&& window.config.matched_rows@ == w0.config.matched_rows@ + matching_indexes(p, self.ansi(), w0.msgs(), start as int, index as int)
        &&& window.ui() == w0.ui() + if report { progress_ui(w0, start as int, end as int, index as int) } else { Seq::empty() }
        &&& window.input_type == w0.input_type
        &&& window.previous_input_type == w0.previous_input_type
        &&& window.length_finder == w0.length_finder
        &&& w0.sized()
    }

    /// Record message `index` among the matches if it matches.
    fn record_match(&self, window: &mut MainWindow, index: usize)
        requires
            self.pattern() is Some,
            index < old(window).msgs().len(),
        ensures
            final(window).config == (LogriaConfig { matched_rows: final(window).config.matched_rows, ..old(window).config }),
            final(window).config.matched_rows@ == if message_matches(self.pattern()->Some_0, self.ansi(), old(window).msgs()[index as int]@) {
                old(window).config.matched_rows@.push(index)
            } else {
                old(window).config.matched_rows@
            },
            final(window).actions@ == old(window).actions@,
            final(window).input_type == old(window).input_type,
            final(window).previous_input_type == old(window).previous_input_type,
            final(window).length_finder == old(window).length_finder,
    {
        let message = window.messages()[index].clone();
        if self.test(message.as_str()) {
            window.config.matched_rows.push(index);
        }
    }

    /// Search message `index` of the run `start..end` and report progress.
    fn process_one(&self, window: &mut MainWindow, Ghost(w0): Ghost<MainWindow>, start: usize, end: usize, index: usize, report: bool) -> (r: bool)
        requires
            start <= index < end,
            end == w0.msgs().len(),
            end <= usize::MAX / 100,
            self.pattern() is Some,
            self.step_inv(old(window), &w0, start, end, index, report),
        ensures
            self.step_inv(final(window), &w0, start, end, (index + 1) as usize, report),
            r == (report && reports_progress(start as int, end as int, index as int)),
    {
        let ghost p = self.pattern()->Some_0;
        let ghost rows0 = window.config.matched_rows@;
        self.record_match(window, index);
        proof {
            assert(window.msgs() == w0.msgs());
            assert(window.config.matched_rows@ =~= w0.config.matched_rows@ + matching_indexes(
                p,
                self.ansi(),
                w0.msgs(),
                start as int,
                index + 1,
            ));
        }
        let r = if report {
            let r = update_progress(window, start, end, index);
            assert(window.ui() =~= w0.ui() + progress_ui(&w0, start as int, end as int, index + 1));
            r
        } else {
            false
        };
        window.config.last_index_regexed = index + 1;
        r
    }

    /// Forget the pattern and its matches.
    pub fn clear_matches(&mut self, window: &mut MainWindow)
        requires
            old(window).sized(),
        ensures
            final(self).pattern() is None,
            final(self).input() == old(self).input(),
            final(self).ansi() == old(self).ansi(),
            final(window).config == (LogriaConfig {
                regex_pattern: None,
                matched_rows: final(window).config.matched_rows,
                last_index_regexed: 0,
                highlight_match: false,
                ..old(window).config
            }),
            final(window).config.matched_rows@.len() == 0,
            final(window).ui() == old(window).ui() + reset_command_line_ui(old(window)),
            final(window).input_type == old(window).input_type,
            final(window).previous_input_type == old(window).previous_input_type,
            final(window).length_finder == old(window).length_finder,
    {
        self.current_pattern = None;
        window.config.regex_pattern = None;
        window.config.matched_rows.clear();
        window.config.last_index_regexed = 0;
        window.config.highlight_match = false;
        window.reset_command_line();
    }

    /// Back to normal mode once the matches are cleared: no status, the
    /// line emptied, and a render.
    pub fn finish_return_to_normal(&mut self, window: &mut MainWindow)
        requires
            old(self).wf(),
            old(window).sized(),
            old(window).rows_valid(),
            old(window).config.regex_pattern is None,
        ensures
            final(self).wf(),
            final(self).pattern() == old(self).pattern(),
            final(self).ansi() == old(self).ansi(),
            final(self).input().content.len() == 0,
            final(self).input().last_write == 1,
            eq_but_render(final(window).config, LogriaConfig { current_status: None, ..old(window).config }),
            final(window).input_type == InputType::Normal,
            final(window).previous_input_type == old(window).input_type,
            final(window).length_finder == old(window).length_finder,
    {
        proof {
            self.lemma_wf();
        }
        window.config.current_status = None;
        window.update_input_type(InputType::Normal);
        window.set_cli_cursor(None);
        let _ = self.input_handler.gather(window);
        proof {
            lemma_ready(window);
        }
        let ghost before = *window;
        window.redraw();
        proof {
            lemma_redraw_keeps(&before, window);
        }
    }

    /// Forget the pattern and its matches and go back to normal mode.
    pub fn return_to_normal(&mut self, window: &mut MainWindow)
        requires
            old(self).wf(),
            old(window).sized(),
            old(window).rows_valid(),
        ensures
            final(self).wf(),
            final(self).pattern() is None,
            final(self).ansi() == old(self).ansi(),
            final(self).input().content.len() == 0,
            final(self).input().last_write == 1,
            final(window).config.matched_rows@.len() == 0,
            eq_but_render(final(window).config, LogriaConfig {
                regex_pattern: None,
                matched_rows: final(window).config.matched_rows,
                last_index_regexed: 0,
                highlight_match: false,
                current_status: None,
                ..old(window).config
            }),
            final(window).input_type == InputType::Normal,
            final(window).previous_input_type == old(window).input_type,
            final(window).length_finder == old(window).length_finder,
    {
        self.clear_matches(window);
        self.finish_return_to_normal(window);
    }
}

} // verus!
