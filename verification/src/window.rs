//! The state of the main window: message buffers, modes, and what part of
//! the current buffer is on screen.
use vstd::prelude::*;
use crate::pattern::BytesPattern;
use crate::poll::{RollingMean, DEFAULT, SLOWEST, window_fits, ms_per_message, backoff_step, window_after, spec_ms_per_message};
use crate::sanitizers::{LengthFinder, real_length};
use crate::text::{decimal, push_str, usize_to_string};

verus! {

/// Which handler receives the user's keys.
#[derive(Debug, Clone, Copy, PartialEq, Eq, Structural)]
pub enum InputType {
    Normal,
    Command,
    Regex,
    Highlight,
    Parser,
    Startup,
}

/// Which message buffer is shown.
#[derive(Debug, Clone, Copy, PartialEq, Eq, Structural)]
pub enum StreamType {
    StdErr,
    StdOut,
    Auxiliary,
}

/// How the shown part of the buffer follows the user.
#[derive(Debug, Clone, Copy, PartialEq, Eq, Structural)]
pub enum ScrollState {
    Top,
    Free,
    Bottom,
    Centered,
}

/// Setup progress of the parser.
#[derive(Debug, Clone, Copy, PartialEq, Eq, Structural)]
pub enum ParserState {
    Disabled,
    NeedsParser,
    NeedsIndex,
    Full,
}

/// What the `:r` command removes.
#[derive(Debug, Clone, Copy, PartialEq, Eq, Structural)]
pub enum DeleteTarget {
    Sessions,
    Parsers,
}

/// Where the auxiliary messages are generated from.
#[derive(Debug, Clone, Copy, PartialEq, Eq, Structural)]
pub enum AuxSource {
    Startup,
    ParserList,
}

/// Work for the terminal (and the disk) that the window has decided on.
#[derive(Debug)]
pub enum UiAction {
    /// Move the cursor to a column and row.
    MoveTo(u16, u16),
    /// Print text at the cursor.
    Print(String),
    SaveCursor,
    RestoreCursor,
    ShowCursor,
    HideCursor,
    /// Clear the current line and everything above the cursor.
    ClearUp,
    Flush,
    /// Regenerate the auxiliary messages from `generate_auxiliary_messages`
    /// and redraw.
    RefreshAuxiliary,
    /// Remove the listed items of the target.
    Delete(DeleteTarget, Vec<usize>),
    /// Append a line to the history file.
    AppendHistory(String),
    /// Leave the application.
    Quit,
}

/// A `UiAction` with its text taken by value.
pub enum ActionView {
    MoveTo(u16, u16),
    Print(Seq<char>),
    SaveCursor,
    RestoreCursor,
    ShowCursor,
    HideCursor,
    ClearUp,
    Flush,
    RefreshAuxiliary,
    Delete(DeleteTarget, Seq<usize>),
    AppendHistory(Seq<char>),
    Quit,
}

impl UiAction {
    pub open spec fn view(self) -> ActionView {
        match self {
            UiAction::MoveTo(c, r) => ActionView::MoveTo(c, r),
            UiAction::Print(s) => ActionView::Print(s@),
            UiAction::SaveCursor => ActionView::SaveCursor,
            UiAction::RestoreCursor => ActionView::RestoreCursor,
            UiAction::ShowCursor => ActionView::ShowCursor,
            UiAction::HideCursor => ActionView::HideCursor,
            UiAction::ClearUp => ActionView::ClearUp,
            UiAction::Flush => ActionView::Flush,
            UiAction::RefreshAuxiliary => ActionView::RefreshAuxiliary,
            UiAction::Delete(t, v) => ActionView::Delete(t, v@),
            UiAction::AppendHistory(s) => ActionView::AppendHistory(s@),
            UiAction::Quit => ActionView::Quit,
        }
    }
}

/// Everything the main window tracks.
pub struct LogriaConfig {
    /// Window width.
    pub width: u16,
    /// Window height.
    pub height: u16,
    /// The last row we can render, aka number of lines visible in the tty.
    pub last_row: u16,
    /// Current last row we have rendered.
    pub current_end: usize,
    pub stderr_messages: Vec<String>,
    pub stdout_messages: Vec<String>,
    pub stream_type: StreamType,
    /// The previous stream the user was looking at.
    pub previous_stream_type: StreamType,
    /// Messages displayed by extensions.
    pub auxiliary_messages: Vec<String>,
    /// Current regex pattern.
    pub regex_pattern: Option<BytesPattern>,
    /// Indexes of matches when regex filtering is active.
    pub matched_rows: Vec<usize>,
    /// The match the highlight search is on.
    pub current_matched_row: usize,
    /// The last index the filtering function saw.
    pub last_index_regexed: usize,
    /// Whether matched text is highlighted.
    pub highlight_match: bool,
    /// Index of the parsed field to show.
    pub parser_index: usize,
    pub parser_state: ParserState,
    /// Whether log data is aggregated.
    pub aggregation_enabled: bool,
    /// The last index the parsing function saw.
    pub last_index_processed: usize,
    /// The number of items to show when aggregating a counter.
    pub num_to_aggregate: usize,
    /// The rate at which we check for new messages.
    pub poll_rate: u64,
    pub message_speed_tracker: RollingMean,
    /// Whether the poll rate follows the message rate.
    pub smart_poll_rate: bool,
    /// Whether the app records user input to a history tape.
    pub use_history: bool,
    pub scroll_state: ScrollState,
    /// The `(start, end)` range of the buffer last rendered.
    pub previous_render: (usize, usize),
    /// Whether the previously rendered buffer was empty.
    pub was_empty: bool,
    /// Whether the input type just changed.
    pub did_switch: bool,
    /// What the `:r` command deletes, if anything.
    pub delete_func: Option<DeleteTarget>,
    /// Current status of the app, if there is one.
    pub current_status: Option<String>,
    pub generate_auxiliary_messages: Option<AuxSource>,
}

/// The main window: its state, and the terminal work it has queued.
pub struct MainWindow {
    pub config: LogriaConfig,
    pub input_type: InputType,
    pub previous_input_type: InputType,
    /// Terminal work decided but not yet performed, oldest first.
    pub actions: Vec<UiAction>,
    pub length_finder: LengthFinder,
}

/// Rows a message of `len` visible characters takes in a window of `width` columns.
pub open spec fn message_rows(len: int, width: int) -> int {
    let r = (len + width - 2) / width;
    if r < 1 { 1 } else { r }
}

/// The end of the render window in centered mode: the current match is kept in view.
pub open spec fn centered_end(mid: int, last_row: int, n: int) -> int {
    let e = if mid + last_row / 2 + 1 > last_row { mid + last_row / 2 + 1 } else { last_row };
    if e < n { e } else { n }
}

impl MainWindow {
    /// The queued terminal work, by value.
    pub open spec fn ui(&self) -> Seq<ActionView> {
        self.actions@.map_values(|a: UiAction| a.view())
    }

    /// The window is large enough for the command line and its border.
    pub open spec fn sized(&self) -> bool {
        &&& self.config.height >= 2
        &&& self.config.width >= 3
        &&& 1 <= self.config.last_row < u16::MAX
    }

    /// The buffer `stream_type` selects.
    pub open spec fn msgs(&self) -> Seq<String> {
        match self.config.stream_type {
            StreamType::StdErr => self.config.stderr_messages@,
            StreamType::StdOut => self.config.stdout_messages@,
            StreamType::Auxiliary => self.config.auxiliary_messages@,
        }
    }

    /// The buffer `previous_stream_type` selects.
    pub open spec fn prev_msgs(&self) -> Seq<String> {
        match self.config.previous_stream_type {
            StreamType::StdErr => self.config.stderr_messages@,
            StreamType::StdOut => self.config.stdout_messages@,
            StreamType::Auxiliary => self.config.auxiliary_messages@,
        }
    }

    /// Whether only the matched rows are shown.
    pub open spec fn filtered(&self) -> bool {
        self.config.regex_pattern is Some
    }

    /// How many messages can be shown.
    pub open spec fn num_messages(&self) -> nat {
        if self.filtered() {
            self.config.matched_rows@.len()
        } else {
            match self.input_type {
                InputType::Parser => if self.config.parser_state == ParserState::Full {
                    self.config.auxiliary_messages@.len()
                } else {
                    self.msgs().len()
                },
                _ => self.msgs().len(),
            }
        }
    }

    /// The `i`-th message shown: through the matched rows when filtering,
    /// else the current buffer (the auxiliary one in parser mode).
    pub open spec fn shown(&self, i: int) -> Seq<char> {
        if self.filtered() {
            self.msgs()[self.config.matched_rows@[i] as int]@
        } else {
            match self.input_type {
                InputType::Parser => self.config.auxiliary_messages@[i]@,
                _ => self.msgs()[i]@,
            }
        }
    }

    /// Whether the `i`-th shown message exists.
    pub open spec fn shown_valid(&self, i: int) -> bool {
        if self.filtered() {
            0 <= i < self.config.matched_rows@.len() && self.config.matched_rows@[i] < self.msgs().len()
        } else {
            match self.input_type {
                InputType::Parser => 0 <= i < self.config.auxiliary_messages@.len(),
                _ => 0 <= i < self.msgs().len(),
            }
        }
    }

    /// Every message that can be shown exists, and the window is wide
    /// enough to lay messages out.
    pub open spec fn render_ready(&self) -> bool {
        &&& forall|i: int| 0 <= i < self.num_messages() ==> #[trigger] self.shown_valid(i)
        &&& self.config.width >= 2
    }

    /// Visible length of the `i`-th shown message.
    pub open spec fn shown_len(&self, i: int) -> int {
        real_length(self.length_finder.pattern(), self.shown(i)) as int
    }

    /// The last message index that fits from the top, starting at `idx` with
    /// `rows` rows already used.
    pub open spec fn top_stop(&self, idx: int, rows: int) -> int
        decreases self.num_messages() - idx,
    {
        let used = rows + message_rows(self.shown_len(idx), self.config.width as int);
        if used <= self.config.last_row as int && idx < self.num_messages() - 1 && idx >= 0 {
            self.top_stop(idx + 1, used)
        } else {
            idx
        }
    }

    /// The end of the rendered range and the new `current_end`, by scroll state.
    pub open spec fn render_end(&self) -> (int, int) {
        let n = self.num_messages() as int;
        let last_row = self.config.last_row as int;
        let cur = self.config.current_end as int;
        match self.config.scroll_state {
            ScrollState::Top => (self.top_stop(0, 0), self.top_stop(0, 0)),
            ScrollState::Free => if cur <= n { (cur, cur) } else { (0, 0) },
            ScrollState::Bottom => (n, n),
            ScrollState::Centered => {
                let cmr = self.config.current_matched_row as int;
                if cmr < self.config.matched_rows@.len() && self.config.matched_rows@[cmr] < n {
                    let e = centered_end(self.config.matched_rows@[cmr] as int, last_row, n);
                    (e, e)
                } else {
                    (n, n)
                }
            },
        }
    }

    /// The `(start, end)` range to render, and `current_end` afterwards.
    pub open spec fn render_position(&self) -> (usize, usize, usize) {
        let n = self.num_messages() as int;
        let last_row = self.config.last_row as int;
        if n == 0 {
            (0, 0, self.config.current_end)
        } else if n <= last_row {
            (0, n as usize, self.config.current_end)
        } else {
            let (end, cur) = self.render_end();
            let start = if self.config.scroll_state == ScrollState::Top || end <= last_row { 0 } else { end - last_row - 1 };
            (start as usize, end as usize, cur as usize)
        }
    }

    /// The current message buffer.
    pub fn messages(&self) -> (r: &Vec<String>)
        ensures
            r@ == self.msgs(),
    {
        match self.config.stream_type {
            StreamType::StdErr => &self.config.stderr_messages,
            StreamType::StdOut => &self.config.stdout_messages,
            StreamType::Auxiliary => &self.config.auxiliary_messages,
        }
    }

    /// The previous message buffer.
    pub fn previous_messages(&self) -> (r: &Vec<String>)
        ensures
            r@ == self.prev_msgs(),
    {
        match self.config.previous_stream_type {
            StreamType::StdErr => &self.config.stderr_messages,
            StreamType::StdOut => &self.config.stdout_messages,
            StreamType::Auxiliary => &self.config.auxiliary_messages,
        }
    }

    /// Get the number of messages in the current message buffer.
    pub fn number_of_messages(&self) -> (r: usize)
        ensures
            r == self.num_messages(),
    {
        if self.config.regex_pattern.is_some() {
            return self.config.matched_rows.len();
        }
        match self.input_type {
            InputType::Parser => {
                if self.config.parser_state == ParserState::Full {
                    self.config.auxiliary_messages.len()
                } else {
                    self.messages().len()
                }
            },
            _ => self.messages().len(),
        }
    }

    /// The `index`-th shown message.
    pub fn get_message_at_index(&self, index: usize) -> (r: String)
        requires
            self.shown_valid(index as int),
        ensures
            r@ == self.shown(index as int),
    {
        if self.config.regex_pattern.is_some() {
            return self.messages()[self.config.matched_rows[index]].clone();
        }
        match self.input_type {
            InputType::Parser => self.config.auxiliary_messages[index].clone(),
            _ => self.messages()[index].clone(),
        }
    }

    /// Rows the `index`-th shown message takes from the top.
    fn top_rows(&self, index: usize) -> (r: usize)
        requires
            self.shown_valid(index as int),
            self.config.width >= 2,
        ensures
            r == message_rows(self.shown_len(index as int), self.config.width as int),
            r <= usize::MAX / 2 + 1,
    {
        let message = self.get_message_at_index(index);
        let len = self.length_finder.get_real_length(message.as_str());
        let w = self.config.width as usize;
        let q = len / w;
        let extra: usize = if len % w >= 2 { 1 } else { 0 };
        proof {
            lemma_rows_split(len as int, w as int, q as int, extra as int);
        }
        let r = q + extra;
        if r < 1 { 1 } else { r }
    }

    /// The last message index that fits when rendering from the top.
    fn top_end(&self) -> (r: usize)
        requires
            self.render_ready(),
            self.num_messages() > self.config.last_row,
        ensures
            r == self.top_stop(0, 0),
    {
        let message_pointer_length = self.number_of_messages();
        let last_row = self.config.last_row as usize;
        let mut current_index: usize = 0;
        let mut rows: usize = 0;
        loop
            invariant
                self.render_ready(),
                message_pointer_length == self.num_messages(),
                message_pointer_length > last_row,
                last_row == self.config.last_row,
                current_index < message_pointer_length,
                rows <= last_row,
                self.top_stop(current_index as int, rows as int) == self.top_stop(0, 0),
            decreases message_pointer_length - current_index,
        {
            assert(self.shown_valid(current_index as int));
            let added = self.top_rows(current_index);
            let used = rows + added;
            if used <= last_row && current_index < message_pointer_length - 1 {
                current_index = current_index + 1;
                rows = used;
            } else {
                return current_index;
            }
        }
    }

    /// Determine the start and end indexes we need to render in the window.
    pub fn determine_render_position(&mut self) -> (r: (usize, usize))
        requires
            old(self).num_messages() > old(self).config.last_row && old(self).config.scroll_state == ScrollState::Top
                ==> old(self).render_ready(),
        ensures
            r == (old(self).render_position().0, old(self).render_position().1),
            old(self).num_messages() <= usize::MAX,
            final(self).config.current_end == old(self).render_position().2,
            final(self).config == (LogriaConfig { current_end: final(self).config.current_end, ..old(self).config }),
            final(self).input_type == old(self).input_type,
            final(self).previous_input_type == old(self).previous_input_type,
            final(self).actions@ == old(self).actions@,
            final(self).length_finder == old(self).length_finder,
    {
        let message_pointer_length = self.number_of_messages();
        if message_pointer_length == 0 {
            return (0, 0);
        }
        let last_row = self.config.last_row as usize;
        if message_pointer_length <= last_row {
            return (0, message_pointer_length);
        }
        let end: usize;
        match self.config.scroll_state {
            ScrollState::Top => {
                let current_index = self.top_end();
                self.config.current_end = current_index;
                return (0, current_index);
            },
            ScrollState::Free => {
                if self.config.current_end < message_pointer_length {
                    end = self.config.current_end;
                } else if self.config.current_end > message_pointer_length {
                    end = 0;
                } else {
                    end = message_pointer_length;
                }
            },
            ScrollState::Bottom => {
                end = message_pointer_length;
            },
            ScrollState::Centered => {
                let cmr = self.config.current_matched_row;
                if cmr < self.config.matched_rows.len() && self.config.matched_rows[cmr] < message_pointer_length {
                    let mid = self.config.matched_rows[cmr];
                    let half = last_row / 2;
                    if mid >= message_pointer_length - (half + 1) {
                        end = message_pointer_length;
                    } else {
                        let e = if mid + half + 1 > last_row { mid + half + 1 } else { last_row };
                        end = if e < message_pointer_length { e } else { message_pointer_length };
                    }
                } else {
                    end = message_pointer_length;
                }
            },
        }
        self.config.current_end = end;
        let start: usize = if end > last_row { end - last_row - 1 } else { 0 };
        (start, end)
    }
}

/// Two windows that differ at most in their queued terminal work.
pub open spec fn same_state(a: &MainWindow, b: &MainWindow) -> bool {
    &&& a.config == b.config
    &&& a.input_type == b.input_type
    &&& a.previous_input_type == b.previous_input_type
    &&& a.length_finder == b.length_finder
}

/// `n` spaces.
pub open spec fn spaces(n: nat) -> Seq<char> {
    Seq::new(n, |i: int| ' ')
}

/// A string of `n` spaces (`" ".repeat(n)`).
pub fn repeat_space(n: usize) -> (r: String)
    ensures
        r@ == spaces(n as nat),
{
    let mut s = String::new();
    let mut i: usize = 0;
    while i < n
        invariant
            i <= n,
            s@ == spaces(i as nat),
        decreases n - i,
    {
        crate::text::push_char(&mut s, ' ');
        assert(spaces((i + 1) as nat) =~= spaces(i as nat).push(' '));
        i = i + 1;
    }
    s
}

/// The marker shown at the start of the command line in each mode.
pub open spec fn cli_marker(t: InputType) -> Seq<char> {
    match t {
        InputType::Normal | InputType::Startup => crate::constants::NORMAL_STR@,
        InputType::Command => crate::constants::COMMAND_STR@,
        InputType::Regex => crate::constants::REGEX_STR@,
        InputType::Highlight => crate::constants::HIGHLIGHT_STR@,
        InputType::Parser => crate::constants::PARSER_STR@,
    }
}

/// The terminal work of `reset_command_line`.
pub open spec fn reset_command_line_ui(w: &MainWindow) -> Seq<ActionView> {
    seq![
        ActionView::MoveTo(1, (w.config.height - 2) as u16),
        ActionView::Print(spaces((w.config.width - 3) as nat)),
        ActionView::HideCursor,
    ]
}

/// The terminal work of `write_to_command_line`.
pub open spec fn write_to_command_line_ui(w: &MainWindow, content: Seq<char>) -> Seq<ActionView> {
    seq![ActionView::SaveCursor] + reset_command_line_ui(w) + seq![
        ActionView::MoveTo(1, (w.config.height - 2) as u16),
        ActionView::Print(content),
        ActionView::RestoreCursor,
    ]
}

/// The terminal work of `set_cli_cursor`.
pub open spec fn set_cli_cursor_ui(w: &MainWindow, content: Option<Seq<char>>) -> Seq<ActionView> {
    let marker = match content {
        Some(c) => c,
        None => cli_marker(w.input_type),
    };
    seq![
        ActionView::MoveTo(1, (w.config.height - 2) as u16),
        ActionView::MoveTo(0, (w.config.last_row + 1) as u16),
        ActionView::Print(marker),
        ActionView::Flush,
    ]
}

/// The terminal work of `reset_output`.
pub open spec fn reset_output_ui(w: &MainWindow) -> Seq<ActionView> {
    seq![
        ActionView::SaveCursor,
        ActionView::Flush,
        ActionView::MoveTo(1, (w.config.last_row - 1) as u16),
        ActionView::ClearUp,
        ActionView::RestoreCursor,
        ActionView::Flush,
    ]
}

impl MainWindow {
    /// Queue terminal work.
    pub fn act(&mut self, a: UiAction)
        ensures
            final(self).ui() == old(self).ui().push(a.view()),
            same_state(final(self), old(self)),
    {
        let ghost before = self.actions@;
        self.actions.push(a);
        proof {
            assert(self.actions@ == before.push(a));
            assert(self.actions@.map_values(|a: UiAction| a.view()) =~= before.map_values(|a: UiAction| a.view()).push(a.view()));
        }
    }

    /// Hand the queued terminal work over, oldest first.
    pub fn take_actions(&mut self) -> (r: Vec<UiAction>)
        ensures
            r@ == old(self).actions@,
            final(self).actions@.len() == 0,
            same_state(final(self), old(self)),
    {
        let mut taken: Vec<UiAction> = Vec::new();
        std::mem::swap(&mut taken, &mut self.actions);
        taken
    }

    /// Move the cursor to the command line.
    pub fn go_to_cli(&mut self)
        requires
            old(self).sized(),
        ensures
            final(self).ui() == old(self).ui().push(ActionView::MoveTo(1, (old(self).config.height - 2) as u16)),
            same_state(final(self), old(self)),
    {
        let row = self.config.height - 2;
        self.act(UiAction::MoveTo(1, row));
    }

    /// Empty the command line.
    pub fn reset_command_line(&mut self)
        requires
            old(self).sized(),
        ensures
            final(self).ui() == old(self).ui() + reset_command_line_ui(old(self)),
            same_state(final(self), old(self)),
    {
        let clear = repeat_space((self.config.width - 3) as usize);
        self.go_to_cli();
        self.act(UiAction::Print(clear));
        self.act(UiAction::HideCursor);
        assert(self.ui() =~= old(self).ui() + reset_command_line_ui(old(self)));
    }

    /// Write text to the command line.
    pub fn write_to_command_line(&mut self, content: &str)
        requires
            old(self).sized(),
        ensures
            final(self).ui() == old(self).ui() + write_to_command_line_ui(old(self), content@),
            same_state(final(self), old(self)),
    {
        self.act(UiAction::SaveCursor);
        self.reset_command_line();
        self.go_to_cli();
        self.act(UiAction::Print(content.to_owned()));
        self.act(UiAction::RestoreCursor);
        assert(self.ui() =~= old(self).ui() + write_to_command_line_ui(old(self), content@));
    }

    /// Writes the current status to the command line if there is one.
    pub fn write_status(&mut self)
        requires
            old(self).sized(),
        ensures
            final(self).ui() == old(self).ui() + match old(self).config.current_status {
                Some(s) => write_to_command_line_ui(old(self), s@),
                None => Seq::empty(),
            },
            same_state(final(self), old(self)),
    {
        match &self.config.current_status {
            Some(s) => {
                let status = s.clone();
                self.write_to_command_line(status.as_str());
            },
            None => {
                assert(self.ui() =~= self.ui() + Seq::<ActionView>::empty());
            },
        }
    }

    /// Set the first column of the command line depending on the mode.
    pub fn set_cli_cursor(&mut self, content: Option<&str>)
        requires
            old(self).sized(),
        ensures
            final(self).ui() == old(self).ui() + set_cli_cursor_ui(old(self), match content {
                Some(c) => Some(c@),
                None => None,
            }),
            same_state(final(self), old(self)),
    {
        self.go_to_cli();
        let first_char: &str = match content {
            Some(c) => c,
            None => match self.input_type {
                InputType::Normal | InputType::Startup => crate::constants::NORMAL_STR,
                InputType::Command => crate::constants::COMMAND_STR,
                InputType::Regex => crate::constants::REGEX_STR,
                InputType::Highlight => crate::constants::HIGHLIGHT_STR,
                InputType::Parser => crate::constants::PARSER_STR,
            },
        };
        let row = self.config.last_row + 1;
        self.act(UiAction::MoveTo(0, row));
        self.act(UiAction::Print(first_char.to_owned()));
        self.act(UiAction::Flush);
        assert(self.ui() =~= old(self).ui() + set_cli_cursor_ui(old(self), match content {
            Some(c) => Some(c@),
            None => None,
        }));
    }

    /// Overwrite the output window with empty space.
    pub fn reset_output(&mut self)
        requires
            old(self).sized(),
        ensures
            final(self).ui() == old(self).ui() + reset_output_ui(old(self)),
            same_state(final(self), old(self)),
    {
        let row = self.config.last_row - 1;
        self.act(UiAction::SaveCursor);
        self.act(UiAction::Flush);
        self.act(UiAction::MoveTo(1, row));
        self.act(UiAction::ClearUp);
        self.act(UiAction::RestoreCursor);
        self.act(UiAction::Flush);
        assert(self.ui() =~= old(self).ui() + reset_output_ui(old(self)));
    }

    /// Set a new input type while keeping the old one as the previous one.
    pub fn update_input_type(&mut self, input_type: InputType)
        ensures
            final(self).input_type == input_type,
            final(self).previous_input_type == old(self).input_type,
            final(self).config == old(self).config,
            final(self).actions == old(self).actions,
            final(self).length_finder == old(self).length_finder,
    {
        self.previous_input_type = self.input_type;
        self.input_type = input_type;
    }

    /// Regenerate the auxiliary messages from their source and redraw.
    pub fn render_auxiliary_text(&mut self)
        requires
            old(self).config.generate_auxiliary_messages is Some,
        ensures
            final(self).ui() == old(self).ui().push(ActionView::RefreshAuxiliary),
            same_state(final(self), old(self)),
    {
        self.act(UiAction::RefreshAuxiliary);
    }

    /// Leave the application.
    pub fn quit(&mut self)
        ensures
            final(self).ui() == old(self).ui().push(ActionView::Quit),
            same_state(final(self), old(self)),
    {
        self.act(UiAction::Quit);
    }

    /// Update the poll rate of the main loop.
    pub fn update_poll_rate(&mut self, new_poll_rate: u64)
        ensures
            final(self).config == (LogriaConfig { poll_rate: new_poll_rate, ..old(self).config }),
            final(self).input_type == old(self).input_type,
            final(self).previous_input_type == old(self).previous_input_type,
            final(self).actions == old(self).actions,
            final(self).length_finder == old(self).length_finder,
    {
        self.config.poll_rate = new_poll_rate;
    }

    /// Follow the rate at which messages arrive: `new_messages` came in the
    /// last `elapsed_millis` milliseconds. Returns whether the rate was
    /// updated (and so whether the timer should restart).
    pub fn handle_smart_poll_rate(&mut self, elapsed_millis: u128, new_messages: u64) -> (r: bool)
        requires
            old(self).config.message_speed_tracker.wf(),
            old(self).config.message_speed_tracker.can_update(),
        ensures
            r == (old(self).config.smart_poll_rate && old(self).input_type != InputType::Startup),
            final(self).config.message_speed_tracker.wf(),
            r ==> {
                let t = old(self).config.message_speed_tracker@;
                let (b, adjusted) = backoff_step(t.tracker, spec_ms_per_message(elapsed_millis, new_messages) as u64);
                let t2 = final(self).config.message_speed_tracker@;
                &&& t2.tracker == b
                &&& t2.items == window_after(t.items, t.max_size, adjusted)
                &&& t2.max_size == t.max_size
                &&& final(self).config.poll_rate == (if t2.size == 0 { 0 } else { t2.sum / t2.size })
                &&& final(self).config.poll_rate <= SLOWEST
            },
            !r ==> final(self).config == old(self).config,
            final(self).input_type == old(self).input_type,
            final(self).actions == old(self).actions,
    {
        if self.config.smart_poll_rate && self.input_type != InputType::Startup {
            let rate = ms_per_message(elapsed_millis, new_messages);
            self.config.message_speed_tracker.update(rate);
            let mean = self.config.message_speed_tracker.mean();
            self.config.poll_rate = mean;
            true
        } else {
            false
        }
    }
}

proof fn lemma_rows_split(len: int, w: int, q: int, extra: int)
    requires
        len >= 0,
        w >= 2,
        q == len / w,
        extra == (if len % w >= 2 { 1int } else { 0int }),
    ensures
        (len + w - 2) / w == q + extra,
        q + extra <= usize::MAX / 2 + 1 || len > usize::MAX,
{
    vstd::arithmetic::div_mod::lemma_fundamental_div_mod(len, w);
    let r = len % w;
    vstd::arithmetic::div_mod::lemma_mod_pos_bound(len, w);
    assert(len == q * w + r) by {
        vstd::arithmetic::mul::lemma_mul_is_commutative(q, w);
    }
    let r2 = r + w - 2 - w * extra;
    assert(len + w - 2 == (q + extra) * w + r2) by {
        vstd::arithmetic::mul::lemma_mul_is_distributive_add_other_way(w, q, extra);
        vstd::arithmetic::mul::lemma_mul_is_commutative(w, extra);
    }
    vstd::arithmetic::div_mod::lemma_fundamental_div_mod_converse(len + w - 2, w, q + extra, r2);
    if len <= usize::MAX {
        assert(q <= len / 2) by {
            vstd::arithmetic::div_mod::lemma_div_is_ordered_by_denominator(len, 2, w);
        }
    }
}

/// Windows that agree on the buffers, the filter and the mode show the same
/// messages.
pub proof fn lemma_same_shown(a: &MainWindow, b: &MainWindow)
    requires
        a.input_type == b.input_type,
        a.length_finder == b.length_finder,
        a.config.width == b.config.width,
        a.config.stream_type == b.config.stream_type,
        a.config.stderr_messages@ == b.config.stderr_messages@,
        a.config.stdout_messages@ == b.config.stdout_messages@,
        a.config.auxiliary_messages@ == b.config.auxiliary_messages@,
        a.config.regex_pattern == b.config.regex_pattern,
        a.config.matched_rows@ == b.config.matched_rows@,
        a.config.parser_state == b.config.parser_state,
    ensures
        a.num_messages() == b.num_messages(),
        a.render_ready() == b.render_ready(),
        forall|i: int| #[trigger] a.shown(i) == b.shown(i),
        forall|i: int| #[trigger] a.shown_valid(i) == b.shown_valid(i),
        forall|i: int| #[trigger] a.shown_len(i) == b.shown_len(i),
{
    assert forall|i: int| #[trigger] a.shown_valid(i) == b.shown_valid(i) by {}
    assert forall|i: int| #[trigger] a.shown(i) == b.shown(i) by {}
    assert forall|i: int| #[trigger] a.shown_len(i) == b.shown_len(i) by {}
    if a.render_ready() {
        assert forall|i: int| 0 <= i < b.num_messages() implies #[trigger] b.shown_valid(i) by {
            assert(a.shown_valid(i));
        }
    }
    if b.render_ready() {
        assert forall|i: int| 0 <= i < a.num_messages() implies #[trigger] a.shown_valid(i) by {
            assert(b.shown_valid(i));
        }
    }
}

/// The sample text of the `i`-th message of the parsing test window:
/// `"x - x-1 - x-2 - x-3"` for `x = i + 10`.
pub open spec fn dummy_parse_message(x: nat) -> Seq<char> {
    decimal(x) + " - "@ + decimal((x - 1) as nat) + " - "@ + decimal((x - 2) as nat) + " - "@ + decimal((x - 3) as nat)
}

impl MainWindow {
    /// A window in the startup screen, before it knows its size.
    pub fn new(history: bool, smart_poll_rate: bool) -> (r: MainWindow)
        ensures
            r.input_type == InputType::Startup,
            r.previous_input_type == InputType::Startup,
            r.actions@.len() == 0,
            r.config.poll_rate == DEFAULT,
            r.config.smart_poll_rate == smart_poll_rate,
            r.config.use_history == history,
            r.config.height == 0,
            r.config.width == 0,
            r.config.last_row == 0,
            r.config.previous_render == (0usize, 0usize),
            r.config.stderr_messages@.len() == 0,
            r.config.stdout_messages@.len() == 0,
            r.config.auxiliary_messages@.len() == 0,
            r.config.stream_type == StreamType::Auxiliary,
            r.config.previous_stream_type == StreamType::Auxiliary,
            r.config.regex_pattern is None,
            r.config.matched_rows@.len() == 0,
            r.config.current_matched_row == 0,
            r.config.last_index_regexed == 0,
            r.config.parser_index == 0,
            r.config.parser_state == ParserState::Disabled,
            !r.config.aggregation_enabled,
            r.config.num_to_aggregate == 5,
            r.config.last_index_processed == 0,
            !r.config.highlight_match,
            r.config.scroll_state == ScrollState::Bottom,
            r.config.current_end == 0,
            !r.config.did_switch,
            !r.config.was_empty,
            r.config.delete_func is None,
            r.config.generate_auxiliary_messages is None,
            r.config.current_status is None,
            r.config.message_speed_tracker.wf(),
            r.config.message_speed_tracker@.items.len() == 0,
            r.config.message_speed_tracker@.max_size == 5,
            r.config.message_speed_tracker@.tracker.num_cycles == 1,
            r.config.message_speed_tracker@.tracker.previous_base == DEFAULT,
            r.length_finder.pattern() matches Some(p) ==> p == crate::sanitizers::ANSI_COLOR_PATTERN@,
    {
        MainWindow {
            input_type: InputType::Startup,
            previous_input_type: InputType::Startup,
            actions: Vec::new(),
            length_finder: LengthFinder::new(),
            config: LogriaConfig {
                poll_rate: DEFAULT,
                smart_poll_rate,
                use_history: history,
                height: 0,
                width: 0,
                previous_render: (0, 0),
                stderr_messages: Vec::new(),
                stdout_messages: Vec::new(),
                auxiliary_messages: Vec::new(),
                stream_type: StreamType::Auxiliary,
                previous_stream_type: StreamType::Auxiliary,
                regex_pattern: None,
                matched_rows: Vec::new(),
                current_matched_row: 0,
                last_index_regexed: 0,
                parser_index: 0,
                parser_state: ParserState::Disabled,
                aggregation_enabled: false,
                num_to_aggregate: 5,
                last_index_processed: 0,
                highlight_match: false,
                last_row: 0,
                scroll_state: ScrollState::Bottom,
                current_end: 0,
                did_switch: false,
                was_empty: false,
                delete_func: None,
                generate_auxiliary_messages: None,
                current_status: None,
                message_speed_tracker: RollingMean::new(5),
            },
        }
    }

    /// A 100 by 10 window showing the error buffer, which holds the
    /// numbers 0 to 99.
    pub fn _new_dummy() -> (r: MainWindow)
        ensures
            r.config.height == 10,
            r.config.width == 100,
            r.config.last_row == 7,
            r.config.stream_type == StreamType::StdErr,
            r.config.previous_stream_type == StreamType::StdOut,
            r.config.stderr_messages@.len() == 100,
            forall|i: int| 0 <= i < 100 ==> #[trigger] r.config.stderr_messages@[i]@ == decimal(i as nat),
            r.config.stdout_messages@.len() == 0,
            r.config.auxiliary_messages@.len() == 0,
            r.input_type == InputType::Startup,
            r.previous_input_type == InputType::Startup,
            r.actions@.len() == 0,
            r.config.regex_pattern is None,
            r.config.matched_rows@.len() == 0,
            r.config.current_matched_row == 0,
            r.config.scroll_state == ScrollState::Bottom,
            r.config.current_end == 0,
            r.config.previous_render == (0usize, 0usize),
            r.config.parser_state == ParserState::Disabled,
            !r.config.highlight_match,
            !r.config.aggregation_enabled,
            !r.config.was_empty,
            r.config.smart_poll_rate,
            r.config.use_history,
            r.config.poll_rate == DEFAULT,
            r.config.message_speed_tracker.wf(),
            r.config.message_speed_tracker@.items.len() == 0,
            r.config.message_speed_tracker@.max_size == 5,
            r.config.message_speed_tracker@.tracker.num_cycles == 1,
            r.config.message_speed_tracker@.tracker.previous_base == DEFAULT,
    {
        let mut app = MainWindow::new(true, true);
        app.config.height = 10;
        app.config.width = 100;
        app.config.stream_type = StreamType::StdErr;
        app.config.previous_stream_type = StreamType::StdOut;
        app.config.last_row = app.config.height - 3;
        let mut messages: Vec<String> = Vec::new();
        let mut x: usize = 0;
        while x < 100
            invariant
                x <= 100,
                messages@.len() == x,
                forall|i: int| 0 <= i < x ==> #[trigger] messages@[i]@ == decimal(i as nat),
            decreases 100 - x,
        {
            messages.push(usize_to_string(x));
            x = x + 1;
        }
        app.config.stderr_messages = messages;
        app
    }

    /// A 100 by 10 window showing the error buffer, which holds
    /// `"x - x-1 - x-2 - x-3"` for `x` from 10 to 109.
    pub fn _new_dummy_parse() -> (r: MainWindow)
        ensures
            r.config.height == 10,
            r.config.width == 100,
            r.config.last_row == 7,
            r.config.stream_type == StreamType::StdErr,
            r.config.previous_stream_type == StreamType::StdOut,
            r.config.stderr_messages@.len() == 100,
            forall|i: int| 0 <= i < 100 ==> #[trigger] r.config.stderr_messages@[i]@ == dummy_parse_message((i + 10) as nat),
            r.config.stdout_messages@.len() == 0,
            r.config.auxiliary_messages@.len() == 0,
            r.input_type == InputType::Startup,
            r.previous_input_type == InputType::Startup,
            r.actions@.len() == 0,
            r.config.regex_pattern is None,
            r.config.matched_rows@.len() == 0,
            r.config.scroll_state == ScrollState::Bottom,
            r.config.current_end == 0,
            r.config.parser_state == ParserState::Disabled,
            r.config.parser_index == 0,
            r.config.last_index_processed == 0,
            !r.config.aggregation_enabled,
            r.config.num_to_aggregate == 5,
    {
        let mut app = MainWindow::new(true, true);
        app.config.height = 10;
        app.config.width = 100;
        app.config.stream_type = StreamType::StdErr;
        app.config.previous_stream_type = StreamType::StdOut;
        app.config.last_row = app.config.height - 3;
        let mut messages: Vec<String> = Vec::new();
        let mut x: usize = 10;
        while x < 110
            invariant
                10 <= x <= 110,
                messages@.len() == x - 10,
                forall|i: int| 0 <= i < x - 10 ==> #[trigger] messages@[i]@ == dummy_parse_message((i + 10) as nat),
            decreases 110 - x,
        {
            let mut line = usize_to_string(x);
            push_str(&mut line, " - ");
            push_str(&mut line, usize_to_string(x - 1).as_str());
            push_str(&mut line, " - ");
            push_str(&mut line, usize_to_string(x - 2).as_str());
            push_str(&mut line, " - ");
            push_str(&mut line, usize_to_string(x - 3).as_str());
            assert(line@ =~= dummy_parse_message(x as nat));
            messages.push(line);
            x = x + 1;
        }
        app.config.stderr_messages = messages;
        app
    }

    /// Take the terminal's size: the last row that can hold a message is
    /// three above the bottom (the whole height when it is under three).
    pub fn update_dimensions(&mut self, width: u16, height: u16)
        ensures
            final(self).config == (LogriaConfig {
                width: width,
                height: height,
                last_row: if height >= 3 { (height - 3) as u16 } else { height },
                ..old(self).config
            }),
            final(self).input_type == old(self).input_type,
            final(self).previous_input_type == old(self).previous_input_type,
            final(self).actions == old(self).actions,
            final(self).length_finder == old(self).length_finder,
    {
        self.config.height = height;
        self.config.width = width;
        self.config.last_row = match height.checked_sub(3) {
            Some(r) => r,
            None => height,
        };
    }

    /// Show the output buffer when it holds more messages than the error buffer.
    pub fn choose_initial_stream(&mut self)
        ensures
            final(self).config.stream_type == (if old(self).config.stdout_messages@.len() > old(self).config.stderr_messages@.len() {
                StreamType::StdOut
            } else {
                old(self).config.stream_type
            }),
            final(self).config == (LogriaConfig { stream_type: final(self).config.stream_type, ..old(self).config }),
            final(self).input_type == old(self).input_type,
            final(self).previous_input_type == old(self).previous_input_type,
            final(self).actions == old(self).actions,
            final(self).length_finder == old(self).length_finder,
    {
        if self.config.stdout_messages.len() > self.config.stderr_messages.len() {
            self.config.stream_type = StreamType::StdOut;
        }
    }

    /// Take in messages that arrived on the streams; gives how many came.
    pub fn receive_messages(&mut self, stderr: Vec<String>, stdout: Vec<String>) -> (r: u64)
        requires
            stderr@.len() + stdout@.len() <= u64::MAX,
        ensures
            r == stderr@.len() + stdout@.len(),
            final(self).config.stderr_messages@ == old(self).config.stderr_messages@ + stderr@,
            final(self).config.stdout_messages@ == old(self).config.stdout_messages@ + stdout@,
            final(self).config == (LogriaConfig {
                stderr_messages: final(self).config.stderr_messages,
                stdout_messages: final(self).config.stdout_messages,
                ..old(self).config
            }),
            final(self).input_type == old(self).input_type,
            final(self).previous_input_type == old(self).previous_input_type,
            final(self).actions == old(self).actions,
            final(self).length_finder == old(self).length_finder,
    {
        let total = stderr.len() as u64 + stdout.len() as u64;
        let mut stderr = stderr;
        let mut stdout = stdout;
        self.config.stderr_messages.append(&mut stderr);
        self.config.stdout_messages.append(&mut stdout);
        total
    }

    /// Enter command mode; `delete_func` is what a following `:r` removes.
    pub fn set_command_mode(&mut self, delete_func: Option<DeleteTarget>)
        requires
            old(self).sized(),
        ensures
            final(self).config == (LogriaConfig { delete_func: delete_func, ..old(self).config }),
            final(self).input_type == InputType::Command,
            final(self).previous_input_type == old(self).input_type,
            final(self).length_finder == old(self).length_finder,
            final(self).ui() == old(self).ui().push(ActionView::MoveTo(1, (old(self).config.height - 2) as u16))
                + reset_command_line_ui(old(self)) + seq![
                    ActionView::MoveTo(1, (old(self).config.height - 2) as u16),
                    ActionView::MoveTo(0, (old(self).config.last_row + 1) as u16),
                    ActionView::Print(crate::constants::COMMAND_STR@),
                    ActionView::Flush,
                    ActionView::ShowCursor,
                ],
    {
        self.config.delete_func = delete_func;
        self.update_input_type(InputType::Command);
        self.go_to_cli();
        self.reset_command_line();
        self.set_cli_cursor(None);
        self.act(UiAction::ShowCursor);
        assert(self.ui() =~= old(self).ui().push(ActionView::MoveTo(1, (old(self).config.height - 2) as u16))
            + reset_command_line_ui(old(self)) + seq![
                ActionView::MoveTo(1, (old(self).config.height - 2) as u16),
                ActionView::MoveTo(0, (old(self).config.last_row + 1) as u16),
                ActionView::Print(crate::constants::COMMAND_STR@),
                ActionView::Flush,
                ActionView::ShowCursor,
            ]);
    }
}

/// `a` is `b` but for what a render records: the end of the range, whether
/// the buffer was empty and the range drawn.
pub open spec fn eq_but_render(a: LogriaConfig, b: LogriaConfig) -> bool {
    a == (LogriaConfig { current_end: a.current_end, was_empty: a.was_empty, previous_render: a.previous_render, ..b })
}

impl MainWindow {
    /// Every matched row is a message of the current buffer, and in parser
    /// mode the parsed messages are what is counted.
    pub open spec fn rows_valid(&self) -> bool {
        &&& forall|i: int| 0 <= i < self.config.matched_rows@.len() ==> #[trigger] self.config.matched_rows@[i] < self.msgs().len()
        &&& self.input_type == InputType::Parser ==> (self.config.parser_state == ParserState::Full
            || self.config.stream_type == StreamType::Auxiliary)
    }
}

/// A window whose shown messages come from its message buffers, with valid
/// matched rows, can be rendered.
pub proof fn lemma_ready(w: &MainWindow)
    requires
        w.rows_valid(),
        w.config.width >= 2,
    ensures
        w.render_ready(),
{
    assert forall|i: int| 0 <= i < w.num_messages() implies #[trigger] w.shown_valid(i) by {
        if w.filtered() {
            assert(w.config.matched_rows@[i] < w.msgs().len());
        }
    }
}

} // verus!
