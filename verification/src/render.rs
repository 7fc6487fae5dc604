//! Laying the shown messages out on the screen.
use vstd::prelude::*;
use vstd::utf8::*;
use crate::pattern::{regex_match_spans, spans_ordered, utf8_text};
use crate::sanitizers::{real_length, strip_colors, div_ceil};
use crate::text::{is_white_space, is_white_space_exec, str_chars, chars_to_string};
use crate::window::{eq_but_render, lemma_same_shown, same_state, ActionView, InputType, MainWindow, ScrollState, UiAction, reset_command_line_ui, spaces, write_to_command_line_ui, message_rows, repeat_space};

verus! {

/// Text without its trailing white space (`str::trim_end`).
pub open spec fn trim_end_spec(s: Seq<char>) -> Seq<char>
    decreases s.len(),
{
    if s.len() > 0 && is_white_space(s.last()) {
        trim_end_spec(s.drop_last())
    } else {
        s
    }
}

/// `str::trim_end`.
pub fn trim_end(s: &str) -> (r: String)
    ensures
        r@ == trim_end_spec(s@),
{
    let chars = str_chars(s);
    let mut hi = chars.len();
    assert(chars@.subrange(0, hi as int) =~= s@);
    while hi > 0 && is_white_space_exec(chars[hi - 1])
        invariant
            hi <= chars@.len(),
            chars@ == s@,
            trim_end_spec(chars@.subrange(0, hi as int)) == trim_end_spec(s@),
        decreases hi,
    {
        assert(chars@.subrange(0, hi as int).drop_last() =~= chars@.subrange(0, hi - 1));
        hi = hi - 1;
    }
    assert(chars@.subrange(0, hi as int) =~= trim_end_spec(chars@.subrange(0, hi as int)));
    chars_to_string(&chars, 0, hi)
}

/// `clean` with each span from the `k`-th on wrapped in the highlight color,
/// starting at byte `last`.
pub open spec fn highlight_spans(clean: Seq<u8>, spans: Seq<(usize, usize)>, k: int, last: int) -> Seq<u8>
    decreases spans.len() - k,
{
    if k < 0 || k >= spans.len() {
        clean.subrange(last, clean.len() as int)
    } else {
        clean.subrange(last, spans[k].0 as int) + encode_utf8(crate::constants::HIGHLIGHT_COLOR@)
            + clean.subrange(spans[k].0 as int, spans[k].1 as int) + encode_utf8(crate::constants::RESET_COLOR@)
            + highlight_spans(clean, spans, k + 1, spans[k].1 as int)
    }
}

/// `clean` from byte `last` on, each span from the `k`-th on put between
/// `open` and `close`.
pub open spec fn wrap_spans(clean: Seq<u8>, spans: Seq<(usize, usize)>, k: int, last: int, open: Seq<u8>, close: Seq<u8>) -> Seq<u8>
    decreases spans.len() - k,
{
    if k < 0 || k >= spans.len() {
        clean.subrange(last, clean.len() as int)
    } else {
        clean.subrange(last, spans[k].0 as int) + open + clean.subrange(spans[k].0 as int, spans[k].1 as int) + close
            + wrap_spans(clean, spans, k + 1, spans[k].1 as int, open, close)
    }
}

proof fn lemma_wrap_spans(clean: Seq<u8>, spans: Seq<(usize, usize)>, k: int, last: int)
    requires
        spans_ordered(spans, clean.len()),
        0 <= k <= spans.len(),
        0 <= last <= clean.len(),
        k < spans.len() ==> last <= spans[k].0,
    ensures
        highlight_spans(clean, spans, k, last) == wrap_spans(clean, spans, k, last, encode_utf8(crate::constants::HIGHLIGHT_COLOR@),
            encode_utf8(crate::constants::RESET_COLOR@)),
        wrap_spans(clean, spans, k, last, Seq::empty(), Seq::empty()) == clean.subrange(last, clean.len() as int),
    decreases spans.len() - k,
{
    if k < spans.len() {
        let e = spans[k].1 as int;
        if k + 1 < spans.len() {
            assert(spans[k + 1 - 1].1 <= spans[k + 1].0);
        }
        lemma_wrap_spans(clean, spans, k + 1, e);
        let z = Seq::<u8>::empty();
        assert(clean.subrange(last, spans[k].0 as int) + z + clean.subrange(spans[k].0 as int, e) + z + clean.subrange(e, clean.len() as int)
            =~= clean.subrange(last, clean.len() as int));
    }
}

/// Highlighting only puts the two color codes around each match, in order:
/// left without them, the text is the cleaned message again.
pub proof fn law_highlight_round_trip(clean: Seq<u8>, spans: Seq<(usize, usize)>)
    requires
        spans_ordered(spans, clean.len()),
    ensures
        highlight_spans(clean, spans, 0, 0) == wrap_spans(clean, spans, 0, 0, encode_utf8(crate::constants::HIGHLIGHT_COLOR@),
            encode_utf8(crate::constants::RESET_COLOR@)),
        wrap_spans(clean, spans, 0, 0, Seq::empty(), Seq::empty()) == clean,
{
    lemma_wrap_spans(clean, spans, 0, 0);
    assert(clean.subrange(0, clean.len() as int) =~= clean);
}

/// A message with the color codes removed and each match of `regex` in the
/// highlight color. When that is not valid UTF-8 the message is kept as is.
pub open spec fn highlighted(ansi: Option<Seq<char>>, regex: Seq<char>, message: Seq<char>) -> Seq<char> {
    let clean = strip_colors(ansi, encode_utf8(message));
    let b = highlight_spans(clean, regex_match_spans(regex, clean), 0, 0);
    if valid_utf8(b) { decode_utf8(b) } else { message }
}

/// What decides how one message is laid out.
pub struct LineSource {
    pub width: int,
    pub ansi: Option<Seq<char>>,
    pub highlight: Option<Seq<char>>,
}

pub open spec fn line_source(w: &MainWindow) -> LineSource {
    LineSource {
        width: w.config.width as int,
        ansi: w.length_finder.pattern(),
        highlight: if w.config.highlight_match && w.config.regex_pattern is Some {
            Some(w.config.regex_pattern->Some_0@)
        } else {
            None
        },
    }
}

/// Rows a message takes when printed, at least one.
pub open spec fn print_rows(len: int, width: int) -> int {
    if div_ceil(len, width) < 1 { 1 } else { div_ceil(len, width) }
}

/// The row count as the screen arithmetic sees it (16 bits, at least one).
pub open spec fn row_step(rows: int) -> int {
    if ((rows as u16) as int) < 1 { 1 } else { (rows as u16) as int }
}

/// The printed line for a message: trimmed, maybe highlighted, padded to
/// fill its rows.
pub open spec fn printed_line(src: LineSource, message: Seq<char>) -> Seq<char> {
    let msg = trim_end_spec(message);
    let len = real_length(src.ansi, msg) as int;
    let rows = print_rows(len, src.width);
    let text = match src.highlight {
        Some(re) => highlighted(src.ansi, re, msg),
        None => msg,
    };
    text + spaces((src.width * rows - len) as nat)
}

/// The terminal work for messages `start..index`, newest at the bottom,
/// drawn upwards from `row`; stops when no room is left. Also gives the row
/// reached.
pub open spec fn render_lines(w: &MainWindow, index: int, start: int, row: int) -> (Seq<ActionView>, int)
    decreases index - start,
{
    if index <= start {
        (Seq::empty(), row)
    } else {
        let i = index - 1;
        let src = line_source(w);
        let msg = trim_end_spec(w.shown(i));
        let len = real_length(src.ansi, msg) as int;
        let step = row_step(print_rows(len, src.width));
        if row < step {
            (Seq::empty(), row)
        } else {
            let new_row = row - step;
            let (rest, fr) = render_lines(w, i, start, new_row);
            (seq![ActionView::MoveTo(0, new_row as u16), ActionView::Print(printed_line(src, w.shown(i)))] + rest, fr)
        }
    }
}

/// Blank lines over rows `from..rows` of a window `width` wide.
pub open spec fn blank_lines(width: nat, from: int, rows: int) -> Seq<ActionView>
    decreases rows - from,
{
    if from >= rows {
        Seq::empty()
    } else {
        seq![ActionView::MoveTo(0, from as u16), ActionView::Print(spaces(width))] + blank_lines(width, from + 1, rows)
    }
}

/// The terminal work of a render once the range is known and not empty.
pub open spec fn render_frame_ui(w: &MainWindow, start: int, end: int) -> Seq<ActionView> {
    let (lines, last) = render_lines(w, end, start, w.config.last_row as int);
    let reset = if w.config.was_empty && w.input_type != InputType::Parser && w.input_type != InputType::Regex {
        reset_command_line_ui(w)
    } else {
        Seq::empty()
    };
    reset + lines + blank_lines(w.config.width as nat, 0, last) + seq![
        ActionView::RestoreCursor,
        ActionView::Flush,
    ]
}

/// The terminal work of a render when the current buffer is empty.
pub open spec fn render_empty_ui(w: &MainWindow) -> Seq<ActionView> {
    let text = match w.input_type {
        InputType::Parser => write_to_command_line_ui(w, crate::constants::NO_MESSAGE_IN_BUFFER_PARSER@),
        InputType::Regex => Seq::empty(),
        _ => write_to_command_line_ui(w, crate::constants::NO_MESSAGE_IN_BUFFER_NORMAL@),
    };
    text.push(ActionView::Flush)
}

/// Windows that lay messages out the same way.
pub open spec fn same_layout(a: &MainWindow, b: &MainWindow) -> bool {
    &&& line_source(a) == line_source(b)
    &&& forall|i: int| #[trigger] a.shown(i) == b.shown(i)
}

proof fn lemma_render_lines_same(a: &MainWindow, b: &MainWindow, index: int, start: int, row: int)
    requires
        same_layout(a, b),
    ensures
        render_lines(a, index, start, row) == render_lines(b, index, start, row),
    decreases index - start,
{
    if index > start {
        let i = index - 1;
        assert(a.shown(i) == b.shown(i));
        let msg = trim_end_spec(a.shown(i));
        let len = real_length(line_source(a).ansi, msg) as int;
        let step = row_step(print_rows(len, line_source(a).width));
        if row >= step {
            lemma_render_lines_same(a, b, i, start, row - step);
        }
    }
}

proof fn lemma_render_lines_row(w: &MainWindow, index: int, start: int, row: int)
    requires
        row >= 0,
    ensures
        0 <= render_lines(w, index, start, row).1 <= row,
    decreases index - start,
{
    if index > start {
        let i = index - 1;
        let src = line_source(w);
        let msg = trim_end_spec(w.shown(i));
        let len = real_length(src.ansi, msg) as int;
        let step = row_step(print_rows(len, src.width));
        if row >= step {
            lemma_render_lines_row(w, i, start, row - step);
        }
    }
}

proof fn lemma_blank_lines_push(width: nat, from: int, row: int)
    requires
        from <= row,
    ensures
        blank_lines(width, from, row + 1) == blank_lines(width, from, row) + seq![
            ActionView::MoveTo(0, row as u16),
            ActionView::Print(spaces(width)),
        ],
    decreases row - from,
{
    if from < row {
        lemma_blank_lines_push(width, from + 1, row);
        assert(blank_lines(width, from, row + 1) =~= seq![ActionView::MoveTo(0, from as u16), ActionView::Print(spaces(width))]
            + blank_lines(width, from + 1, row + 1));
    } else {
        assert(blank_lines(width, row + 1, row + 1) == Seq::<ActionView>::empty());
        assert(blank_lines(width, from, row) == Seq::<ActionView>::empty());
    }
}

proof fn lemma_top_stop_bounds(w: &MainWindow, idx: int, rows: int)
    requires
        0 <= idx < w.num_messages(),
    ensures
        idx <= w.top_stop(idx, rows) < w.num_messages(),
    decreases w.num_messages() - idx,
{
    let used = rows + message_rows(w.shown_len(idx), w.config.width as int);
    if used <= w.config.last_row as int && idx < w.num_messages() - 1 {
        lemma_top_stop_bounds(w, idx + 1, used);
    }
}

/// Appends `src[from..to]` to `out`.
fn extend_range(out: &mut Vec<u8>, src: &Vec<u8>, from: usize, to: usize)
    requires
        from <= to <= src@.len(),
    ensures
        final(out)@ == old(out)@ + src@.subrange(from as int, to as int),
{
    let mut i = from;
    while i < to
        invariant
            from <= i <= to <= src@.len(),
            out@ == old(out)@ + src@.subrange(from as int, i as int),
        decreases to - i,
    {
        out.push(src[i]);
        assert(src@.subrange(from as int, i + 1) =~= src@.subrange(from as int, i as int).push(src@[i as int]));
        i = i + 1;
    }
    assert(out@ =~= old(out)@ + src@.subrange(from as int, to as int));
}

/// `after` is `before` once redrawn from the top of its frame.
pub open spec fn redrawn(before: &MainWindow, after: &MainWindow) -> bool {
    render_post(&MainWindow { config: crate::window::LogriaConfig { previous_render: (0usize, 0usize), ..before.config }, ..*before }, after)
}

/// The state after a render of `old` in which the range `(start, end)` was drawn.
pub open spec fn render_post(old: &MainWindow, new: &MainWindow) -> bool {
    let (start, end, cur) = old.render_position();
    let base = crate::window::LogriaConfig { current_end: cur, ..old.config };
    &&& new.input_type == old.input_type
    &&& new.previous_input_type == old.previous_input_type
    &&& new.length_finder == old.length_finder
    &&& if old.msgs().len() == 0 {
        &&& new.config == (crate::window::LogriaConfig { was_empty: true, ..base })
        &&& new.ui() == old.ui().push(ActionView::SaveCursor) + render_empty_ui(old)
    } else if !old.config.aggregation_enabled && old.config.previous_render == (start, end) {
        &&& new.config == base
        &&& new.ui() == old.ui() + seq![ActionView::SaveCursor, ActionView::RestoreCursor]
    } else {
        &&& new.config == (crate::window::LogriaConfig { was_empty: false, previous_render: (start, end), ..base })
        &&& new.ui() == old.ui().push(ActionView::SaveCursor) + render_frame_ui(old, start as int, end as int)
    }
}

impl MainWindow {
    /// Draw shown messages `start..end` upwards from the last row, newest at
    /// the bottom, while they fit; gives the row reached.
    fn draw_lines(&mut self, start: usize, end: usize) -> (r: u16)
        requires
            old(self).render_ready(),
            start <= end <= old(self).num_messages(),
        ensures
            final(self).ui() == old(self).ui() + render_lines(old(self), end as int, start as int, old(self).config.last_row as int).0,
            r as int == render_lines(old(self), end as int, start as int, old(self).config.last_row as int).1,
            same_state(final(self), old(self)),
    {
        let ghost all = render_lines(old(self), end as int, start as int, old(self).config.last_row as int);
        let width = self.config.width as usize;
        let mut current_row: u16 = self.config.last_row;
        let mut index: usize = end;
        let mut done = false;
        let ghost mut acc: Seq<ActionView> = Seq::empty();
        assert(all.0 =~= acc + all.0);
        while index > start && !done
            invariant
                same_state(self, old(self)),
                old(self).render_ready(),
                width == old(self).config.width,
                width >= 2,
                start <= index <= end <= old(self).num_messages(),
                self.ui() == old(self).ui() + acc,
                all == (acc + render_lines(old(self), index as int, start as int, current_row as int).0,
                    render_lines(old(self), index as int, start as int, current_row as int).1),
                done ==> render_lines(old(self), index as int, start as int, current_row as int) == (Seq::<ActionView>::empty(), current_row as int),
            decreases 2 * index + (if done { 0int } else { 1int }),
        {
            let i = index - 1;
            assert(old(self).shown_valid(i as int));
            let raw = self.get_message_at_index(i);
            let message = trim_end(raw.as_str());
            let len = self.length_finder.get_real_length(message.as_str());
            let q = len / width;
            assert(q < usize::MAX) by (nonlinear_arith)
                requires
                    width >= 2,
                    q == len / width,
                    len <= usize::MAX,
            ;
            let rows0 = if len % width == 0 { q } else { q + 1 };
            let rows = if rows0 < 1 { 1 } else { rows0 };
            let r16 = #[verifier::truncate] (rows as u16);
            let step = if r16 < 1 { 1 } else { r16 };
            proof {
                assert(rows0 == div_ceil(len as int, width as int)) by (nonlinear_arith)
                    requires
                        width > 0,
                        q == len / width,
                        rows0 == (if len % width == 0 { q as int } else { q + 1 }),
                ;
            }
            if current_row < step {
                done = true;
            } else {
                current_row = current_row - step;
                let text = if self.config.highlight_match && self.config.regex_pattern.is_some() {
                    self.highlight_match(&message)
                } else {
                    message
                };
                let pad: usize = if len == 0 { width } else if len % width == 0 { 0 } else { width - len % width };
                proof {
                    assert(pad == width * rows - len) by (nonlinear_arith)
                        requires
                            width > 0,
                            q == len / width,
                            rows == (if rows0 < 1 { 1 } else { rows0 }),
                            rows0 == (if len % width == 0 { q as int } else { q + 1 }),
                            pad == (if len == 0 { width as int } else if len % width == 0 { 0 } else { width - len % width }),
                    ;
                }
                let mut line = text;
                crate::text::push_str(&mut line, repeat_space(pad).as_str());
                self.act(UiAction::MoveTo(0, current_row));
                self.act(UiAction::Print(line));
                proof {
                    acc = acc + seq![ActionView::MoveTo(0, current_row), ActionView::Print(line@)];
                    assert(self.ui() =~= old(self).ui() + acc);
                    assert(all.0 =~= acc + render_lines(old(self), i as int, start as int, current_row as int).0);
                }
                index = i;
            }
        }
        assert(render_lines(old(self), index as int, start as int, current_row as int) == (Seq::<ActionView>::empty(), current_row as int));
        assert(acc =~= all.0);
        current_row
    }

    /// Blank the rows above `rows`.
    fn draw_blanks(&mut self, rows: u16)
        ensures
            final(self).ui() == old(self).ui() + blank_lines(old(self).config.width as nat, 0, rows as int),
            same_state(final(self), old(self)),
    {
        let width = self.config.width as usize;
        let mut row: u16 = 0;
        assert(old(self).ui() =~= old(self).ui() + blank_lines(width as nat, 0, 0));
        while row < rows
            invariant
                row <= rows,
                same_state(self, old(self)),
                width == old(self).config.width,
                self.ui() == old(self).ui() + blank_lines(width as nat, 0, row as int),
            decreases rows - row,
        {
            let blank = repeat_space(width);
            self.act(UiAction::MoveTo(0, row));
            self.act(UiAction::Print(blank));
            proof {
                lemma_blank_lines_push(width as nat, 0, row as int);
                assert(self.ui() =~= old(self).ui() + blank_lines(width as nat, 0, row + 1));
            }
            row = row + 1;
        }
    }

    /// Tell the user that the current buffer is empty.
    fn render_empty(&mut self)
        requires
            old(self).sized(),
        ensures
            final(self).ui() == old(self).ui() + render_empty_ui(old(self)),
            final(self).config == (crate::window::LogriaConfig { was_empty: true, ..old(self).config }),
            final(self).input_type == old(self).input_type,
            final(self).previous_input_type == old(self).previous_input_type,
            final(self).length_finder == old(self).length_finder,
    {
        match self.input_type {
            InputType::Parser => {
                self.write_to_command_line(crate::constants::NO_MESSAGE_IN_BUFFER_PARSER);
            },
            InputType::Regex => {},
            _ => {
                self.write_to_command_line(crate::constants::NO_MESSAGE_IN_BUFFER_NORMAL);
            },
        }
        self.config.was_empty = true;
        self.act(UiAction::Flush);
        assert(self.ui() =~= old(self).ui() + render_empty_ui(old(self)));
    }

    /// Draw the range `start..end` and blank the rows above it.
    #[verifier::rlimit(40)]
    fn render_frame(&mut self, start: usize, end: usize)
        requires
            old(self).render_ready(),
            old(self).sized(),
            start <= end <= old(self).num_messages(),
        ensures
            final(self).ui() == old(self).ui() + render_frame_ui(old(self), start as int, end as int),
            final(self).config == (crate::window::LogriaConfig { was_empty: false, previous_render: (start, end), ..old(self).config }),
            final(self).input_type == old(self).input_type,
            final(self).previous_input_type == old(self).previous_input_type,
            final(self).length_finder == old(self).length_finder,
    {
        if self.config.was_empty {
            match self.input_type {
                InputType::Parser | InputType::Regex => {},
                _ => {
                    self.reset_command_line();
                },
            }
        }
        let ghost reset_ui: Seq<ActionView> = if old(self).config.was_empty && old(self).input_type != InputType::Parser
            && old(self).input_type != InputType::Regex {
            reset_command_line_ui(old(self))
        } else {
            Seq::empty()
        };
        assert(self.ui() =~= old(self).ui() + reset_ui);
        proof {
            lemma_same_shown(self, old(self));
            lemma_render_lines_same(self, old(self), end as int, start as int, old(self).config.last_row as int);
        }
        let last = self.draw_lines(start, end);
        self.draw_blanks(last);
        self.act(UiAction::RestoreCursor);
        self.act(UiAction::Flush);
        self.config.was_empty = false;
        self.config.previous_render = (start, end);
        assert(self.ui() =~= old(self).ui() + render_frame_ui(old(self), start as int, end as int));
    }

    /// Render the shown part of the buffer: each message on as many rows as
    /// it needs, newest at the bottom, and blank rows above.
    pub fn render_text_in_output(&mut self)
        requires
            old(self).render_ready(),
            old(self).sized(),
        ensures
            render_post(old(self), final(self)),
    {
        proof {
            if old(self).num_messages() > old(self).config.last_row && old(self).config.scroll_state == ScrollState::Top {
                lemma_top_stop_bounds(old(self), 0, 0);
            }
        }
        let (start, end) = self.determine_render_position();
        self.act(UiAction::SaveCursor);
        proof {
            lemma_same_shown(self, old(self));
        }
        let ghost mid = *self;
        assert(old(self).num_messages() > old(self).config.last_row ==> 0 <= old(self).render_end().0 <= old(self).num_messages());
        if self.messages().is_empty() {
            self.render_empty();
            assert(render_empty_ui(&mid) == render_empty_ui(old(self)));
            return;
        }
        if !self.config.aggregation_enabled && self.config.previous_render.0 == start && self.config.previous_render.1 == end {
            self.act(UiAction::RestoreCursor);
            assert(self.ui() =~= old(self).ui() + seq![ActionView::SaveCursor, ActionView::RestoreCursor]);
            return;
        }
        self.render_frame(start, end);
        proof {
            lemma_render_lines_same(&mid, old(self), end as int, start as int, old(self).config.last_row as int);
            assert(render_frame_ui(&mid, start as int, end as int) == render_frame_ui(old(self), start as int, end as int));
        }
    }

    /// Render again even when the range has not changed.
    pub fn redraw(&mut self)
        requires
            old(self).render_ready(),
            old(self).sized(),
        ensures
            render_post(&MainWindow { config: crate::window::LogriaConfig { previous_render: (0usize, 0usize), ..old(self).config }, ..*old(self) }, final(self)),
    {
        self.config.previous_render = (0, 0);
        proof {
            lemma_same_shown(self, old(self));
        }
        self.render_text_in_output();
    }

    /// Highlight the regex matched text with an escape code.
    pub fn highlight_match(&self, message: &String) -> (r: String)
        requires
            self.config.regex_pattern is Some,
        ensures
            r@ == highlighted(self.length_finder.pattern(), self.config.regex_pattern->Some_0@, message@),
    {
        let regex = match &self.config.regex_pattern {
            Some(p) => p,
            None => { return message.clone(); },
        };
        let clean = self.length_finder.remove_colors(message.as_str().as_bytes());
        let spans = regex.match_spans(clean.as_slice());
        let ghost all = highlight_spans(clean@, spans@, 0, 0);
        let hl = crate::constants::HIGHLIGHT_COLOR.as_bytes();
        let reset = crate::constants::RESET_COLOR.as_bytes();
        let mut new_msg: Vec<u8> = Vec::new();
        let mut last_end: usize = 0;
        let mut k: usize = 0;
        while k < spans.len()
            invariant
                k <= spans@.len(),
                spans_ordered(spans@, clean@.len()),
                k == 0 ==> last_end == 0,
                k > 0 ==> last_end == spans@[k - 1].1,
                last_end <= clean@.len(),
                new_msg@ + highlight_spans(clean@, spans@, k as int, last_end as int) == all,
                hl@ == encode_utf8(crate::constants::HIGHLIGHT_COLOR@),
                reset@ == encode_utf8(crate::constants::RESET_COLOR@),
            decreases spans@.len() - k,
        {
            let (s, e) = spans[k];
            assert(spans@[k as int].0 <= spans@[k as int].1 <= clean@.len());
            let ghost before = new_msg@;
            extend_range(&mut new_msg, &clean, last_end, s);
            let mut j: usize = 0;
            while j < hl.len()
                invariant
                    j <= hl@.len(),
                    new_msg@ == before + clean@.subrange(last_end as int, s as int) + hl@.subrange(0, j as int),
                decreases hl@.len() - j,
            {
                new_msg.push(hl[j]);
                assert(hl@.subrange(0, j + 1) =~= hl@.subrange(0, j as int).push(hl@[j as int]));
                j = j + 1;
            }
            assert(hl@.subrange(0, hl@.len() as int) =~= hl@);
            extend_range(&mut new_msg, &clean, s, e);
            let ghost mid = new_msg@;
            let mut j: usize = 0;
            while j < reset.len()
                invariant
                    j <= reset@.len(),
                    new_msg@ == mid + reset@.subrange(0, j as int),
                decreases reset@.len() - j,
            {
                new_msg.push(reset[j]);
                assert(reset@.subrange(0, j + 1) =~= reset@.subrange(0, j as int).push(reset@[j as int]));
                j = j + 1;
            }
            assert(reset@.subrange(0, reset@.len() as int) =~= reset@);
            assert(new_msg@ + highlight_spans(clean@, spans@, k + 1, e as int) =~= before + highlight_spans(
                clean@,
                spans@,
                k as int,
                last_end as int,
            ));
            last_end = e;
            k = k + 1;
        }
        extend_range(&mut new_msg, &clean, last_end, clean.len());
        assert(new_msg@ =~= all);
        match utf8_text(new_msg.as_slice()) {
            Some(s) => s,
            None => message.clone(),
        }
    }
}

/// What a forced render changes: the configuration only in what a render
/// records, and nothing of the mode or the buffers.
pub proof fn lemma_redraw_keeps(old: &MainWindow, new: &MainWindow)
    requires
        render_post(&MainWindow { config: crate::window::LogriaConfig { previous_render: (0usize, 0usize), ..old.config }, ..*old }, new),
    ensures
        eq_but_render(new.config, old.config),
        new.input_type == old.input_type,
        new.previous_input_type == old.previous_input_type,
        new.length_finder == old.length_finder,
        new.ui().len() >= old.ui().len(),
        new.ui().subrange(0, old.ui().len() as int) == old.ui(),
        new.config.current_end <= old.config.current_end || new.config.current_end <= old.num_messages(),
{
    let m = MainWindow { config: crate::window::LogriaConfig { previous_render: (0usize, 0usize), ..old.config }, ..*old };
    if m.num_messages() > 0 {
        lemma_top_stop_bounds(&m, 0, 0);
    }
    assert(m.ui() == old.ui());
    let u = new.ui();
    if old.msgs().len() == 0 {
        assert(u.subrange(0, old.ui().len() as int) =~= old.ui());
    } else if !old.config.aggregation_enabled && m.config.previous_render == (m.render_position().0, m.render_position().1) {
        assert(u.subrange(0, old.ui().len() as int) =~= old.ui());
    } else {
        assert(u.subrange(0, old.ui().len() as int) =~= old.ui());
    }
}

} // verus!
