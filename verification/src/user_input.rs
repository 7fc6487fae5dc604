//! Typing on the command line: the text being edited, its cursor, and the
//! history of earlier entries.
use vstd::prelude::*;
use vstd::utf8::encode_utf8;
use crate::history::{Tape, TapeView, after_scroll_back, after_scroll_forward, is_history_excluded};
use crate::keys::KeyCode;
use crate::text::{is_trim_bounds, str_chars};
use crate::window::{ActionView, MainWindow, UiAction, reset_command_line_ui, same_state, write_to_command_line_ui};

verus! {

/// The state of the command line editor.
pub struct InputView {
    /// Width and height of the terminal, as last seen.
    pub x: u16,
    pub y: u16,
    /// The column after the last character written; 1 is the start.
    pub last_write: u16,
    pub content: Seq<char>,
    pub history: TapeView,
}

/// The column the cursor moves to on a step left.
pub open spec fn left_of(last_write: u16) -> u16 {
    if last_write <= 2 { 1 } else { (last_write - 1) as u16 }
}

/// The column the cursor moves to on a step right.
pub open spec fn right_of(last_write: u16, len: nat) -> u16 {
    let end = (len as u16) + 1;
    if end <= last_write + 1 { end as u16 } else { (last_write + 1) as u16 }
}

/// The length in bytes of the UTF-8 form of `s`, as a machine word.
pub open spec fn byte_len(s: Seq<char>) -> usize {
    encode_utf8(s).len() as usize
}

/// The cursor column after showing `item`: one past its length in bytes,
/// taken as 16 bits.
pub open spec fn column_after(item: Seq<char>) -> u16 {
    ((byte_len(item) as u16) + 1) as u16
}

/// The terminal work of showing the line being edited.
pub open spec fn write_ui(w: &MainWindow, content: Seq<char>, last_write: u16) -> Seq<ActionView> {
    reset_command_line_ui(w) + seq![
        ActionView::MoveTo(1, (w.config.height - 2) as u16),
        ActionView::Print(content),
        ActionView::MoveTo(last_write, (w.config.height - 2) as u16),
        ActionView::ShowCursor,
        ActionView::Flush,
    ]
}

/// The terminal work of showing an item of the history.
pub open spec fn tape_ui(w: &MainWindow, item: Seq<char>) -> Seq<ActionView> {
    write_to_command_line_ui(w, item) + seq![
        ActionView::MoveTo(column_after(item), (w.config.height - 2) as u16),
        ActionView::ShowCursor,
    ]
}

/// Whether typing the key cannot fail: the edits it makes stay within the
/// text, and the cursor columns fit in 16 bits.
pub open spec fn key_safe(s: InputView, key: KeyCode, width: u16) -> bool {
    let lw = s.last_write as int;
    let len = s.content.len() as int;
    match key {
        KeyCode::Delete => lw < width - 3 && len > 0 ==> 1 <= lw && lw - 1 < len,
        KeyCode::Backspace => lw >= 1 && len > 0 ==> 2 <= lw && lw - 2 < len,
        KeyCode::Right => (len as u16) < u16::MAX && lw < u16::MAX,
        KeyCode::Up => (byte_len(after_scroll_back(s.history, 1).items[after_scroll_back(s.history, 1).current_index as int]) as u16) < u16::MAX,
        KeyCode::Down => (byte_len(after_scroll_forward(s.history, 1).items[after_scroll_forward(s.history, 1).current_index as int]) as u16) < u16::MAX,
        KeyCode::Left => true,
        _ => lw < width - 3 ==> 1 <= lw && lw - 1 <= len,
    }
}

/// The editor after a key, in a terminal `width` by `height`.
pub open spec fn after_key(s: InputView, key: KeyCode, width: u16, height: u16) -> InputView {
    let s = InputView { x: width, y: height, ..s };
    let lw = s.last_write;
    let len = s.content.len();
    match key {
        KeyCode::Delete => if lw < width - 3 && len > 0 {
            InputView { content: s.content.remove(lw - 1), ..s }
        } else {
            s
        },
        KeyCode::Backspace => if lw >= 1 && len > 0 {
            InputView { content: s.content.remove(lw - 2), last_write: left_of(lw), ..s }
        } else {
            s
        },
        KeyCode::Left => InputView { last_write: left_of(lw), ..s },
        KeyCode::Right => InputView { last_write: right_of(lw, len), ..s },
        KeyCode::Up => {
            let h = after_scroll_back(s.history, 1);
            let item = h.items[h.current_index as int];
            InputView { history: h, content: item, last_write: column_after(item), ..s }
        },
        KeyCode::Down => {
            let h = after_scroll_forward(s.history, 1);
            let item = h.items[h.current_index as int];
            InputView { history: h, content: item, last_write: column_after(item), ..s }
        },
        KeyCode::Char(c) => if lw < width - 3 {
            InputView { content: s.content.insert(lw - 1, c), last_write: (lw + 1) as u16, ..s }
        } else {
            s
        },
        _ => s,
    }
}

/// The terminal work of a key, between the cursor being shown and the flush.
pub open spec fn key_ui(w: &MainWindow, s: InputView, key: KeyCode) -> Seq<ActionView> {
    let n = after_key(s, key, w.config.width, w.config.height);
    let row = (w.config.height - 2) as u16;
    let lw = s.last_write;
    let len = s.content.len();
    match key {
        KeyCode::Delete => if lw < w.config.width - 3 && len > 0 {
            write_ui(w, n.content, n.last_write)
        } else {
            Seq::empty()
        },
        KeyCode::Backspace => if lw >= 1 && len > 0 {
            seq![ActionView::MoveTo(n.last_write, row)] + write_ui(w, n.content, n.last_write)
        } else {
            Seq::empty()
        },
        KeyCode::Left | KeyCode::Right => seq![ActionView::MoveTo(n.last_write, row)],
        KeyCode::Up | KeyCode::Down => tape_ui(w, n.content),
        KeyCode::Char(_) => if lw < w.config.width - 3 {
            write_ui(w, n.content, n.last_write)
        } else {
            Seq::empty()
        },
        _ => Seq::empty(),
    }
}

/// Captures what the user types on the command line.
pub struct UserInputHandler {
    x: u16,
    y: u16,
    last_write: u16,
    content: Vec<char>,
    history: Tape,
}

impl View for UserInputHandler {
    type V = InputView;

    closed spec fn view(&self) -> InputView {
        InputView {
            x: self.x,
            y: self.y,
            last_write: self.last_write,
            content: self.content@,
            history: self.history@,
        }
    }
}

impl UserInputHandler {
    /// The history tape is well formed.
    pub open spec fn wf(&self) -> bool {
        self@.history.items.len() > 0 && self@.history.current_index < self@.history.items.len()
    }

    closed spec fn inner_wf(&self) -> bool {
        self.history.wf()
    }

    proof fn lemma_wf(&self)
        ensures
            self.wf() <==> self.inner_wf(),
    {
    }

    /// An empty line with the cursor at its start, over the given history.
    pub fn new(history: Tape) -> (r: UserInputHandler)
        requires
            history.wf(),
        ensures
            r.wf(),
            r@.x == 0,
            r@.y == 0,
            r@.last_write == 1,
            r@.content.len() == 0,
            r@.history == history@,
    {
        UserInputHandler { x: 0, y: 0, last_write: 1, content: Vec::new(), history }
    }

    /// The command line's row.
    pub fn y(&self) -> (r: u16)
        requires
            self@.y >= 2,
        ensures
            r == self@.y - 2,
    {
        self.y - 2
    }

    /// The last usable column.
    pub fn x(&self) -> (r: u16)
        requires
            self@.x >= 3,
        ensures
            r == self@.x - 3,
    {
        self.x - 3
    }

    /// The text typed so far.
    pub fn get_content(&self) -> (r: String)
        ensures
            r@ == self@.content,
    {
        crate::text::chars_to_string(&self.content, 0, self.content.len())
    }

    /// Where in the text the cursor is.
    pub fn position_as_index(&self) -> (r: usize)
        requires
            self@.last_write >= 1,
        ensures
            r == self@.last_write - 1,
    {
        (self.last_write - 1) as usize
    }

    /// The column the cursor is on.
    pub fn last_write(&self) -> (r: u16)
        ensures
            r == self@.last_write,
    {
        self.last_write
    }

    /// Take the terminal's size from the window.
    fn update_dimensions(&mut self, window: &MainWindow)
        ensures
            final(self)@ == (InputView { x: window.config.width, y: window.config.height, ..old(self)@ }),
    {
        self.y = window.config.height;
        self.x = window.config.width;
    }

    /// Show the line being edited.
    fn write(&self, window: &mut MainWindow)
        requires
            old(window).sized(),
            self@.y == old(window).config.height,
        ensures
            final(window).ui() == old(window).ui() + write_ui(old(window), self@.content, self@.last_write),
            same_state(final(window), old(window)),
    {
        window.reset_command_line();
        let row = self.y();
        window.act(UiAction::MoveTo(1, row));
        window.act(UiAction::Print(self.get_content()));
        window.act(UiAction::MoveTo(self.last_write, row));
        window.act(UiAction::ShowCursor);
        window.act(UiAction::Flush);
        assert(window.ui() =~= old(window).ui() + write_ui(old(window), self@.content, self@.last_write));
    }

    /// Show an item of the history and put the cursor after it.
    fn tape_render(&mut self, window: &mut MainWindow, content: &str)
        requires
            old(window).sized(),
            old(self)@.y == old(window).config.height,
            (byte_len(content@) as u16) < u16::MAX,
        ensures
            final(self)@ == (InputView { content: content@, last_write: column_after(content@), ..old(self)@ }),
            final(window).ui() == old(window).ui() + tape_ui(old(window), content@),
            same_state(final(window), old(window)),
    {
        let bytes = #[verifier::truncate] (content.len() as u16);
        self.last_write = bytes + 1;
        window.write_to_command_line(content);
        self.content = str_chars(content);
        let row = self.y();
        window.act(UiAction::MoveTo(self.last_write, row));
        window.act(UiAction::ShowCursor);
        assert(window.ui() =~= old(window).ui() + tape_ui(old(window), content@));
    }

    /// Whether the editor can take `key` in a terminal `width` wide (see
    /// `key_safe`).
    pub fn can_take(&self, key: KeyCode, width: u16) -> (r: bool)
        requires
            self.wf(),
        ensures
            r == key_safe(self@, key, width),
    {
        proof {
            self.lemma_wf();
        }
        let lw = self.last_write;
        let len = self.content.len();
        let in_line = (lw as i32) < (width as i32) - 3;
        match key {
            KeyCode::Delete => !(in_line && len > 0) || (lw >= 1 && ((lw - 1) as usize) < len),
            KeyCode::Backspace => !(lw >= 1 && len > 0) || (lw >= 2 && ((lw - 2) as usize) < len),
            KeyCode::Right => {
                let len16 = #[verifier::truncate] (len as u16);
                len16 < u16::MAX && lw < u16::MAX
            },
            KeyCode::Up => {
                let current = self.history.current_index();
                let index = if self.history.should_scroll_back() {
                    if current >= 1 { current - 1 } else { 0 }
                } else {
                    current
                };
                let bytes = #[verifier::truncate] (self.history.item(index).as_str().len() as u16);
                bytes < u16::MAX
            },
            KeyCode::Down => {
                let current = self.history.current_index();
                let last = self.history.len() - 1;
                let index = if current != last {
                    if current + 1 <= last { current + 1 } else { last }
                } else {
                    current
                };
                let bytes = #[verifier::truncate] (self.history.item(index).as_str().len() as u16);
                bytes < u16::MAX
            },
            KeyCode::Left => true,
            _ => !in_line || (lw >= 1 && ((lw - 1) as usize) <= len),
        }
    }

    /// React to a key: edit the text, move the cursor or recall the history.
    pub fn receive_input(&mut self, window: &mut MainWindow, key: KeyCode)
        requires
            old(self).wf(),
            old(window).sized(),
            key_safe(old(self)@, key, old(window).config.width),
        ensures
            final(self).wf(),
            final(self)@ == after_key(old(self)@, key, old(window).config.width, old(window).config.height),
            final(window).ui() == old(window).ui().push(ActionView::ShowCursor) + key_ui(old(window), old(self)@, key)
                + seq![ActionView::Flush],
            same_state(final(window), old(window)),
    {
        proof {
            self.lemma_wf();
        }
        window.act(UiAction::ShowCursor);
        self.update_dimensions(window);
        let ghost s = self@;
        let ghost w1 = *window;
        let width_limit = self.x();
        match key {
            KeyCode::Delete => {
                if self.last_write < width_limit && !self.content.is_empty() {
                    let i = self.position_as_index();
                    self.content.remove(i);
                    self.write(window);
                }
            },
            KeyCode::Backspace => {
                if self.last_write >= 1 && !self.content.is_empty() {
                    let i = self.position_as_index() - 1;
                    self.content.remove(i);
                    self.move_left(window);
                    self.write(window);
                }
            },
            KeyCode::Left => {
                self.move_left(window);
            },
            KeyCode::Right => {
                self.move_right(window);
            },
            KeyCode::Up => {
                let item = self.history.scroll_back();
                self.tape_render(window, item.as_str());
            },
            KeyCode::Down => {
                let item = self.history.scroll_forward();
                self.tape_render(window, item.as_str());
            },
            KeyCode::Char(c) => {
                if self.last_write < width_limit {
                    let i = self.position_as_index();
                    self.content.insert(i, c);
                    self.last_write = self.last_write + 1;
                    self.write(window);
                }
            },
            _ => {},
        }
        window.act(UiAction::Flush);
        proof {
            assert(self@ =~= after_key(old(self)@, key, old(window).config.width, old(window).config.height));
            assert(window.ui() =~= old(window).ui().push(ActionView::ShowCursor) + key_ui(old(window), old(self)@, key)
                + seq![ActionView::Flush]);
        }
    }

    /// Move the cursor left.
    fn move_left(&mut self, window: &mut MainWindow)
        requires
            old(self)@.y >= 2,
        ensures
            final(self)@ == (InputView { last_write: left_of(old(self)@.last_write), ..old(self)@ }),
            final(window).ui() == old(window).ui().push(ActionView::MoveTo(left_of(old(self)@.last_write), (old(self)@.y - 2) as u16)),
            same_state(final(window), old(window)),
    {
        let lowered = match self.last_write.checked_sub(1) {
            Some(v) => v,
            None => 1,
        };
        self.last_write = if lowered > 1 { lowered } else { 1 };
        let row = self.y();
        window.act(UiAction::MoveTo(self.last_write, row));
    }

    /// Move the cursor right, at most one past the text.
    fn move_right(&mut self, window: &mut MainWindow)
        requires
            old(self)@.y >= 2,
            ((old(self)@.content.len() as u16) as int) < u16::MAX,
            old(self)@.last_write < u16::MAX,
        ensures
            final(self)@ == (InputView { last_write: right_of(old(self)@.last_write, old(self)@.content.len()), ..old(self)@ }),
            final(window).ui() == old(window).ui().push(
                ActionView::MoveTo(right_of(old(self)@.last_write, old(self)@.content.len()), (old(self)@.y - 2) as u16),
            ),
            same_state(final(window), old(window)),
    {
        let len16 = #[verifier::truncate] (self.content.len() as u16);
        let end = len16 + 1;
        let next = self.last_write + 1;
        self.last_write = if end <= next { end } else { next };
        let row = self.y();
        window.act(UiAction::MoveTo(self.last_write, row));
    }

    /// Take the typed text, empty the line, and record the text in the
    /// history when the window keeps one; the history line to save is
    /// queued for the disk.
    pub fn gather(&mut self, window: &mut MainWindow) -> (r: String)
        requires
            old(self).wf(),
            old(window).sized(),
        ensures
            final(self).wf(),
            r@ == old(self)@.content,
            final(self)@.content.len() == 0,
            final(self)@.last_write == 1,
            final(self)@.x == old(self)@.x,
            final(self)@.y == old(self)@.y,
            !old(window).config.use_history ==> final(self)@.history == old(self)@.history,
            forall|lo: int, hi: int| #[trigger] is_trim_bounds(old(self)@.content, lo, hi) ==> {
                let clean = old(self)@.content.subrange(lo, hi);
                let base = old(window).ui().push(ActionView::HideCursor) + reset_command_line_ui(old(window));
                if old(window).config.use_history && !is_history_excluded(clean) {
                    &&& final(self)@.history.items == old(self)@.history.items.push(clean)
                    &&& final(self)@.history.current_index == old(self)@.history.items.len()
                    &&& !final(self)@.history.should_scroll_back
                    &&& final(window).ui() == base.push(ActionView::AppendHistory(clean))
                } else {
                    &&& final(self)@.history == old(self)@.history
                    &&& final(window).ui() == base
                }
            },
            same_state(final(window), old(window)),
    {
        proof {
            self.lemma_wf();
        }
        let result = self.get_content();
        self.content.clear();
        window.act(UiAction::HideCursor);
        self.last_write = 1;
        window.reset_command_line();
        let ghost base = window.ui();
        if window.config.use_history {
            match self.history.add_item(result.as_str()) {
                Some(line) => {
                    window.act(UiAction::AppendHistory(line));
                },
                None => {},
            }
        }
        assert(base =~= old(window).ui().push(ActionView::HideCursor) + reset_command_line_ui(old(window)));
        result
    }
}

} // verus!
