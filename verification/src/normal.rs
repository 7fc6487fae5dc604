//! Normal mode: scrolling, swapping the buffers, and entering the other
//! modes.
use vstd::prelude::*;
use crate::constants::{COMMAND_CHAR, HIGHLIGHT_CHAR, PARSER_CHAR, REGEX_CHAR, SWAP_CHAR};
use crate::keys::KeyCode;
use crate::render::{lemma_redraw_keeps, redrawn};
use crate::scroll::{is_scroll_key, scroll_by_key, scroll_safe, scrolled};
use crate::window::{eq_but_render, lemma_ready, InputType, LogriaConfig, MainWindow, StreamType, UiAction};

verus! {

/// Handles keys in normal mode.
pub struct NormalHandler {}

/// Whether a window can take a key in normal mode without failing.
pub open spec fn normal_ready(w: &MainWindow) -> bool {
    &&& w.sized()
    &&& w.config.matched_rows@.len() == 0
    &&& w.input_type != InputType::Parser
}

/// The buffer shown after a swap: the other of the two streams; the
/// auxiliary buffer stays.
pub open spec fn swapped(s: StreamType) -> StreamType {
    match s {
        StreamType::StdOut => StreamType::StdErr,
        StreamType::StdErr => StreamType::StdOut,
        StreamType::Auxiliary => StreamType::Auxiliary,
    }
}

/// What a key does in normal mode before the render that follows: `mid_w`
/// is the window it leaves to render.
pub open spec fn normal_step(old_w: &MainWindow, mid_w: &MainWindow, key: KeyCode) -> bool {
    let c = old_w.config;
    if is_scroll_key(key) {
        &&& mid_w.config == scrolled(c, key, old_w.num_messages(), true)
        &&& mid_w.input_type == old_w.input_type
    } else if key == KeyCode::Char(COMMAND_CHAR) {
        &&& mid_w.config == (LogriaConfig { delete_func: None, ..c })
        &&& mid_w.input_type == InputType::Command
    } else if key == KeyCode::Char(REGEX_CHAR) {
        &&& mid_w.config == (LogriaConfig { highlight_match: true, did_switch: true, ..c })
        &&& mid_w.input_type == InputType::Regex
    } else if key == KeyCode::Char(HIGHLIGHT_CHAR) {
        &&& mid_w.config == (LogriaConfig { highlight_match: true, did_switch: true, ..c })
        &&& mid_w.input_type == InputType::Highlight
    } else if key == KeyCode::Char(PARSER_CHAR) {
        &&& mid_w.config == (LogriaConfig {
            previous_stream_type: c.stream_type,
            stream_type: StreamType::Auxiliary,
            did_switch: true,
            ..c
        })
        &&& mid_w.input_type == InputType::Parser
    } else if key == KeyCode::Char(SWAP_CHAR) {
        &&& eq_but_render(mid_w.config, LogriaConfig {
            previous_stream_type: c.stream_type,
            stream_type: swapped(c.stream_type),
            ..c
        })
        &&& mid_w.input_type == InputType::Normal
    } else {
        &&& mid_w.config == c
        &&& mid_w.input_type == old_w.input_type
    }
}

/// What a key does in normal mode: its step, then a render of the window it
/// left.
pub open spec fn normal_outcome(old_w: &MainWindow, new_w: &MainWindow, key: KeyCode) -> bool {
    exists|mid_w: MainWindow| #[trigger] redrawn(&mid_w, new_w) && normal_step(old_w, &mid_w, key)
}

impl NormalHandler {
    pub fn new() -> (r: NormalHandler) {
        NormalHandler {}
    }

    /// Render, keeping what the render does not change.
    fn redraw(window: &mut MainWindow)
        requires
            old(window).sized(),
            old(window).rows_valid(),
        ensures
            crate::render::render_post(&MainWindow { config: LogriaConfig { previous_render: (0usize, 0usize), ..old(window).config }, ..*old(window) }, final(window)),
            eq_but_render(final(window).config, old(window).config),
            final(window).input_type == old(window).input_type,
            final(window).previous_input_type == old(window).previous_input_type,
            final(window).length_finder == old(window).length_finder,
    {
        proof {
            lemma_ready(window);
        }
        let ghost before = *window;
        window.redraw();
        proof {
            lemma_redraw_keeps(&before, window);
        }
    }

    /// Enter parser mode over the auxiliary buffer.
    pub fn set_parser_mode(&self, window: &mut MainWindow)
        requires
            old(window).sized(),
        ensures
            final(window).config == (LogriaConfig {
                previous_stream_type: old(window).config.stream_type,
                stream_type: StreamType::Auxiliary,
                did_switch: true,
                ..old(window).config
            }),
            final(window).input_type == InputType::Parser,
            final(window).previous_input_type == old(window).input_type,
            final(window).length_finder == old(window).length_finder,
    {
        window.update_input_type(InputType::Parser);
        window.reset_command_line();
        window.set_cli_cursor(None);
        window.config.previous_stream_type = window.config.stream_type;
        window.config.stream_type = StreamType::Auxiliary;
        window.config.did_switch = true;
    }

    /// Enter a search mode: regex filtering or highlighting.
    pub fn set_regex_mode(&self, window: &mut MainWindow, mode: InputType)
        requires
            old(window).sized(),
        ensures
            final(window).config == (LogriaConfig { highlight_match: true, did_switch: true, ..old(window).config }),
            final(window).input_type == mode,
            final(window).previous_input_type == old(window).input_type,
            final(window).length_finder == old(window).length_finder,
    {
        window.go_to_cli();
        window.update_input_type(mode);
        window.config.highlight_match = true;
        window.reset_command_line();
        window.set_cli_cursor(None);
        window.act(UiAction::ShowCursor);
        window.config.did_switch = true;
    }

    /// Show the other of the two streams.
    pub fn swap_streams(&self, window: &mut MainWindow)
        requires
            old(window).sized(),
            old(window).config.matched_rows@.len() == 0,
        ensures
            eq_but_render(final(window).config, LogriaConfig {
                previous_stream_type: old(window).config.stream_type,
                stream_type: swapped(old(window).config.stream_type),
                ..old(window).config
            }),
            final(window).input_type == InputType::Normal,
            final(window).length_finder == old(window).length_finder,
    {
        window.config.previous_stream_type = window.config.stream_type;
        window.config.stream_type = match window.config.stream_type {
            StreamType::StdOut => StreamType::StdErr,
            StreamType::StdErr => StreamType::StdOut,
            StreamType::Auxiliary => StreamType::Auxiliary,
        };
        window.update_input_type(InputType::Normal);
        window.set_cli_cursor(None);
        window.reset_command_line();
        window.reset_output();
        Self::redraw(window);
    }

    /// React to a key: scroll (Page Up pages down and Page Down pages up),
    /// or enter command, regex, highlight or parser mode, or swap the
    /// buffers. A render follows.
    pub fn receive_input(&mut self, window: &mut MainWindow, key: KeyCode)
        requires
            normal_ready(old(window)),
            scroll_safe(old(window), key, true),
        ensures
            normal_outcome(old(window), final(window), key),
    {
        if scroll_by_key(window, key, true) {
        } else if key == KeyCode::Char(COMMAND_CHAR) {
            window.set_command_mode(None);
        } else if key == KeyCode::Char(REGEX_CHAR) {
            self.set_regex_mode(window, InputType::Regex);
        } else if key == KeyCode::Char(HIGHLIGHT_CHAR) {
            self.set_regex_mode(window, InputType::Highlight);
        } else if key == KeyCode::Char(PARSER_CHAR) {
            self.set_parser_mode(window);
        } else if key == KeyCode::Char(SWAP_CHAR) {
            self.swap_streams(window);
        }
        let ghost mid = *window;
        assert(normal_step(old(window), &mid, key));
        Self::redraw(window);
        assert(redrawn(&mid, window));
    }
}

} // verus!
