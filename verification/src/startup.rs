//! The startup screen: choose a saved session by its number, or type a
//! command or a file to read.
use vstd::prelude::*;
use crate::constants::{start_message, START_MESSAGE_LEN};
use crate::history::Tape;
use crate::keys::KeyCode;
use crate::multiple_choice::choice_line;
use crate::number::{parse_usize, parse_usize_spec};
use crate::render::{lemma_redraw_keeps, redrawn};
use crate::scroll::{is_scroll_key, scroll_by_key, scroll_is_safe, scroll_safe, scrolled, scrolls};
use crate::text::{push_str, usize_to_string};
use crate::user_input::{InputView, UserInputHandler, after_key, key_safe};
use crate::window::{eq_but_render, lemma_ready, DeleteTarget, InputType, LogriaConfig, MainWindow, StreamType, same_state, write_to_command_line_ui};

verus! {

/// What the startup screen asks of the outside world after a line is
/// entered.
#[derive(Debug, Clone, PartialEq, Eq)]
pub enum StartupRequest {
    /// Load the saved session at this path and read its inputs.
    LoadSession(String),
    /// Read the typed command or file, and save it as a session.
    Open(String),
}

/// Handles keys on the startup screen.
pub struct StartupHandler {
    input_handler: UserInputHandler,
    session_data: Vec<String>,
}

/// The startup text: the instructions, then a numbered line per session.
pub open spec fn startup_text(sessions: Seq<Seq<char>>) -> Seq<Seq<char>> {
    Seq::new(START_MESSAGE_LEN as nat, |i: int| crate::constants::start_message_line(i))
        + Seq::new(sessions.len(), |i: int| choice_line(i as nat, sessions[i]))
}

/// The text of the startup screen, given the saved sessions.
pub fn get_startup_text(sessions: &Vec<String>) -> (r: Vec<String>)
    ensures
        r@.map_values(|s: String| s@) == startup_text(sessions@.map_values(|s: String| s@)),
{
    let mut text = start_message();
    let ghost head = text@.map_values(|s: String| s@);
    assert(head =~= Seq::new(START_MESSAGE_LEN as nat, |i: int| crate::constants::start_message_line(i)));
    let mut i: usize = 0;
    while i < sessions.len()
        invariant
            i <= sessions@.len(),
            head == Seq::new(START_MESSAGE_LEN as nat, |i: int| crate::constants::start_message_line(i)),
            text@.map_values(|s: String| s@) == head + Seq::new(i as nat, |k: int| choice_line(k as nat, sessions@[k]@)),
        decreases sessions@.len() - i,
    {
        let ghost before = text@.map_values(|s: String| s@);
        let mut line = usize_to_string(i);
        push_str(&mut line, ": ");
        push_str(&mut line, sessions[i].as_str());
        text.push(line);
        assert(text@.map_values(|s: String| s@) =~= before.push(choice_line(i as nat, sessions@[i as int]@)));
        assert(head + Seq::new((i + 1) as nat, |k: int| choice_line(k as nat, sessions@[k]@)) =~= (head + Seq::new(
            i as nat,
            |k: int| choice_line(k as nat, sessions@[k]@),
        )).push(choice_line(i as nat, sessions@[i as int]@)));
        i = i + 1;
    }
    assert(Seq::new(sessions@.len(), |k: int| choice_line(k as nat, sessions@[k]@)) =~= Seq::new(
        sessions@.map_values(|s: String| s@).len(),
        |k: int| choice_line(k as nat, sessions@.map_values(|s: String| s@)[k]),
    ));
    text
}

/// What entering `command` asks for, given the saved sessions: a number
/// picks a session (nothing when there is no such session); anything else
/// is an input to open.
pub open spec fn startup_choice(command: Seq<char>, sessions: Seq<Seq<char>>) -> Option<(bool, Seq<char>)> {
    match parse_usize_spec(command) {
        Ok(item) => if item < sessions.len() { Some((true, sessions[item as int])) } else { None },
        Err(_) => Some((false, command)),
    }
}

/// The view of a request: whether it loads a session, and its text.
pub open spec fn request_view(r: StartupRequest) -> (bool, Seq<char>) {
    match r {
        StartupRequest::LoadSession(p) => (true, p@),
        StartupRequest::Open(c) => (false, c@),
    }
}

/// What a key does on the startup screen, up to what a render records.
pub open spec fn startup_outcome(
    old_h: &StartupHandler,
    new_h: &StartupHandler,
    old_w: &MainWindow,
    new_w: &MainWindow,
    key: KeyCode,
    sessions: Seq<Seq<char>>,
    r: Option<StartupRequest>,
) -> bool {
    if is_scroll_key(key) {
        &&& r is None
        &&& eq_but_render(new_w.config, scrolled(old_w.config, key, old_w.num_messages(), true))
        &&& new_w.input_type == old_w.input_type
    } else if key == KeyCode::Char(':') {
        &&& r is None
        &&& eq_but_render(new_w.config, LogriaConfig { delete_func: Some(DeleteTarget::Sessions), ..old_w.config })
        &&& new_w.input_type == InputType::Command
    } else if key == KeyCode::Enter {
        let known = sessions;
        &&& new_h.sessions() == known
        &&& new_h.input().content.len() == 0
        &&& match startup_choice(old_h.input().content, known) {
            Some(v) => r matches Some(req) && request_view(req) == v,
            None => r is None,
        }
        &&& eq_but_render(new_w.config, old_w.config)
        &&& new_w.input_type == old_w.input_type
    } else {
        &&& r is None
        &&& new_h.input() == after_key(old_h.input(), key, old_w.config.width, old_w.config.height)
        &&& eq_but_render(new_w.config, old_w.config)
        &&& new_w.input_type == old_w.input_type
    }
}

/// A render after a key keeps what the key did.
proof fn lemma_startup_after_render(
    old_h: &StartupHandler,
    new_h: &StartupHandler,
    old_w: &MainWindow,
    mid: &MainWindow,
    fin: &MainWindow,
    key: KeyCode,
    sessions: Seq<Seq<char>>,
    r: Option<StartupRequest>,
)
    requires
        startup_outcome(old_h, new_h, old_w, mid, key, sessions, r),
        eq_but_render(fin.config, mid.config),
        fin.input_type == mid.input_type,
    ensures
        startup_outcome(old_h, new_h, old_w, fin, key, sessions, r),
{
}

impl StartupHandler {
    /// The editor of the typed line.
    pub closed spec fn input(&self) -> InputView {
        self.input_handler@
    }

    /// The saved sessions by number.
    pub closed spec fn sessions(&self) -> Seq<Seq<char>> {
        self.session_data@.map_values(|s: String| s@)
    }

    pub open spec fn wf(&self) -> bool {
        self.input().history.items.len() > 0 && self.input().history.current_index < self.input().history.items.len()
    }

    closed spec fn inner_wf(&self) -> bool {
        self.input_handler.wf()
    }

    proof fn lemma_wf(&self)
        ensures
            self.wf() <==> self.inner_wf(),
    {
    }

    /// No sessions known yet, an empty line over the given history.
    pub fn new(history: Tape) -> (r: StartupHandler)
        requires
            history.wf(),
        ensures
            r.wf(),
            r.sessions().len() == 0,
            r.input().content.len() == 0,
            r.input().history == history@,
    {
        let r = StartupHandler { input_handler: UserInputHandler::new(history), session_data: Vec::new() };
        assert(r.sessions() =~= Seq::<Seq<char>>::empty());
        r
    }

    /// Take the saved sessions, numbered from 0, in place of those known.
    pub fn initialize(&mut self, sessions: &Vec<String>)
        ensures
            final(self).sessions() == sessions@.map_values(|s: String| s@),
            final(self).input() == old(self).input(),
    {
        let ghost new = sessions@.map_values(|s: String| s@);
        let mut list: Vec<String> = Vec::new();
        let mut i: usize = 0;
        while i < sessions.len()
            invariant
                i <= sessions@.len(),
                new == sessions@.map_values(|s: String| s@),
                list@.map_values(|s: String| s@) == new.subrange(0, i as int),
            decreases sessions@.len() - i,
        {
            let ghost before = list@.map_values(|s: String| s@);
            list.push(sessions[i].clone());
            assert(list@.map_values(|s: String| s@) =~= before.push(new[i as int]));
            assert(new.subrange(0, i + 1) =~= new.subrange(0, i as int).push(new[i as int]));
            i = i + 1;
        }
        assert(new.subrange(0, i as int) =~= new);
        self.session_data = list;
    }

    /// What an entered line asks for (see `startup_choice`); a number with
    /// no session is answered on the command line.
    pub fn process_command(&mut self, window: &mut MainWindow, command: &str) -> (r: Option<StartupRequest>)
        requires
            old(window).sized(),
        ensures
            final(self).sessions() == old(self).sessions(),
            final(self).input() == old(self).input(),
            match startup_choice(command@, old(self).sessions()) {
                Some(v) => r matches Some(req) && request_view(req) == v && final(window).ui() == old(window).ui(),
                None => r is None && final(window).ui() == old(window).ui() + write_to_command_line_ui(old(window), "Invalid selection!"@),
            },
            same_state(final(window), old(window)),
    {
        match parse_usize(command) {
            Ok(item) => {
                if item < self.session_data.len() {
                    Some(StartupRequest::LoadSession(self.session_data[item].clone()))
                } else {
                    window.write_to_command_line("Invalid selection!");
                    None
                }
            },
            Err(_) => Some(StartupRequest::Open(command.to_owned())),
        }
    }

    /// Show the inputs once they are open: the error buffer in normal mode,
    /// with a fresh poll-rate tracker when a session was loaded.
    pub fn start_reading(window: &mut MainWindow, from_session: bool)
        requires
            old(window).sized(),
            old(window).config.matched_rows@.len() == 0,
            old(window).config.message_speed_tracker.wf(),
        ensures
            eq_but_render(final(window).config, LogriaConfig {
                stream_type: StreamType::StdErr,
                generate_auxiliary_messages: if from_session { None } else { old(window).config.generate_auxiliary_messages },
                message_speed_tracker: final(window).config.message_speed_tracker,
                ..old(window).config
            }),
            from_session ==> {
                let t = final(window).config.message_speed_tracker@;
                let t0 = old(window).config.message_speed_tracker@;
                &&& t.items.len() == 0
                &&& t.sum == 0
                &&& t.size == 0
                &&& t.max_size == t0.max_size
                &&& t.tracker == t0.tracker
            },
            !from_session ==> final(window).config.message_speed_tracker == old(window).config.message_speed_tracker,
            final(window).input_type == InputType::Normal,
            final(window).previous_input_type == old(window).input_type,
    {
        window.config.stream_type = StreamType::StdErr;
        window.update_input_type(InputType::Normal);
        if from_session {
            window.config.generate_auxiliary_messages = None;
            window.config.message_speed_tracker.reset();
        }
        window.reset_output();
        proof {
            lemma_ready(window);
        }
        let ghost before = *window;
        window.redraw();
        proof {
            lemma_redraw_keeps(&before, window);
        }
    }

    /// Whether `receive_input` can take `key`: a scroll must not overflow,
    /// and an edit must suit the editor.
    pub fn can_take(&self, window: &MainWindow, key: KeyCode) -> (r: bool)
        requires
            self.wf(),
        ensures
            r == ({
                &&& scroll_safe(window, key, true)
                &&& !is_scroll_key(key) && key != KeyCode::Enter && key != KeyCode::Char(':')
                    ==> key_safe(self.input(), key, window.config.width)
            }),
    {
        proof {
            self.lemma_wf();
        }
        scroll_is_safe(window, key, true) && (scrolls(key) || key == KeyCode::Enter || key == KeyCode::Char(':')
            || self.input_handler.can_take(key, window.config.width))
    }

    /// React to a key: scroll (Page Up pages down and Page Down pages up),
    /// enter command mode to remove sessions, take the typed line on Enter
    /// (given the saved sessions), or edit it. A render follows. Gives what
    /// the entered line asks for.
    #[verifier::rlimit(40)]
    pub fn receive_input(&mut self, window: &mut MainWindow, key: KeyCode, sessions: &Vec<String>) -> (r: Option<StartupRequest>)
        requires
            old(self).wf(),
            old(window).sized(),
            old(window).rows_valid(),
            old(window).input_type != InputType::Parser,
            scroll_safe(old(window), key, true),
            !is_scroll_key(key) && key != KeyCode::Enter && key != KeyCode::Char(':') ==> key_safe(old(self).input(), key, old(window).config.width),
        ensures
            final(self).wf(),
            startup_outcome(old(self), final(self), old(window), final(window), key, sessions@.map_values(|s: String| s@), r),
            exists|mid: MainWindow| #[trigger] redrawn(&mid, final(window))
                && startup_outcome(old(self), final(self), old(window), &mid, key, sessions@.map_values(|s: String| s@), r),
    {
        let r = self.handle_key(window, key, sessions);
        proof {
            lemma_ready(window);
        }
        let ghost before = *window;
        let ghost seen = sessions@.map_values(|s: String| s@);
        assert(startup_outcome(old(self), self, old(window), &before, key, seen, r));
        window.redraw();
        proof {
            lemma_redraw_keeps(&before, window);
            lemma_startup_after_render(old(self), self, old(window), &before, window, key, sessions@.map_values(|s: String| s@), r);
            assert(redrawn(&before, window));
        }
        r
    }

    fn handle_key(&mut self, window: &mut MainWindow, key: KeyCode, sessions: &Vec<String>) -> (r: Option<StartupRequest>)
        requires
            old(self).wf(),
            old(window).sized(),
            old(window).rows_valid(),
            old(window).input_type != InputType::Parser,
            scroll_safe(old(window), key, true),
            !is_scroll_key(key) && key != KeyCode::Enter && key != KeyCode::Char(':') ==> key_safe(old(self).input(), key, old(window).config.width),
        ensures
            final(self).wf(),
            final(window).sized(),
            final(window).rows_valid(),
            startup_outcome(old(self), final(self), old(window), final(window), key, sessions@.map_values(|s: String| s@), r),
    {
        proof {
            self.lemma_wf();
        }
        let mut r: Option<StartupRequest> = None;
        if scroll_by_key(window, key, true) {
        } else if key == KeyCode::Char(':') {
            window.set_command_mode(Some(DeleteTarget::Sessions));
        } else if key == KeyCode::Enter {
            self.initialize(sessions);
            let command = self.input_handler.gather(window);
            r = self.process_command(window, command.as_str());
        } else {
            self.input_handler.receive_input(window, key);
        }
        r
    }
}

} // verus!
