//! Choosing one item of a numbered list by typing its number.
use vstd::prelude::*;
use crate::history::Tape;
use crate::keys::KeyCode;
use crate::number::{parse_usize, parse_usize_spec, IntErrorKind};
use crate::scroll::{is_scroll_key, only_config_changed, scroll_by_key, scroll_safe, scrolled};
use crate::text::{decimal, push_str, usize_to_string};
use crate::user_input::{InputView, UserInputHandler, after_key, key_safe, key_ui};
use crate::window::{ActionView, MainWindow, same_state, write_to_command_line_ui};

verus! {

/// The name of an error kind as `Debug` writes it.
pub open spec fn kind_name(k: IntErrorKind) -> Seq<char> {
    match k {
        IntErrorKind::Empty => "Empty"@,
        IntErrorKind::InvalidDigit => "InvalidDigit"@,
        IntErrorKind::PosOverflow => "PosOverflow"@,
    }
}

/// The line for a choice: its number, a colon, and its text.
pub open spec fn choice_line(i: nat, choice: Seq<char>) -> Seq<char> {
    decimal(i) + ": "@ + choice
}

/// What is said when a typed choice is not taken.
pub open spec fn choice_complaint(choice: Seq<char>, n: nat) -> Option<Seq<char>> {
    match parse_usize_spec(choice) {
        Ok(i) => if i < n { None } else { Some("Invalid item: "@ + choice) },
        Err(k) => Some("Invalid selection: "@ + choice + " (ParseIntError { kind: "@ + kind_name(k) + " })"@),
    }
}

/// What a key makes of the chooser, from the choices, the pick and the
/// typed text it had: a scroll leaves them; Enter empties the line and takes
/// the typed number when it names a choice; any other key edits the line.
pub open spec fn choice_after_key(
    choices: Seq<Seq<char>>,
    picked: Option<usize>,
    input: InputView,
    new_c: &MultipleChoiceHandler,
    key: KeyCode,
    width: u16,
    height: u16,
) -> bool {
    &&& new_c.choices() == choices
    &&& if is_scroll_key(key) {
        new_c.input() == input && new_c.picked() == picked
    } else if key == KeyCode::Enter {
        &&& new_c.input().content.len() == 0
        &&& new_c.input().last_write == 1
        &&& match choice_complaint(input.content, choices.len()) {
            None => new_c.picked() == Some(parse_usize_spec(input.content)->Ok_0),
            Some(_) => new_c.picked() == picked,
        }
    } else {
        new_c.input() == after_key(input, key, width, height) && new_c.picked() == picked
    }
}

/// What a key given to the chooser does to the window's state: a scroll
/// moves the view, any other key leaves it.
pub open spec fn choice_window_after_key(old_w: &MainWindow, new_w: &MainWindow, key: KeyCode) -> bool {
    &&& new_w.input_type == old_w.input_type
    &&& new_w.length_finder == old_w.length_finder
    &&& if is_scroll_key(key) {
        new_w.config == scrolled(old_w.config, key, old_w.num_messages(), true)
    } else {
        new_w.config == old_w.config
    }
}

/// A numbered list of choices and the number the user picked.
pub struct MultipleChoiceHandler {
    choices: Vec<String>,
    input_handler: UserInputHandler,
    /// The picked number, once a valid one is typed.
    pub result: Option<usize>,
}

impl MultipleChoiceHandler {
    /// The choices, by number.
    pub closed spec fn choices(&self) -> Seq<Seq<char>> {
        self.choices@.map_values(|s: String| s@)
    }

    /// The picked number.
    pub closed spec fn picked(&self) -> Option<usize> {
        self.result
    }

    /// The editor of the typed number.
    pub closed spec fn input(&self) -> InputView {
        self.input_handler@
    }

    pub open spec fn wf(&self) -> bool {
        self.input().history.items.len() > 0 && self.input().history.current_index < self.input().history.items.len()
    }

    closed spec fn inner_wf(&self) -> bool {
        self.input_handler.wf()
    }

    proof fn lemma_wf(&self)
        ensures
            self.wf() <==> self.inner_wf(),
    {
    }

    /// No choices, nothing picked, an empty line over the given history.
    pub fn new(history: Tape) -> (r: MultipleChoiceHandler)
        requires
            history.wf(),
        ensures
            r.wf(),
            r.choices().len() == 0,
            r.picked() is None,
            r.input().content.len() == 0,
            r.input().last_write == 1,
            r.input().history == history@,
    {
        let r = MultipleChoiceHandler { choices: Vec::new(), input_handler: UserInputHandler::new(history), result: None };
        assert(r.choices() =~= Seq::<Seq<char>>::empty());
        r
    }

    /// Set the choices: the given ones, numbered from 0, and no others.
    pub fn set_choices(&mut self, choices: &Vec<String>)
        ensures
            final(self).choices() == choices@.map_values(|s: String| s@),
            final(self).picked() == old(self).picked(),
            final(self).input() == old(self).input(),
    {
        let ghost new = choices@.map_values(|s: String| s@);
        let mut list: Vec<String> = Vec::new();
        let mut i: usize = 0;
        while i < choices.len()
            invariant
                i <= choices@.len(),
                new == choices@.map_values(|s: String| s@),
                list@.map_values(|s: String| s@) == new.subrange(0, i as int),
            decreases choices@.len() - i,
        {
            let ghost before = list@.map_values(|s: String| s@);
            list.push(choices[i].clone());
            assert(list@.map_values(|s: String| s@) =~= before.push(new[i as int]));
            assert(new.subrange(0, i + 1) =~= new.subrange(0, i as int).push(new[i as int]));
            i = i + 1;
        }
        assert(new.subrange(0, i as int) =~= new);
        self.choices = list;
    }

    /// The text to show: the description, if any, with a blank line after
    /// it, then a line per choice.
    pub fn get_body_text(&self, description: Option<Vec<&str>>) -> (r: Vec<String>)
        ensures
            ({
                let head: Seq<Seq<char>> = match description {
                    Some(d) => d@.map_values(|s: &str| s@).push(Seq::empty()),
                    None => Seq::empty(),
                };
                r@.map_values(|s: String| s@) == head + Seq::new(self.choices().len(), |i: int| choice_line(i as nat, self.choices()[i]))
            }),
    {
        let mut body_text: Vec<String> = Vec::new();
        match &description {
            Some(text) => {
                let mut i: usize = 0;
                while i < text.len()
                    invariant
                        i <= text@.len(),
                        body_text@.map_values(|s: String| s@) == text@.subrange(0, i as int).map_values(|s: &str| s@),
                    decreases text@.len() - i,
                {
                    let ghost before = body_text@.map_values(|s: String| s@);
                    body_text.push(text[i].to_owned());
                    assert(body_text@.map_values(|s: String| s@) =~= before.push(text@[i as int]@));
                    assert(text@.subrange(0, i + 1).map_values(|s: &str| s@) =~= text@.subrange(0, i as int).map_values(|s: &str| s@).push(
                        text@[i as int]@,
                    ));
                    i = i + 1;
                }
                let ghost before = body_text@.map_values(|s: String| s@);
                body_text.push(String::new());
                assert(text@.subrange(0, text@.len() as int) =~= text@);
                assert(body_text@.map_values(|s: String| s@) =~= before.push(Seq::empty()));
            },
            None => {},
        }
        let ghost head = body_text@.map_values(|s: String| s@);
        let mut key: usize = 0;
        while key < self.choices.len()
            invariant
                key <= self.choices@.len(),
                head.len() <= body_text@.len(),
                body_text@.map_values(|s: String| s@) == head + Seq::new(key as nat, |i: int| choice_line(i as nat, self.choices()[i])),
            decreases self.choices@.len() - key,
        {
            let ghost before = body_text@.map_values(|s: String| s@);
            let mut line = usize_to_string(key);
            push_str(&mut line, ": ");
            push_str(&mut line, self.choices[key].as_str());
            assert(line@ == choice_line(key as nat, self.choices()[key as int]));
            body_text.push(line);
            assert(body_text@.map_values(|s: String| s@) =~= before.push(choice_line(key as nat, self.choices()[key as int])));
            assert(body_text@.map_values(|s: String| s@) =~= head + Seq::new((key + 1) as nat, |i: int| choice_line(i as nat, self.choices()[i])));
            key = key + 1;
        }
        body_text
    }

    /// Take a typed choice if it is the number of a choice; else tell the
    /// user why not.
    pub fn validate_choice(&mut self, window: &mut MainWindow, choice: &str)
        requires
            old(window).sized(),
        ensures
            final(self).choices() == old(self).choices(),
            final(self).input() == old(self).input(),
            match choice_complaint(choice@, old(self).choices().len()) {
                None => {
                    &&& final(self).picked() == Some(parse_usize_spec(choice@)->Ok_0)
                    &&& final(window).ui() == old(window).ui()
                },
                Some(m) => {
                    &&& final(self).picked() == old(self).picked()
                    &&& final(window).ui() == old(window).ui() + write_to_command_line_ui(old(window), m)
                },
            },
            same_state(final(window), old(window)),
    {
        match parse_usize(choice) {
            Ok(res) => {
                if res < self.choices.len() {
                    self.result = Some(res);
                } else {
                    let mut message = "Invalid item: ".to_owned();
                    push_str(&mut message, choice);
                    proof {
                        reveal_strlit("Invalid item: ");
                    }
                    window.write_to_command_line(message.as_str());
                }
            },
            Err(why) => {
                let mut message = "Invalid selection: ".to_owned();
                push_str(&mut message, choice);
                push_str(&mut message, " (ParseIntError { kind: ");
                let name = match why {
                    IntErrorKind::Empty => "Empty",
                    IntErrorKind::InvalidDigit => "InvalidDigit",
                    IntErrorKind::PosOverflow => "PosOverflow",
                };
                push_str(&mut message, name);
                push_str(&mut message, " })");
                window.write_to_command_line(message.as_str());
            },
        }
    }

    /// The picked number, if any.
    pub fn picked_choice(&self) -> (r: Option<usize>)
        ensures
            r == self.picked(),
    {
        self.result
    }

    /// Whether the editor of the number can take `key` (see `key_safe`).
    pub fn can_edit(&self, key: KeyCode, width: u16) -> (r: bool)
        requires
            self.wf(),
        ensures
            r == key_safe(self.input(), key, width),
    {
        proof {
            self.lemma_wf();
        }
        self.input_handler.can_take(key, width)
    }

    /// The choices, in the order of their numbers.
    pub fn choice_list(&self) -> (r: &Vec<String>)
        ensures
            r@.map_values(|s: String| s@) == self.choices(),
    {
        &self.choices
    }

    /// The picked choice, once; the pick is cleared.
    pub fn get_choice(&mut self) -> (r: Option<String>)
        ensures
            final(self).picked() is None,
            final(self).choices() == old(self).choices(),
            final(self).input() == old(self).input(),
            match old(self).picked() {
                Some(i) => if i < old(self).choices().len() {
                    r matches Some(s) && s@ == old(self).choices()[i as int]
                } else {
                    r is None
                },
                None => r is None,
            },
    {
        match self.result {
            Some(index) => {
                self.result = None;
                if index < self.choices.len() {
                    Some(self.choices[index].clone())
                } else {
                    None
                }
            },
            None => None,
        }
    }

    /// React to a key: scroll, take the typed number on Enter, or edit it.
    pub fn receive_input(&mut self, window: &mut MainWindow, key: KeyCode)
        requires
            old(self).wf(),
            old(window).sized(),
            scroll_safe(old(window), key, true),
            !is_scroll_key(key) && key != KeyCode::Enter ==> key_safe(old(self).input(), key, old(window).config.width),
        ensures
            final(self).wf(),
            choice_after_key(old(self).choices(), old(self).picked(), old(self).input(), final(self), key, old(window).config.width,
                old(window).config.height),
            choice_window_after_key(old(window), final(window), key),
            is_scroll_key(key) ==> final(window).ui() == old(window).ui(),
            !is_scroll_key(key) && key != KeyCode::Enter ==> final(window).ui() == old(window).ui().push(ActionView::ShowCursor)
                + key_ui(old(window), old(self).input(), key) + seq![ActionView::Flush],
    {
        proof {
            self.lemma_wf();
        }
        if scroll_by_key(window, key, true) {
            return;
        }
        if key == KeyCode::Enter {
            let choice = self.input_handler.gather(window);
            self.validate_choice(window, choice.as_str());
        } else {
            self.input_handler.receive_input(window, key);
        }
    }
}

} // verus!
