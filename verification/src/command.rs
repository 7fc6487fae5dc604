//! Command mode: `:q`, `:poll #`, `:r #` and the others the user types.
use vstd::prelude::*;
use crate::history::Tape;
use crate::keys::KeyCode;
use crate::number::{ascending, parse_u64_spec, parse_unsigned, parse_usize, parse_usize_spec, sort_numbers, utf8_width, utf8_width_exec, IntErrorKind};
use crate::split::{split_spec, split_str};
use crate::text::{debug_quoted, debug_text, push_str, starts_with, starts_with_exec, contains_char};
use crate::user_input::{InputView, UserInputHandler, after_key, key_safe};
use crate::window::{ActionView, DeleteTarget, InputType, LogriaConfig, MainWindow, StreamType, UiAction, same_state, set_cli_cursor_ui, write_to_command_line_ui};

verus! {

/// Why a command's argument was not understood.
#[derive(Debug, Clone, Copy, PartialEq, Eq, Structural)]
pub enum CommandError {
    /// The command is too short to hold an argument.
    Format,
    /// The argument is not a number.
    Parse(IntErrorKind),
}

/// The name of an integer error kind as `Debug` writes it.
pub open spec fn kind_name(k: IntErrorKind) -> Seq<char> {
    match k {
        IntErrorKind::Empty => "Empty"@,
        IntErrorKind::InvalidDigit => "InvalidDigit"@,
        IntErrorKind::PosOverflow => "PosOverflow"@,
    }
}

/// How a command error reads.
pub open spec fn error_text(e: CommandError) -> Seq<char> {
    match e {
        CommandError::Format => "FmtError(Error)"@,
        CommandError::Parse(k) => "ParseIntError(ParseIntError { kind: "@ + kind_name(k) + " })"@,
    }
}

fn error_text_exec(e: CommandError) -> (r: String)
    ensures
        r@ == error_text(e),
{
    match e {
        CommandError::Format => "FmtError(Error)".to_owned(),
        CommandError::Parse(k) => {
            let mut s = "ParseIntError(ParseIntError { kind: ".to_owned();
            let name = match k {
                IntErrorKind::Empty => "Empty",
                IntErrorKind::InvalidDigit => "InvalidDigit",
                IntErrorKind::PosOverflow => "PosOverflow",
            };
            push_str(&mut s, name);
            push_str(&mut s, " })");
            s
        },
    }
}

/// The poll rate a `poll` command sets: its second word, as a number.
pub open spec fn poll_rate_of(command: Seq<char>) -> Result<u64, CommandError> {
    let parts = split_spec(command, seq![' ']);
    if parts.len() < 2 {
        Err(CommandError::Format)
    } else {
        match parse_u64_spec(parts[1]) {
            Ok(v) => Ok(v),
            Err(k) => Err(CommandError::Parse(k)),
        }
    }
}

/// The text after the first two bytes, if they end on a character.
pub open spec fn after_two_bytes(c: Seq<char>) -> Option<Seq<char>> {
    if c.len() >= 1 && utf8_width(c[0]) == 2 {
        Some(c.subrange(1, c.len() as int))
    } else if c.len() >= 2 && utf8_width(c[0]) == 1 && utf8_width(c[1]) == 1 {
        Some(c.subrange(2, c.len() as int))
    } else {
        None
    }
}

/// The byte length of `c` in UTF-8.
pub open spec fn byte_count(c: Seq<char>) -> nat
    decreases c.len(),
{
    if c.len() == 0 { 0 } else { byte_count(c.drop_last()) + utf8_width(c.last()) }
}

/// The numbers `start..=end`.
pub open spec fn inclusive_range(start: usize, end: usize) -> Seq<usize> {
    Seq::new(if start <= end { (end - start + 1) as nat } else { 0 }, |i: int| (start + i) as usize)
}

/// The items a part of a remove command names: a range `a-b`, a number,
/// or nothing (an empty part, or a part with more than one dash).
pub open spec fn part_items(part: Seq<char>) -> Result<Seq<usize>, IntErrorKind> {
    if part.contains('-') {
        let r = split_spec(part, seq!['-']);
        if r.len() != 2 {
            Ok(Seq::empty())
        } else {
            match parse_usize_spec(r[0]) {
                Err(k) => Err(k),
                Ok(s) => match parse_usize_spec(r[1]) {
                    Err(k) => Err(k),
                    Ok(e) => Ok(inclusive_range(s, e)),
                },
            }
        }
    } else if part.len() == 0 {
        Ok(Seq::empty())
    } else {
        match parse_usize_spec(part) {
            Ok(n) => Ok(seq![n]),
            Err(k) => Err(k),
        }
    }
}

/// The items the parts name, in order; the first part that does not read
/// stops the reading.
pub open spec fn parts_items(parts: Seq<Seq<char>>) -> Result<Seq<usize>, IntErrorKind>
    decreases parts.len(),
{
    if parts.len() == 0 {
        Ok(Seq::empty())
    } else {
        match part_items(parts[0]) {
            Err(k) => Err(k),
            Ok(first) => match parts_items(parts.drop_first()) {
                Err(k) => Err(k),
                Ok(rest) => Ok(first + rest),
            },
        }
    }
}

/// A range that ends at the largest number cannot be listed.
pub open spec fn part_safe(part: Seq<char>) -> bool {
    let r = split_spec(part, seq!['-']);
    part.contains('-') && r.len() == 2 && parse_usize_spec(r[0]) is Ok ==> (parse_usize_spec(r[1]) matches Ok(e) ==> e < usize::MAX)
}

/// Every range read before the first unreadable part can be listed.
pub open spec fn parts_safe(parts: Seq<Seq<char>>) -> bool
    decreases parts.len(),
{
    parts.len() > 0 ==> part_safe(parts[0]) && (part_items(parts[0]) is Ok ==> parts_safe(parts.drop_first()))
}

/// What a remove command names: the items of the comma-separated parts
/// after its first two bytes, before they are sorted.
pub open spec fn delete_items(command: Seq<char>) -> Result<Seq<usize>, CommandError> {
    if byte_count(command) < 3 {
        Err(CommandError::Format)
    } else {
        match parts_items(split_spec(after_two_bytes(command)->Some_0, seq![','])) {
            Ok(items) => Ok(items),
            Err(k) => Err(CommandError::Parse(k)),
        }
    }
}

/// Whether reading a remove command cannot fail: its first two bytes end
/// on a character and no range ends at the largest number.
pub open spec fn delete_command_safe(command: Seq<char>) -> bool {
    byte_count(command) >= 3 ==> after_two_bytes(command) is Some && parts_safe(split_spec(after_two_bytes(command)->Some_0, seq![',']))
}

proof fn lemma_byte_count_front(c: Seq<char>)
    requires
        c.len() >= 1,
    ensures
        byte_count(c) == utf8_width(c[0]) + byte_count(c.drop_first()),
    decreases c.len(),
{
    if c.len() > 1 {
        lemma_byte_count_front(c.drop_last());
        assert(c.drop_last().drop_first() =~= c.drop_first().drop_last());
        assert(c.drop_first().last() == c.last());
        assert(c.drop_last()[0] == c[0]);
        assert(byte_count(c.drop_first()) == byte_count(c.drop_first().drop_last()) + utf8_width(c.drop_first().last()));
    } else {
        assert(c.drop_first().len() == 0);
        assert(c.drop_last().len() == 0);
        assert(c.last() == c[0]);
        assert(byte_count(c.drop_last()) == 0);
        assert(byte_count(c.drop_first()) == 0);
    }
}

proof fn lemma_byte_count_small(c: Seq<char>)
    ensures
        byte_count(c) >= c.len(),
    decreases c.len(),
{
    if c.len() > 0 {
        lemma_byte_count_small(c.drop_last());
    }
}

/// Handles keys in command mode.
pub struct CommandHandler {
    input_handler: UserInputHandler,
}

/// The terminal work and state changes of `return_to_prev_state`.
pub open spec fn returned(old: &MainWindow, new: &MainWindow) -> bool {
    &&& new.input_type == old.previous_input_type
    &&& new.previous_input_type == InputType::Command
    &&& new.config == (LogriaConfig { delete_func: None, ..old.config })
    &&& new.length_finder == old.length_finder
    &&& new.ui() == old.ui() + set_cli_cursor_ui(
        &MainWindow { input_type: old.previous_input_type, ..*old },
        None,
    ) + seq![ActionView::Flush]
}

/// `new` is `w` with `text` written to the command line.
pub open spec fn said(w: &MainWindow, new: &MainWindow, text: Seq<char>) -> bool {
    new.config == w.config && new.ui() == w.ui() + write_to_command_line_ui(w, text)
}

/// What running `command` does to the window `before`, giving `after`: a
/// quit is queued, or the command's effect is followed by the return to the
/// mode command mode was entered from.
pub open spec fn command_outcome(before: &MainWindow, command: Seq<char>, after: &MainWindow) -> bool {
    if command == "q"@ {
        after.config == before.config && after.input_type == before.input_type && after.ui() == before.ui().push(ActionView::Quit)
    } else {
        exists|mid: MainWindow| #[trigger] command_effect(before, command, &mid)
            && mid.input_type == before.input_type && mid.previous_input_type == before.previous_input_type
            && mid.length_finder == before.length_finder && returned(&mid, after)
    }
}

/// What a command does to the window before the mode goes back.
pub open spec fn command_effect(w: &MainWindow, command: Seq<char>, new: &MainWindow) -> bool {
    if command == "q"@ {
        new.config == w.config && new.ui() == w.ui().push(ActionView::Quit)
    } else if starts_with(command, "poll "@) {
        match poll_rate_of(command) {
            Ok(v) => new.config == (LogriaConfig { poll_rate: v, ..w.config }) && new.ui() == w.ui(),
            Err(e) => said(w, new, "Failed to parse remove command: "@ + error_text(e)),
        }
    } else if starts_with(command, "config"@) {
        said(w, new, "Config mode"@)
    } else if starts_with(command, "history"@) {
        said(w, new, "History mode"@)
    } else if starts_with(command, "history off"@) {
        said(w, new, "History off"@)
    } else if starts_with(command, "r"@) {
        if w.config.stream_type == StreamType::Auxiliary {
            match delete_items(command) {
                Ok(items) => match w.config.delete_func {
                    Some(t) => {
                        &&& new.config == w.config
                        &&& new.ui().len() == w.ui().len() + 2
                        &&& new.ui().subrange(0, w.ui().len() as int) == w.ui()
                        &&& new.ui()[w.ui().len() + 1int] == ActionView::RefreshAuxiliary
                        &&& new.ui()[w.ui().len() as int] matches ActionView::Delete(target, chosen)
                        &&& target == t
                        &&& ascending(chosen)
                        &&& chosen.to_multiset() == items.to_multiset()
                    },
                    None => said(w, new, "Delete command is valid, but there is nothing to delete."@),
                },
                Err(_) => said(w, new, "Failed to parse remove command: "@ + debug_text(command) + " is invalid."@),
            }
        } else {
            said(w, new, "Cannot remove files outside of startup mode."@)
        }
    } else if starts_with(command, "restart"@) {
        said(w, new, "Restart"@)
    } else {
        said(w, new, "Invalid command: "@ + debug_text(command))
    }
}

impl CommandHandler {
    /// The editor of the command.
    pub closed spec fn input(&self) -> InputView {
        self.input_handler@
    }

    pub open spec fn wf(&self) -> bool {
        self.input().history.items.len() > 0 && self.input().history.current_index < self.input().history.items.len()
    }

    closed spec fn inner_wf(&self) -> bool {
        self.input_handler.wf()
    }

    proof fn lemma_wf(&self)
        ensures
            self.wf() <==> self.inner_wf(),
    {
    }

    /// An empty command line over the given history.
    pub fn new(history: Tape) -> (r: CommandHandler)
        requires
            history.wf(),
        ensures
            r.wf(),
            r.input().content.len() == 0,
            r.input().history == history@,
    {
        CommandHandler { input_handler: UserInputHandler::new(history) }
    }

    /// Go back to the mode command mode was entered from.
    pub fn return_to_prev_state(&mut self, window: &mut MainWindow)
        requires
            old(window).sized(),
        ensures
            returned(old(window), final(window)),
            final(self).input() == old(self).input(),
    {
        window.input_type = window.previous_input_type;
        window.previous_input_type = InputType::Command;
        window.config.delete_func = None;
        let ghost w1 = *window;
        window.set_cli_cursor(None);
        window.act(UiAction::Flush);
        assert(set_cli_cursor_ui(&w1, None) == set_cli_cursor_ui(&MainWindow { input_type: old(window).previous_input_type, ..*old(window) }, None));
        assert(window.ui() =~= old(window).ui() + set_cli_cursor_ui(
            &MainWindow { input_type: old(window).previous_input_type, ..*old(window) },
            None,
        ) + seq![ActionView::Flush]);
    }

    /// The poll rate a `poll` command names (see `poll_rate_of`).
    pub fn resolve_poll_rate(&self, command: &str) -> (r: Result<u64, CommandError>)
        ensures
            r == poll_rate_of(command@),
    {
        let parts = split_str(command, " ");
        proof {
            reveal_strlit(" ");
            assert(" "@ =~= seq![' ']);
        }
        if parts.len() < 2 {
            return Err(CommandError::Format);
        }
        match parse_unsigned(parts[1].as_str(), u64::MAX) {
            Ok(v) => Ok(v),
            Err(k) => Err(CommandError::Parse(k)),
        }
    }

    /// The items a remove command names, sorted (see `delete_items`).
    pub fn resolve_delete_command(&self, command: &str) -> (r: Result<Vec<usize>, CommandError>)
        requires
            delete_command_safe(command@),
        ensures
            match (r, delete_items(command@)) {
                (Ok(v), Ok(items)) => ascending(v@) && v@.to_multiset() == items.to_multiset(),
                (Err(e), Err(f)) => e == f,
                _ => false,
            },
    {
        let chars = crate::text::str_chars(command);
        let mut bytes: usize = 0;
        let mut k: usize = 0;
        while k < chars.len() && bytes < 3
            invariant
                chars@ == command@,
                k <= chars@.len(),
                bytes == byte_count(chars@.subrange(0, k as int)),
                bytes <= 6,
            decreases chars@.len() - k,
        {
            assert(chars@.subrange(0, k + 1).drop_last() =~= chars@.subrange(0, k as int));
            bytes = bytes + utf8_width_exec(chars[k]);
            k = k + 1;
        }
        proof {
            lemma_count_prefix(command@, k as int);
        }
        if bytes < 3 {
            return Err(CommandError::Format);
        }
        let from: usize = if utf8_width_exec(chars[0]) == 2 { 1 } else { 2 };
        proof {
            lemma_byte_count_front(command@);
            if command@.len() >= 2 {
                lemma_byte_count_front(command@.drop_first());
            }
        }
        let rest = crate::text::chars_to_string(&chars, from, chars.len());
        assert(rest@ == after_two_bytes(command@)->Some_0);
        let parts = split_str(rest.as_str(), ",");
        proof {
            reveal_strlit(",");
            assert(","@ =~= seq![',']);
        }
        let ghost all_parts = parts@.map_values(|p: String| p@);
        let mut out_l: Vec<usize> = Vec::new();
        assert(all_parts.subrange(0, all_parts.len() as int) =~= all_parts);
        assert(byte_count(command@) >= 3);
        assert(delete_items(command@) == match parts_items(all_parts) {
            Ok(items) => Ok(items),
            Err(k) => Err(CommandError::Parse(k)),
        });
        proof {
            match parts_items(all_parts) {
                Ok(more) => {
                    assert(out_l@ + more =~= more);
                },
                Err(_) => {},
            }
        }
        let mut i: usize = 0;
        while i < parts.len()
            invariant
                i <= parts@.len(),
                all_parts == parts@.map_values(|p: String| p@),
                all_parts == split_spec(rest@, seq![',']),
                delete_items(command@) == match parts_items(all_parts) {
                    Ok(items) => Ok(items),
                    Err(k) => Err(CommandError::Parse(k)),
                },
                parts_safe(all_parts.subrange(i as int, all_parts.len() as int)),
                parts_items(all_parts) == match parts_items(all_parts.subrange(i as int, all_parts.len() as int)) {
                    Ok(more) => Ok(out_l@ + more),
                    Err(k) => Err(k),
                },
            decreases parts@.len() - i,
        {
            let ghost tail = all_parts.subrange(i as int, all_parts.len() as int);
            assert(tail[0] == parts@[i as int]@);
            assert(tail.drop_first() =~= all_parts.subrange(i + 1, all_parts.len() as int));
            let part = parts[i].as_str();
            match self.part_numbers(part) {
                Ok(items) => {
                    let ghost before = out_l@;
                    let mut j: usize = 0;
                    while j < items.len()
                        invariant
                            j <= items@.len(),
                            out_l@ == before + items@.subrange(0, j as int),
                        decreases items@.len() - j,
                    {
                        out_l.push(items[j]);
                        assert(items@.subrange(0, j + 1) =~= items@.subrange(0, j as int).push(items@[j as int]));
                        j = j + 1;
                    }
                    assert(items@.subrange(0, items@.len() as int) =~= items@);
                    proof {
                        match parts_items(tail.drop_first()) {
                            Ok(more) => {
                                assert(before + (items@ + more) =~= out_l@ + more);
                            },
                            Err(_) => {},
                        }
                    }
                },
                Err(k) => {
                    assert(part_items(tail[0]) == Err::<Seq<usize>, IntErrorKind>(k));
                    assert(parts_items(tail) == Err::<Seq<usize>, IntErrorKind>(k));
                    assert(parts_items(all_parts) == Err::<Seq<usize>, IntErrorKind>(k));
                    return Err(CommandError::Parse(k));
                },
            }
            i = i + 1;
        }
        assert(all_parts.subrange(i as int, all_parts.len() as int) =~= Seq::<Seq<char>>::empty());
        assert(out_l@ + Seq::<usize>::empty() =~= out_l@);
        sort_numbers(&mut out_l);
        Ok(out_l)
    }

    /// Whether a part of a remove command names no range ending at the
    /// largest number (see `part_safe`).
    fn part_is_safe(part: &str) -> (r: bool)
        ensures
            r == part_safe(part@),
    {
        if !contains_char(part, '-') {
            return true;
        }
        let range = split_str(part, "-");
        proof {
            reveal_strlit("-");
            assert("-"@ =~= seq!['-']);
        }
        if range.len() != 2 {
            return true;
        }
        match parse_usize(range[0].as_str()) {
            Err(_) => true,
            Ok(_) => match parse_usize(range[1].as_str()) {
                Ok(end) => end < usize::MAX,
                Err(_) => true,
            },
        }
    }

    /// Whether reading `command` as a remove command cannot fail (see
    /// `delete_command_safe`).
    pub fn delete_command_is_safe(&self, command: &str) -> (r: bool)
        ensures
            r == delete_command_safe(command@),
    {
        let chars = crate::text::str_chars(command);
        let mut bytes: usize = 0;
        let mut k: usize = 0;
        while k < chars.len() && bytes < 3
            invariant
                chars@ == command@,
                k <= chars@.len(),
                bytes == byte_count(chars@.subrange(0, k as int)),
                bytes <= 6,
            decreases chars@.len() - k,
        {
            assert(chars@.subrange(0, k + 1).drop_last() =~= chars@.subrange(0, k as int));
            bytes = bytes + utf8_width_exec(chars[k]);
            k = k + 1;
        }
        proof {
            lemma_count_prefix(command@, k as int);
        }
        if bytes < 3 {
            return true;
        }
        proof {
            lemma_byte_count_front(command@);
            if command@.len() >= 2 {
                lemma_byte_count_front(command@.drop_first());
            }
        }
        let from: usize = if utf8_width_exec(chars[0]) == 2 {
            1
        } else if chars.len() >= 2 && utf8_width_exec(chars[0]) == 1 && utf8_width_exec(chars[1]) == 1 {
            2
        } else {
            return false;
        };
        let rest = crate::text::chars_to_string(&chars, from, chars.len());
        assert(rest@ == after_two_bytes(command@)->Some_0);
        let parts = split_str(rest.as_str(), ",");
        proof {
            reveal_strlit(",");
            assert(","@ =~= seq![',']);
        }
        let ghost all_parts = parts@.map_values(|p: String| p@);
        assert(all_parts.subrange(0, all_parts.len() as int) =~= all_parts);
        let mut i: usize = 0;
        while i < parts.len()
            invariant
                i <= parts@.len(),
                all_parts == parts@.map_values(|p: String| p@),
                delete_command_safe(command@) == parts_safe(all_parts.subrange(i as int, all_parts.len() as int)),
            decreases parts@.len() - i,
        {
            let ghost tail = all_parts.subrange(i as int, all_parts.len() as int);
            assert(tail[0] == parts@[i as int]@);
            assert(tail.drop_first() =~= all_parts.subrange(i + 1, all_parts.len() as int));
            let part = parts[i].as_str();
            if !Self::part_is_safe(part) {
                return false;
            }
            if self.part_numbers(part).is_err() {
                return true;
            }
            i = i + 1;
        }
        assert(all_parts.subrange(i as int, all_parts.len() as int) =~= Seq::<Seq<char>>::empty());
        true
    }

    /// The items one part of a remove command names (see `part_items`).
    fn part_numbers(&self, part: &str) -> (r: Result<Vec<usize>, IntErrorKind>)
        requires
            part_safe(part@),
        ensures
            match (r, part_items(part@)) {
                (Ok(v), Ok(items)) => v@ == items,
                (Err(e), Err(f)) => e == f,
                _ => false,
            },
    {
        if contains_char(part, '-') {
            let range = split_str(part, "-");
            proof {
                reveal_strlit("-");
                assert("-"@ =~= seq!['-']);
            }
            if range.len() != 2 {
                return Ok(Vec::new());
            }
            let start = match parse_usize(range[0].as_str()) {
                Ok(v) => v,
                Err(k) => {
                    return Err(k);
                },
            };
            let end = match parse_usize(range[1].as_str()) {
                Ok(v) => v,
                Err(k) => {
                    return Err(k);
                },
            };
            let mut out: Vec<usize> = Vec::new();
            let mut step = start;
            let stop = end + 1;
            while step < stop
                invariant
                    start <= step || stop <= start,
                    stop == end + 1,
                    step <= stop || stop <= start,
                    stop > start ==> out@ == inclusive_range(start, end).subrange(0, step - start),
                    stop <= start ==> out@.len() == 0 && step == start,
                decreases stop - step,
            {
                out.push(step);
                assert(inclusive_range(start, end).subrange(0, step + 1 - start) =~= inclusive_range(start, end).subrange(
                    0,
                    step - start,
                ).push(step));
                step = step + 1;
            }
            if stop > start {
                assert(inclusive_range(start, end).subrange(0, step - start) =~= inclusive_range(start, end));
            } else {
                assert(out@ =~= inclusive_range(start, end));
            }
            Ok(out)
        } else if part.is_empty() {
            Ok(Vec::new())
        } else {
            match parse_usize(part) {
                Ok(n) => {
                    let mut v: Vec<usize> = Vec::new();
                    v.push(n);
                    assert(v@ =~= seq![n]);
                    Ok(v)
                },
                Err(k) => Err(k),
            }
        }
    }

    /// Do what a command asks, before the mode goes back.
    fn apply_command(&mut self, window: &mut MainWindow, command: &str)
        requires
            old(window).sized(),
            command@ != "q"@,
            starts_with(command@, "r"@) && !starts_with(command@, "poll "@) && !starts_with(command@, "config"@)
                && !starts_with(command@, "history"@) && old(window).config.stream_type == StreamType::Auxiliary
                ==> delete_command_safe(command@),
        ensures
            command_effect(old(window), command@, final(window)),
            final(window).input_type == old(window).input_type,
            final(window).previous_input_type == old(window).previous_input_type,
            final(window).length_finder == old(window).length_finder,
            final(self).input() == old(self).input(),
    {
        proof {
            reveal_strlit("q");
        }
        if starts_with_exec(command, "poll ") {
            match self.resolve_poll_rate(command) {
                Ok(val) => {
                    window.config.poll_rate = val;
                },
                Err(why) => {
                    let mut text = "Failed to parse remove command: ".to_owned();
                    push_str(&mut text, error_text_exec(why).as_str());
                    window.write_to_command_line(text.as_str());
                },
            }
        } else if starts_with_exec(command, "config") {
            window.write_to_command_line("Config mode");
        } else if starts_with_exec(command, "history") {
            window.write_to_command_line("History mode");
        } else if starts_with_exec(command, "history off") {
            window.write_to_command_line("History off");
        } else if starts_with_exec(command, "r") {
            self.apply_remove(window, command);
        } else if starts_with_exec(command, "restart") {
            window.write_to_command_line("Restart");
        } else {
            let mut text = "Invalid command: ".to_owned();
            push_str(&mut text, debug_quoted(command).as_str());
            window.write_to_command_line(text.as_str());
        }
    }

    /// Remove what a remove command names, in startup mode.
    fn apply_remove(&mut self, window: &mut MainWindow, command: &str)
        requires
            old(window).sized(),
            old(window).config.stream_type == StreamType::Auxiliary ==> delete_command_safe(command@),
        ensures
            final(window).config == old(window).config,
            final(window).input_type == old(window).input_type,
            final(window).previous_input_type == old(window).previous_input_type,
            final(window).length_finder == old(window).length_finder,
            final(self).input() == old(self).input(),
            if old(window).config.stream_type == StreamType::Auxiliary {
                match delete_items(command@) {
                    Ok(items) => match old(window).config.delete_func {
                        Some(t) => {
                            &&& final(window).ui().len() == old(window).ui().len() + 2
                            &&& final(window).ui().subrange(0, old(window).ui().len() as int) == old(window).ui()
                            &&& final(window).ui()[old(window).ui().len() + 1int] == ActionView::RefreshAuxiliary
                            &&& final(window).ui()[old(window).ui().len() as int] matches ActionView::Delete(target, chosen)
                            &&& target == t
                            &&& ascending(chosen)
                            &&& chosen.to_multiset() == items.to_multiset()
                        },
                        None => said(old(window), final(window), "Delete command is valid, but there is nothing to delete."@),
                    },
                    Err(_) => said(old(window), final(window), "Failed to parse remove command: "@ + debug_text(command@) + " is invalid."@),
                }
            } else {
                said(old(window), final(window), "Cannot remove files outside of startup mode."@)
            },
    {
        if window.config.stream_type == StreamType::Auxiliary {
            match self.resolve_delete_command(command) {
                Ok(items) => {
                    match window.config.delete_func {
                        Some(target) => {
                            let ghost chosen = items@;
                            window.act(UiAction::Delete(target, items));
                            window.act(UiAction::RefreshAuxiliary);
                            assert(window.ui().subrange(0, old(window).ui().len() as int) =~= old(window).ui());
                        },
                        None => {
                            window.write_to_command_line("Delete command is valid, but there is nothing to delete.");
                        },
                    }
                },
                Err(_) => {
                    let mut text = "Failed to parse remove command: ".to_owned();
                    push_str(&mut text, debug_quoted(command).as_str());
                    push_str(&mut text, " is invalid.");
                    window.write_to_command_line(text.as_str());
                },
            }
        } else {
            window.write_to_command_line("Cannot remove files outside of startup mode.");
        }
    }

    /// Do what a command asks, then go back to the previous mode (except on
    /// quitting).
    pub fn process_command(&mut self, window: &mut MainWindow, command: &str)
        requires
            old(window).sized(),
            starts_with(command@, "r"@) && command@ != "q"@ && !starts_with(command@, "poll "@) && !starts_with(command@, "config"@)
                && !starts_with(command@, "history"@) && old(window).config.stream_type == StreamType::Auxiliary
                ==> delete_command_safe(command@),
        ensures
            final(self).input() == old(self).input(),
            command_outcome(old(window), command@, final(window)),
    {
        proof {
            reveal_strlit("q");
        }
        if crate::history::str_equal(command, "q") {
            window.quit();
            return;
        }
        self.apply_command(window, command);
        let ghost mid = *window;
        self.return_to_prev_state(window);
        assert(command_effect(old(window), command@, &mid));
    }

    /// Whether `receive_input` can take `key` in `window`: on Enter, a
    /// remove command that will be read must be readable; other keys but
    /// Escape must suit the editor.
    pub fn can_take(&self, window: &MainWindow, key: KeyCode) -> (r: bool)
        requires
            self.wf(),
        ensures
            r == ({
                &&& key == KeyCode::Enter ==> ({
                let command = self.input().content;
                starts_with(command, "r"@) && command != "q"@ && !starts_with(command, "poll "@)
                    && !starts_with(command, "config"@) && !starts_with(command, "history"@)
                    && window.config.stream_type == StreamType::Auxiliary ==> delete_command_safe(command)
            })
                &&& key != KeyCode::Enter && key != KeyCode::Esc ==> key_safe(self.input(), key, window.config.width)
            }),
    {
        proof {
            self.lemma_wf();
        }
        if key == KeyCode::Enter {
            let command = self.input_handler.get_content();
            let text = command.as_str();
            let removes = starts_with_exec(text, "r") && !crate::history::str_equal(text, "q") && !starts_with_exec(text, "poll ")
                && !starts_with_exec(text, "config") && !starts_with_exec(text, "history")
                && window.config.stream_type == StreamType::Auxiliary;
            !removes || self.delete_command_is_safe(text)
        } else if key == KeyCode::Esc {
            true
        } else {
            self.input_handler.can_take(key, window.config.width)
        }
    }

    /// React to a key: run the command on Enter, go back on Escape, or edit
    /// the command.
    pub fn receive_input(&mut self, window: &mut MainWindow, key: KeyCode)
        requires
            old(self).wf(),
            old(window).sized(),
            key == KeyCode::Enter ==> ({
                let command = old(self).input().content;
                starts_with(command, "r"@) && command != "q"@ && !starts_with(command, "poll "@)
                    && !starts_with(command, "config"@) && !starts_with(command, "history"@)
                    && old(window).config.stream_type == StreamType::Auxiliary ==> delete_command_safe(command)
            }),
            key != KeyCode::Enter && key != KeyCode::Esc ==> key_safe(old(self).input(), key, old(window).config.width),
        ensures
            final(self).wf(),
            key == KeyCode::Esc ==> returned(old(window), final(window)) && final(self).input() == old(self).input(),
            key == KeyCode::Enter ==> {
                &&& final(self).input().content.len() == 0
                &&& exists|gathered: MainWindow| #[trigger] same_state(&gathered, old(window))
                    && command_outcome(&gathered, old(self).input().content, final(window))
            },
            key != KeyCode::Enter && key != KeyCode::Esc ==> {
                &&& final(self).input() == after_key(old(self).input(), key, old(window).config.width, old(window).config.height)
                &&& same_state(final(window), old(window))
            },
    {
        proof {
            self.lemma_wf();
        }
        if key == KeyCode::Enter {
            let command = self.input_handler.gather(window);
            let ghost gathered = *window;
            self.process_command(window, command.as_str());
            assert(same_state(&gathered, old(window)) && command_outcome(&gathered, old(self).input().content, window));
        } else if key == KeyCode::Esc {
            self.return_to_prev_state(window);
        } else {
            self.input_handler.receive_input(window, key);
        }
    }
}

proof fn lemma_count_prefix(c: Seq<char>, k: int)
    requires
        0 <= k <= c.len(),
    ensures
        byte_count(c.subrange(0, k)) >= 3 ==> byte_count(c) >= 3,
        k == c.len() ==> byte_count(c.subrange(0, k)) == byte_count(c),
    decreases c.len() - k,
{
    if k == c.len() {
        assert(c.subrange(0, k) =~= c);
    } else {
        lemma_count_prefix(c, k + 1);
        assert(c.subrange(0, k + 1).drop_last() =~= c.subrange(0, k));
    }
}

} // verus!
