//! Parser mode: messages are cut into parts by a parser; one part of each
//! is shown, or every part is aggregated.
use vstd::prelude::*;
use crate::error::{error_message, ErrorView, LogriaError};
use crate::history::Tape;
use crate::multiple_choice::{choice_after_key, choice_line, choice_window_after_key, MultipleChoiceHandler};
use crate::parser::{example_readable, method_names, Parser, PatternType};
use crate::pattern::{regex_capture_groups, text_regex_error, TextPattern};
use crate::split::{replace_spec, replace_text, split_terminator, split_terminator_spec};
use crate::history::str_equal;
use crate::text::{decimal, push_str, usize_to_string};
use crate::keys::KeyCode;
use crate::scroll::{is_scroll_key, pages_down, scroll_by_key, scroll_is_safe, scroll_safe, scrolled, scrolls};
use crate::user_input::key_safe;
use crate::parser::example_result;
use crate::render::{lemma_redraw_keeps, redrawn};
use crate::window::{eq_but_render, lemma_ready, ActionView, AuxSource, DeleteTarget, InputType, LogriaConfig, MainWindow, ParserState, StreamType, same_state};

verus! {

/// What one message gives the aggregators: the parts to add, by the name
/// of their aggregator, in order, and the error that stopped the reading,
/// if one did. `render` says whether the aggregators' messages are wanted
/// after it.
pub struct AggregationStep {
    pub updates: Vec<(String, String)>,
    pub error: Option<LogriaError>,
    pub render: bool,
}

/// The field `index` of a message a regex parser reads: capture group
/// `index + 1` (group `index` when that overflows), if it took part.
pub open spec fn regex_field(pattern: Seq<char>, message: Seq<char>, index: usize) -> Option<Seq<char>> {
    match regex_capture_groups(pattern, message) {
        None => None,
        Some(g) => {
            let k: int = if index < usize::MAX { index + 1 } else { index as int };
            if k < g.len() { g[k] } else { None }
        },
    }
}

/// The field `index` of a message a split parser reads.
pub open spec fn split_field(message: Seq<char>, pattern: Seq<char>, index: usize) -> Option<Seq<char>> {
    let parts = split_terminator_spec(message, pattern);
    if index < parts.len() { Some(parts[index as int]) } else { None }
}

/// What `parse` gives: the field, if there is one, or why the pattern does
/// not compile.
pub open spec fn parse_result(t: PatternType, pattern: Seq<char>, index: usize, message: Seq<char>) -> Result<Option<Seq<char>>, ErrorView> {
    match t {
        PatternType::Regex => match text_regex_error(pattern) {
            Some(e) => Err(ErrorView::InvalidRegex(e, pattern)),
            None => Ok(regex_field(pattern, message, index)),
        },
        PatternType::Split => Ok(split_field(message, pattern, index)),
    }
}

/// The texts of the groups that took part.
pub open spec fn present_groups(g: Seq<Option<Seq<char>>>) -> Seq<Seq<char>>
    decreases g.len(),
{
    if g.len() == 0 {
        Seq::empty()
    } else {
        let head: Seq<Seq<char>> = match g[0] {
            Some(t) => seq![t],
            None => Seq::empty(),
        };
        head + present_groups(g.drop_first())
    }
}

/// The parts of a message for aggregation: the groups after the whole
/// match that took part, or the split pieces.
pub open spec fn message_parts(t: PatternType, pattern: Seq<char>, message: Seq<char>) -> Result<Seq<Seq<char>>, ErrorView> {
    match t {
        PatternType::Regex => match text_regex_error(pattern) {
            Some(e) => Err(ErrorView::InvalidRegex(e, pattern)),
            None => match regex_capture_groups(pattern, message) {
                None => Err(ErrorView::CannotParseMessage("regex did not match message!"@)),
                Some(g) => Ok(present_groups(g.drop_first())),
            },
        },
        PatternType::Split => Ok(split_terminator_spec(message, pattern)),
    }
}

/// The updates for the parts from `i` on: each part goes to the aggregator
/// named at its place in `order`; reading stops at a part with no place,
/// or with a name that has no aggregator.
pub open spec fn dispatch(parts: Seq<Seq<char>>, order: Seq<Seq<char>>, names: Seq<Seq<char>>, i: int) -> (Seq<(Seq<char>, Seq<char>)>, Option<ErrorView>)
    decreases parts.len() - i,
{
    if i < 0 || i >= parts.len() {
        (Seq::empty(), None)
    } else if i >= order.len() {
        (Seq::empty(), Some(ErrorView::CannotParseMessage("number of aggregation methods not equal to number of matches!"@)))
    } else if !names.contains(order[i]) {
        (Seq::empty(), Some(ErrorView::InvalidParserState("aggregator missing for "@ + order[i] + "!"@)))
    } else {
        let (rest, e) = dispatch(parts, order, names, i + 1);
        (seq![(order[i], parts[i])] + rest, e)
    }
}

/// The aggregation step of a message.
pub open spec fn aggregation_of(p: Option<&Parser>, message: Seq<char>) -> (Seq<(Seq<char>, Seq<char>)>, Option<ErrorView>) {
    match p {
        None => (Seq::empty(), Some(ErrorView::InvalidParserState("no parser selected!"@))),
        Some(p) => match message_parts(p.pattern_type, p.pattern@, message) {
            Err(e) => (Seq::empty(), Some(e)),
            Ok(parts) => dispatch(parts, p.order@.map_values(|s: String| s@), method_names(p.aggregation_methods@), 0),
        },
    }
}

/// The view of an aggregation step.
pub open spec fn step_view(s: &AggregationStep) -> (Seq<(Seq<char>, Seq<char>)>, Option<ErrorView>, bool) {
    (
        s.updates@.map_values(|u: (String, String)| (u.0@, u.1@)),
        match s.error {
            Some(e) => Some(e@),
            None => None,
        },
        s.render,
    )
}

/// Handles keys in parser mode.
pub struct ParserHandler {
    mc_handler: MultipleChoiceHandler,
    redraw: bool,
    status: String,
    /// The parser in use, once one is chosen.
    pub parser: Option<Parser>,
}

/// The parsed fields of the messages from `start` to `end`, in order.
pub open spec fn parsed_fields(p: &Parser, index: usize, msgs: Seq<String>, start: int, end: int) -> Seq<Seq<char>>
    decreases end - start,
{
    if end <= start {
        Seq::empty()
    } else {
        let before = parsed_fields(p, index, msgs, start, end - 1);
        match parse_result(p.pattern_type, p.pattern@, index, msgs[end - 1]@) {
            Ok(Some(f)) => before.push(f),
            _ => before,
        }
    }
}

impl ParserHandler {
    /// The chooser of parsers and fields.
    pub closed spec fn chooser(&self) -> &MultipleChoiceHandler {
        &self.mc_handler
    }

    /// Whether the choices are drawn again on the next key.
    pub closed spec fn will_redraw(&self) -> bool {
        self.redraw
    }

    /// The text that tells the user which parser and field are in use.
    pub closed spec fn status(&self) -> Seq<char> {
        self.status@
    }

    /// The parser in use.
    pub closed spec fn current(&self) -> Option<&Parser> {
        match &self.parser {
            Some(p) => Some(p),
            None => None,
        }
    }

    pub open spec fn wf(&self) -> bool {
        self.chooser().wf()
    }

    /// No parser, an empty chooser over the given history.
    pub fn new(history: Tape) -> (r: ParserHandler)
        requires
            history.wf(),
        ensures
            r.wf(),
            r.current() is None,
            r.will_redraw(),
            r.status().len() == 0,
            r.chooser().choices().len() == 0,
            r.chooser().picked() is None,
    {
        ParserHandler { mc_handler: MultipleChoiceHandler::new(history), redraw: true, status: String::new(), parser: None }
    }

    /// The lines that list the saved parsers, numbered.
    pub fn parser_messages_handle(parsers: &Vec<String>) -> (r: Vec<String>)
        ensures
            r@.map_values(|s: String| s@) == Seq::new(parsers@.len(), |i: int| choice_line(i as nat, parsers@[i]@)),
    {
        let mut body_text: Vec<String> = Vec::new();
        let mut i: usize = 0;
        while i < parsers.len()
            invariant
                i <= parsers@.len(),
                body_text@.map_values(|s: String| s@) == Seq::new(i as nat, |k: int| choice_line(k as nat, parsers@[k]@)),
            decreases parsers@.len() - i,
        {
            let ghost before = body_text@.map_values(|s: String| s@);
            let mut line = usize_to_string(i);
            push_str(&mut line, ": ");
            push_str(&mut line, parsers[i].as_str());
            body_text.push(line);
            assert(body_text@.map_values(|s: String| s@) =~= before.push(choice_line(i as nat, parsers@[i as int]@)));
            assert(Seq::new((i + 1) as nat, |k: int| choice_line(k as nat, parsers@[k]@)) =~= Seq::new(
                i as nat,
                |k: int| choice_line(k as nat, parsers@[k]@),
            ).push(choice_line(i as nat, parsers@[i as int]@)));
            i = i + 1;
        }
        body_text
    }

    /// The field `index` of a message read with a regex.
    pub fn regex_handle(&self, message: &str, index: usize, pattern: &TextPattern) -> (r: Option<String>)
        ensures
            match r {
                Some(s) => regex_field(pattern@, message@, index) == Some(s@),
                None => regex_field(pattern@, message@, index) is None,
            },
    {
        match pattern.capture_groups(message) {
            Some(caps) => {
                let k = match index.checked_add(1) {
                    Some(v) => v,
                    None => index,
                };
                if k < caps.len() {
                    match &caps[k] {
                        Some(s) => Some(s.clone()),
                        None => None,
                    }
                } else {
                    None
                }
            },
            None => None,
        }
    }

    /// The field `index` of a message split at `pattern`.
    pub fn split_handle(&self, message: &str, index: usize, pattern: &str) -> (r: Option<String>)
        ensures
            match r {
                Some(s) => split_field(message@, pattern@, index) == Some(s@),
                None => split_field(message@, pattern@, index) is None,
            },
    {
        let result = split_terminator(message, pattern);
        if index < result.len() {
            assert(result@.map_values(|p: String| p@)[index as int] == result@[index as int]@);
            Some(result[index].clone())
        } else {
            None
        }
    }

    /// The field `index` of a message, read with the parser in use.
    pub fn parse(&self, index: usize, message: &str) -> (r: Result<Option<String>, LogriaError>)
        requires
            self.current() is Some,
        ensures
            ({
                let p = self.current()->Some_0;
                match (r, parse_result(p.pattern_type, p.pattern@, index, message@)) {
                    (Ok(Some(s)), Ok(Some(f))) => s@ == f,
                    (Ok(None), Ok(None)) => true,
                    (Err(e), Err(f)) => e@ == f,
                    _ => false,
                }
            }),
    {
        let parser = match &self.parser {
            Some(p) => p,
            None => vstd::pervasive::unreached(),
        };
        match parser.pattern_type {
            PatternType::Regex => match parser.get_regex() {
                Ok(pattern) => Ok(self.regex_handle(message, index, &pattern)),
                Err(why) => Err(why),
            },
            PatternType::Split => Ok(self.split_handle(message, index, parser.pattern.as_str())),
        }
    }

    /// What a message gives the aggregators (see `aggregation_of`).
    pub fn aggregate_handle(&self, message: &str, render: bool) -> (r: AggregationStep)
        ensures
            step_view(&r) == (aggregation_of(self.current(), message@).0, aggregation_of(self.current(), message@).1, render),
    {
        let parser = match &self.parser {
            Some(p) => p,
            None => {
                let r = AggregationStep {
                    updates: Vec::new(),
                    error: Some(LogriaError::InvalidParserState("no parser selected!".to_owned())),
                    render,
                };
                assert(r.updates@.map_values(|u: (String, String)| (u.0@, u.1@)) =~= Seq::<(Seq<char>, Seq<char>)>::empty());
                return r;
            },
        };
        let parts: Vec<String> = match parser.pattern_type {
            PatternType::Regex => match parser.get_regex() {
                Ok(pattern) => match pattern.capture_groups(message) {
                    Some(groups) => {
                        assert(groups@.map_values(|o: Option<String>| match o {
                            Some(s) => Some(s@),
                            None => None,
                        }) =~= regex_capture_groups(parser.pattern@, message@)->Some_0);
                        present_texts(&groups)
                    },
                    None => {
                        let r = AggregationStep {
                            updates: Vec::new(),
                            error: Some(LogriaError::CannotParseMessage("regex did not match message!".to_owned())),
                            render,
                        };
                        assert(r.updates@.map_values(|u: (String, String)| (u.0@, u.1@)) =~= Seq::<(Seq<char>, Seq<char>)>::empty());
                        return r;
                    },
                },
                Err(why) => {
                    let r = AggregationStep { updates: Vec::new(), error: Some(why), render };
                    assert(r.updates@.map_values(|u: (String, String)| (u.0@, u.1@)) =~= Seq::<(Seq<char>, Seq<char>)>::empty());
                    return r;
                },
            },
            PatternType::Split => split_terminator(message, parser.pattern.as_str()),
        };
        let ghost pv = parts@.map_values(|s: String| s@);
        let ghost order = parser.order@.map_values(|s: String| s@);
        let ghost names = method_names(parser.aggregation_methods@);
        assert(self.current() == Some(parser));
        assert(message_parts(parser.pattern_type, parser.pattern@, message@) == Ok::<Seq<Seq<char>>, ErrorView>(pv));
        assert(aggregation_of(self.current(), message@) == dispatch(pv, order, names, 0));
        let mut updates: Vec<(String, String)> = Vec::new();
        let mut idx: usize = 0;
        while idx < parts.len()
            invariant
                idx <= parts@.len(),
                pv == parts@.map_values(|s: String| s@),
                order == parser.order@.map_values(|s: String| s@),
                names == method_names(parser.aggregation_methods@),
                aggregation_of(self.current(), message@) == dispatch(pv, order, names, 0),
                dispatch(pv, order, names, 0) == ({
                    let (rest, e) = dispatch(pv, order, names, idx as int);
                    (updates@.map_values(|u: (String, String)| (u.0@, u.1@)) + rest, e)
                }),
            decreases parts@.len() - idx,
        {
            if idx >= parser.order.len() {
                assert(dispatch(pv, order, names, idx as int) == (Seq::<(Seq<char>, Seq<char>)>::empty(), Some(
                    ErrorView::CannotParseMessage("number of aggregation methods not equal to number of matches!"@),
                )));
                let r = AggregationStep {
                    updates,
                    error: Some(LogriaError::CannotParseMessage("number of aggregation methods not equal to number of matches!".to_owned())),
                    render,
                };
                assert(r.updates@.map_values(|u: (String, String)| (u.0@, u.1@)) + Seq::<(Seq<char>, Seq<char>)>::empty() =~= r.updates@.map_values(
                    |u: (String, String)| (u.0@, u.1@),
                ));
                return r;
            }
            let name = parser.order[idx].clone();
            if !has_method(&parser.aggregation_methods, name.as_str()) {
                let mut text = "aggregator missing for ".to_owned();
                push_str(&mut text, name.as_str());
                push_str(&mut text, "!");
                assert(dispatch(pv, order, names, idx as int) == (Seq::<(Seq<char>, Seq<char>)>::empty(), Some(
                    ErrorView::InvalidParserState("aggregator missing for "@ + order[idx as int] + "!"@),
                )));
                let r = AggregationStep { updates, error: Some(LogriaError::InvalidParserState(text)), render };
                assert(r.updates@.map_values(|u: (String, String)| (u.0@, u.1@)) + Seq::<(Seq<char>, Seq<char>)>::empty() =~= r.updates@.map_values(
                    |u: (String, String)| (u.0@, u.1@),
                ));
                return r;
            }
            let ghost before = updates@.map_values(|u: (String, String)| (u.0@, u.1@));
            updates.push((name, parts[idx].clone()));
            proof {
                let (rest, e) = dispatch(pv, order, names, idx + 1);
                assert(updates@.map_values(|u: (String, String)| (u.0@, u.1@)) =~= before.push((order[idx as int], pv[idx as int])));
                assert(before + (seq![(order[idx as int], pv[idx as int])] + rest) =~= before.push((order[idx as int], pv[idx as int]))
                    + rest);
            }
            idx = idx + 1;
        }
        assert(dispatch(pv, order, names, idx as int) == (Seq::<(Seq<char>, Seq<char>)>::empty(), None::<ErrorView>));
        let r = AggregationStep { updates, error: None, render };
        assert(r.updates@.map_values(|u: (String, String)| (u.0@, u.1@)) + Seq::<(Seq<char>, Seq<char>)>::empty() =~= r.updates@.map_values(
            |u: (String, String)| (u.0@, u.1@),
        ));
        r
    }
}

impl ParserHandler {
    /// Parse the messages not yet parsed, from the buffer that was shown
    /// before parser mode. Showing one field, the fields found are added to
    /// the auxiliary buffer; aggregating, the steps for the aggregators are
    /// given back, one per message, the last one asking for the messages.
    pub fn process_matches(&mut self, window: &mut MainWindow) -> (r: Vec<AggregationStep>)
        requires
            old(window).config.parser_state == ParserState::Full && old(self).current() is Some
                ==> old(window).config.last_index_processed <= old(window).prev_msgs().len()
                && old(window).config.previous_stream_type != StreamType::Auxiliary,
        ensures
            *final(self) == *old(self),
            final(window).ui() == old(window).ui(),
            final(window).input_type == old(window).input_type,
            final(window).previous_input_type == old(window).previous_input_type,
            final(window).length_finder == old(window).length_finder,
            ({
                let c = old(window).config;
                let start = c.last_index_processed as int;
                let end = old(window).prev_msgs().len() as int;
                let last = if end >= 1 { end - 1 } else { start };
                if c.parser_state == ParserState::Full && old(self).current() is Some {
                    let p = old(self).current()->Some_0;
                    &&& final(window).config == (LogriaConfig {
                        auxiliary_messages: final(window).config.auxiliary_messages,
                        last_index_processed: end as usize,
                        ..c
                    })
                    &&& if c.aggregation_enabled {
                        &&& final(window).config.auxiliary_messages@ == c.auxiliary_messages@
                        &&& r@.len() == end - start
                        &&& forall|i: int| 0 <= i < r@.len() ==> #[trigger] step_view(&r@[i]) == (
                            aggregation_of(Some(p), old(window).prev_msgs()[start + i]@).0,
                            aggregation_of(Some(p), old(window).prev_msgs()[start + i]@).1,
                            start + i == last,
                        )
                    } else {
                        &&& r@.len() == 0
                        &&& final(window).config.auxiliary_messages@.map_values(|s: String| s@)
                            == c.auxiliary_messages@.map_values(|s: String| s@) + parsed_fields(p, c.parser_index, old(window).prev_msgs(), start, end)
                    }
                } else {
                    &&& final(window).config == c
                    &&& r@.len() == 0
                }
            }),
    {
        let mut steps: Vec<AggregationStep> = Vec::new();
        if window.config.parser_state != ParserState::Full || self.parser.is_none() {
            return steps;
        }
        let start = window.config.last_index_processed;
        let end = window.previous_messages().len();
        let last = if end >= 1 { end - 1 } else { start };
        let ghost c = window.config;
        let ghost prev = old(window).prev_msgs();
        let ghost p = self.current()->Some_0;
        let mut index = start;
        while index < end
            invariant
                start <= index <= end,
                end == prev.len(),
                prev == old(window).prev_msgs(),
                c == old(window).config,
                c.previous_stream_type != StreamType::Auxiliary,
                *self == *old(self),
                self.current() == Some(p),
                last == (if end >= 1 { (end - 1) as usize } else { start }),
                window.prev_msgs() == prev,
                window.ui() == old(window).ui(),
                window.input_type == old(window).input_type,
                window.previous_input_type == old(window).previous_input_type,
                window.length_finder == old(window).length_finder,
                window.config == (LogriaConfig {
                    auxiliary_messages: window.config.auxiliary_messages,
                    last_index_processed: window.config.last_index_processed,
                    ..c
                }),
                index > start ==> window.config.last_index_processed == index,
                index == start ==> window.config.last_index_processed == start,
                c.aggregation_enabled ==> {
                    &&& window.config.auxiliary_messages@ == c.auxiliary_messages@
                    &&& steps@.len() == index - start
                    &&& forall|i: int| 0 <= i < steps@.len() ==> #[trigger] step_view(&steps@[i]) == (
                        aggregation_of(Some(p), prev[start + i]@).0,
                        aggregation_of(Some(p), prev[start + i]@).1,
                        start + i == last,
                    )
                },
                !c.aggregation_enabled ==> {
                    &&& steps@.len() == 0
                    &&& window.config.auxiliary_messages@.map_values(|s: String| s@)
                        == c.auxiliary_messages@.map_values(|s: String| s@) + parsed_fields(p, c.parser_index, prev, start as int, index as int)
                },
            decreases end - index,
        {
            let message = window.previous_messages()[index].clone();
            if window.config.aggregation_enabled {
                let step = self.aggregate_handle(message.as_str(), index == last);
                steps.push(step);
            } else {
                let ghost before = window.config.auxiliary_messages@.map_values(|s: String| s@);
                match self.parse(window.config.parser_index, message.as_str()) {
                    Ok(Some(field)) => {
                        window.config.auxiliary_messages.push(field);
                        assert(window.config.auxiliary_messages@.map_values(|s: String| s@) =~= before.push(
                            parsed_fields(p, c.parser_index, prev, start as int, index + 1).last(),
                        ));
                    },
                    _ => {},
                }
                assert(window.config.auxiliary_messages@.map_values(|s: String| s@) =~= c.auxiliary_messages@.map_values(|s: String| s@)
                    + parsed_fields(p, c.parser_index, prev, start as int, index + 1));
            }
            window.config.last_index_processed = index + 1;
            index = index + 1;
        }
        steps
    }
}

/// The error that ends a message's aggregation: one met by an aggregator
/// while taking a part comes first, else the one met reading the message.
pub open spec fn settled_error(step_error: Option<LogriaError>, update_error: Option<LogriaError>) -> Option<LogriaError> {
    if update_error is Some { update_error } else { step_error }
}

/// Finish one message of aggregation mode. When nothing went wrong, the
/// lines the aggregators rendered, if there are any, replace the auxiliary
/// messages; a message that does not fit the parser is said on the command
/// line; any other error leaves the window as it was.
pub fn settle_step(window: &mut MainWindow, step_error: Option<LogriaError>, update_error: Option<LogriaError>, lines: Vec<String>)
    requires
        settled_error(step_error, update_error) matches Some(LogriaError::CannotParseMessage(_)) ==> old(window).sized(),
    ensures
        match settled_error(step_error, update_error) {
            None => if lines@.len() > 0 {
                &&& final(window).config == (LogriaConfig { auxiliary_messages: lines, ..old(window).config })
                &&& final(window).ui() == old(window).ui()
                &&& final(window).input_type == old(window).input_type
                &&& final(window).previous_input_type == old(window).previous_input_type
                &&& final(window).length_finder == old(window).length_finder
            } else {
                *final(window) == *old(window)
            },
            Some(LogriaError::CannotParseMessage(text)) => {
                &&& final(window).ui() == old(window).ui() + crate::window::write_to_command_line_ui(old(window), text@)
                &&& same_state(final(window), old(window))
            },
            Some(_) => *final(window) == *old(window),
        },
{
    let error = match update_error {
        Some(e) => Some(e),
        None => step_error,
    };
    match error {
        None => {
            if lines.len() > 0 {
                window.config.auxiliary_messages = lines;
            }
        },
        Some(LogriaError::CannotParseMessage(text)) => {
            window.write_to_command_line(text.as_str());
        },
        Some(_) => {},
    }
}

/// What parser mode asks of the outside world after a key.
pub enum ParserRequest {
    Nothing,
    /// Load the parser saved at this path.
    LoadParser(String),
    /// Feed these steps to the aggregators.
    Aggregate(Vec<AggregationStep>),
}

/// Whether a window can take a key in parser mode without failing.
pub open spec fn parser_ready(w: &MainWindow) -> bool {
    &&& w.sized()
    &&& w.config.matched_rows@.len() == 0
    &&& w.input_type == InputType::Parser
    &&& w.config.stream_type == StreamType::Auxiliary
    &&& w.config.previous_stream_type != StreamType::Auxiliary
    &&& w.config.last_index_processed <= w.prev_msgs().len()
}

impl ParserHandler {
    /// Start over with a new parser.
    pub fn reset(&mut self, window: &mut MainWindow)
        ensures
            final(self).current() is None,
            final(self).status() == old(self).status(),
            final(self).chooser() == old(self).chooser(),
            final(window).config.auxiliary_messages@.len() == 0,
            final(window).config == (LogriaConfig {
                parser_state: ParserState::NeedsParser,
                auxiliary_messages: final(window).config.auxiliary_messages,
                parser_index: 0,
                did_switch: true,
                ..old(window).config
            }),
            final(window).input_type == old(window).input_type,
            final(window).actions@ == old(window).actions@,
            final(window).length_finder == old(window).length_finder,
    {
        window.config.parser_state = ParserState::NeedsParser;
        window.config.auxiliary_messages.clear();
        self.parser = None;
        window.config.parser_index = 0;
        window.config.did_switch = true;
    }

    /// Forget the parser and what it parsed.
    pub fn clear_matches(&mut self, window: &mut MainWindow)
        requires
            old(window).sized(),
        ensures
            final(self).current() is None,
            final(self).status().len() == 0,
            final(self).chooser() == old(self).chooser(),
            final(self).will_redraw() == old(self).will_redraw(),
            final(window).config.auxiliary_messages@.len() == 0,
            final(window).config == (LogriaConfig {
                auxiliary_messages: final(window).config.auxiliary_messages,
                last_index_processed: 0,
                aggregation_enabled: false,
                ..old(window).config
            }),
            final(window).input_type == old(window).input_type,
            final(window).length_finder == old(window).length_finder,
    {
        self.parser = None;
        window.config.auxiliary_messages.clear();
        window.config.last_index_processed = 0;
        window.config.aggregation_enabled = false;
        self.status = String::new();
        window.reset_command_line();
    }

    /// Leave parser mode for normal mode over the buffer shown before.
    pub fn return_to_normal(&mut self, window: &mut MainWindow)
        requires
            old(window).sized(),
            old(window).config.matched_rows@.len() == 0,
        ensures
            final(self).current() is None,
            final(self).will_redraw(),
            final(self).chooser() == old(self).chooser(),
            final(window).config.auxiliary_messages@.len() == 0,
            eq_but_render(final(window).config, LogriaConfig {
                auxiliary_messages: final(window).config.auxiliary_messages,
                last_index_processed: 0,
                aggregation_enabled: false,
                stream_type: old(window).config.previous_stream_type,
                parser_state: ParserState::Disabled,
                current_status: None,
                ..old(window).config
            }),
            final(window).input_type == InputType::Normal,
    {
        self.clear_matches(window);
        self.redraw = true;
        window.update_input_type(InputType::Normal);
        window.set_cli_cursor(None);
        window.config.stream_type = window.config.previous_stream_type;
        window.config.parser_state = ParserState::Disabled;
        window.config.current_status = None;
        proof {
            lemma_ready(window);
        }
        let ghost before = *window;
        window.redraw();
        proof {
            lemma_redraw_keeps(&before, window);
        }
    }

    /// Offer the saved parsers to choose from.
    pub fn select_parser(&mut self, window: &mut MainWindow, parsers: &Vec<String>)
        requires
            old(window).config.generate_auxiliary_messages is Some,
        ensures
            final(self).chooser().choices() == parsers@.map_values(|s: String| s@),
            final(self).chooser().picked() == old(self).chooser().picked(),
            final(self).chooser().input() == old(self).chooser().input(),
            final(self).current() == old(self).current(),
            final(self).will_redraw() == old(self).will_redraw(),
            final(self).status() == old(self).status(),
            final(window).ui() == old(window).ui().push(ActionView::RefreshAuxiliary),
            same_state(final(window), old(window)),
    {
        self.mc_handler.set_choices(parsers);
        window.render_auxiliary_text();
    }

    /// Offer the fields of the parser's example to choose from, and show
    /// them.
    pub fn select_index(&mut self, window: &mut MainWindow)
        requires
            old(window).sized(),
            old(window).config.matched_rows@.len() == 0,
            old(window).input_type == InputType::Parser ==> old(window).config.parser_state == ParserState::Full
                || old(window).config.stream_type == StreamType::Auxiliary,
            old(self).current() matches Some(p) ==> example_readable(p.pattern_type, p.pattern@, p.example@),
        ensures
            final(self).current() == old(self).current(),
            final(self).status() == old(self).status(),
            final(self).will_redraw() == old(self).will_redraw(),
            final(self).chooser().picked() == old(self).chooser().picked(),
            final(self).chooser().input() == old(self).chooser().input(),
            ({
                let choices = match old(self).current() {
                    Some(p) => match example_result(p.pattern_type, p.pattern@, p.example@, p.aggregation_methods@.len()) {
                        Ok(parts) => parts,
                        Err(_) => old(self).chooser().choices(),
                    },
                    None => old(self).chooser().choices(),
                };
                &&& final(self).chooser().choices() == choices
                &&& final(window).config.auxiliary_messages@.map_values(|s: String| s@)
                    == Seq::new(choices.len(), |i: int| choice_line(i as nat, choices[i]))
            }),
            eq_but_render(final(window).config, LogriaConfig {
                auxiliary_messages: final(window).config.auxiliary_messages,
                ..old(window).config
            }),
            final(window).input_type == old(window).input_type,
    {
        self.load_examples(window);
        let body = self.mc_handler.get_body_text(None);
        window.config.auxiliary_messages = body;
        proof {
            assert(Seq::<Seq<char>>::empty() + Seq::new(self.chooser().choices().len(), |i: int| choice_line(i as nat, self.chooser().choices()[i]))
                =~= Seq::new(self.chooser().choices().len(), |i: int| choice_line(i as nat, self.chooser().choices()[i])));
            lemma_ready(window);
        }
        let ghost before = *window;
        window.redraw();
        proof {
            lemma_redraw_keeps(&before, window);
        }
    }

    /// Offer the fields of the parser's example, or say why there are none.
    fn load_examples(&mut self, window: &mut MainWindow)
        requires
            old(window).sized(),
            old(self).current() matches Some(p) ==> example_readable(p.pattern_type, p.pattern@, p.example@),
        ensures
            final(self).current() == old(self).current(),
            final(self).status() == old(self).status(),
            final(self).will_redraw() == old(self).will_redraw(),
            final(self).chooser().picked() == old(self).chooser().picked(),
            final(self).chooser().input() == old(self).chooser().input(),
            final(self).chooser().choices() == match old(self).current() {
                Some(p) => match example_result(p.pattern_type, p.pattern@, p.example@, p.aggregation_methods@.len()) {
                    Ok(parts) => parts,
                    Err(_) => old(self).chooser().choices(),
                },
                None => old(self).chooser().choices(),
            },
            same_state(final(window), old(window)),
    {
        match &self.parser {
            Some(parser) => {
                match parser.get_example() {
                    Ok(examples) => {
                        self.mc_handler.set_choices(&examples);
                    },
                    Err(why) => {
                        window.write_to_command_line(why.describe().as_str());
                    },
                }
            },
            None => {},
        }
    }

    /// Take a loaded parser, named `name`, and go on to choosing its field.
    pub fn parser_loaded(&mut self, window: &mut MainWindow, parser: Parser, name: &str)
        requires
            old(window).sized(),
            old(window).config.matched_rows@.len() == 0,
            old(window).input_type == InputType::Parser ==> old(window).config.stream_type == StreamType::Auxiliary,
            example_readable(parser.pattern_type, parser.pattern@, parser.example@),
        ensures
            final(self).current() == Some(&parser),
            final(self).will_redraw(),
            final(self).status() == old(self).status() + "Parsing with "@ + name@,
            final(window).config.parser_state == ParserState::NeedsIndex,
            final(window).config.generate_auxiliary_messages is None,
            final(window).input_type == old(window).input_type,
    {
        self.redraw = true;
        push_str(&mut self.status, "Parsing with ");
        push_str(&mut self.status, name);
        self.parser = Some(parser);
        window.config.parser_state = ParserState::NeedsIndex;
        window.config.generate_auxiliary_messages = None;
        window.go_to_cli();
        self.select_index(window);
    }

    /// Say why a parser could not be loaded.
    pub fn parser_load_failed(&mut self, window: &mut MainWindow, why: &LogriaError)
        requires
            old(window).sized(),
        ensures
            final(window).ui() == old(window).ui() + crate::window::write_to_command_line_ui(old(window), error_message(why@)),
            same_state(final(window), old(window)),
    {
        window.write_to_command_line(why.describe().as_str());
    }
}

/// Whether the chooser holds the number of one of its choices.
pub open spec fn has_valid_pick(h: &ParserHandler) -> bool {
    match h.chooser().picked() {
        Some(i) => i < h.chooser().choices().len(),
        None => false,
    }
}

/// Whether parser mode can take a key without failing.
pub open spec fn parser_key_safe(h: &ParserHandler, w: &MainWindow, key: KeyCode) -> bool {
    match w.config.parser_state {
        ParserState::Disabled | ParserState::NeedsParser => {
            &&& !has_valid_pick(h) && !h.will_redraw() ==> w.config.generate_auxiliary_messages is Some
            &&& !has_valid_pick(h) ==> {
                &&& key == KeyCode::Down || pages_down(key, true) ==> w.config.current_end < usize::MAX
                    && w.num_messages() < usize::MAX
                &&& !is_scroll_key(key) && key != KeyCode::Enter ==> key_safe(h.chooser().input(), key, w.config.width)
            }
        },
        ParserState::NeedsIndex => h.chooser().picked() is None ==> {
            &&& scroll_safe(w, key, true)
            &&& !is_scroll_key(key) && key != KeyCode::Enter ==> key_safe(h.chooser().input(), key, w.config.width)
        },
        ParserState::Full => scroll_safe(w, key, false),
    }
}

impl ParserHandler {
    /// React to a key in parser mode: enter command mode to remove parsers;
    /// while setting up, choose a parser (which the caller then loads) and
    /// then the field to show; once set up, scroll, start over, toggle
    /// aggregation, or leave. A render follows, except on entering command
    /// mode.
    pub fn receive_input(&mut self, window: &mut MainWindow, key: KeyCode, parsers: &Vec<String>) -> (r: ParserRequest)
        requires
            old(self).wf(),
            parser_ready(old(window)),
            key != KeyCode::Char(':') ==> parser_key_safe(old(self), old(window), key),
        ensures
            final(self).wf(),
            key == KeyCode::Char(':') ==> {
                &&& final(window).config == (LogriaConfig { delete_func: Some(DeleteTarget::Parsers), ..old(window).config })
                &&& final(window).input_type == InputType::Command
                &&& r is Nothing
            },
            key != KeyCode::Char(':') ==> parser_outcome(old(self), final(self), old(window), final(window), key, parsers@.map_values(|s: String| s@), &r),
    {
        if key == KeyCode::Char(':') {
            window.set_command_mode(Some(DeleteTarget::Parsers));
            return ParserRequest::Nothing;
        }
        let r = match window.config.parser_state {
            ParserState::Disabled | ParserState::NeedsParser => {
                match self.choose_parser_key(window, key, parsers) {
                    Some(path) => ParserRequest::LoadParser(path),
                    None => ParserRequest::Nothing,
                }
            },
            ParserState::NeedsIndex => {
                let steps = self.choose_index_key(window, key);
                if steps.len() > 0 {
                    ParserRequest::Aggregate(steps)
                } else {
                    ParserRequest::Nothing
                }
            },
            ParserState::Full => {
                self.full_key(window, key);
                ParserRequest::Nothing
            },
        };
        proof {
            lemma_ready(window);
        }
        let ghost before = *window;
        assert(parser_step(old(self), self, old(window), &before, key, parsers@.map_values(|s: String| s@), &r));
        window.redraw();
        proof {
            lemma_redraw_keeps(&before, window);
            assert(redrawn(&before, window));
        }
        r
    }

    /// Whether `receive_input` can take `key` (see `parser_key_safe`).
    pub fn can_take(&self, window: &MainWindow, key: KeyCode) -> (r: bool)
        requires
            self.wf(),
        ensures
            r == parser_key_safe(self, window, key),
    {
        let valid_pick = match self.mc_handler.picked_choice() {
            Some(i) => i < self.mc_handler.choice_list().len(),
            None => false,
        };
        let edit_ok = scrolls(key) || key == KeyCode::Enter || self.mc_handler.can_edit(key, window.config.width);
        match window.config.parser_state {
            ParserState::Disabled | ParserState::NeedsParser => {
                let pages = key == KeyCode::Down || key == KeyCode::PageUp;
                (valid_pick || self.redraw || window.config.generate_auxiliary_messages.is_some())
                    && (valid_pick || ((!pages || (window.config.current_end < usize::MAX
                    && window.number_of_messages() < usize::MAX)) && edit_ok))
            },
            ParserState::NeedsIndex => self.mc_handler.picked_choice().is_some() || (scroll_is_safe(window, key, true)
                && edit_ok),
            ParserState::Full => scroll_is_safe(window, key, false),
        }
    }

    /// A key while the parser is chosen.
    #[verifier::rlimit(50)]
    fn choose_parser_key(&mut self, window: &mut MainWindow, key: KeyCode, parsers: &Vec<String>) -> (r: Option<String>)
        requires
            old(self).wf(),
            parser_ready(old(window)),
            old(window).config.parser_state == ParserState::Disabled || old(window).config.parser_state == ParserState::NeedsParser,
            parser_key_safe(old(self), old(window), key),
        ensures
            final(self).wf(),
            final(window).sized(),
            final(window).config.matched_rows@.len() == 0,
            final(window).input_type == InputType::Parser,
            final(window).config.stream_type == StreamType::Auxiliary,
            final(self).current() == old(self).current(),
            if has_valid_pick(old(self)) {
                &&& r matches Some(path) && path@ == old(self).chooser().choices()[old(self).chooser().picked()->Some_0 as int]
                &&& final(self).chooser().picked() is None
                &&& final(window).config == old(window).config
            } else {
                &&& r is None
                &&& final(window).config.parser_state == ParserState::NeedsParser
                &&& old(self).will_redraw() ==> final(window).config.generate_auxiliary_messages == Some(AuxSource::ParserList)
                &&& !final(self).will_redraw()
                &&& choice_after_key(parsers@.map_values(|s: String| s@), None, old(self).chooser().input(), final(self).chooser(), key,
                    old(window).config.width, old(window).config.height)
                &&& exists|w1: MainWindow| #[trigger] parser_list_shown(old(self), old(window), &w1) && choice_window_after_key(&w1, final(window), key)
            },
    {
        match self.mc_handler.get_choice() {
            Some(item) => Some(item),
            None => {
                if self.redraw {
                    window.config.stream_type = StreamType::Auxiliary;
                    window.config.parser_state = ParserState::NeedsParser;
                    window.config.generate_auxiliary_messages = Some(AuxSource::ParserList);
                    self.redraw = false;
                    proof {
                        lemma_ready(window);
                    }
                    let ghost before = *window;
                    window.redraw();
                    proof {
                        lemma_redraw_keeps(&before, window);
                    }
                } else {
                    window.config.parser_state = ParserState::NeedsParser;
                }
                window.render_auxiliary_text();
                self.select_parser(window, parsers);
                let ghost w1 = *window;
                assert(parser_list_shown(old(self), old(window), &w1));
                self.mc_handler.receive_input(window, key);
                None
            },
        }
    }

    /// A key while the field to show is chosen.
    fn choose_index_key(&mut self, window: &mut MainWindow, key: KeyCode) -> (r: Vec<AggregationStep>)
        requires
            old(self).wf(),
            parser_ready(old(window)),
            old(window).config.parser_state == ParserState::NeedsIndex,
            parser_key_safe(old(self), old(window), key),
        ensures
            final(self).wf(),
            final(window).sized(),
            final(window).config.matched_rows@.len() == 0,
            final(window).input_type == InputType::Parser,
            final(window).config.stream_type == StreamType::Auxiliary,
            final(self).current() == old(self).current(),
            match old(self).chooser().picked() {
                Some(item) => {
                    &&& final(window).config.parser_state == ParserState::Full
                    &&& final(window).config.parser_index == item
                    &&& final(self).status() == old(self).status() + ", field "@ + decimal(item as nat)
                    &&& final(window).config.current_status matches Some(s) && s@ == final(self).status()
                    &&& final(self).will_redraw()
                    &&& final(self).chooser().picked() is None
                    &&& field_picked(old(self), old(window), final(window), item)
                    &&& replay_steps_match(old(self), old(window), r@)
                },
                None => {
                    &&& r@.len() == 0
                    &&& final(window).config.parser_state == ParserState::NeedsIndex
                    &&& final(self).status() == old(self).status()
                    &&& choice_after_key(old(self).chooser().choices(), None, old(self).chooser().input(), final(self).chooser(), key,
                        old(window).config.width, old(window).config.height)
                    &&& choice_window_after_key(old(window), final(window), key)
                },
            },
    {
        match self.mc_handler.picked_choice() {
            Some(item) => {
                self.redraw = true;
                let _ = self.mc_handler.get_choice();
                window.config.parser_index = item;
                window.config.parser_state = ParserState::Full;
                window.config.auxiliary_messages.clear();
                let steps = self.process_matches(window);
                push_str(&mut self.status, ", field ");
                push_str(&mut self.status, usize_to_string(item).as_str());
                window.reset_output();
                window.config.current_status = Some(self.status.clone());
                window.write_status();
                steps
            },
            None => {
                self.mc_handler.receive_input(window, key);
                Vec::new()
            },
        }
    }

    /// A key once the parser is set up.
    fn full_key(&mut self, window: &mut MainWindow, key: KeyCode)
        requires
            old(self).wf(),
            parser_ready(old(window)),
            old(window).config.parser_state == ParserState::Full,
            scroll_safe(old(window), key, false),
        ensures
            final(self).wf(),
            final(window).sized(),
            final(window).config.matched_rows@.len() == 0,
            final(window).input_type == InputType::Parser || final(window).input_type == InputType::Normal,
            final(window).input_type == InputType::Parser ==> final(window).config.parser_state == ParserState::Full
                || final(window).config.stream_type == StreamType::Auxiliary,
            full_outcome(old(self), final(self), old(window), final(window), key),
    {
        if scroll_by_key(window, key, false) {
        } else if key == KeyCode::Char('p') {
            self.reset(window);
        } else if key == KeyCode::Char('a') {
            if !window.config.aggregation_enabled {
                let field = {
                    let mut f = "field ".to_owned();
                    push_str(&mut f, usize_to_string(window.config.parser_index).as_str());
                    f
                };
                let new_status = replace_text(self.status.as_str(), field.as_str(), "aggregation mode");
                window.config.current_status = Some(new_status);
                window.write_status();
                window.config.aggregation_enabled = true;
            } else {
                window.config.current_status = Some(self.status.clone());
                window.config.aggregation_enabled = false;
            }
            window.config.last_index_processed = 0;
            window.write_status();
            window.config.auxiliary_messages.clear();
        } else if key == KeyCode::Char('z') || key == KeyCode::Esc {
            self.return_to_normal(window);
        }
    }
}

/// What a key does once the parser is set up.
pub open spec fn full_outcome(old_h: &ParserHandler, new_h: &ParserHandler, old_w: &MainWindow, new_w: &MainWindow, key: KeyCode) -> bool {
    let c = old_w.config;
    if is_scroll_key(key) {
        new_w.config == scrolled(c, key, old_w.num_messages(), false) && new_w.input_type == old_w.input_type
    } else if key == KeyCode::Char('p') {
        &&& new_h.current() is None
        &&& new_w.config.parser_state == ParserState::NeedsParser
        &&& new_w.config.parser_index == 0
        &&& new_w.config.auxiliary_messages@.len() == 0
        &&& new_w.input_type == old_w.input_type
    } else if key == KeyCode::Char('a') {
        &&& new_w.config.aggregation_enabled == !c.aggregation_enabled
        &&& new_w.config.last_index_processed == 0
        &&& new_w.config.auxiliary_messages@.len() == 0
        &&& new_w.config.current_status matches Some(s) && s@ == (if c.aggregation_enabled {
            old_h.status()
        } else {
            replace_spec(old_h.status(), "field "@ + decimal(c.parser_index as nat), "aggregation mode"@)
        })
        &&& new_w.input_type == old_w.input_type
    } else if key == KeyCode::Char('z') || key == KeyCode::Esc {
        &&& new_h.current() is None
        &&& new_w.config.parser_state == ParserState::Disabled
        &&& new_w.config.stream_type == c.previous_stream_type
        &&& new_w.config.aggregation_enabled == false
        &&& new_w.input_type == InputType::Normal
    } else {
        new_w.config == c && new_w.input_type == old_w.input_type
    }
}

/// The parser list is offered: the window `w1` after it, seen from `old_w`.
pub open spec fn parser_list_shown(h: &ParserHandler, old_w: &MainWindow, w1: &MainWindow) -> bool {
    &&& w1.input_type == old_w.input_type
    &&& w1.length_finder == old_w.length_finder
    &&& if h.will_redraw() {
        eq_but_render(w1.config, LogriaConfig {
            parser_state: ParserState::NeedsParser,
            generate_auxiliary_messages: Some(AuxSource::ParserList),
            ..old_w.config
        })
    } else {
        w1.config == LogriaConfig { parser_state: ParserState::NeedsParser, ..old_w.config }
    }
}

/// The window once field `item` is picked: the parser shows that field, and
/// the messages not yet parsed are parsed, their fields shown unless
/// aggregating.
pub open spec fn field_picked(h: &ParserHandler, old_w: &MainWindow, new_w: &MainWindow, item: usize) -> bool {
    let c = old_w.config;
    let start = c.last_index_processed as int;
    let end = old_w.prev_msgs().len() as int;
    &&& new_w.config == (LogriaConfig {
        parser_index: item,
        parser_state: ParserState::Full,
        auxiliary_messages: new_w.config.auxiliary_messages,
        last_index_processed: if h.current() is Some { end as usize } else { c.last_index_processed },
        current_status: new_w.config.current_status,
        ..c
    })
    &&& match h.current() {
        Some(p) => if c.aggregation_enabled {
            new_w.config.auxiliary_messages@.len() == 0
        } else {
            new_w.config.auxiliary_messages@.map_values(|s: String| s@) == parsed_fields(p, item, old_w.prev_msgs(), start, end)
        },
        None => new_w.config.auxiliary_messages@.len() == 0,
    }
    &&& new_w.input_type == old_w.input_type
}

/// The steps for the aggregators once a field is picked: when aggregating
/// with a parser, one per message not yet parsed, the last one asking for
/// the messages; else none.
pub open spec fn replay_steps_match(h: &ParserHandler, w: &MainWindow, steps: Seq<AggregationStep>) -> bool {
    let c = w.config;
    let start = c.last_index_processed as int;
    let end = w.prev_msgs().len() as int;
    let last = if end >= 1 { end - 1 } else { start };
    if c.aggregation_enabled && h.current() is Some {
        &&& steps.len() == end - start
        &&& forall|i: int| 0 <= i < steps.len() ==> #[trigger] step_view(&steps[i]) == (
            aggregation_of(h.current(), w.prev_msgs()[start + i]@).0,
            aggregation_of(h.current(), w.prev_msgs()[start + i]@).1,
            start + i == last,
        )
    } else {
        steps.len() == 0
    }
}

/// What a key does in parser mode other than entering command mode, up to
/// the render that follows: `mid_w` is the window before that render.
pub open spec fn parser_step(
    old_h: &ParserHandler,
    new_h: &ParserHandler,
    old_w: &MainWindow,
    mid_w: &MainWindow,
    key: KeyCode,
    parsers: Seq<Seq<char>>,
    r: &ParserRequest,
) -> bool {
    let c = old_w.config;
    match c.parser_state {
        ParserState::Disabled | ParserState::NeedsParser => if has_valid_pick(old_h) {
            &&& r matches ParserRequest::LoadParser(path) && path@ == old_h.chooser().choices()[old_h.chooser().picked()->Some_0 as int]
            &&& new_h.chooser().picked() is None
            &&& mid_w.config == c
            &&& mid_w.input_type == old_w.input_type
        } else {
            &&& r is Nothing
            &&& choice_after_key(parsers, None, old_h.chooser().input(), new_h.chooser(), key, c.width, c.height)
            &&& exists|w1: MainWindow| #[trigger] parser_list_shown(old_h, old_w, &w1) && choice_window_after_key(&w1, mid_w, key)
        },
        ParserState::NeedsIndex => match old_h.chooser().picked() {
            Some(item) => {
                &&& field_picked(old_h, old_w, mid_w, item)
                &&& new_h.status() == old_h.status() + ", field "@ + decimal(item as nat)
                &&& mid_w.config.current_status matches Some(s) && s@ == new_h.status()
                &&& match *r {
                    ParserRequest::Aggregate(steps) => steps@.len() > 0 && replay_steps_match(old_h, old_w, steps@),
                    ParserRequest::Nothing => replay_steps_match(old_h, old_w, Seq::empty()),
                    ParserRequest::LoadParser(_) => false,
                }
            },
            None => {
                &&& r is Nothing
                &&& choice_after_key(old_h.chooser().choices(), None, old_h.chooser().input(), new_h.chooser(), key, c.width, c.height)
                &&& choice_window_after_key(old_w, mid_w, key)
            },
        },
        ParserState::Full => r is Nothing && full_outcome(old_h, new_h, old_w, mid_w, key),
    }
}

/// What a key does in parser mode other than entering command mode: its
/// step, then a render of the window it left.
pub open spec fn parser_outcome(
    old_h: &ParserHandler,
    new_h: &ParserHandler,
    old_w: &MainWindow,
    new_w: &MainWindow,
    key: KeyCode,
    parsers: Seq<Seq<char>>,
    r: &ParserRequest,
) -> bool {
    exists|mid_w: MainWindow| #[trigger] redrawn(&mid_w, new_w) && parser_step(old_h, new_h, old_w, &mid_w, key, parsers, r)
}

proof fn lemma_present_push(g: Seq<Option<Seq<char>>>, x: Option<Seq<char>>)
    ensures
        present_groups(g.push(x)) == present_groups(g) + match x {
            Some(t) => seq![t],
            None => Seq::<Seq<char>>::empty(),
        },
    decreases g.len(),
{
    if g.len() == 0 {
        assert(g.push(x).drop_first() =~= Seq::<Option<Seq<char>>>::empty());
        assert(present_groups(Seq::<Option<Seq<char>>>::empty()) == Seq::<Seq<char>>::empty());
        assert(g.push(x)[0] == x);
        assert(present_groups(g.push(x)) =~= present_groups(g) + match x {
            Some(t) => seq![t],
            None => Seq::<Seq<char>>::empty(),
        });
    } else {
        assert(g.push(x).drop_first() =~= g.drop_first().push(x));
        lemma_present_push(g.drop_first(), x);
        assert(present_groups(g.push(x)) =~= present_groups(g) + match x {
            Some(t) => seq![t],
            None => Seq::<Seq<char>>::empty(),
        });
    }
}

/// The texts of the groups after the whole match that took part.
fn present_texts(groups: &Vec<Option<String>>) -> (r: Vec<String>)
    requires
        groups@.len() >= 1,
    ensures
        r@.map_values(|s: String| s@) == present_groups(groups@.map_values(|o: Option<String>| match o {
            Some(s) => Some(s@),
            None => None,
        }).drop_first()),
{
    let ghost g = groups@.map_values(|o: Option<String>| match o {
        Some(s) => Some(s@),
        None => None,
    });
    let mut out: Vec<String> = Vec::new();
    let mut i: usize = 1;
    assert(g.subrange(1, 1) =~= Seq::<Option<Seq<char>>>::empty());
    while i < groups.len()
        invariant
            1 <= i <= groups@.len(),
            g == groups@.map_values(|o: Option<String>| match o {
                Some(s) => Some(s@),
                None => None,
            }),
            out@.map_values(|s: String| s@) == present_groups(g.subrange(1, i as int)),
        decreases groups@.len() - i,
    {
        let ghost before = out@.map_values(|s: String| s@);
        proof {
            assert(g.subrange(1, i + 1) =~= g.subrange(1, i as int).push(g[i as int]));
            lemma_present_push(g.subrange(1, i as int), g[i as int]);
        }
        match &groups[i] {
            Some(t) => {
                out.push(t.clone());
                assert(out@.map_values(|s: String| s@) =~= before + seq![t@]);
            },
            None => {
                assert(before + Seq::<Seq<char>>::empty() =~= before);
            },
        }
        i = i + 1;
    }
    assert(g.subrange(1, g.len() as int) =~= g.drop_first());
    out
}

/// Whether a method list names `name`.
fn has_method(methods: &Vec<(String, crate::aggregators::AggregationMethod)>, name: &str) -> (r: bool)
    ensures
        r == method_names(methods@).contains(name@),
{
    let mut i: usize = 0;
    while i < methods.len()
        invariant
            i <= methods@.len(),
            forall|k: int| 0 <= k < i ==> method_names(methods@)[k] != name@,
        decreases methods@.len() - i,
    {
        if str_equal(methods[i].0.as_str(), name) {
            assert(method_names(methods@)[i as int] == name@);
            return true;
        }
        i = i + 1;
    }
    false
}

} // verus!
