use logria::tally::Tally;
use logria::aggregators::{count_line, AggregationMethod, Counter};
use logria::error::LogriaError;
use logria::history::Tape;
use logria::parser::{Parser, PatternType};
use logria::keys::KeyCode;
use logria::parser_handler::{ParserHandler, ParserRequest};
use logria::window::{InputType, MainWindow, ParserState, StreamType};

static A: &str = "a";
static B: &str = "b";
static C: &str = "c";
static D: &str = "d";

fn handler() -> ParserHandler {
    ParserHandler::new(Tape::new(vec![String::new()]))
}

fn count_methods(names: &[&str]) -> Vec<(String, AggregationMethod)> {
    names.iter().map(|n| (n.to_string(), AggregationMethod::Count)).collect()
}

fn full_window(mut logria: MainWindow, index: usize) -> MainWindow {
    logria.config.parser_state = ParserState::Full;
    logria.input_type = InputType::Parser;
    logria.config.parser_index = index;
    logria.config.previous_stream_type = StreamType::StdErr;
    logria
}

/// The lines the counter shows for its top `n` entries, with the share of
/// each in whole percent.
fn top_lines(c: &Counter, n: usize) -> Vec<String> {
    let total = c.total_count() as f64;
    c.top_counts(n)
        .into_iter()
        .map(|(item, count)| format!("{}{:.0}%)", count_line(&item, count), (count as f64 / total) * 100.0))
        .collect()
}

fn counted(items: &[&str]) -> Counter {
    let mut c = Counter::new();
    for item in items {
        c.increment(item);
    }
    c
}

#[test]
fn test_does_split() {
    let mut handler = handler();
    let parser = Parser::new(
        String::from(" - "),
        PatternType::Split,
        String::from("1"),
        vec![String::from("1")],
        count_methods(&["1"]),
    );
    handler.parser = Some(parser);
    let parsed_message = handler.parse(0, "I - Am - A - Test").unwrap().unwrap();
    assert_eq!(parsed_message, String::from("I"))
}

#[test]
fn test_does_regex() {
    let mut handler = handler();
    let parser = Parser::new(
        String::from("(\\d+)"),
        PatternType::Regex,
        String::from("1"),
        vec![String::from("1")],
        count_methods(&["1"]),
    );
    handler.parser = Some(parser);
    let parsed_message = handler.parse(0, "Log message part 65 test").unwrap().unwrap();
    assert_eq!(parsed_message, String::from("65"))
}

#[test]
fn parse_missing_field_is_none() {
    let mut handler = handler();
    handler.parser = Some(Parser::new(
        String::from(" - "),
        PatternType::Split,
        String::from("1"),
        vec![String::from("1")],
        count_methods(&["1"]),
    ));
    assert_eq!(handler.parse(4, "I - Am").unwrap(), None);
}

#[test]
fn parse_with_bad_regex_is_an_error() {
    let mut handler = handler();
    handler.parser = Some(Parser::new(
        String::from("(unclosed"),
        PatternType::Regex,
        String::from("1"),
        vec![String::from("1")],
        count_methods(&["1"]),
    ));
    assert!(handler.parse(0, "anything").is_err());
}

#[test]
fn parser_test_can_setup_with_session_first_index() {
    let mut logria = full_window(MainWindow::_new_dummy(), 0);
    let mut handler = handler();
    handler.parser = Some(Parser::new(
        String::from("([1-9])"),
        PatternType::Regex,
        String::from("1"),
        vec![String::from("1")],
        count_methods(&["1"]),
    ));
    handler.process_matches(&mut logria);
    assert_eq!(logria.config.auxiliary_messages[0..10], vec!["1", "2", "3", "4", "5", "6", "7", "8", "9", "1"]);
}

#[test]
fn test_cannot_setup_with_session_invalid_index() {
    let mut logria = full_window(MainWindow::_new_dummy(), 1);
    let mut handler = handler();
    handler.parser = Some(Parser::new(
        String::from("([1-9])"),
        PatternType::Regex,
        String::from("1"),
        vec![String::from("1")],
        count_methods(&["1"]),
    ));
    handler.process_matches(&mut logria);
    assert_eq!(logria.config.auxiliary_messages, Vec::<String>::new());
}

#[test]
fn parser_test_can_setup_with_session_second_index() {
    let mut logria = full_window(MainWindow::_new_dummy_parse(), 1);
    let mut handler = handler();
    handler.parser = Some(Parser::new(
        String::from("([1-9]{0,2}) - ([1-9]{0,2}) - ([1-9]{0,2}) - ([1-9]{0,2})"),
        PatternType::Regex,
        String::from("1 - 2 - 3 - 4"),
        vec![String::from("1")],
        count_methods(&["1", "2", "3", "4"]),
    ));
    handler.process_matches(&mut logria);
    assert_eq!(logria.config.auxiliary_messages[0..10], vec!["9", "12", "13", "14", "15", "16", "17", "18", "19", "22"]);
}

#[test]
fn split_setup_with_session_first_index() {
    let mut logria = full_window(MainWindow::_new_dummy(), 0);
    let mut handler = handler();
    handler.parser = Some(Parser::new(
        String::from("1"),
        PatternType::Split,
        String::from("1"),
        vec![String::from("1")],
        count_methods(&["1"]),
    ));
    handler.process_matches(&mut logria);
    assert_eq!(logria.config.auxiliary_messages[0..10], vec!["0", "", "2", "3", "4", "5", "6", "7", "8", "9"]);
    assert_eq!(logria.config.auxiliary_messages[15..25], vec!["", "", "", "", "", "20", "2", "22", "23", "24"]);
}

#[test]
fn split_setup_with_session_second_index() {
    let mut logria = full_window(MainWindow::_new_dummy(), 1);
    let mut handler = handler();
    handler.parser = Some(Parser::new(
        String::from("1"),
        PatternType::Split,
        String::from("1"),
        vec![String::from("1")],
        count_methods(&["1"]),
    ));
    handler.process_matches(&mut logria);
    assert_eq!(logria.config.auxiliary_messages[0..10], vec!["0", "", "2", "3", "4", "5", "6", "7", "8", "9"]);
    assert_eq!(logria.config.auxiliary_messages.len(), 10)
}

#[test]
fn process_matches_records_progress() {
    let mut logria = full_window(MainWindow::_new_dummy(), 0);
    let mut handler = handler();
    handler.parser = Some(Parser::new(
        String::from("([1-9])"),
        PatternType::Regex,
        String::from("1"),
        vec![String::from("1")],
        count_methods(&["1"]),
    ));
    handler.process_matches(&mut logria);
    assert_eq!(logria.config.last_index_processed, 100);
    handler.process_matches(&mut logria);
    assert_eq!(logria.config.auxiliary_messages.len(), 99);
}

#[test]
fn parser_messages_are_numbered() {
    let lines = ParserHandler::parser_messages_handle(&vec!["/p/a".to_string(), "/p/b".to_string()]);
    assert_eq!(lines[lines.len() - 2..], vec!["0: /p/a", "1: /p/b"]);
}

#[test]
fn counter_can_construct_counter() {
    let c = Counter::new();
    assert_eq!(c.total_count(), 0);
    assert_eq!(c.count_of(A), None);
}

#[test]
fn can_count_int() {
    let c = counted(&["1", "1", "1", "2", "2"]);
    assert_eq!(c.count_of("1"), Some(3));
    assert_eq!(c.count_of("2"), Some(2));
    assert_eq!(c.total_count(), 5);
}

#[test]
fn can_count() {
    let c = counted(&[A, A, A, B, B]);
    assert_eq!(c.count_of(A), Some(3));
    assert_eq!(c.count_of(B), Some(2));
    assert_eq!(c.total_count(), 5);
}

#[test]
fn can_sum() {
    let mut c = Counter::new();
    c.update(A).unwrap();
    c.update(A).unwrap();
    c.update(A).unwrap();
    c.update(B).unwrap();
    c.update(B).unwrap();
    assert_eq!(c.count_of(A), Some(3));
    assert_eq!(c.count_of(B), Some(2));
    assert_eq!(c.total_count(), 5);
}

#[test]
fn can_decrement() {
    let mut c = counted(&[A, A, A, B, B]);
    c.decrement(A);
    assert_eq!(c.count_of(A), Some(2));
    assert_eq!(c.count_of(B), Some(2));
    assert_eq!(c.total_count(), 4);
}

#[test]
fn can_decrement_auto_remove() {
    let mut c = counted(&[A, B, B]);
    c.decrement(A);
    assert_eq!(c.count_of(B), Some(2));
    assert_eq!(c.count_of(A), None);
    assert_eq!(c.total_count(), 2);
}

#[test]
fn can_delete() {
    let mut c = counted(&[A, A, A, B, B]);
    c.delete(A);
    assert_eq!(c.count_of(B), Some(2));
    assert_eq!(c.count_of(A), None);
    assert_eq!(c.total_count(), 2);
}

#[test]
fn increment_then_decrement_restores() {
    let mut c = counted(&[A, B]);
    c.increment(C);
    c.decrement(C);
    assert_eq!(c.count_of(C), None);
    assert_eq!(c.count_of(A), Some(1));
    assert_eq!(c.total_count(), 2);
}

#[test]
fn reset_forgets_counts() {
    let mut c = counted(&[A, B]);
    c.reset();
    assert_eq!(c.total_count(), 0);
    assert!(c.top_counts(3).is_empty());
}

#[test]
fn can_get_top_0() {
    let c = counted(&[A, A, A, B, B, B, C, C, D]);
    let expected: Vec<String> = vec![];
    assert_eq!(top_lines(&c, 0), expected);
}

#[test]
fn can_get_top_1() {
    let c = counted(&[A, A, A, A, B, B, B, C, C, D]);
    let expected = vec![String::from("    a\u{1b}[0m: 4 (40%)")];
    assert_eq!(top_lines(&c, 1), expected);
}

#[test]
fn can_get_top_2() {
    let c = counted(&[A, A, A, B, B, B, C, C, D]);
    let expected = vec![String::from("    a\u{1b}[0m: 3 (33%)"), String::from("    b\u{1b}[0m: 3 (33%)")];
    assert_eq!(top_lines(&c, 2), expected);
}

#[test]
fn can_get_top_3() {
    let c = counted(&[A, A, A, B, B, B, C, C, D]);
    let expected = vec![
        String::from("    a\u{1b}[0m: 3 (33%)"),
        String::from("    b\u{1b}[0m: 3 (33%)"),
        String::from("    c\u{1b}[0m: 2 (22%)"),
    ];
    assert_eq!(top_lines(&c, 3), expected);
}

#[test]
fn can_get_top_4() {
    let c = counted(&[A, A, A, B, B, B, C, C, D]);
    let expected = vec![
        String::from("    a\u{1b}[0m: 3 (33%)"),
        String::from("    b\u{1b}[0m: 3 (33%)"),
        String::from("    c\u{1b}[0m: 2 (22%)"),
        String::from("    d\u{1b}[0m: 1 (11%)"),
    ];
    assert_eq!(top_lines(&c, 4), expected);
}

#[test]
fn most_common_shows_one_entry() {
    let mut c = Counter::mean();
    for item in [B, A, A] {
        c.increment(item);
    }
    assert_eq!(c.top_counts(5), vec![(String::from("a"), 2)]);
}

#[test]
fn count_line_groups_thousands_and_trims() {
    assert_eq!(count_line("  x ", 1234567), "    x\u{1b}[0m: 1,234,567 (");
}

fn mean_methods(names: &[&str]) -> Vec<(String, AggregationMethod)> {
    names.iter().map(|n| (n.to_string(), AggregationMethod::Mean)).collect()
}

fn aggregating_window() -> MainWindow {
    let mut logria = full_window(MainWindow::_new_dummy_parse(), 1);
    logria.config.aggregation_enabled = true;
    logria
}

#[test]
fn test_no_matches_for_order() {
    let mut logria = aggregating_window();
    let mut handler = handler();
    handler.parser = Some(Parser::new(
        String::from(" - "),
        PatternType::Split,
        String::from("1"),
        vec![String::from("full"), String::from("minus_1"), String::from("minus_2")],
        mean_methods(&["full", "minus_1", "minus_2", "minus_3"]),
    ));
    let steps = handler.process_matches(&mut logria);
    assert_eq!(logria.config.auxiliary_messages, Vec::<String>::new());
    assert_eq!(steps.len(), 100);
    assert!(steps.iter().all(|s| matches!(s.error, Some(LogriaError::CannotParseMessage(_))) && s.updates.len() == 3));
}

#[test]
fn test_unbalanced_aggregation_methods() {
    let mut logria = aggregating_window();
    let mut handler = handler();
    handler.parser = Some(Parser::new(
        String::from(" - "),
        PatternType::Split,
        String::from("1"),
        vec![String::from("full"), String::from("minus_1"), String::from("minus_2"), String::from("minus_3")],
        mean_methods(&["full", "minus_1", "minus_2"]),
    ));
    let steps = handler.process_matches(&mut logria);
    assert_eq!(logria.config.auxiliary_messages, Vec::<String>::new());
    assert!(steps.iter().all(|s| matches!(s.error, Some(LogriaError::InvalidParserState(_))) && s.updates.len() == 3));
    assert!(steps[steps.len() - 1].render);
}

#[test]
fn top_entries_are_prefixes_of_longer_tops() {
    let c = counted(&[A, A, A, B, B, B, C, C, D]);
    let top4 = c.top_counts(4);
    for n in 0..4 {
        assert_eq!(c.top_counts(n), top4[..n].to_vec());
    }
}

#[test]
fn settled_step_shows_lines_or_says_why() {
    use_settle();
}

fn use_settle() {
    let mut logria = MainWindow::_new_dummy();
    logria::parser_handler::settle_step(&mut logria, None, None, vec!["Count".to_string(), "    a".to_string()]);
    assert_eq!(logria.config.auxiliary_messages, vec!["Count", "    a"]);
    logria::parser_handler::settle_step(&mut logria, None, None, vec![]);
    assert_eq!(logria.config.auxiliary_messages, vec!["Count", "    a"]);
    let before = logria.actions.len();
    logria::parser_handler::settle_step(
        &mut logria,
        Some(LogriaError::InvalidParserState("x".to_string())),
        Some(LogriaError::CannotParseMessage("bad".to_string())),
        vec!["ignored".to_string()],
    );
    assert_eq!(logria.config.auxiliary_messages, vec!["Count", "    a"]);
    assert!(logria.actions.len() > before);
    let before = logria.actions.len();
    logria::parser_handler::settle_step(&mut logria, Some(LogriaError::InvalidParserState("x".to_string())), None, vec!["y".to_string()]);
    assert_eq!(logria.actions.len(), before);
    assert_eq!(logria.config.auxiliary_messages, vec!["Count", "    a"]);
}

/// Runs aggregation mode over the window with the library's aggregators:
/// each step's parts go to the aggregator of their name, the lines of the
/// last message are rendered, and the step is settled. Parts whose method is
/// a mean or a sum are skipped.
fn aggregate_with_tallies(logria: &mut MainWindow, handler: &mut ParserHandler) {
    let parser = handler.parser.as_ref().unwrap();
    let mut tallies: Vec<(String, Tally)> = parser
        .aggregation_methods
        .iter()
        .filter_map(|(name, m)| Tally::of(m).map(|t| (name.clone(), t)))
        .collect();
    let steps = handler.process_matches(logria);
    for step in steps {
        let mut lines: Vec<String> = vec![];
        let mut update_error = None;
        for (name, part) in &step.updates {
            let Some((_, tally)) = tallies.iter_mut().find(|(n, _)| n == name) else { continue };
            if let Err(why) = tally.update(part) {
                update_error = Some(why);
                break;
            }
            if step.render {
                lines.push(name.clone());
                match tally {
                    Tally::Count(c) => lines.extend(top_lines(c, logria.config.num_to_aggregate)),
                    Tally::Dates(d) => lines.extend(d.messages(logria.config.num_to_aggregate)),
                    Tally::Disabled(a) => lines.extend(a.messages(logria.config.num_to_aggregate)),
                }
            }
        }
        logria::parser_handler::settle_step(logria, step.error, update_error, lines);
    }
}

fn analytics_parser(methods: Vec<(String, AggregationMethod)>) -> Parser {
    Parser::new(
        String::from("([0-9]{0,3}) - ([0-9]{0,3}) - ([0-9]{0,3}) - ([0-9]{0,3})"),
        PatternType::Regex,
        String::from("1 - 2 - 3 - 4"),
        vec![String::from("Mean"), String::from("Sum"), String::from("Count"), String::from("Mode")],
        methods,
    )
}

#[test]
fn test_does_analytics_none() {
    let mut logria = aggregating_window();
    let mut handler = handler();
    handler.parser = Some(analytics_parser(
        ["Mean", "Sum", "Count", "Mode"].iter().map(|n| (n.to_string(), AggregationMethod::Disabled)).collect(),
    ));
    aggregate_with_tallies(&mut logria, &mut handler);
    assert_eq!(
        logria.config.auxiliary_messages,
        vec!["Mean", "    Disabled", "Sum", "    Disabled", "Count", "    Disabled", "Mode", "    Disabled"]
    );
}

#[test]
fn test_does_analytics_numbers() {
    let mut logria = aggregating_window();
    let mut handler = handler();
    handler.parser = Some(analytics_parser(vec![
        (String::from("Mean"), AggregationMethod::Mean),
        (String::from("Sum"), AggregationMethod::Sum),
        (String::from("Count"), AggregationMethod::Count),
        (String::from("Mode"), AggregationMethod::Mode),
    ]));
    aggregate_with_tallies(&mut logria, &mut handler);
    assert_eq!(
        logria.config.auxiliary_messages,
        vec![
            "Count",
            "    10\u{1b}[0m: 1 (1%)",
            "    100\u{1b}[0m: 1 (1%)",
            "    101\u{1b}[0m: 1 (1%)",
            "    102\u{1b}[0m: 1 (1%)",
            "    103\u{1b}[0m: 1 (1%)",
            "Mode",
            "    10\u{1b}[0m: 1 (1%)",
        ]
    );
}

fn parser_mode_window() -> MainWindow {
    let mut logria = MainWindow::_new_dummy();
    logria.input_type = InputType::Parser;
    logria.config.stream_type = StreamType::Auxiliary;
    logria.config.previous_stream_type = StreamType::StdErr;
    logria
}

fn digit_parser() -> Parser {
    Parser::new(
        String::from("([1-9])"),
        PatternType::Regex,
        String::from("1"),
        vec![String::from("1")],
        count_methods(&["1"]),
    )
}

#[test]
fn full_parser_toggles_aggregation() {
    let mut logria = full_window(parser_mode_window(), 0);
    logria.config.stream_type = StreamType::Auxiliary;
    let mut handler = handler();
    handler.parser = Some(digit_parser());
    assert!(handler.can_take(&logria, KeyCode::Char('a')));
    let r = handler.receive_input(&mut logria, KeyCode::Char('a'), &vec![]);
    assert!(matches!(r, ParserRequest::Nothing));
    assert!(logria.config.aggregation_enabled);
    assert_eq!(logria.config.last_index_processed, 0);
    assert!(logria.config.auxiliary_messages.is_empty());
    let r = handler.receive_input(&mut logria, KeyCode::Char('a'), &vec![]);
    assert!(matches!(r, ParserRequest::Nothing));
    assert!(!logria.config.aggregation_enabled);
}

#[test]
fn full_parser_leaves_on_z() {
    let mut logria = full_window(parser_mode_window(), 0);
    logria.config.stream_type = StreamType::Auxiliary;
    let mut handler = handler();
    handler.parser = Some(digit_parser());
    let r = handler.receive_input(&mut logria, KeyCode::Char('z'), &vec![]);
    assert!(matches!(r, ParserRequest::Nothing));
    assert_eq!(logria.input_type, InputType::Normal);
    assert_eq!(logria.config.parser_state, ParserState::Disabled);
    assert_eq!(logria.config.stream_type, StreamType::StdErr);
    assert!(handler.parser.is_none());
}

#[test]
fn full_parser_starts_over_on_p() {
    let mut logria = full_window(parser_mode_window(), 0);
    logria.config.stream_type = StreamType::Auxiliary;
    let mut handler = handler();
    handler.parser = Some(digit_parser());
    let r = handler.receive_input(&mut logria, KeyCode::Char('p'), &vec![]);
    assert!(matches!(r, ParserRequest::Nothing));
    assert_eq!(logria.config.parser_state, ParserState::NeedsParser);
    assert!(handler.parser.is_none());
}

#[test]
fn picking_a_field_while_aggregating_asks_to_aggregate() {
    let mut logria = parser_mode_window();
    logria.config.aggregation_enabled = true;
    let mut handler = handler();
    handler.parser_loaded(&mut logria, digit_parser(), "digits");
    assert_eq!(logria.config.parser_state, ParserState::NeedsIndex);
    let r = handler.receive_input(&mut logria, KeyCode::Char('0'), &vec![]);
    assert!(matches!(r, ParserRequest::Nothing));
    let r = handler.receive_input(&mut logria, KeyCode::Enter, &vec![]);
    assert!(matches!(r, ParserRequest::Nothing));
    assert_eq!(logria.config.parser_state, ParserState::NeedsIndex);
    let r = handler.receive_input(&mut logria, KeyCode::Char('x'), &vec![]);
    assert_eq!(logria.config.parser_state, ParserState::Full);
    assert_eq!(logria.config.parser_index, 0);
    match r {
        ParserRequest::Aggregate(steps) => {
            assert_eq!(steps.len(), 100);
            assert!(steps[99].render);
            assert!(!steps[0].render);
            assert_eq!(steps[1].updates, vec![(String::from("1"), String::from("1"))]);
        }
        _ => panic!("expected steps to aggregate"),
    }
}

#[test]
fn picking_a_field_without_aggregating_shows_the_field() {
    let mut logria = parser_mode_window();
    let mut handler = handler();
    handler.parser_loaded(&mut logria, digit_parser(), "digits");
    handler.receive_input(&mut logria, KeyCode::Char('0'), &vec![]);
    handler.receive_input(&mut logria, KeyCode::Enter, &vec![]);
    let r = handler.receive_input(&mut logria, KeyCode::Char('x'), &vec![]);
    assert!(matches!(r, ParserRequest::Nothing));
    assert_eq!(logria.config.parser_state, ParserState::Full);
    assert_eq!(logria.config.auxiliary_messages[0..3], vec!["1", "2", "3"]);
    assert_eq!(logria.config.last_index_processed, 100);
}

#[test]
fn choosing_a_parser_asks_to_load_it() {
    let mut logria = parser_mode_window();
    logria.config.parser_state = ParserState::NeedsParser;
    logria.config.generate_auxiliary_messages = Some(logria::window::AuxSource::ParserList);
    let mut handler = handler();
    let parsers = vec![String::from("/p/a"), String::from("/p/b")];
    handler.receive_input(&mut logria, KeyCode::Char('1'), &parsers);
    handler.receive_input(&mut logria, KeyCode::Enter, &parsers);
    let r = handler.receive_input(&mut logria, KeyCode::Char('x'), &parsers);
    match r {
        ParserRequest::LoadParser(path) => assert_eq!(path, "/p/b"),
        _ => panic!("expected a parser to load"),
    }
}
