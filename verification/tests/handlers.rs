use logria::highlight::HighlightHandler;
use logria::history::Tape;
use logria::keys::KeyCode;
use logria::multiple_choice::MultipleChoiceHandler;
use logria::pattern::BytesPattern;
use logria::regex_handler::RegexHandler;
use logria::startup::{get_startup_text, StartupHandler, StartupRequest};
use logria::window::{InputType, MainWindow, ScrollState, StreamType};

fn tape() -> Tape {
    Tape::new(vec![String::new()])
}

fn abc() -> Vec<String> {
    vec!["a".to_string(), "b".to_string(), "c".to_string()]
}

#[test]
fn regex_test_can_filter() {
    let mut logria = MainWindow::_new_dummy();
    let mut handler = RegexHandler::new(tape());
    logria.input_type = InputType::Regex;
    handler.search.current_pattern = Some(BytesPattern::new("0").unwrap());
    handler.process_matches(&mut logria);
    assert_eq!(vec![0, 10, 20, 30, 40, 50, 60, 70, 80, 90], logria.config.matched_rows);
}

#[test]
fn regex_test_can_filter_no_matches() {
    let mut logria = MainWindow::_new_dummy();
    let mut handler = RegexHandler::new(tape());
    logria.input_type = InputType::Regex;
    handler.search.current_pattern = Some(BytesPattern::new("a").unwrap());
    logria.config.regex_pattern = Some(BytesPattern::new("a").unwrap());
    handler.process_matches(&mut logria);
    assert_eq!(0, logria.config.matched_rows.len());
}

#[test]
fn regex_test_can_return_normal() {
    let mut logria = MainWindow::_new_dummy();
    let mut handler = RegexHandler::new(tape());
    logria.input_type = InputType::Regex;
    handler.search.current_pattern = Some(BytesPattern::new("0").unwrap());
    handler.process_matches(&mut logria);
    handler.return_to_normal(&mut logria);
    assert!(handler.search.current_pattern.is_none());
    assert!(logria.config.regex_pattern.is_none());
    assert_eq!(logria.config.matched_rows.len(), 0);
    assert_eq!(logria.config.last_index_regexed, 0);
}

#[test]
fn regex_test_can_process() {
    let mut logria = MainWindow::_new_dummy();
    let mut handler = RegexHandler::new(tape());
    logria.input_type = InputType::Regex;
    handler.search.current_pattern = Some(BytesPattern::new("0").unwrap());
    handler.process_matches(&mut logria);
    assert_eq!(100, logria.config.last_index_regexed);
}

#[test]
fn regex_test_can_process_no_pattern() {
    let mut logria = MainWindow::_new_dummy();
    let mut handler = RegexHandler::new(tape());
    logria.input_type = InputType::Regex;
    handler.process_matches(&mut logria);
    assert_eq!(logria.config.matched_rows, Vec::<usize>::new());
}

#[test]
#[should_panic]
fn regex_test_test_no_pattern() {
    let mut logria = MainWindow::_new_dummy();
    let handler = RegexHandler::new(tape());
    logria.input_type = InputType::Regex;
    handler.search.test("test");
}

#[test]
fn regex_test_can_enter_command_mode() {
    let mut logria = MainWindow::_new_dummy();
    let mut handler = RegexHandler::new(tape());
    logria.input_type = InputType::Regex;
    handler.search.current_pattern = Some(BytesPattern::new("0").unwrap());
    logria.config.regex_pattern = Some(BytesPattern::new("0").unwrap());
    handler.process_matches(&mut logria);
    handler.receive_input(&mut logria, KeyCode::Char(':'));
    assert_eq!(logria.config.matched_rows.len(), 10);
    assert_eq!(logria.input_type, InputType::Command);
}

#[test]
fn regex_matches_are_found_only_once() {
    let mut logria = MainWindow::_new_dummy();
    let mut handler = RegexHandler::new(tape());
    logria.input_type = InputType::Regex;
    handler.search.current_pattern = Some(BytesPattern::new("9$").unwrap());
    handler.process_matches(&mut logria);
    handler.process_matches(&mut logria);
    assert_eq!(logria.config.matched_rows, vec![9, 19, 29, 39, 49, 59, 69, 79, 89, 99]);
}

#[test]
fn highlight_test_can_filter() {
    let mut logria = MainWindow::_new_dummy();
    let mut handler = HighlightHandler::new(tape());
    logria.input_type = InputType::Highlight;
    handler.search.current_pattern = Some(BytesPattern::new("0").unwrap());
    handler.process_matches(&mut logria);
    assert_eq!(vec![0, 10, 20, 30, 40, 50, 60, 70, 80, 90], logria.config.matched_rows);
}

#[test]
fn highlight_test_can_filter_no_matches() {
    let mut logria = MainWindow::_new_dummy();
    let mut handler = HighlightHandler::new(tape());
    logria.input_type = InputType::Highlight;
    handler.search.current_pattern = Some(BytesPattern::new("a").unwrap());
    logria.config.regex_pattern = Some(BytesPattern::new("a").unwrap());
    handler.process_matches(&mut logria);
    assert_eq!(0, logria.config.matched_rows.len());
}

#[test]
fn highlight_test_can_return_normal() {
    let mut logria = MainWindow::_new_dummy();
    let mut handler = HighlightHandler::new(tape());
    logria.input_type = InputType::Highlight;
    handler.search.current_pattern = Some(BytesPattern::new("0").unwrap());
    handler.process_matches(&mut logria);
    handler.return_to_normal(&mut logria);
    assert!(handler.search.current_pattern.is_none());
    assert!(logria.config.regex_pattern.is_none());
    assert_eq!(logria.config.matched_rows.len(), 0);
    assert_eq!(logria.config.last_index_regexed, 0);
}

#[test]
fn highlight_test_can_process() {
    let mut logria = MainWindow::_new_dummy();
    let mut handler = HighlightHandler::new(tape());
    logria.input_type = InputType::Highlight;
    handler.search.current_pattern = Some(BytesPattern::new("0").unwrap());
    handler.process_matches(&mut logria);
    assert_eq!(100, logria.config.last_index_regexed);
}

#[test]
fn highlight_test_can_process_no_pattern() {
    let mut logria = MainWindow::_new_dummy();
    let mut handler = HighlightHandler::new(tape());
    logria.input_type = InputType::Highlight;
    handler.process_matches(&mut logria);
    assert_eq!(logria.config.matched_rows, Vec::<usize>::new());
}

#[test]
#[should_panic]
fn highlight_test_test_no_pattern() {
    let mut logria = MainWindow::_new_dummy();
    let handler = HighlightHandler::new(tape());
    logria.input_type = InputType::Highlight;
    handler.test("test");
}

#[test]
fn highlight_test_can_enter_command_mode() {
    let mut logria = MainWindow::_new_dummy();
    let mut handler = HighlightHandler::new(tape());
    logria.input_type = InputType::Highlight;
    handler.search.current_pattern = Some(BytesPattern::new("0").unwrap());
    logria.config.regex_pattern = Some(BytesPattern::new("0").unwrap());
    handler.process_matches(&mut logria);
    handler.receive_input(&mut logria, KeyCode::Char(':'));
    assert_eq!(logria.config.matched_rows.len(), 10);
    assert_eq!(logria.input_type, InputType::Command);
}

#[test]
fn highlight_matches_ignore_colors() {
    let mut handler = HighlightHandler::new(tape());
    handler.search.current_pattern = Some(BytesPattern::new("^ab$").unwrap());
    assert!(handler.test("\x1b[31mab\x1b[0m"));
    assert!(!handler.test("abc"));
}

#[test]
fn multiple_choice_can_create() {
    let mc = MultipleChoiceHandler::new(tape());
    assert!(mc.choice_list().is_empty());
    assert_eq!(mc.picked_choice(), None);
}

#[test]
fn can_set_choices() {
    let mut mc = MultipleChoiceHandler::new(tape());
    mc.set_choices(&abc());
    let expected: Vec<(usize, String)> = vec![(0, String::from("a")), (1, String::from("b")), (2, String::from("c"))];
    let got: Vec<(usize, String)> = mc.choice_list().iter().cloned().enumerate().collect();
    assert_eq!(got, expected);
}

#[test]
fn can_get_body_text_no_desc() {
    let mut mc = MultipleChoiceHandler::new(tape());
    mc.set_choices(&abc());
    let expected = vec!["0: a", "1: b", "2: c"];
    assert_eq!(mc.get_body_text(None), expected);
}

#[test]
fn can_get_body_text_desc() {
    let mut mc = MultipleChoiceHandler::new(tape());
    mc.set_choices(&abc());
    let desc = vec!["x", "y", "z"];
    let expected = vec!["x", "y", "z", "", "0: a", "1: b", "2: c"];
    assert_eq!(mc.get_body_text(Some(desc)), expected);
}

#[test]
fn can_validate_choice() {
    let mut logria = MainWindow::_new_dummy();
    let mut mc = MultipleChoiceHandler::new(tape());
    mc.set_choices(&abc());
    mc.validate_choice(&mut logria, "1");
    assert_eq!(Some(1), mc.result);
}

#[test]
fn can_get_choice() {
    let mut logria = MainWindow::_new_dummy();
    let mut mc = MultipleChoiceHandler::new(tape());
    mc.set_choices(&abc());
    mc.validate_choice(&mut logria, "1");
    assert_eq!("b", mc.get_choice().unwrap());
    assert_eq!(mc.get_choice(), None);
}

#[test]
fn validate_choice_refuses_out_of_range_and_text() {
    let mut logria = MainWindow::_new_dummy();
    let mut mc = MultipleChoiceHandler::new(tape());
    mc.set_choices(&abc());
    mc.validate_choice(&mut logria, "3");
    assert_eq!(mc.result, None);
    mc.validate_choice(&mut logria, "x");
    assert_eq!(mc.result, None);
}

#[test]
fn new_choices_replace_the_old() {
    let mut mc = MultipleChoiceHandler::new(tape());
    mc.set_choices(&abc());
    mc.set_choices(&vec!["x".to_string()]);
    assert_eq!(mc.choice_list(), &vec!["x".to_string()]);
    assert_eq!(mc.get_body_text(None), vec!["0: x"]);
}

#[test]
fn sessions_are_replaced_on_initialize() {
    let mut window = MainWindow::_new_dummy();
    let mut handler = StartupHandler::new(tape());
    handler.initialize(&vec!["/s/a".to_string(), "/s/b".to_string()]);
    handler.initialize(&vec!["/s/c".to_string()]);
    assert!(handler.process_command(&mut window, "1").is_none());
}

#[test]
fn can_initialize() {
    let mut handler = StartupHandler::new(tape());
    handler.initialize(&vec![]);
}

#[test]
fn can_get_startup_text() {
    let sessions = vec!["/tmp/s0".to_string(), "/tmp/s1".to_string()];
    let text = get_startup_text(&sessions);
    assert_eq!(text.len(), sessions.len() + logria::constants::START_MESSAGE_LEN);
    assert_eq!(text[text.len() - 1], "1: /tmp/s1");
}

#[test]
fn can_load_session() {
    let mut window = MainWindow::_new_dummy();
    let mut handler = StartupHandler::new(tape());
    handler.initialize(&vec!["/sessions/ls -la".to_string()]);
    match handler.process_command(&mut window, "0") {
        Some(StartupRequest::LoadSession(path)) => assert_eq!(path, "/sessions/ls -la"),
        _ => panic!("expected a session to load"),
    }
}

#[test]
fn doesnt_crash_bad_index() {
    let mut window = MainWindow::_new_dummy();
    window.config.stream_type = StreamType::Auxiliary;
    let mut handler = StartupHandler::new(tape());
    handler.initialize(&vec!["/sessions/ls -la".to_string()]);
    assert!(handler.process_command(&mut window, "999").is_none());
    assert!(matches!(window.config.stream_type, StreamType::Auxiliary));
}

#[test]
fn doesnt_crash_alpha() {
    let mut window = MainWindow::_new_dummy();
    let mut handler = StartupHandler::new(tape());
    handler.initialize(&vec![]);
    match handler.process_command(&mut window, "zzzfake_file_name") {
        Some(StartupRequest::Open(command)) => assert_eq!(command, "zzzfake_file_name"),
        _ => panic!("expected a command to open"),
    }
    StartupHandler::start_reading(&mut window, false);
    assert!(matches!(window.input_type, InputType::Normal));
    assert!(matches!(window.config.stream_type, StreamType::StdErr));
}

fn highlighted_window(state: ScrollState, render: Option<(usize, usize)>) -> (MainWindow, HighlightHandler) {
    let mut logria = MainWindow::_new_dummy();
    let mut handler = HighlightHandler::new(tape());
    logria.input_type = InputType::Highlight;
    logria.config.scroll_state = state;
    if let Some((start, end)) = render {
        logria.config.previous_render = (start, end);
        logria.config.current_end = end;
    }
    handler.search.current_pattern = Some(BytesPattern::new("0").unwrap());
    handler.process_matches(&mut logria);
    (logria, handler)
}

fn assert_on_match(logria: &MainWindow, row: usize, message: usize) {
    assert_eq!(logria.config.current_matched_row, row);
    assert_eq!(logria.config.matched_rows[logria.config.current_matched_row], message);
    assert_eq!(logria.messages()[logria.config.matched_rows[logria.config.current_matched_row]], message.to_string());
}

#[test]
fn test_can_scroll_to_prev_match_bottom() {
    let (mut logria, mut handler) = highlighted_window(ScrollState::Bottom, None);
    handler.receive_input(&mut logria, KeyCode::PageUp);
    assert_on_match(&logria, 9, 90);
}

#[test]
fn test_can_scroll_to_prev_match_free() {
    let (mut logria, mut handler) = highlighted_window(ScrollState::Bottom, Some((50, 57)));
    handler.receive_input(&mut logria, KeyCode::Up);
    handler.receive_input(&mut logria, KeyCode::PageUp);
    assert_on_match(&logria, 5, 50);
    handler.receive_input(&mut logria, KeyCode::PageUp);
    assert_on_match(&logria, 4, 40);
}

#[test]
fn test_can_scroll_to_prev_match_centered() {
    let (mut logria, mut handler) = highlighted_window(ScrollState::Free, Some((50, 57)));
    handler.receive_input(&mut logria, KeyCode::Up);
    handler.receive_input(&mut logria, KeyCode::PageUp);
    assert_on_match(&logria, 5, 50);
    handler.receive_input(&mut logria, KeyCode::PageUp);
    assert_on_match(&logria, 4, 40);
}

#[test]
fn test_can_scroll_to_next_match_top() {
    let (mut logria, mut handler) = highlighted_window(ScrollState::Top, None);
    handler.receive_input(&mut logria, KeyCode::PageDown);
    assert_on_match(&logria, 0, 0);
    handler.receive_input(&mut logria, KeyCode::PageDown);
    assert_on_match(&logria, 1, 10);
}

#[test]
fn test_can_scroll_to_next_match_bottom() {
    let (mut logria, mut handler) = highlighted_window(ScrollState::Bottom, None);
    handler.receive_input(&mut logria, KeyCode::PageDown);
    assert_on_match(&logria, 9, 90);
    handler.receive_input(&mut logria, KeyCode::PageDown);
    assert_on_match(&logria, 9, 90);
}

#[test]
fn test_can_scroll_to_next_match_free() {
    let (mut logria, mut handler) = highlighted_window(ScrollState::Bottom, Some((50, 57)));
    handler.receive_input(&mut logria, KeyCode::Up);
    handler.receive_input(&mut logria, KeyCode::PageDown);
    assert_on_match(&logria, 5, 50);
    handler.receive_input(&mut logria, KeyCode::PageDown);
    assert_on_match(&logria, 6, 60);
}

#[test]
fn test_can_scroll_to_next_match_centered() {
    let (mut logria, mut handler) = highlighted_window(ScrollState::Free, Some((50, 57)));
    handler.receive_input(&mut logria, KeyCode::Up);
    handler.receive_input(&mut logria, KeyCode::PageDown);
    assert_on_match(&logria, 5, 50);
    handler.receive_input(&mut logria, KeyCode::PageDown);
    assert_on_match(&logria, 6, 60);
}

#[test]
fn test_scroll_snap_to_midpoint() {
    let (mut logria, mut handler) = highlighted_window(ScrollState::Free, Some((50, 57)));
    handler.receive_input(&mut logria, KeyCode::Up);
    handler.receive_input(&mut logria, KeyCode::PageUp);
    assert_on_match(&logria, 5, 50);
    handler.receive_input(&mut logria, KeyCode::Down);
    handler.receive_input(&mut logria, KeyCode::PageDown);
    assert_on_match(&logria, 5, 50);
}

#[test]
fn test_can_scroll_to_prev_match_top() {
    let (mut logria, mut handler) = highlighted_window(ScrollState::Top, None);
    handler.receive_input(&mut logria, KeyCode::PageUp);
    assert_on_match(&logria, 0, 0);
    handler.receive_input(&mut logria, KeyCode::PageUp);
    assert_on_match(&logria, 0, 0);
}
