use logria::aggregators::AggregationMethod;
use logria::command::CommandHandler;
use logria::directories::{app_root, history, history_tape, patterns, sessions, NAME};
use logria::history::Tape;
use logria::parser::{Parser, PatternType};

fn handler() -> CommandHandler {
    CommandHandler::new(Tape::new(vec![String::new()]))
}

fn resolve(command: &str) -> Vec<usize> {
    handler().resolve_delete_command(command).unwrap_or_default()
}

fn config_root() -> String {
    dirs::config_dir().unwrap().to_str().unwrap().to_string()
}

fn methods(names: &[(&str, AggregationMethod)]) -> Vec<(String, AggregationMethod)> {
    names.iter().map(|(n, m)| (n.to_string(), m.clone())).collect()
}

fn common_log_parser() -> Parser {
    Parser::new(
        String::from("([^ ]*) ([^ ]*) ([^ ]*) \\[([^]]*)\\] \"([^\"]*)\" ([^ ]*) ([^ ]*)"),
        PatternType::Regex,
        String::from("127.0.0.1 user-identifier frank [10/Oct/2000:13:55:36 -0700] \"GET /apache_pb.gif HTTP/1.0\" 200 2326"),
        vec![
            "Remote Host".to_string(),
            "User ID".to_string(),
            "Username".to_string(),
            "Date".to_string(),
            "Request".to_string(),
            "Status".to_string(),
            "Size".to_string(),
        ],
        methods(&[
            ("Remote Host", AggregationMethod::Count),
            ("User ID", AggregationMethod::Count),
            ("Username", AggregationMethod::Count),
            ("Date", AggregationMethod::Count),
            ("Request", AggregationMethod::Count),
            ("Status", AggregationMethod::Count),
            ("Size", AggregationMethod::Count),
        ]),
    )
}

fn hyphen_parser() -> Parser {
    Parser::new(
        String::from(" - "),
        PatternType::Split,
        String::from("2005-03-19 15:10:26,773 - simple_example - CRITICAL - critical message"),
        vec!["Date".to_string(), "Message".to_string(), "Level".to_string(), "Message".to_string()],
        methods(&[
            ("Date", AggregationMethod::Date(String::from("[year]-[month]-[day]"))),
            ("Method", AggregationMethod::Count),
            ("Level", AggregationMethod::Count),
            ("Message", AggregationMethod::Sum),
        ]),
    )
}

#[test]
fn test_can_set_poll_rate() {
    let result = handler().resolve_poll_rate("poll 1");
    assert!(result.is_ok());
    assert_eq!(result.unwrap(), 1);
}

#[test]
fn test_do_not_set_bad_poll_rate() {
    assert!(handler().resolve_poll_rate("poll v").is_err());
}

#[test]
fn test_do_no_poll_rate() {
    assert!(handler().resolve_poll_rate("poll").is_err());
}

#[test]
fn test_resolve_single_num() {
    assert_eq!(resolve("r 1"), [1]);
}

#[test]
fn test_resolve_double_num() {
    assert_eq!(resolve("r 1,2"), [1, 2]);
}

#[test]
fn test_resolve_triple_num() {
    assert_eq!(resolve("r 1,2,3"), [1, 2, 3]);
}

#[test]
fn test_resolve_triple_num_trailing_comma() {
    assert_eq!(resolve("r 1,2,3,"), [1, 2, 3]);
}

#[test]
fn test_resolve_range() {
    assert_eq!(resolve("r 1-5"), [1, 2, 3, 4, 5]);
}

#[test]
fn test_resolve_double_range() {
    assert_eq!(resolve("r 1-3,5-7"), [1, 2, 3, 5, 6, 7]);
}

#[test]
fn test_resolve_triple_range() {
    assert_eq!(resolve("r 1-3,5-7,9-11"), [1, 2, 3, 5, 6, 7, 9, 10, 11]);
}

#[test]
fn test_resolve_ranges_with_singletons() {
    assert_eq!(resolve("r 1-3,5,9-11,15"), [1, 2, 3, 5, 9, 10, 11, 15]);
}

#[test]
fn test_resolve_ranges_multiple_dash() {
    assert_eq!(resolve("r 1--3,4"), [4]);
}

#[test]
fn test_resolve_ranges_with_string() {
    assert_eq!(resolve("r a-b,4").len(), 0);
}

#[test]
fn test_resolve_no_num() {
    assert_eq!(resolve("r").len(), 0);
}

#[test]
fn test_resolve_no_num_space() {
    assert_eq!(resolve("r ").len(), 0);
}

#[test]
fn resolve_sorts_out_of_order_items() {
    assert_eq!(resolve("r 9,2-3,1"), [1, 2, 3, 9]);
}

#[test]
fn can_get_regex() {
    assert!(common_log_parser().get_regex().is_ok());
}

#[test]
fn cannot_get_regex() {
    assert!(hyphen_parser().get_regex().is_err());
}

#[test]
fn can_get_example_regex() {
    assert_eq!(
        common_log_parser().get_example().unwrap(),
        vec![
            String::from("127.0.0.1"),
            String::from("user-identifier"),
            String::from("frank"),
            String::from("10/Oct/2000:13:55:36 -0700"),
            String::from("GET /apache_pb.gif HTTP/1.0"),
            String::from("200"),
            String::from("2326")
        ]
    );
}

#[test]
fn can_get_example_split() {
    assert_eq!(
        hyphen_parser().get_example().unwrap(),
        vec![
            String::from("2005-03-19 15:10:26,773"),
            String::from("simple_example"),
            String::from("CRITICAL"),
            String::from("critical message")
        ]
    );
}

#[test]
fn example_with_wrong_method_count_is_refused() {
    let parser = Parser::new(
        String::from(" - "),
        PatternType::Split,
        String::from("a - b - c"),
        vec!["A".to_string()],
        methods(&[("A", AggregationMethod::Count)]),
    );
    assert!(parser.get_example().is_err());
}

#[test]
fn example_not_matching_regex_is_refused() {
    let parser = Parser::new(
        String::from("(\\d+)"),
        PatternType::Regex,
        String::from("no digits"),
        vec!["A".to_string()],
        methods(&[("A", AggregationMethod::Count)]),
    );
    assert!(parser.get_example_checked().unwrap().is_err());
}

#[test]
fn test_app_root() {
    let mut root = config_root();
    root.push_str("/Logria");
    assert_eq!(app_root(&config_root(), NAME), root)
}

#[test]
fn test_patterns() {
    let mut root = config_root();
    root.push_str("/Logria/patterns");
    assert_eq!(patterns(&app_root(&config_root(), NAME)), root)
}

#[test]
fn test_sessions() {
    let mut root = config_root();
    root.push_str("/Logria/sessions");
    assert_eq!(sessions(&app_root(&config_root(), NAME)), root)
}

#[test]
fn test_history() {
    let mut root = config_root();
    root.push_str("/Logria/history");
    assert_eq!(history(&app_root(&config_root(), NAME)), root)
}

#[test]
fn test_history_tape() {
    let mut root = config_root();
    root.push_str("/Logria/history/tape");
    assert_eq!(history_tape(&app_root(&config_root(), NAME)), root)
}

#[test]
fn resolve_documented_example() {
    assert_eq!(resolve("r 2,4-6,8"), [2, 4, 5, 6, 8]);
}

#[test]
fn delete_command_safety() {
    let h = handler();
    assert!(h.delete_command_is_safe("r 1-3"));
    assert!(h.delete_command_is_safe("r"));
    assert!(h.delete_command_is_safe("r a-b,1-18446744073709551615"));
    assert!(!h.delete_command_is_safe("r 1-18446744073709551615"));
    assert!(!h.delete_command_is_safe("rë 1"));
}

#[test]
fn command_keys_that_can_be_taken() {
    let window = logria::window::MainWindow::_new_dummy();
    let h = handler();
    assert!(h.can_take(&window, logria::keys::KeyCode::Char('x')));
    assert!(h.can_take(&window, logria::keys::KeyCode::Enter));
    assert!(h.can_take(&window, logria::keys::KeyCode::Esc));
    assert!(h.can_take(&window, logria::keys::KeyCode::Backspace));
}

#[test]
fn scroll_safety() {
    let mut window = logria::window::MainWindow::_new_dummy();
    assert!(logria::scroll::scroll_is_safe(&window, logria::keys::KeyCode::Down, false));
    window.config.current_end = usize::MAX;
    assert!(!logria::scroll::scroll_is_safe(&window, logria::keys::KeyCode::Down, false));
    assert!(logria::scroll::scroll_is_safe(&window, logria::keys::KeyCode::Up, false));
    assert!(!logria::scroll::scroll_is_safe(&window, logria::keys::KeyCode::PageUp, true));
}

#[test]
fn app_root_adds_one_slash() {
    assert_eq!(app_root("/usr/local/", NAME), "/usr/local/Logria");
    assert_eq!(app_root("/usr/local", NAME), "/usr/local/Logria");
    assert_eq!(app_root("/usr/local", ".conf/.logria"), "/usr/local/.conf/.logria");
}
