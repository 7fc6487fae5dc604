use logria::pattern::BytesPattern;
use logria::scroll;
use logria::window::{InputType, MainWindow, ScrollState};

fn numbers(n: usize) -> Vec<String> {
    (0..n).map(|x| x.to_string()).collect()
}

#[test]
fn test_render_first_items() {
    let mut logria = MainWindow::_new_dummy();
    logria.config.scroll_state = ScrollState::Top;
    let (start, end) = logria.determine_render_position();
    assert_eq!(start, 0);
    assert_eq!(end, 7);
}

#[test]
fn test_render_few_from_middle() {
    let mut logria = MainWindow::_new_dummy();
    logria.config.scroll_state = ScrollState::Free;
    logria.config.current_end = 3;
    logria.config.stderr_messages = numbers(4);
    let (start, end) = logria.determine_render_position();
    assert_eq!(start, 0);
    assert_eq!(end, 4);
}

#[test]
fn test_render_from_middle_early() {
    let mut logria = MainWindow::_new_dummy();
    logria.config.scroll_state = ScrollState::Free;
    logria.config.current_end = 5;
    let (start, end) = logria.determine_render_position();
    assert_eq!(start, 0);
    assert_eq!(end, 5);
}

#[test]
fn test_render_small_from_top() {
    let mut logria = MainWindow::_new_dummy();
    logria.config.scroll_state = ScrollState::Top;
    logria.config.current_end = 0;
    logria.config.stderr_messages = numbers(6);
    let (start, end) = logria.determine_render_position();
    assert_eq!(start, 0);
    assert_eq!(end, 6);
}

#[test]
fn test_render_no_messages_top() {
    let mut logria = MainWindow::_new_dummy();
    logria.config.scroll_state = ScrollState::Top;
    logria.config.current_end = 0;
    logria.config.stderr_messages = vec![];
    let (start, end) = logria.determine_render_position();
    assert_eq!(start, 0);
    assert_eq!(end, 0);
}

#[test]
fn test_render_no_messages_bottom() {
    let mut logria = MainWindow::_new_dummy();
    logria.config.scroll_state = ScrollState::Bottom;
    logria.config.current_end = 0;
    logria.config.stderr_messages = vec![];
    let (start, end) = logria.determine_render_position();
    assert_eq!(start, 0);
    assert_eq!(end, 0);
}

#[test]
fn test_render_final_items() {
    let mut logria = MainWindow::_new_dummy();
    logria.config.scroll_state = ScrollState::Bottom;
    let (start, end) = logria.determine_render_position();
    assert_eq!(start, 92);
    assert_eq!(end, 100);
}

#[test]
fn test_render_from_middle() {
    let mut logria = MainWindow::_new_dummy();
    logria.config.scroll_state = ScrollState::Free;
    logria.config.current_end = 80;
    let (start, end) = logria.determine_render_position();
    assert_eq!(start, 72);
    assert_eq!(end, 80);
}

#[test]
fn test_no_poll_rate_change_when_disabled() {
    let mut logria = MainWindow::_new_dummy();
    logria.config.smart_poll_rate = false;
    logria.handle_smart_poll_rate(100, 10);
    assert_eq!(logria.config.poll_rate, 50);
}

#[test]
fn test_poll_rate_change_when_enabled_100ms_10messages() {
    let mut logria = MainWindow::_new_dummy();
    logria.input_type = InputType::Normal;
    assert_eq!(logria.config.poll_rate, 50);
    logria.handle_smart_poll_rate(100, 10);
    assert_eq!(logria.config.poll_rate, 10);
}

#[test]
fn test_poll_rate_change_when_enabled_50ms_50messages() {
    let mut logria = MainWindow::_new_dummy();
    logria.input_type = InputType::Normal;
    assert_eq!(logria.config.poll_rate, 50);
    logria.handle_smart_poll_rate(50, 5);
    assert_eq!(logria.config.poll_rate, 10);
}

#[test]
fn test_poll_rate_change_when_enabled_idle() {
    let mut logria = MainWindow::_new_dummy();
    logria.input_type = InputType::Normal;
    assert_eq!(logria.config.poll_rate, 50);
    for _ in 0..7 {
        logria.handle_smart_poll_rate(100, 0);
    }
    assert_eq!(logria.config.poll_rate, 1000);
}

#[test]
fn test_poll_rate_change_when_enabled_idle_multiple() {
    let mut logria = MainWindow::_new_dummy();
    logria.input_type = InputType::Normal;
    assert_eq!(logria.config.poll_rate, 50);
    logria.handle_smart_poll_rate(10, 1);
    assert_eq!(logria.config.poll_rate, 10);
    logria.handle_smart_poll_rate(10, 1);
    assert_eq!(logria.config.poll_rate, 10);
    logria.handle_smart_poll_rate(10, 0);
    assert_eq!(logria.config.poll_rate, 13);
}

#[test]
fn poll_rate_kept_at_startup() {
    let mut logria = MainWindow::_new_dummy();
    logria.input_type = InputType::Startup;
    assert!(!logria.handle_smart_poll_rate(100, 10));
    assert_eq!(logria.config.poll_rate, 50);
}

#[test]
fn test_render_first_items_scroll_up() {
    let mut logria = MainWindow::_new_dummy();
    logria.config.scroll_state = ScrollState::Top;
    logria.determine_render_position();
    scroll::up(&mut logria);
    let (start, end) = logria.determine_render_position();
    assert_eq!(start, 0);
    assert_eq!(end, 6);
}

#[test]
fn test_render_first_items_scroll_top() {
    let mut logria = MainWindow::_new_dummy();
    logria.config.scroll_state = ScrollState::Top;
    logria.determine_render_position();
    scroll::top(&mut logria);
    let (start, end) = logria.determine_render_position();
    assert_eq!(start, 0);
    assert_eq!(end, 7);
}

#[test]
fn test_render_scroll_past_end_small() {
    let mut logria = MainWindow::_new_dummy();
    logria.config.scroll_state = ScrollState::Bottom;
    logria.config.current_end = 10;
    logria.config.matched_rows = (0..5).collect();
    logria.config.regex_pattern = Some(BytesPattern::new("fa.ke").unwrap());
    logria.input_type = InputType::Regex;
    scroll::down(&mut logria);
    let (start, end) = logria.determine_render_position();
    assert_eq!(start, 0);
    assert_eq!(end, 5);
}

#[test]
fn test_render_first_items_scroll_up_matched() {
    let mut logria = MainWindow::_new_dummy();
    logria.config.scroll_state = ScrollState::Top;
    logria.determine_render_position();
    logria.input_type = InputType::Regex;
    logria.config.matched_rows = (0..20).collect();
    scroll::up(&mut logria);
    let (start, end) = logria.determine_render_position();
    assert_eq!(start, 0);
    assert_eq!(end, 6);
}

#[test]
fn test_update_current_match_index_free_closest_high() {
    let mut window = MainWindow::_new_dummy();
    window.config.matched_rows = vec![5, 15, 25];
    window.config.current_matched_row = 99;
    window.config.previous_render = (0, 22);
    window.config.scroll_state = ScrollState::Free;
    scroll::update_current_match_index(&mut window, false);
    assert_eq!(window.config.current_matched_row, 1);
    assert!(matches!(window.config.scroll_state, ScrollState::Centered));
}

#[test]
fn test_update_current_match_index_free_closest_low() {
    let mut window = MainWindow::_new_dummy();
    window.config.matched_rows = vec![5, 15, 25];
    window.config.current_matched_row = 99;
    window.config.previous_render = (0, 21);
    window.config.scroll_state = ScrollState::Free;
    scroll::update_current_match_index(&mut window, false);
    assert_eq!(window.config.current_matched_row, 0);
    assert!(matches!(window.config.scroll_state, ScrollState::Centered));
}

#[test]
fn test_update_current_match_index_free_empty() {
    let mut window = MainWindow::_new_dummy();
    window.config.matched_rows.clear();
    window.config.current_matched_row = 3;
    window.config.previous_render = (0, 50);
    window.config.scroll_state = ScrollState::Free;
    scroll::update_current_match_index(&mut window, true);
    assert_eq!(window.config.current_matched_row, 3);
    assert!(matches!(window.config.scroll_state, ScrollState::Centered));
}

#[test]
fn test_update_current_match_index_top() {
    let mut window = MainWindow::_new_dummy();
    window.config.matched_rows = vec![1, 2, 3];
    window.config.current_matched_row = 5;
    window.config.scroll_state = ScrollState::Top;
    scroll::update_current_match_index(&mut window, false);
    assert_eq!(window.config.current_matched_row, 0);
    assert!(matches!(window.config.scroll_state, ScrollState::Centered));
}

#[test]
fn test_update_current_match_index_bottom() {
    let mut window = MainWindow::_new_dummy();
    window.config.matched_rows = vec![1, 2, 3, 4];
    window.config.current_matched_row = 0;
    window.config.scroll_state = ScrollState::Bottom;
    scroll::update_current_match_index(&mut window, false);
    assert_eq!(window.config.current_matched_row, 3);
    assert!(matches!(window.config.scroll_state, ScrollState::Centered));
}

#[test]
fn test_update_current_match_index_centered_down() {
    let mut window = MainWindow::_new_dummy();
    window.config.matched_rows = vec![0, 1, 2];
    window.config.current_matched_row = 1;
    window.config.scroll_state = ScrollState::Centered;
    scroll::update_current_match_index(&mut window, false);
    assert_eq!(window.config.current_matched_row, 2);
}

#[test]
fn test_update_current_match_index_centered_up() {
    let mut window = MainWindow::_new_dummy();
    window.config.matched_rows = vec![0, 1, 2];
    window.config.current_matched_row = 1;
    window.config.scroll_state = ScrollState::Centered;
    scroll::update_current_match_index(&mut window, true);
    assert_eq!(window.config.current_matched_row, 0);
}

#[test]
fn scroll_down_then_up_returns() {
    let mut window = MainWindow::_new_dummy();
    window.config.scroll_state = ScrollState::Free;
    window.config.current_end = 50;
    scroll::down(&mut window);
    scroll::up(&mut window);
    assert_eq!(window.config.current_end, 50);
}

#[test]
fn pg_down_then_pg_up_returns() {
    let mut window = MainWindow::_new_dummy();
    window.config.scroll_state = ScrollState::Free;
    window.config.current_end = 50;
    scroll::pg_down(&mut window);
    scroll::pg_up(&mut window);
    assert_eq!(window.config.current_end, 50);
}

#[test]
fn centered_match_stays_in_range_at_last_match() {
    let mut window = MainWindow::_new_dummy();
    window.config.matched_rows = vec![0, 1, 2];
    window.config.current_matched_row = 2;
    window.config.scroll_state = ScrollState::Centered;
    scroll::update_current_match_index(&mut window, false);
    assert_eq!(window.config.current_matched_row, 2);
}

#[test]
fn scrolling_at_the_bottom_keeps_the_last_rows() {
    let mut logria = MainWindow::_new_dummy();
    logria.config.scroll_state = ScrollState::Bottom;
    logria.determine_render_position();
    scroll::down(&mut logria);
    assert_eq!(logria.determine_render_position(), (92, 100));
    scroll::bottom(&mut logria);
    assert_eq!(logria.determine_render_position(), (92, 100));
}

#[test]
fn page_up_from_the_bottom_moves_a_page() {
    let mut logria = MainWindow::_new_dummy();
    logria.config.scroll_state = ScrollState::Bottom;
    logria.determine_render_position();
    scroll::pg_up(&mut logria);
    assert_eq!(logria.determine_render_position(), (85, 93));
}

#[test]
fn matched_rows_bound_the_shown_range() {
    let mut logria = MainWindow::_new_dummy();
    logria.config.scroll_state = ScrollState::Bottom;
    logria.input_type = InputType::Highlight;
    logria.config.regex_pattern = Some(BytesPattern::new("fa.ke").unwrap());
    logria.config.matched_rows = (0..20).collect();
    assert_eq!(logria.number_of_messages(), 20);
    assert_eq!(logria.determine_render_position(), (12, 20));
}

#[test]
fn highlighting_only_wraps_the_matches() {
    let mut logria = MainWindow::_new_dummy();
    logria.config.regex_pattern = Some(BytesPattern::new("0").unwrap());
    let message = String::from("\x1b[31m10\x1b[0m 20");
    let out = logria.highlight_match(&message);
    assert_eq!(out, "1\x1b[35m0\x1b[0m 2\x1b[35m0\x1b[0m");
    assert_eq!(out.replace("\x1b[35m", "").replace("\x1b[0m", ""), "10 20");
}
