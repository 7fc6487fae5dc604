use logria::number::number_text;
use logria::binary_search::closest_index;
use logria::history::Tape;
use logria::poll::{ms_per_message, Backoff, RollingMean};
use logria::sanitizers::{sanitize_filename, LengthFinder};

fn numbered_tape(n: usize) -> Tape {
    Tape::new((0..n).map(|i| format!("command {}", i)).collect())
}

#[test]
fn closest_within_range() {
    let v = vec![0, 3, 8, 12, 20];
    assert_eq!(closest_index(&v, 10), Some(2));
}

#[test]
fn closest_exact_match() {
    let v = vec![0, 3, 8, 12, 20];
    assert_eq!(closest_index(&v, 12), Some(3));
}

#[test]
fn closest_below_range() {
    let v = vec![0, 3, 8, 12, 20];
    assert_eq!(closest_index(&v, 1), Some(0));
}

#[test]
fn closest_above_range() {
    let v = vec![0, 3, 8, 12, 20];
    assert_eq!(closest_index(&v, 25), Some(4));
}

#[test]
fn closest_of_nothing() {
    let v: Vec<usize> = vec![];
    assert_eq!(closest_index(&v, 3), None);
}

#[test]
fn closest_tie_takes_lower() {
    let v = vec![2, 4];
    assert_eq!(closest_index(&v, 3), Some(0));
}

#[test]
fn test_length_clean() {
    let l = LengthFinder::new();
    assert_eq!(l.get_real_length("word"), 4);
}

#[test]
fn test_length_dirty() {
    let l = LengthFinder::new();
    let content = "\x1b[0m word \x1b[32m";
    assert_eq!(l.get_real_length(content), 6);
}

#[test]
fn test_length_wide_chars() {
    let l = LengthFinder::new();
    let content = "\x1b[0m█四░\x1b[32m█四░";
    assert_eq!(l.get_real_length(content), 6);
}

#[test]
fn test_row_length_clean() {
    let l = LengthFinder::new();
    let (rows, length) = l.get_rows_and_length("word", 10);
    assert_eq!(rows, 1);
    assert_eq!(length, 4);
}

#[test]
fn test_row_length_dirty() {
    let l = LengthFinder::new();
    let content = "\x1b[0m word \x1b[32m";
    let (rows, length) = l.get_rows_and_length(content, 4);
    assert_eq!(rows, 2);
    assert_eq!(length, 6);
}

#[test]
fn test_row_length_wide_chars() {
    let l = LengthFinder::new();
    let content = "\x1b[0m█四░\x1b[32m█四░";
    let (rows, length) = l.get_rows_and_length(content, 10);
    assert_eq!(rows, 1);
    assert_eq!(length, 6);
}

#[test]
fn row_length_of_empty_text_is_one_row() {
    let l = LengthFinder::new();
    assert_eq!(l.get_rows_and_length("", 10), (1, 0));
}

#[test]
fn removes_colors_from_bytes() {
    let l = LengthFinder::new();
    assert_eq!(l.remove_colors(b"\x1b[31mred\x1b[0m"), b"red".to_vec());
}

#[test]
fn test_sanitize_filename_clean() {
    assert_eq!(sanitize_filename("normal_filename"), "normal_filename");
    assert_eq!(sanitize_filename("file.txt"), "file_txt");
    assert_eq!(sanitize_filename("file_123"), "file_123");
}

#[test]
fn test_sanitize_filename_invalid_chars() {
    assert_eq!(sanitize_filename("file<>name"), "file__name");
    assert_eq!(sanitize_filename("file:name"), "file_name");
    assert_eq!(sanitize_filename("file\"name"), "file_name");
    assert_eq!(sanitize_filename("file|name"), "file_name");
    assert_eq!(sanitize_filename("file?name"), "file_name");
    assert_eq!(sanitize_filename("file*name"), "file_name");
    assert_eq!(sanitize_filename("file\\name"), "file_name");
    assert_eq!(sanitize_filename("file/name"), "file_name");
}

#[test]
fn test_sanitize_filename_control_chars() {
    assert_eq!(sanitize_filename("file\x00name"), "file_name");
    assert_eq!(sanitize_filename("file\x1fname"), "file_name");
    assert_eq!(sanitize_filename("file\x7fname"), "file_name");
}

#[test]
fn test_sanitize_filename_trim() {
    assert_eq!(sanitize_filename("  filename  "), "filename");
    assert_eq!(sanitize_filename("..filename.."), "__filename__");
    assert_eq!(sanitize_filename("\tfilename\t"), "filename");
}

#[test]
fn test_sanitize_filename_long() {
    let long_name = "a".repeat(300);
    let sanitized = sanitize_filename(&long_name);
    assert_eq!(sanitized.len(), 255);
}

#[test]
fn history_can_construct() {
    let tape = Tape::new(vec![String::new()]);
    assert_eq!(tape.len(), 1);
    assert_eq!(tape.current_index(), 0);
}

#[test]
fn scroll_back_n_good() {
    let mut tape = numbered_tape(20);
    tape.set_should_scroll_back(true);
    tape.scroll_back_n(5);
    assert_eq!(tape.current_index(), tape.len() - 5 - 1)
}

#[test]
fn scroll_back_n_too_many() {
    let mut tape = numbered_tape(20);
    tape.set_should_scroll_back(true);
    tape.scroll_back_n(tape.len() * 2);
    assert_eq!(tape.current_index(), 0)
}

#[test]
fn scroll_back_one() {
    let mut tape = numbered_tape(20);
    tape.set_should_scroll_back(true);
    tape.scroll_back();
    assert_eq!(tape.current_index(), tape.len() - 1 - 1)
}

#[test]
fn scroll_forward_n_good() {
    let mut tape = numbered_tape(20);
    tape.set_should_scroll_back(true);
    tape.scroll_back_n(10);
    tape.scroll_forward_n(5);
    assert_eq!(tape.current_index(), tape.len() - 5 - 1)
}

#[test]
fn scroll_forward_n_too_many() {
    let mut tape = numbered_tape(20);
    tape.set_should_scroll_back(true);
    tape.scroll_back_n(10);
    tape.scroll_forward_n(25);
    assert_eq!(tape.current_index(), tape.len() - 1)
}

#[test]
fn scroll_forward_one() {
    let mut tape = numbered_tape(20);
    tape.set_should_scroll_back(true);
    tape.scroll_back();
    tape.scroll_forward();
    assert_eq!(tape.current_index(), tape.len() - 1)
}

#[test]
fn can_add_item() {
    let mut tape = Tape::new(vec![String::new()]);
    let added = tape.add_item("test");
    assert_eq!(added, Some(String::from("test")));
    assert_eq!(String::from("test"), tape.get_current_item());
}

#[test]
fn add_item_skips_history_commands_and_trims() {
    let mut tape = Tape::new(vec![String::from("ls")]);
    assert_eq!(tape.add_item(" :history off "), None);
    assert_eq!(tape.len(), 1);
    assert_eq!(tape.add_item("  grep x "), Some(String::from("grep x")));
    assert_eq!(tape.len(), 2);
}

#[test]
fn scroll_forward_undoes_scroll_back() {
    let mut tape = numbered_tape(20);
    tape.set_should_scroll_back(true);
    tape.scroll_back_n(3);
    tape.scroll_forward_n(3);
    assert_eq!(tape.current_index(), 19);
}

#[test]
fn poll_can_create() {
    let tracker = RollingMean::new(5);
    assert_eq!(tracker.sum(), 0);
    assert_eq!(tracker.max_size(), 5);
    assert_eq!(tracker.size(), 0);
    let backoff = Backoff::new();
    assert_eq!(backoff.num_cycles(), 1);
}

#[test]
fn cant_exceed_capacity() {
    let mut tracker = RollingMean::new(2);
    tracker.update(1);
    tracker.update(2);
    tracker.update(3);
    tracker.update(4);
    assert_eq!(tracker.sum(), 7);
    assert_eq!(tracker.len(), 2);
    assert_eq!(tracker.size(), 2);
}

#[test]
fn can_get_mean_full() {
    let mut tracker = RollingMean::new(5);
    tracker.update(1);
    tracker.update(2);
    tracker.update(3);
    tracker.update(4);
    tracker.update(5);
    assert_eq!(tracker.sum(), 15);
    assert_eq!(tracker.mean(), 3);
    assert_eq!(tracker.size(), 5);
}

#[test]
fn can_get_mean_under() {
    let mut tracker = RollingMean::new(5);
    tracker.update(1);
    tracker.update(2);
    tracker.update(3);
    assert_eq!(tracker.sum(), 6);
    assert_eq!(tracker.mean(), 2);
    assert_eq!(tracker.size(), 3);
}

#[test]
fn can_get_mean_over() {
    let mut tracker = RollingMean::new(5);
    tracker.update(1);
    tracker.update(2);
    tracker.update(3);
    tracker.update(4);
    tracker.update(5);
    tracker.update(6);
    tracker.update(7);
    assert_eq!(tracker.sum(), 25);
    assert_eq!(tracker.mean(), 5);
    assert_eq!(tracker.size(), 5);
}

#[test]
fn mean_of_empty_window_is_zero() {
    let tracker = RollingMean::new(3);
    assert_eq!(tracker.mean(), 0);
}

#[test]
fn reset_empties_the_window() {
    let mut tracker = RollingMean::new(3);
    tracker.update(9);
    tracker.reset();
    assert_eq!(tracker.sum(), 0);
    assert_eq!(tracker.size(), 0);
    assert_eq!(tracker.len(), 0);
}

#[test]
fn stays_low_no_slowest() {
    let mut tracker = Backoff::new();
    tracker.determine_poll_rate(25);
    tracker.determine_poll_rate(900);
    tracker.determine_poll_rate(34);
    assert_eq!(tracker.num_cycles(), 1);
}

#[test]
fn stays_low_when_less_than_max() {
    let mut tracker = Backoff::new();
    let result = tracker.determine_poll_rate(25);
    assert_eq!(result, 25);
    assert_eq!(tracker.num_cycles(), 1);

    let result = tracker.determine_poll_rate(1000);
    assert_eq!(result, 50);
    assert_eq!(tracker.num_cycles(), 2);

    let result = tracker.determine_poll_rate(900);
    assert_eq!(result, 150);
    assert_eq!(tracker.num_cycles(), 3);
}

#[test]
fn expands_slowly() {
    let mut tracker = Backoff::new();
    tracker.determine_poll_rate(34);
    assert_eq!(tracker.previous_base(), 34);

    let mut result = tracker.determine_poll_rate(1000);
    assert_eq!(tracker.num_cycles(), 2);
    assert_eq!(tracker.previous_base(), 34 * 2);
    assert_eq!(result, 68);

    result = tracker.determine_poll_rate(1000);
    assert_eq!(tracker.num_cycles(), 3);
    assert_eq!(tracker.previous_base(), 68 + (68 * 2));
    assert_eq!(result, 68 + (68 * 2));

    result = tracker.determine_poll_rate(1000);
    assert_eq!(tracker.num_cycles(), 4);
    assert_eq!(tracker.previous_base(), 204 + (204 * 3));
    assert_eq!(result, 204 + (204 * 3));

    result = tracker.determine_poll_rate(1000);
    assert_eq!(tracker.num_cycles(), 5);
    assert_eq!(tracker.previous_base(), 1000);
    assert_eq!(result, 1000);

    result = tracker.determine_poll_rate(34);
    assert_eq!(tracker.num_cycles(), 1);
    assert_eq!(tracker.previous_base(), 34);
    assert_eq!(result, 34);
}

#[test]
fn ms_per_message_divides_and_caps() {
    assert_eq!(ms_per_message(100, 10), 10);
    assert_eq!(ms_per_message(100, 0), 1000);
    assert_eq!(ms_per_message(10_000, 2), 1000);
    assert_eq!(ms_per_message(0, 5), 1);
}

#[test]
fn number_text_takes_the_first_number() {
    assert_eq!(number_text("took -83,234.34 ms then 5"), "-83234.34");
    assert_eq!(number_text("no digits"), "");
    assert_eq!(number_text("12abc"), "12");
    assert_eq!(number_text("a 1,000"), "1000");
}

#[test]
fn backoff_step_guard_follows_the_base() {
    let b = Backoff::new();
    assert!(b.can_step_exec());
}

#[test]
fn sanitizing_twice_changes_nothing_more() {
    for name in ["  my:file.txt ", "\tweird<>name\n", "plain", "a b"] {
        let once = sanitize_filename(name);
        assert_eq!(sanitize_filename(&once), once);
    }
}

#[test]
fn backoff_never_slower_than_measured() {
    let mut b = Backoff::new();
    assert_eq!(b.determine_poll_rate(30), 30);
    assert_eq!(b.num_cycles(), 1);
    assert_eq!(b.previous_base(), 30);
    let r = b.determine_poll_rate(1000);
    assert_eq!(r, 60);
    assert!(r <= 1000);
    assert_eq!(b.num_cycles(), 2);
    assert!(1 <= b.previous_base() && b.previous_base() <= 1000);
    assert_eq!(b.determine_poll_rate(0), 0);
    assert_eq!(b.previous_base(), 1);
    assert_eq!(b.num_cycles(), 1);
}
