use r3bl_terminal_async::history::{History, HISTORY_SIZE_MAX};

fn history_of(lines: &[&str]) -> History {
    let (mut history, _receiver) = History::new();
    for line in lines {
        history.update(Some(line.to_string()));
    }
    history
}

fn entries(history: &History) -> Vec<String> {
    history.entries.iter().cloned().collect()
}

#[test]
fn new_history_is_empty() {
    let (history, mut receiver) = History::new();
    assert_eq!(history.entries.len(), 0);
    assert_eq!(history.max_size, HISTORY_SIZE_MAX);
    assert_eq!(history.current_position, None);
    assert!(history.sender.is_connected_to(&receiver));
    // Nothing has been sent yet.
    assert!(receiver.try_next().is_err());
}

#[test]
fn newest_line_comes_first() {
    let history = history_of(&["one", "two", "three"]);
    assert_eq!(entries(&history), vec!["three", "two", "one"]);
}

#[test]
fn repeated_and_empty_lines_are_left_out() {
    let mut history = history_of(&["one", "one", "", "two", "two"]);
    assert_eq!(entries(&history), vec!["two", "one"]);
    // A line that is not the newest is taken again.
    history.update(Some("one".to_string()));
    assert_eq!(entries(&history), vec!["one", "two", "one"]);
}

#[test]
fn end_of_the_channel_changes_nothing() {
    let mut history = history_of(&["one", "two"]);
    history.search_next("");
    history.update(None);
    assert_eq!(entries(&history), vec!["two", "one"]);
    assert_eq!(history.current_position, Some(0));
}

#[test]
fn oldest_line_goes_when_there_are_too_many() {
    let (mut history, _receiver) = History::new();
    history.max_size = 2;
    for line in ["one", "two", "three"] {
        history.update(Some(line.to_string()));
        assert!(history.entries.len() <= 2);
    }
    assert_eq!(entries(&history), vec!["three", "two"]);
}

#[test]
fn history_of_size_zero_stays_empty() {
    let (mut history, _receiver) = History::new();
    history.set_max_size(0);
    history.update(Some("one".to_string()));
    assert_eq!(history.entries.len(), 0);
    assert_eq!(history.search_next(""), None);
}

#[test]
fn scrolling_back_stays_at_the_oldest() {
    let mut history = history_of(&["one", "two", "three"]);
    assert_eq!(history.search_next(""), Some("three"));
    assert_eq!(history.search_next(""), Some("two"));
    assert_eq!(history.search_next(""), Some("one"));
    assert_eq!(history.search_next(""), Some("one"));
    assert_eq!(history.current_position, Some(2));
}

#[test]
fn scrolling_forward_ends_with_the_empty_text() {
    let mut history = history_of(&["one", "two"]);
    assert_eq!(history.search_previous(""), None);
    history.search_next("");
    history.search_next("");
    assert_eq!(history.search_previous(""), Some("two"));
    assert_eq!(history.search_previous(""), Some(""));
    assert_eq!(history.current_position, None);
    assert_eq!(history.search_previous(""), None);
}

#[test]
fn scrolling_forward_undoes_scrolling_back() {
    let mut history = history_of(&["one", "two", "three"]);
    history.search_next("");
    let before = history.current_position;
    history.search_next("");
    assert_eq!(history.search_previous(""), Some("three"));
    assert_eq!(history.current_position, before);
}

#[test]
fn new_line_starts_scrolling_over() {
    let mut history = history_of(&["one", "two"]);
    history.search_next("");
    history.search_next("");
    history.update(Some("three".to_string()));
    assert_eq!(history.current_position, None);
    assert_eq!(history.search_next(""), Some("three"));
}

#[test]
fn line_that_is_left_out_keeps_the_position() {
    let mut history = history_of(&["one", "two"]);
    history.search_next("");
    history.search_next("");
    history.update(Some("two".to_string()));
    history.update(Some(String::new()));
    assert_eq!(history.current_position, Some(1));
}

#[test]
fn smaller_history_drops_the_oldest() {
    let mut history = history_of(&["one", "two", "three"]);
    history.search_next("");
    history.set_max_size(2);
    assert_eq!(history.max_size, 2);
    assert_eq!(entries(&history), vec!["three", "two"]);
    assert!(history.is_position_in_range());
}

#[test]
fn smaller_history_can_lose_the_shown_entry() {
    let mut history = history_of(&["one", "two", "three"]);
    for _ in 0..3 {
        history.search_next("");
    }
    history.set_max_size(2);
    assert_eq!(history.current_position, Some(2));
    assert!(!history.is_position_in_range());
    // Scrolling forward still works from just behind the end.
    assert_eq!(history.search_previous(""), Some("two"));
}

#[test]
fn larger_history_keeps_everything() {
    let mut history = history_of(&["one", "two"]);
    history.set_max_size(5);
    assert_eq!(entries(&history), vec!["two", "one"]);
}

#[test]
fn empty_history_has_nothing_to_show() {
    let (mut history, _receiver) = History::new();
    assert_eq!(history.search_next("x"), None);
    assert_eq!(history.search_previous("x"), None);
    assert!(history.is_position_in_range());
}

#[test]
fn last_line_that_is_not_empty_is_the_newest_entry() {
    let mut history = history_of(&["one", "two", "two", "three", "", "one", ""]);
    assert_eq!(entries(&history), vec!["one", "three", "two", "one"]);
    assert_eq!(history.search_next(""), Some("one"));
}
