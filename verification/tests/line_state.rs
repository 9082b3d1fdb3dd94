use r3bl_terminal_async::history::History;
use r3bl_terminal_async::input::{Command, InputEvent, KeyCode, KeyEvent};
use r3bl_terminal_async::line_state::LineState;
use r3bl_terminal_async::readline::ReadlineEvent;
use r3bl_terminal_async::unicode::cluster_count;

const CLEAR: &str = "\x1b[1G\x1b[J";

fn key(code: KeyCode) -> InputEvent {
    InputEvent::Key(KeyEvent {
        code,
        control: false,
        alt: false,
    })
}

fn control(code: KeyCode) -> InputEvent {
    InputEvent::Key(KeyEvent {
        code,
        control: true,
        alt: false,
    })
}

fn state(line: &str) -> (LineState, History) {
    let mut state = LineState::new("> ".to_string(), (80, 24));
    let (mut history, _receiver) = History::new();
    for c in line.chars() {
        state.handle_event(key(KeyCode::Char(c)), &mut history);
    }
    (state, history)
}

fn text(output: Vec<u8>) -> String {
    String::from_utf8(output).unwrap()
}

#[test]
fn keys_are_bound_to_commands() {
    let plain = |code| {
        KeyEvent {
            code,
            control: false,
            alt: false,
        }
        .command()
    };
    let with_control = |code| {
        KeyEvent {
            code,
            control: true,
            alt: false,
        }
        .command()
    };
    assert_eq!(plain(KeyCode::Char('w')), Command::Insert('w'));
    assert_eq!(plain(KeyCode::Enter), Command::Submit);
    assert_eq!(plain(KeyCode::Backspace), Command::EraseLeft);
    assert_eq!(plain(KeyCode::Delete), Command::EraseRight);
    assert_eq!(plain(KeyCode::Left), Command::MoveLeft);
    assert_eq!(plain(KeyCode::Right), Command::MoveRight);
    assert_eq!(plain(KeyCode::Up), Command::HistoryOlder);
    assert_eq!(plain(KeyCode::Down), Command::HistoryNewer);
    assert_eq!(plain(KeyCode::Home), Command::MoveToStart);
    assert_eq!(plain(KeyCode::End), Command::MoveToEnd);
    assert_eq!(plain(KeyCode::Other), Command::Nothing);
    assert_eq!(with_control(KeyCode::Char('a')), Command::MoveToStart);
    assert_eq!(with_control(KeyCode::Char('c')), Command::Interrupt);
    assert_eq!(with_control(KeyCode::Char('d')), Command::EndOfInput);
    assert_eq!(with_control(KeyCode::Char('e')), Command::MoveToEnd);
    assert_eq!(with_control(KeyCode::Char('l')), Command::ClearScreen);
    assert_eq!(with_control(KeyCode::Char('u')), Command::EraseToStart);
    assert_eq!(
        with_control(KeyCode::Char('w')),
        Command::EraseToPreviousWhitespace
    );
    assert_eq!(with_control(KeyCode::Char('x')), Command::Nothing);
    assert_eq!(
        with_control(KeyCode::Left),
        Command::MoveToPreviousWhitespace
    );
    assert_eq!(with_control(KeyCode::Right), Command::MoveToNextWhitespace);
    let with_alt = KeyEvent {
        code: KeyCode::Char('a'),
        control: false,
        alt: true,
    };
    assert_eq!(with_alt.command(), Command::Nothing);
}

#[test]
fn typed_text_is_entered() {
    let (mut state, mut history) = state("hello world");
    assert_eq!(state.line, "hello world");
    assert_eq!(state.cursor, 11);
    let response = state.handle_event(key(KeyCode::Enter), &mut history);
    assert_eq!(
        response.event,
        Some(ReadlineEvent::Line("hello world".to_string()))
    );
    assert_eq!(
        text(response.output),
        format!("{CLEAR}> hello world\n\x1b[1G> \x1b[3G")
    );
    assert_eq!(state.line, "");
    assert_eq!(state.cursor, 0);
    assert_eq!(state.prompt, "> ");
}

#[test]
fn entered_line_can_be_erased_instead() {
    let (mut state, mut history) = state("hi");
    state.should_print_line_on_enter = false;
    let response = state.handle_event(key(KeyCode::Enter), &mut history);
    assert_eq!(response.event, Some(ReadlineEvent::Line("hi".to_string())));
    assert_eq!(text(response.output), format!("{CLEAR}> \x1b[3G"));
}

#[test]
fn control_c_and_control_d_end_the_reading() {
    let (mut state, mut history) = state("hi");
    let response = state.handle_event(control(KeyCode::Char('d')), &mut history);
    assert_eq!(response.event, Some(ReadlineEvent::Eof));
    assert_eq!(response.output, Vec::<u8>::new());
    assert_eq!(state.line, "hi");

    let response = state.handle_event(control(KeyCode::Char('c')), &mut history);
    assert_eq!(response.event, Some(ReadlineEvent::Interrupted));
    assert_eq!(
        text(response.output),
        format!("{CLEAR}> hi\n\x1b[1G> \x1b[3G")
    );
    assert_eq!(state.line, "");
}

#[test]
fn control_c_can_erase_the_line_instead() {
    let (mut state, mut history) = state("hi");
    state.should_print_line_on_control_c = false;
    let response = state.handle_event(control(KeyCode::Char('c')), &mut history);
    assert_eq!(response.event, Some(ReadlineEvent::Interrupted));
    assert_eq!(text(response.output), format!("{CLEAR}> \x1b[3G"));
}

#[test]
fn text_is_inserted_at_the_cursor() {
    let (mut state, mut history) = state("ac");
    state.handle_event(key(KeyCode::Left), &mut history);
    assert_eq!(state.cursor, 1);
    let response = state.handle_event(key(KeyCode::Char('b')), &mut history);
    assert_eq!(state.line, "abc");
    assert_eq!(state.cursor, 2);
    assert_eq!(response.event, None);
    assert_eq!(text(response.output), format!("{CLEAR}> abc\x1b[5G"));
}

#[test]
fn cursor_moves_within_the_line() {
    let (mut state, mut history) = state("abc");
    state.handle_event(key(KeyCode::Right), &mut history);
    assert_eq!(state.cursor, 3);
    state.handle_event(key(KeyCode::Left), &mut history);
    state.handle_event(key(KeyCode::Right), &mut history);
    assert_eq!(state.cursor, 3);
    state.handle_event(key(KeyCode::Home), &mut history);
    assert_eq!(state.cursor, 0);
    state.handle_event(key(KeyCode::Left), &mut history);
    assert_eq!(state.cursor, 0);
    state.handle_event(key(KeyCode::End), &mut history);
    assert_eq!(state.cursor, 3);
    state.handle_event(control(KeyCode::Char('a')), &mut history);
    assert_eq!(state.cursor, 0);
    state.handle_event(control(KeyCode::Char('e')), &mut history);
    assert_eq!(state.cursor, 3);
    assert_eq!(state.line, "abc");
}

#[test]
fn cursor_moves_over_words() {
    let (mut state, mut history) = state("one  two three");
    state.handle_event(control(KeyCode::Left), &mut history);
    assert_eq!(state.cursor, 9);
    state.handle_event(control(KeyCode::Left), &mut history);
    assert_eq!(state.cursor, 5);
    state.handle_event(control(KeyCode::Left), &mut history);
    assert_eq!(state.cursor, 0);
    state.handle_event(control(KeyCode::Right), &mut history);
    assert_eq!(state.cursor, 3);
    state.handle_event(control(KeyCode::Right), &mut history);
    assert_eq!(state.cursor, 8);
    state.handle_event(control(KeyCode::Right), &mut history);
    assert_eq!(state.cursor, 14);
}

#[test]
fn any_whitespace_separates_words() {
    let (mut state, mut history) = state("one\u{3000}two");
    state.handle_event(control(KeyCode::Left), &mut history);
    assert_eq!(state.cursor, 4);
}

#[test]
fn words_are_erased() {
    let (mut state, mut history) = state("one two  ");
    state.handle_event(control(KeyCode::Char('w')), &mut history);
    assert_eq!(state.line, "one ");
    assert_eq!(state.cursor, 4);
    state.handle_event(control(KeyCode::Char('w')), &mut history);
    assert_eq!(state.line, "");
    state.handle_event(control(KeyCode::Char('w')), &mut history);
    assert_eq!(state.line, "");
}

#[test]
fn erasing_a_word_keeps_what_is_right_of_the_cursor() {
    let (mut state, mut history) = state("one two");
    state.handle_event(key(KeyCode::Left), &mut history);
    state.handle_event(control(KeyCode::Char('w')), &mut history);
    assert_eq!(state.line, "one o");
    assert_eq!(state.cursor, 4);
}

#[test]
fn input_before_the_cursor_is_erased() {
    let (mut state, mut history) = state("hello");
    state.handle_event(key(KeyCode::Left), &mut history);
    state.handle_event(key(KeyCode::Left), &mut history);
    state.handle_event(control(KeyCode::Char('u')), &mut history);
    assert_eq!(state.line, "lo");
    assert_eq!(state.cursor, 0);
}

#[test]
fn backspace_and_delete_erase_one_cluster() {
    let (mut state, mut history) = state("abc");
    state.handle_event(key(KeyCode::Backspace), &mut history);
    assert_eq!(state.line, "ab");
    state.handle_event(key(KeyCode::Home), &mut history);
    state.handle_event(key(KeyCode::Backspace), &mut history);
    assert_eq!(state.line, "ab");
    state.handle_event(key(KeyCode::Delete), &mut history);
    assert_eq!(state.line, "b");
    state.handle_event(key(KeyCode::End), &mut history);
    state.handle_event(key(KeyCode::Delete), &mut history);
    assert_eq!(state.line, "b");
}

#[test]
fn grapheme_clusters_are_not_taken_apart() {
    // An accented letter of two characters, and a flag of two.
    let (mut state, mut history) = state("ae\u{301}\u{1f1fa}\u{1f1f8}");
    assert_eq!(state.cursor, 5);
    state.handle_event(key(KeyCode::Left), &mut history);
    assert_eq!(state.cursor, 3);
    state.handle_event(key(KeyCode::Left), &mut history);
    assert_eq!(state.cursor, 1);
    state.handle_event(key(KeyCode::Right), &mut history);
    assert_eq!(state.cursor, 3);
    state.handle_event(key(KeyCode::Backspace), &mut history);
    assert_eq!(state.line, "a\u{1f1fa}\u{1f1f8}");
    state.handle_event(key(KeyCode::Delete), &mut history);
    assert_eq!(state.line, "a");
}

#[test]
fn cursor_stays_on_a_boundary_when_clusters_merge() {
    // Without the letter in between, the two halves become one flag.
    let (mut state, mut history) = state("\u{1f1fa}x\u{1f1f8}");
    state.handle_event(key(KeyCode::Left), &mut history);
    state.handle_event(key(KeyCode::Backspace), &mut history);
    assert_eq!(state.line, "\u{1f1fa}\u{1f1f8}");
    assert_eq!(state.cursor, 2);
}

#[test]
fn wide_characters_take_two_columns() {
    let (mut state, mut history) = state("");
    let response = state.handle_event(key(KeyCode::Char('\u{6f22}')), &mut history);
    assert_eq!(
        text(response.output),
        format!("{CLEAR}> \u{6f22}\x1b[5G")
    );
}

#[test]
fn long_line_is_shown_over_several_rows() {
    let mut state = LineState::new("> ".to_string(), (10, 24));
    let (mut history, _receiver) = History::new();
    for c in "0123456789abcdef".chars() {
        state.handle_event(key(KeyCode::Char(c)), &mut history);
    }
    // Prompt and line take 18 columns: the cursor is in the second of two rows.
    assert_eq!(text(state.clear()), format!("\x1b[1A{CLEAR}"));
    assert_eq!(text(state.render()), "> 0123456789abcdef\x1b[9G");
    state.handle_event(key(KeyCode::Home), &mut history);
    assert_eq!(text(state.clear()), CLEAR);
    assert_eq!(text(state.render()), "> 0123456789abcdef\x1b[1A\x1b[3G");
}

#[test]
fn line_that_fills_a_row_keeps_the_cursor_in_it() {
    let mut state = LineState::new("> ".to_string(), (5, 24));
    let (mut history, _receiver) = History::new();
    for c in "abc".chars() {
        state.handle_event(key(KeyCode::Char(c)), &mut history);
    }
    assert_eq!(text(state.clear()), CLEAR);
    assert_eq!(text(state.render()), "> abc\x1b[5G");
}

#[test]
fn terminal_without_columns_counts_as_one_column() {
    let state = LineState::new("> ".to_string(), (0, 0));
    assert_eq!(text(state.clear()), format!("\x1b[1A{CLEAR}"));
    assert_eq!(text(state.render()), "> \x1b[1G");
}

#[test]
fn resize_shows_the_line_anew() {
    let (mut state, mut history) = state("abc");
    let response = state.handle_event(InputEvent::Resize(4, 10), &mut history);
    assert_eq!(state.term_size, (4, 10));
    assert_eq!(response.event, None);
    assert_eq!(
        text(response.output),
        format!("\x1b[1A{CLEAR}> abc\x1b[2G")
    );
}

#[test]
fn screen_is_cleared() {
    let (mut state, mut history) = state("abc");
    let response = state.handle_event(control(KeyCode::Char('l')), &mut history);
    assert_eq!(
        text(response.output),
        format!("\x1b[2J{CLEAR}> abc\x1b[6G")
    );
    assert_eq!(state.line, "abc");
}

#[test]
fn arrows_scroll_through_the_history() {
    let (mut state, mut history) = state("x");
    history.update(Some("one".to_string()));
    history.update(Some("two".to_string()));
    let response = state.handle_event(key(KeyCode::Up), &mut history);
    assert_eq!(state.line, "two");
    assert_eq!(state.cursor, 3);
    assert_eq!(text(response.output), format!("{CLEAR}> two\x1b[6G"));
    state.handle_event(key(KeyCode::Up), &mut history);
    state.handle_event(key(KeyCode::Up), &mut history);
    assert_eq!(state.line, "one");
    state.handle_event(key(KeyCode::Down), &mut history);
    assert_eq!(state.line, "two");
    state.handle_event(key(KeyCode::Down), &mut history);
    assert_eq!(state.line, "");
    let response = state.handle_event(key(KeyCode::Down), &mut history);
    assert_eq!(response.output, Vec::<u8>::new());
}

#[test]
fn empty_history_leaves_the_line_alone() {
    let (mut state, mut history) = state("x");
    let response = state.handle_event(key(KeyCode::Up), &mut history);
    assert_eq!(response.output, Vec::<u8>::new());
    assert_eq!(state.line, "x");
}

#[test]
fn other_events_do_nothing() {
    let (mut state, mut history) = state("x");
    for event in [InputEvent::Other, key(KeyCode::Other)] {
        let response = state.handle_event(event, &mut history);
        assert_eq!(response.event, None);
        assert_eq!(response.output, Vec::<u8>::new());
        assert_eq!(state.line, "x");
    }
}

#[test]
fn data_is_printed_above_the_line() {
    let (state, _history) = state("abc");
    assert_eq!(
        text(state.print_data(b"one\ntwo\n")),
        format!("{CLEAR}one\n\x1b[1Gtwo\n\x1b[1G> abc\x1b[6G")
    );
    // Data that ends within a line gets a line feed.
    assert_eq!(
        text(state.print_data(b"one")),
        format!("{CLEAR}one\n\x1b[1G> abc\x1b[6G")
    );
    assert_eq!(
        text(state.print_data(b"")),
        format!("{CLEAR}> abc\x1b[6G")
    );
    // Bytes that are no text are passed on.
    assert!(state.print_data(&[0xff, 10]).contains(&0xff));
}

#[test]
fn new_prompt_takes_the_place_of_the_old_one() {
    let (mut state, _history) = state("abc");
    let output = state.update_prompt("long prompt> ");
    assert_eq!(
        text(output),
        format!("{CLEAR}long prompt> abc\x1b[17G")
    );
    assert_eq!(state.prompt, "long prompt> ");
    assert_eq!(state.line, "abc");
    assert_eq!(
        text(state.clear_and_render()),
        format!("{CLEAR}long prompt> abc\x1b[17G")
    );
}

#[test]
fn clusters_are_counted() {
    assert_eq!(cluster_count(""), 0);
    assert_eq!(cluster_count("abc"), 3);
    assert_eq!(cluster_count("e\u{301}x"), 2);
}
