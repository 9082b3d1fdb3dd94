use crossterm::QueueableCommand;
use r3bl_terminal_async::ansi::{enable_line_wrap, TerminalAction};
use r3bl_terminal_async::input::{InputEvent, KeyCode, KeyEvent};
use r3bl_terminal_async::monitor_signal_task::{MonitorEvent, MonitorFlow};
use r3bl_terminal_async::readline::{
    conclude, process_event, ControlFlow, NewReadline, Readline, ReadlineControlSignal,
    ReadlineError, ReadlineEvent, ReadlineInput,
};
use std::io::{stdout, Write};
use strip_ansi_escapes::strip;

const CLEAR: &str = "\x1b[1G\x1b[J";

fn key(code: KeyCode) -> InputEvent {
    InputEvent::Key(KeyEvent {
        code,
        control: false,
        alt: false,
    })
}

fn pressed(code: KeyCode) -> ReadlineInput {
    ReadlineInput::Terminal(Some(Ok(key(code))))
}

fn get_input_vec() -> Vec<InputEvent> {
    vec![
        // a
        key(KeyCode::Char('a')),
        // b
        key(KeyCode::Char('b')),
        // c
        key(KeyCode::Char('c')),
        // enter
        key(KeyCode::Enter),
    ]
}

fn new_readline() -> NewReadline {
    Readline::new("> ".into(), (80, 24))
}

fn write(text: &str) -> TerminalAction {
    TerminalAction::Write(text.as_bytes().to_vec())
}

/// Does the actions to a buffer in place of a terminal.
fn perform(actions: &[TerminalAction], buffer: &mut Vec<u8>) {
    for action in actions {
        if let TerminalAction::Write(bytes) = action {
            buffer.extend_from_slice(bytes);
        }
    }
}

#[test]
fn test_readline_process_event_and_terminal_output() {
    let vec = get_input_vec();
    let mut iter = vec.iter();

    let prompt_str = "> ";

    let mut output_buffer = Vec::new();

    // We will get the `line_state` out of this to test.
    let new = Readline::new(prompt_str.into(), (80, 24));
    perform(&new.actions, &mut output_buffer);
    let mut readline = new.readline;

    // Simulate 'a'.
    let event = iter.next().unwrap();
    let turn = process_event(
        Some(Ok(*event)),
        &mut readline.line_state,
        &mut readline.history,
    );
    perform(&turn.actions, &mut output_buffer);
    let control_flow = conclude(turn.control_flow, Ok(()));

    assert!(matches!(control_flow, ControlFlow::Continue));
    assert_eq!(readline.line_state.line, "a");

    let output_buffer_data = strip(output_buffer);
    let output_buffer_data = String::from_utf8(output_buffer_data).expect("utf8");

    assert!(output_buffer_data.contains("> a"));
}

#[test]
fn test_stand_ins_for_stdout() {
    let mut stdout = stdout();
    stdout.queue(crossterm::terminal::EnableLineWrap).unwrap();
    match enable_line_wrap() {
        TerminalAction::Write(bytes) => {
            assert_eq!(bytes, b"\x1b[?7h".to_vec());
            stdout.write_all(&bytes).unwrap();
        }
        TerminalAction::Flush => panic!("nothing is written"),
    }
}

#[test]
fn new_readline_shows_the_prompt() {
    let new = new_readline();
    assert_eq!(
        new.actions,
        vec![
            write("> \x1b[3G"),
            write("\x1b[?7h"),
            TerminalAction::Flush
        ]
    );
    assert_eq!(new.readline.line_state.line, "");
    assert!(new.readline.line_state.should_print_line_on_enter);
    assert!(new.readline.line_state.should_print_line_on_control_c);
    assert!(!new.readline.monitor.is_suspended);
}

#[test]
fn new_writer_is_joined_to_the_receiver() {
    let mut new = new_readline();
    assert_eq!(new.shared_writer.write(b"hello\n"), Ok(6));
    assert_eq!(new.line_receiver.try_recv().unwrap(), b"hello\n".to_vec());
}

#[test]
fn lines_are_read() {
    let mut readline = new_readline().readline;
    let mut control_flows = Vec::new();
    for event in get_input_vec() {
        let turn = readline.readline(ReadlineInput::Terminal(Some(Ok(event))));
        control_flows.push(turn.control_flow);
    }
    assert!(matches!(control_flows[0], ControlFlow::Continue));
    assert!(matches!(control_flows[1], ControlFlow::Continue));
    assert!(matches!(control_flows[2], ControlFlow::Continue));
    match &control_flows[3] {
        ControlFlow::ReturnOk(event) => {
            assert_eq!(*event, ReadlineEvent::Line("abc".to_string()))
        }
        _ => panic!("Enter ends the reading"),
    }
    assert_eq!(readline.line_state.line, "");
}

#[test]
fn events_are_written_and_flushed() {
    let mut readline = new_readline().readline;
    let turn = readline.readline(pressed(KeyCode::Char('a')));
    assert_eq!(
        turn.actions,
        vec![write(&format!("{CLEAR}> a\x1b[4G")), TerminalAction::Flush]
    );
}

#[test]
fn error_of_the_event_stream_is_returned() {
    let mut readline = new_readline().readline;
    let error = std::io::Error::new(std::io::ErrorKind::Other, "broken stream");
    let turn = readline.readline(ReadlineInput::Terminal(Some(Err(error))));
    assert_eq!(turn.actions, Vec::new());
    match turn.control_flow {
        ControlFlow::ReturnError(ReadlineError::IO(error)) => {
            assert_eq!(error.to_string(), "broken stream")
        }
        _ => panic!("the error is returned"),
    }
}

#[test]
fn end_of_the_event_stream_is_passed_over() {
    let mut readline = new_readline().readline;
    let turn = readline.readline(ReadlineInput::Terminal(None));
    assert_eq!(turn.actions, Vec::new());
    assert!(matches!(turn.control_flow, ControlFlow::Continue));
}

#[test]
fn error_of_the_terminal_is_returned() {
    let error = std::io::Error::new(std::io::ErrorKind::Other, "broken terminal");
    let control_flow = ControlFlow::ReturnOk(ReadlineEvent::Eof);
    match conclude(control_flow, Err(error)) {
        ControlFlow::ReturnError(ReadlineError::IO(error)) => {
            assert_eq!(error.to_string(), "broken terminal")
        }
        _ => panic!("the error is returned"),
    }
    match conclude(ControlFlow::ReturnOk(ReadlineEvent::Eof), Ok(())) {
        ControlFlow::ReturnOk(event) => assert_eq!(event, ReadlineEvent::Eof),
        _ => panic!("the event is returned"),
    }
}

#[test]
fn io_errors_become_readline_errors() {
    let error = std::io::Error::new(std::io::ErrorKind::Other, "inner");
    assert!(matches!(ReadlineError::from(error), ReadlineError::IO(_)));
}

#[test]
fn history_entries_come_back_with_the_up_arrow() {
    let mut new = new_readline();
    assert_eq!(
        new.readline.add_history_entry("first".to_string()),
        Some(())
    );
    assert_eq!(
        new.readline.add_history_entry("second".to_string()),
        Some(())
    );
    // What was sent comes out in order, and is offered to the history.
    for expected in ["first", "second"] {
        let line = new.history_receiver.try_next().unwrap();
        assert_eq!(line.as_deref(), Some(expected));
        new.readline.readline(ReadlineInput::HistoryLine(line));
    }
    new.readline.readline(pressed(KeyCode::Up));
    assert_eq!(new.readline.line_state.line, "second");
    new.readline.readline(pressed(KeyCode::Up));
    assert_eq!(new.readline.line_state.line, "first");
}

#[test]
fn history_entry_without_a_receiver_is_refused() {
    let mut new = new_readline();
    drop(new.history_receiver);
    assert_eq!(new.readline.add_history_entry("lost".to_string()), None);
    assert_eq!(new.readline.add_history_entry("too".to_string()), None);
    let turn = new.readline.readline(ReadlineInput::HistoryLine(None));
    assert!(matches!(turn.control_flow, ControlFlow::Continue));
    assert_eq!(new.readline.history.entries.len(), 0);
}

#[test]
fn max_history_is_set() {
    let mut readline = new_readline().readline;
    for line in ["a", "b", "c"] {
        readline.readline(ReadlineInput::HistoryLine(Some(line.to_string())));
    }
    readline.set_max_history(2);
    assert_eq!(readline.history.entries.len(), 2);
    assert_eq!(readline.history.entries[0], "c");
    readline.readline(ReadlineInput::HistoryLine(Some("d".to_string())));
    assert_eq!(readline.history.entries.len(), 2);
    assert_eq!(readline.history.entries[1], "c");
}

#[test]
fn line_stays_on_the_screen_or_not() {
    let mut readline = new_readline().readline;
    readline.should_print_line_on(false, true);
    assert!(!readline.line_state.should_print_line_on_enter);
    assert!(readline.line_state.should_print_line_on_control_c);
    readline.readline(pressed(KeyCode::Char('a')));
    let turn = readline.readline(pressed(KeyCode::Enter));
    assert_eq!(
        turn.actions,
        vec![write(&format!("{CLEAR}> \x1b[3G")), TerminalAction::Flush]
    );
}

#[test]
fn prompt_is_updated() {
    let mut readline = new_readline().readline;
    assert_eq!(
        readline.update_prompt("$ "),
        vec![write(&format!("{CLEAR}$ \x1b[3G"))]
    );
    assert_eq!(readline.line_state.prompt, "$ ");
}

#[test]
fn screen_is_cleared_and_the_prompt_shown() {
    let readline = new_readline().readline;
    assert_eq!(
        readline.clear(),
        vec![
            write("\x1b[2J"),
            write(&format!("{CLEAR}> \x1b[3G")),
            TerminalAction::Flush
        ]
    );
}

#[test]
fn close_and_flush_are_signals() {
    let readline = new_readline().readline;
    assert_eq!(readline.close(), ReadlineControlSignal::Close);
    assert_eq!(readline.flush(), ReadlineControlSignal::Flush);
}

#[test]
fn reading_after_the_writers_are_gone_is_an_error() {
    let mut readline = new_readline().readline;
    let turn = readline.readline(ReadlineInput::Called);
    assert!(matches!(turn.control_flow, ControlFlow::Continue));
    let step = readline.monitor_event(MonitorEvent::Text(None));
    assert_eq!(step.flow, MonitorFlow::Break);
    let turn = readline.readline(ReadlineInput::Called);
    assert!(matches!(
        turn.control_flow,
        ControlFlow::ReturnError(ReadlineError::Closed)
    ));
}

#[test]
fn reading_goes_on_while_text_is_held_back() {
    let mut readline = new_readline().readline;
    readline.monitor_event(MonitorEvent::Signal(Some(ReadlineControlSignal::Suspend)));
    readline.monitor_event(MonitorEvent::Text(Some(b"held back\n".to_vec())));
    // The task waits for the flush, though all writers are gone.
    let step = readline.monitor_event(MonitorEvent::Text(None));
    assert_eq!(step.flow, MonitorFlow::Continue);
    assert!(readline.monitor.writers_closed);
    assert!(!readline.monitor.has_ended());
    let turn = readline.readline(ReadlineInput::Called);
    assert!(matches!(turn.control_flow, ControlFlow::Continue));
    let step = readline.monitor_event(MonitorEvent::Signal(Some(ReadlineControlSignal::Flush)));
    assert_eq!(step.flow, MonitorFlow::Break);
    let mut buffer = Vec::new();
    perform(&step.actions, &mut buffer);
    assert!(String::from_utf8(strip(buffer)).unwrap().contains("held back\n"));
    assert!(readline.monitor.has_ended());
    let turn = readline.readline(ReadlineInput::Called);
    assert!(matches!(
        turn.control_flow,
        ControlFlow::ReturnError(ReadlineError::Closed)
    ));
}

#[test]
fn scrolling_forward_from_just_behind_the_oldest_entry() {
    let mut readline = new_readline().readline;
    for line in ["a", "b", "c"] {
        readline.readline(ReadlineInput::HistoryLine(Some(line.to_string())));
    }
    for _ in 0..3 {
        readline.readline(pressed(KeyCode::Up));
    }
    assert_eq!(readline.line_state.line, "a");
    readline.set_max_history(2);
    assert!(!readline.history.is_position_in_range());
    assert!(readline.history.can_scroll_forward());
    readline.readline(pressed(KeyCode::Down));
    assert_eq!(readline.line_state.line, "b");
    readline.readline(pressed(KeyCode::Up));
    readline.set_max_history(0);
    assert!(!readline.history.can_scroll_forward());
}

#[test]
fn first_turn_that_does_not_go_on_gives_the_result() {
    let mut readline = new_readline().readline;
    let mut inputs = vec![
        ReadlineInput::Called,
        pressed(KeyCode::Char('a')),
        ReadlineInput::HistoryLine(Some("one".to_string())),
        ReadlineInput::Terminal(None),
        pressed(KeyCode::Char('b')),
        ReadlineInput::HistoryLine(Some("two".to_string())),
        pressed(KeyCode::Char('c')),
        pressed(KeyCode::Enter),
        pressed(KeyCode::Char('d')),
    ]
    .into_iter();
    let mut taken = 0;
    let event = loop {
        taken += 1;
        match readline.readline(inputs.next().unwrap()).control_flow {
            ControlFlow::ReturnOk(event) => break event,
            ControlFlow::ReturnError(_) => panic!("nothing fails"),
            ControlFlow::Continue => {}
        }
    };
    assert_eq!(event, ReadlineEvent::Line("abc".to_string()));
    assert_eq!(taken, 8);
    assert_eq!(readline.line_state.line, "");
    // The lines that came on the way are in the history, the newest first.
    assert_eq!(readline.history.entries, ["two", "one"]);
}
