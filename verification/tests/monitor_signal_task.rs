use r3bl_terminal_async::ansi::TerminalAction;
use r3bl_terminal_async::line_state::LineState;
use r3bl_terminal_async::monitor_signal_task::{MonitorEvent, MonitorFlow, MonitorState};
use r3bl_terminal_async::readline::ReadlineControlSignal;

fn write(text: &str) -> TerminalAction {
    TerminalAction::Write(text.as_bytes().to_vec())
}

fn printed(text: &str) -> TerminalAction {
    write(&format!("\x1b[1G\x1b[J{}\n\x1b[1G> \x1b[3G", text))
}

fn rendered() -> TerminalAction {
    write("\x1b[1G\x1b[J> \x1b[3G")
}

fn erased() -> TerminalAction {
    write("\x1b[1G\x1b[J")
}

fn text(text: &str) -> MonitorEvent {
    MonitorEvent::Text(Some(format!("{}\n", text).into_bytes()))
}

fn signal(signal: ReadlineControlSignal) -> MonitorEvent {
    MonitorEvent::Signal(Some(signal))
}

fn line() -> LineState {
    LineState::new("> ".to_string(), (80, 24))
}

#[test]
fn text_is_printed_above_the_prompt() {
    let mut monitor = MonitorState::new();
    let step = monitor.handle_event(text("hello"), &line());
    assert_eq!(
        step.actions,
        vec![printed("hello"), rendered(), TerminalAction::Flush]
    );
    assert_eq!(step.flow, MonitorFlow::Continue);
    assert_eq!(monitor.queue_paused_text.len(), 0);
}

#[test]
fn suspended_text_is_held_back_until_output_goes_on() {
    let mut monitor = MonitorState::new();
    let step = monitor.handle_event(signal(ReadlineControlSignal::Suspend), &line());
    assert_eq!(step.actions, Vec::new());
    assert_eq!(step.flow, MonitorFlow::Continue);
    assert!(monitor.is_suspended);

    for held in ["one", "two"] {
        let step = monitor.handle_event(text(held), &line());
        assert_eq!(step.actions, Vec::new());
    }
    assert_eq!(monitor.queue_paused_text.len(), 2);

    let step = monitor.handle_event(signal(ReadlineControlSignal::Resume), &line());
    assert_eq!(
        step.actions,
        vec![
            printed("one"),
            printed("two"),
            erased(),
            TerminalAction::Flush
        ]
    );
    assert!(!monitor.is_suspended);
    assert_eq!(monitor.queue_paused_text.len(), 0);

    // Nothing is printed twice.
    let step = monitor.handle_event(signal(ReadlineControlSignal::Flush), &line());
    assert_eq!(step.actions, vec![erased(), TerminalAction::Flush]);
}

#[test]
fn flush_prints_what_is_held_back_and_stays_suspended() {
    let mut monitor = MonitorState::new();
    monitor.handle_event(signal(ReadlineControlSignal::Suspend), &line());
    monitor.handle_event(text("one"), &line());
    let step = monitor.handle_event(signal(ReadlineControlSignal::Flush), &line());
    assert_eq!(
        step.actions,
        vec![printed("one"), erased(), TerminalAction::Flush]
    );
    assert!(monitor.is_suspended);
    assert_eq!(monitor.queue_paused_text.len(), 0);
    let step = monitor.handle_event(text("two"), &line());
    assert_eq!(step.actions, Vec::new());
    assert_eq!(monitor.queue_paused_text.len(), 1);
}

#[test]
fn flush_erases_the_prompt() {
    let mut monitor = MonitorState::new();
    let step = monitor.handle_event(signal(ReadlineControlSignal::Flush), &line());
    assert_eq!(step.actions, vec![erased(), TerminalAction::Flush]);
    assert_eq!(step.flow, MonitorFlow::Continue);
}

#[test]
fn close_takes_no_further_texts() {
    let mut monitor = MonitorState::new();
    let step = monitor.handle_event(signal(ReadlineControlSignal::Close), &line());
    assert_eq!(step.actions, Vec::new());
    assert_eq!(step.flow, MonitorFlow::CloseLines);
    assert!(!monitor.writers_closed);
}

#[test]
fn task_ends_with_its_channels() {
    let mut monitor = MonitorState::new();
    let step = monitor.handle_event(MonitorEvent::Signal(None), &line());
    assert_eq!(step.actions, Vec::new());
    assert_eq!(step.flow, MonitorFlow::Break);
    assert!(!monitor.writers_closed);
    let step = monitor.handle_event(MonitorEvent::Text(None), &line());
    assert_eq!(step.actions, Vec::new());
    assert_eq!(step.flow, MonitorFlow::Break);
    assert!(monitor.writers_closed);
}

#[test]
fn task_ends_only_when_every_text_has_been_printed() {
    for last in [ReadlineControlSignal::Flush, ReadlineControlSignal::Resume] {
        let mut monitor = MonitorState::new();
        monitor.handle_event(signal(ReadlineControlSignal::Suspend), &line());
        monitor.handle_event(text("one"), &line());
        let step = monitor.handle_event(MonitorEvent::Text(None), &line());
        assert_eq!(step.flow, MonitorFlow::Continue);
        assert_eq!(step.actions, Vec::new());
        assert!(!monitor.has_ended());
        let step = monitor.handle_event(signal(last), &line());
        assert_eq!(
            step.actions,
            vec![printed("one"), erased(), TerminalAction::Flush]
        );
        assert_eq!(step.flow, MonitorFlow::Break);
        assert!(monitor.has_ended());
    }
}
