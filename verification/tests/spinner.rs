use r3bl_terminal_async::abort_handle;
use r3bl_terminal_async::ansi::TerminalAction;
use r3bl_terminal_async::readline::ReadlineControlSignal;
use r3bl_terminal_async::spinner::{Spinner, SpinnerError, StdoutIsPipedResult, TTYResult};
use r3bl_terminal_async::spinner_render::SpinnerRender;
use r3bl_terminal_async::spinner_style::{
    SpinnerStyle, SpinnerTemplate, BLOCK_DOTS, BRAILLE_DOTS,
};
use std::time::Duration;

fn style(template: SpinnerTemplate) -> SpinnerStyle {
    SpinnerStyle { template }
}

fn shown(text: &str) -> Vec<TerminalAction> {
    vec![
        TerminalAction::Write(text.as_bytes().to_vec()),
        TerminalAction::Flush,
        TerminalAction::Flush,
    ]
}

fn start(template: SpinnerTemplate) -> Spinner<u32> {
    Spinner::try_start(
        "working".to_string(),
        Duration::from_millis(100),
        style(template),
        StdoutIsPipedResult::StdoutIsNotPiped,
        TTYResult::IsInteractive,
    )
    .unwrap()
}

#[test]
fn dots_grow_with_the_count() {
    let dots = style(SpinnerTemplate::Dots);
    assert_eq!(dots.render_tick("working", 0, 0), "working");
    assert_eq!(dots.render_tick("working", 1, 0), "working.");
    assert_eq!(dots.render_tick("working", 5, 80), "working.....");
}

#[test]
fn braille_and_blocks_come_around() {
    let braille = style(SpinnerTemplate::Braille);
    let block = style(SpinnerTemplate::Block);
    for count in 0..20 {
        assert_eq!(
            braille.render_tick("m", count, 0),
            format!("{} m", BRAILLE_DOTS[count % BRAILLE_DOTS.len()])
        );
        assert_eq!(
            block.render_tick("m", count, 0),
            format!("{} m", BLOCK_DOTS[count % BLOCK_DOTS.len()])
        );
    }
    assert_eq!(
        braille.render_tick("m", 3 + BRAILLE_DOTS.len(), 0),
        braille.render_tick("m", 3, 0)
    );
    assert_eq!(braille.render_tick("m", 0, 0), "\u{2801} m");
}

#[test]
fn ticks_are_painted_over_each_other() {
    assert_eq!(
        style(SpinnerTemplate::Dots).paint_tick("x.."),
        shown("\x1b[1Gx..\n\x1b[1A")
    );
    assert_eq!(
        style(SpinnerTemplate::Braille).paint_tick("x"),
        shown("\x1b[1G\x1b[2Kx\n\x1b[1A")
    );
    assert_eq!(
        style(SpinnerTemplate::Block).paint_tick("x"),
        shown("\x1b[1G\x1b[2Kx\n\x1b[1A")
    );
}

#[test]
fn end_is_painted_over_the_last_tick() {
    for template in [
        SpinnerTemplate::Dots,
        SpinnerTemplate::Braille,
        SpinnerTemplate::Block,
    ] {
        let style = style(template);
        assert_eq!(style.render_final_tick("done", 0), "done");
        assert_eq!(style.paint_final_tick("done"), shown("\x1b[1G\x1b[2Kdone\n"));
    }
}

#[test]
fn default_style_is_braille() {
    assert_eq!(SpinnerStyle::default().template, SpinnerTemplate::Braille);
}

#[test]
fn abort_handle_is_taken_once() {
    let mut handle: Option<u32> = None;
    assert!(abort_handle::is_unset(&handle));
    assert!(!abort_handle::is_set(&handle));
    abort_handle::set(&mut handle, 7);
    assert!(abort_handle::is_set(&handle));
    abort_handle::set(&mut handle, 8);
    assert_eq!(abort_handle::try_unset(&mut handle), Some(8));
    assert!(abort_handle::is_unset(&handle));
    assert_eq!(abort_handle::try_unset(&mut handle), None);
}

#[test]
fn spinner_needs_an_interactive_terminal() {
    for (stdout, tty, starts) in [
        (
            StdoutIsPipedResult::StdoutIsPiped,
            TTYResult::IsInteractive,
            false,
        ),
        (
            StdoutIsPipedResult::StdoutIsPiped,
            TTYResult::IsNotInteractive,
            false,
        ),
        (
            StdoutIsPipedResult::StdoutIsNotPiped,
            TTYResult::IsNotInteractive,
            false,
        ),
        (
            StdoutIsPipedResult::StdoutIsNotPiped,
            TTYResult::IsInteractive,
            true,
        ),
    ] {
        let spinner: Option<Spinner<u32>> = Spinner::try_start(
            "m".to_string(),
            Duration::from_millis(1),
            SpinnerStyle::default(),
            stdout,
            tty,
        );
        assert_eq!(spinner.is_some(), starts);
    }
}

#[test]
fn running_spinner_cannot_be_started_again() {
    let mut spinner = start(SpinnerTemplate::Dots);
    assert_eq!(spinner.message, "working");
    assert_eq!(spinner.tick_delay, Duration::from_millis(100));
    assert!(spinner.try_start_task().is_ok());
    assert_eq!(spinner.started(1), ReadlineControlSignal::Suspend);
    match spinner.try_start_task() {
        Err(error) => {
            assert_eq!(error, SpinnerError::TaskAlreadyRunning);
            assert_eq!(error.message(), "Task is already running");
        }
        Ok(_) => panic!("the task is already running"),
    }
}

#[test]
fn spinner_ticks_until_it_is_stopped() {
    let mut spinner = start(SpinnerTemplate::Dots);
    let mut task = spinner.try_start_task().unwrap();
    assert_eq!(task.tick_delay, Duration::from_millis(100));
    spinner.started(5);
    assert_eq!(
        task.tick(&spinner.abort_handle),
        Some(shown("\x1b[1Gworking\n\x1b[1A"))
    );
    assert_eq!(
        task.tick(&spinner.abort_handle),
        Some(shown("\x1b[1Gworking.\n\x1b[1A"))
    );
    assert_eq!(task.count, 2);

    let stop = spinner.stop("all done").unwrap();
    assert_eq!(stop.abort_handle, 5);
    assert_eq!(stop.actions, shown("\x1b[1G\x1b[2Kall done\n"));
    assert_eq!(stop.signal, ReadlineControlSignal::Resume);

    assert_eq!(task.tick(&spinner.abort_handle), None);
    assert_eq!(task.count, 2);
    assert!(spinner.stop("again").is_none());
    assert!(spinner.try_start_task().is_ok());
}
