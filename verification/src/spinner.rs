//! A spinner: when it starts, what it shows while it runs, and how it stops.

use crate::abort_handle;
use crate::ansi::TerminalAction;
use crate::readline::ReadlineControlSignal;
use crate::spinner_render::SpinnerRender;
use crate::spinner_style::SpinnerStyle;
use std::time::Duration;
use vstd::prelude::*;

verus! {

/// Whether the standard output is a pipe.
#[derive(Clone, Copy, Debug, PartialEq, Eq, Structural)]
pub enum StdoutIsPipedResult {
    /// It is.
    StdoutIsPiped,
    /// It is not.
    StdoutIsNotPiped,
}

/// Whether at least one of the standard streams is a terminal.
#[derive(Clone, Copy, Debug, PartialEq, Eq, Structural)]
pub enum TTYResult {
    /// At least one is.
    IsInteractive,
    /// None is.
    IsNotInteractive,
}

/// Why a spinner could not start.
#[derive(Clone, Copy, Debug, PartialEq, Eq, Structural)]
pub enum SpinnerError {
    /// Its task is already running.
    TaskAlreadyRunning,
}

impl SpinnerError {
    /// The error in words.
    pub fn message(&self) -> (text: &'static str)
        ensures
            text@ == "Task is already running"@,
    {
        "Task is already running"
    }
}

/// A spinner; `H` is the type of handles by which its task can be aborted.
pub struct Spinner<H> {
    /// The time between two ticks.
    pub tick_delay: Duration,
    /// The message that is shown while the task runs.
    pub message: String,
    /// Set when the task is started; when the task is stopped, set to `None`.
    pub abort_handle: Option<H>,
    /// How the spinner looks.
    pub style: SpinnerStyle,
}

/// The task that shows a spinner, between two ticks.
pub struct SpinnerTask {
    /// The time between two ticks.
    pub tick_delay: Duration,
    /// The message that is shown.
    pub message: String,
    /// How the spinner looks.
    pub style: SpinnerStyle,
    /// How many ticks have been shown.
    pub count: usize,
}

/// What stopping a running spinner consists of, in the order of the fields.
pub struct SpinnerStop<H> {
    /// The task that is to be aborted.
    pub abort_handle: H,
    /// What shows the final message. Once one of the actions fails, the others are left out,
    /// but for the last one, which is done in any case.
    pub actions: Vec<TerminalAction>,
    /// What lets the output of the terminal go on.
    pub signal: ReadlineControlSignal,
}

impl<H> Spinner<H> {
    /// Whether a spinner can be shown: not if the standard output is a pipe, nor if none of
    /// the standard streams is a terminal.
    pub open spec fn can_show(stdout: StdoutIsPipedResult, tty: TTYResult) -> bool {
        stdout == StdoutIsPipedResult::StdoutIsNotPiped && tty == TTYResult::IsInteractive
    }

    /// The spinner once its task has been started.
    pub open spec fn after_start(self, handle: H) -> Spinner<H> {
        Spinner { abort_handle: Some(handle), ..self }
    }

    /// The spinner once it has been stopped.
    pub open spec fn after_stop(self) -> Spinner<H> {
        Spinner { abort_handle: None, ..self }
    }

    /// A spinner that is about to start, or `None` if the terminal is not fully interactive.
    /// Its task is started next, and the handle of the task is then given to `started`.
    pub fn try_start(
        spinner_message: String,
        tick_delay: Duration,
        style: SpinnerStyle,
        stdout: StdoutIsPipedResult,
        tty: TTYResult,
    ) -> (spinner: Option<Spinner<H>>)
        ensures
            spinner == if Self::can_show(stdout, tty) {
                Some(
                    Spinner::<H> {
                        tick_delay,
                        message: spinner_message,
                        abort_handle: None,
                        style,
                    },
                )
            } else {
                None
            },
    {
        if let StdoutIsPipedResult::StdoutIsPiped = stdout {
            return None;
        }
        if let TTYResult::IsNotInteractive = tty {
            return None;
        }
        // Only start the task if the terminal is fully interactive.
        Some(Spinner { tick_delay, message: spinner_message, abort_handle: None, style })
    }

    /// The task that shows the spinner; an error if it is already running.
    pub fn try_start_task(&self) -> (task: Result<SpinnerTask, SpinnerError>)
        ensures
            task == if self.abort_handle is Some {
                Err(SpinnerError::TaskAlreadyRunning)
            } else {
                Ok(
                    SpinnerTask {
                        tick_delay: self.tick_delay,
                        message: self.message,
                        style: self.style,
                        count: 0,
                    },
                )
            },
    {
        if abort_handle::is_set(&self.abort_handle) {
            return Err(SpinnerError::TaskAlreadyRunning);
        }
        Ok(
            SpinnerTask {
                tick_delay: self.tick_delay,
                message: self.message.clone(),
                style: self.style,
                count: 0,
            },
        )
    }

    /// Keeps the handle of the task that was started. The signal is to be sent next: the
    /// output of the terminal is held back while the spinner is running.
    pub fn started(&mut self, handle: H) -> (signal: ReadlineControlSignal)
        ensures
            *final(self) == old(self).after_start(handle),
            signal == ReadlineControlSignal::Suspend,
    {
        abort_handle::set(&mut self.abort_handle, handle);
        ReadlineControlSignal::Suspend
    }

    /// Stops the spinner, if it is running: its task is aborted, the final message takes the
    /// place of the spinner, and the output of the terminal goes on. Does nothing otherwise.
    pub fn stop(&mut self, final_message: &str) -> (stop: Option<SpinnerStop<H>>)
        ensures
            *final(self) == old(self).after_stop(),
            match old(self).abort_handle {
                Some(handle) => {
                    &&& stop is Some
                    &&& stop->0.abort_handle == handle
                    &&& crate::ansi::ops(stop->0.actions@)
                        == crate::spinner_render::write_and_flush(
                        old(self).style.painted_final_tick(final_message@),
                    )
                    &&& stop->0.signal == ReadlineControlSignal::Resume
                },
                None => stop is None,
            },
    {
        match abort_handle::try_unset(&mut self.abort_handle) {
            Some(handle) => {
                let final_output = self.style.render_final_tick(final_message, 0);
                let actions = self.style.paint_final_tick(final_output.as_str());
                Some(
                    SpinnerStop {
                        abort_handle: handle,
                        actions,
                        signal: ReadlineControlSignal::Resume,
                    },
                )
            },
            None => None,
        }
    }
}

impl SpinnerTask {
    /// The task after one more tick.
    pub open spec fn after_tick(self) -> SpinnerTask {
        SpinnerTask { count: (self.count + 1) as usize, ..self }
    }

    /// One tick, once the delay is over: what is done to the terminal, or `None` if the task
    /// ends because the handle of the spinner has been unset. Once one of the actions fails, the
    /// others are left out, but for the last one, which is done in any case.
    pub fn tick<H>(&mut self, abort_handle: &Option<H>) -> (actions: Option<Vec<TerminalAction>>)
        requires
            abort_handle is Some ==> old(self).count < usize::MAX,
        ensures
            match *abort_handle {
                None => actions is None && *final(self) == *old(self),
                Some(_) => {
                    &&& actions is Some
                    &&& crate::ansi::ops(actions->0@) == crate::spinner_render::write_and_flush(
                        old(self).style.painted_tick(
                            old(self).style.tick_text(old(self).message@, old(self).count as nat),
                        ),
                    )
                    &&& *final(self) == old(self).after_tick()
                },
            },
    {
        // The spinner has been stopped.
        if abort_handle::is_unset(abort_handle) {
            return None;
        }
        // Show the output, based on the style.
        let output = self.style.render_tick(self.message.as_str(), self.count, 0);
        let actions = self.style.paint_tick(output.as_str());

        // The next tick looks different.
        self.count += 1;
        Some(actions)
    }
}

/// Stopping undoes starting: the spinner can be started again, and the task that ran ends at
/// its next tick. Stopping once more changes nothing.
pub proof fn law_stop_undoes_start<H>(spinner: Spinner<H>, handle: H)
    requires
        spinner.abort_handle is None,
    ensures
        spinner.after_start(handle).abort_handle == Some(handle),
        spinner.after_start(handle).after_stop() == spinner,
        spinner.after_start(handle).after_stop().after_stop() == spinner,
{
}

/// The task after some more ticks.
pub open spec fn after_ticks(task: SpinnerTask, ticks: nat) -> SpinnerTask
    decreases ticks,
{
    if ticks == 0 {
        task
    } else {
        after_ticks(task, (ticks - 1) as nat).after_tick()
    }
}

/// Ticks change nothing but the count, which tells how many there were.
pub proof fn law_ticks_are_counted(task: SpinnerTask, ticks: nat)
    requires
        task.count + ticks <= usize::MAX,
    ensures
        after_ticks(task, ticks) == (SpinnerTask { count: (task.count + ticks) as usize, ..task }),
    decreases ticks,
{
    if ticks > 0 {
        law_ticks_are_counted(task, (ticks - 1) as nat);
    }
}

/// A spinner is shown exactly on a terminal that is fully interactive: a pipe on the standard
/// output, or no terminal on any of the standard streams, each rule it out.
pub proof fn law_spinner_needs_a_terminal<H>(stdout: StdoutIsPipedResult, tty: TTYResult)
    ensures
        stdout == StdoutIsPipedResult::StdoutIsPiped ==> !Spinner::<H>::can_show(stdout, tty),
        tty == TTYResult::IsNotInteractive ==> !Spinner::<H>::can_show(stdout, tty),
        stdout == StdoutIsPipedResult::StdoutIsNotPiped && tty == TTYResult::IsInteractive
            ==> Spinner::<H>::can_show(stdout, tty),
{
}

/// Starting, stopping and ticking change nothing but the handle and the count.
pub proof fn law_spinner_keeps_its_looks<H>(spinner: Spinner<H>, handle: H, task: SpinnerTask)
    requires
        task.count < usize::MAX,
    ensures
        ({
            let started = spinner.after_start(handle);
            let stopped = spinner.after_stop();
            let ticked = task.after_tick();
            &&& started.abort_handle == Some(handle)
            &&& started.message == spinner.message && started.tick_delay == spinner.tick_delay
                && started.style == spinner.style
            &&& stopped.abort_handle is None
            &&& stopped.message == spinner.message && stopped.tick_delay == spinner.tick_delay
                && stopped.style == spinner.style
            &&& ticked.count == task.count + 1
            &&& ticked.message == task.message && ticked.tick_delay == task.tick_delay
                && ticked.style == task.style
        }),
{
}

} // verus!
