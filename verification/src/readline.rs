//! Reading lines from a terminal.

use crate::ansi::{
    enable_line_wrap, push_action, write_action, write_clear, ClearType, TerminalAction,
};
use crate::history::{clone_entry_sender, send_entry, History};
use crate::input::{Command, InputEvent};
use crate::line_state::LineState;
use crate::monitor_signal_task::{MonitorEvent, MonitorState, MonitorStep};
use crate::shared_writer::{SharedWriter, Text};
use futures_channel::mpsc::{UnboundedReceiver, UnboundedSender};
use thingbuf::mpsc::Receiver;
use vstd::prelude::*;

verus! {

#[verifier::external_type_specification]
#[verifier::external_body]
pub struct ExIoError(std::io::Error);

/// Errors that end the reading of a line.
#[derive(Debug)]
pub enum ReadlineError {
    /// An internal I/O error occurred.
    IO(std::io::Error),
    /// A line was asked for after all writers were dropped, or the channel of the writers was
    /// closed, and everything that was written to them was already output.
    Closed,
}

impl From<std::io::Error> for ReadlineError {
    fn from(error: std::io::Error) -> (readline_error: Self) {
        ReadlineError::IO(error)
    }
}

impl vstd::std_specs::convert::FromSpecImpl<std::io::Error> for ReadlineError {
    open spec fn obeys_from_spec() -> bool {
        true
    }

    open spec fn from_spec(error: std::io::Error) -> Self {
        ReadlineError::IO(error)
    }
}

/// What reading a line ends with.
#[derive(Debug, PartialEq, Clone)]
pub enum ReadlineEvent {
    /// The user entered a line of text.
    Line(String),
    /// The user pressed Ctrl-D.
    Eof,
    /// The user pressed Ctrl-C.
    Interrupted,
}

/// What reading a line ends with, without its representation.
pub enum ReadlineEventModel {
    /// The user entered a line of text.
    Line(Seq<char>),
    /// The user pressed Ctrl-D.
    Eof,
    /// The user pressed Ctrl-C.
    Interrupted,
}

impl View for ReadlineEvent {
    type V = ReadlineEventModel;

    open spec fn view(&self) -> ReadlineEventModel {
        match *self {
            ReadlineEvent::Line(line) => ReadlineEventModel::Line(line@),
            ReadlineEvent::Eof => ReadlineEventModel::Eof,
            ReadlineEvent::Interrupted => ReadlineEventModel::Interrupted,
        }
    }
}

/// Signals that can be sent to the task that prints.
#[derive(Debug, PartialEq, Eq, Clone, Copy, Structural)]
pub enum ReadlineControlSignal {
    /// Flush the buffer.
    Flush,
    /// Hold back all output.
    Suspend,
    /// Go on with the output.
    Resume,
    /// Take no further output.
    Close,
}

/// What to do after one turn of reading a line.
#[derive(Debug, PartialEq, Clone)]
pub enum ControlFlow<T, E> {
    /// Return a value.
    ReturnOk(T),
    /// Return an error.
    ReturnError(E),
    /// Go on with the next turn.
    Continue,
}

/// What one turn of reading a line does.
pub struct ReadlineTurn {
    /// What is done to the terminal. Once one of the actions fails, the others are left out.
    pub actions: Vec<TerminalAction>,
    /// What to do afterwards, if none of the actions failed.
    pub control_flow: ControlFlow<ReadlineEvent, ReadlineError>,
}

/// Whether a turn tells to go on.
pub open spec fn goes_on(control_flow: ControlFlow<ReadlineEvent, ReadlineError>) -> bool {
    control_flow is Continue
}

/// Whether a turn tells to return this event, or to go on if there is none.
pub open spec fn returns_event(
    control_flow: ControlFlow<ReadlineEvent, ReadlineError>,
    event: Option<ReadlineEventModel>,
) -> bool {
    match event {
        Some(event) => control_flow is ReturnOk && control_flow->ReturnOk_0@ == event,
        None => control_flow is Continue,
    }
}

/// Whether an event that moves through the history ends at an entry, or past the newest one.
pub open spec fn stays_in_history(
    maybe_event: Option<Result<InputEvent, std::io::Error>>,
    history: crate::history::HistoryModel,
) -> bool {
    maybe_event matches Some(Ok(event)) ==> {
        &&& event.command() == Command::HistoryOlder ==> history.position_in_range()
        &&& event.command() == Command::HistoryNewer ==> history.can_scroll_forward()
    }
}

/// Processes what the stream of terminal events yields. An event is handled by the line, and
/// the terminal is flushed; an error is returned; and the end of the stream is passed over.
pub fn process_event(
    maybe_event: Option<Result<InputEvent, std::io::Error>>,
    line_state: &mut LineState,
    history: &mut History,
) -> (turn: ReadlineTurn)
    requires
        old(line_state)@.cursor_in_line(),
        stays_in_history(maybe_event, old(history)@),
    ensures
        match maybe_event {
            Some(Ok(event)) => {
                let handled = old(line_state)@.handled(event, old(history)@);
                &&& final(line_state)@ == handled.state
                &&& final(history)@ == handled.history
                &&& crate::ansi::ops(turn.actions@) == seq![
                    crate::ansi::TerminalOp::Write(handled.output),
                    crate::ansi::TerminalOp::Flush,
                ]
                &&& returns_event(turn.control_flow, handled.event)
            },
            Some(Err(error)) => {
                &&& *final(line_state) == *old(line_state)
                &&& *final(history) == *old(history)
                &&& turn.actions@.len() == 0
                &&& turn.control_flow == ControlFlow::<ReadlineEvent, ReadlineError>::ReturnError(
                    ReadlineError::IO(error),
                )
            },
            None => {
                &&& *final(line_state) == *old(line_state)
                &&& *final(history) == *old(history)
                &&& turn.actions@.len() == 0
                &&& goes_on(turn.control_flow)
            },
        },
        final(history).sender == old(history).sender,
        final(line_state)@.cursor_in_line(),
        crate::line_state::is_boundary(old(line_state)@.line, old(line_state)@.cursor)
            ==> crate::line_state::is_boundary(
            final(line_state)@.line,
            final(line_state)@.cursor,
        ),
        maybe_event matches Some(Ok(event)) ==> event.command() matches Command::Insert(c) ==> old(
            line_state,
        )@.cursor == old(line_state)@.line.len() ==> {
            &&& final(line_state)@.line == old(line_state)@.line.push(c)
            &&& final(line_state)@.cursor == final(line_state)@.line.len()
        },
{
    match maybe_event {
        Some(Ok(event)) => {
            let response = line_state.handle_event(event, history);
            let mut actions: Vec<TerminalAction> = Vec::new();
            let ghost output = response.output@;
            push_action(&mut actions, TerminalAction::Write(response.output));
            push_action(&mut actions, TerminalAction::Flush);
            assert(crate::ansi::ops(actions@) =~= seq![
                crate::ansi::TerminalOp::Write(output),
                crate::ansi::TerminalOp::Flush,
            ]);
            let control_flow = match response.event {
                Some(event) => ControlFlow::ReturnOk(event),
                None => ControlFlow::Continue,
            };
            ReadlineTurn { actions, control_flow }
        },
        Some(Err(error)) => ReadlineTurn {
            actions: Vec::new(),
            control_flow: ControlFlow::ReturnError(ReadlineError::from(error)),
        },
        None => ReadlineTurn { actions: Vec::new(), control_flow: ControlFlow::Continue },
    }
}

/// What to do after a turn, once its actions have been tried: an action that failed ends the
/// reading with its error.
pub open spec fn concluded<T>(
    control_flow: ControlFlow<T, ReadlineError>,
    terminal: Result<(), std::io::Error>,
) -> ControlFlow<T, ReadlineError> {
    match terminal {
        Ok(_) => control_flow,
        Err(error) => ControlFlow::ReturnError(ReadlineError::IO(error)),
    }
}

/// What to do after a turn, once its actions have been tried: an action that failed ends the
/// reading with its error.
pub fn conclude(
    control_flow: ControlFlow<ReadlineEvent, ReadlineError>,
    terminal: Result<(), std::io::Error>,
) -> (conclusion: ControlFlow<ReadlineEvent, ReadlineError>)
    ensures
        conclusion == concluded(control_flow, terminal),
{
    match terminal {
        Ok(_) => control_flow,
        Err(error) => ControlFlow::ReturnError(ReadlineError::from(error)),
    }
}

/// What the reading of a line waits for.
pub enum ReadlineInput {
    /// A line is asked for.
    Called,
    /// The stream of terminal events has yielded something.
    Terminal(Option<Result<InputEvent, std::io::Error>>),
    /// A line is to be offered to the history; `None` once nobody is left to send one.
    HistoryLine(Option<String>),
}

/// What the reading of a line waits for, without its representation.
pub enum ReadlineInputModel {
    /// A line is asked for.
    Called,
    /// The stream of terminal events has yielded something.
    Terminal(Option<Result<InputEvent, std::io::Error>>),
    /// A line is to be offered to the history; `None` once nobody is left to send one.
    HistoryLine(Option<Seq<char>>),
}

impl View for ReadlineInput {
    type V = ReadlineInputModel;

    open spec fn view(&self) -> ReadlineInputModel {
        match *self {
            ReadlineInput::Called => ReadlineInputModel::Called,
            ReadlineInput::Terminal(maybe_event) => ReadlineInputModel::Terminal(maybe_event),
            ReadlineInput::HistoryLine(Some(line)) => ReadlineInputModel::HistoryLine(Some(line@)),
            ReadlineInput::HistoryLine(None) => ReadlineInputModel::HistoryLine(None),
        }
    }
}

/// What to do after a turn, with the event in place of its representation.
pub open spec fn flow_model(
    control_flow: ControlFlow<ReadlineEvent, ReadlineError>,
) -> ControlFlow<ReadlineEventModel, ReadlineError> {
    match control_flow {
        ControlFlow::ReturnOk(event) => ControlFlow::ReturnOk(event@),
        ControlFlow::ReturnError(error) => ControlFlow::ReturnError(error),
        ControlFlow::Continue => ControlFlow::Continue,
    }
}

/// What the reading of lines works on.
#[verifier::ext_equal]
pub struct ReadingModel {
    /// The line that the user is editing.
    pub line: crate::line_state::LineModel,
    /// The input history.
    pub history: crate::history::HistoryModel,
    /// Whether no more texts come from writers, and every text has been printed.
    pub has_ended: bool,
}

impl ReadingModel {
    /// What the reading works on after a turn.
    pub open spec fn after(self, input: ReadlineInputModel) -> ReadingModel {
        match input {
            ReadlineInputModel::Terminal(Some(Ok(event))) => {
                let handled = self.line.handled(event, self.history);
                ReadingModel { line: handled.state, history: handled.history, ..self }
            },
            ReadlineInputModel::HistoryLine(Some(line)) => ReadingModel {
                history: self.history.updated(line),
                ..self
            },
            _ => self,
        }
    }

    /// What to do after a turn, if none of its actions failed. A line that is asked for too
    /// late, and an error of the terminal, end the reading with an error; an event ends it if
    /// the line says so; anything else lets it go on.
    pub open spec fn flow(self, input: ReadlineInputModel) -> ControlFlow<
        ReadlineEventModel,
        ReadlineError,
    > {
        match input {
            ReadlineInputModel::Called => if self.has_ended {
                ControlFlow::ReturnError(ReadlineError::Closed)
            } else {
                ControlFlow::Continue
            },
            ReadlineInputModel::Terminal(Some(Ok(event))) => match self.line.handled(
                event,
                self.history,
            ).event {
                Some(event) => ControlFlow::ReturnOk(event),
                None => ControlFlow::Continue,
            },
            ReadlineInputModel::Terminal(Some(Err(error))) => ControlFlow::ReturnError(
                ReadlineError::IO(error),
            ),
            ReadlineInputModel::Terminal(None) => ControlFlow::Continue,
            ReadlineInputModel::HistoryLine(_) => ControlFlow::Continue,
        }
    }

    /// What is done to the terminal in a turn: what the line writes, and then a flush, for an
    /// event; and nothing otherwise.
    pub open spec fn ops(self, input: ReadlineInputModel) -> Seq<crate::ansi::TerminalOp> {
        match input {
            ReadlineInputModel::Terminal(Some(Ok(event))) => seq![
                crate::ansi::TerminalOp::Write(self.line.handled(event, self.history).output),
                crate::ansi::TerminalOp::Flush,
            ],
            _ => Seq::empty(),
        }
    }
}

/// Reads lines from a terminal while lines are output to the terminal by writers.
pub struct Readline {
    /// The line that the user is editing.
    pub line_state: LineState,
    /// The input history.
    pub history: History,
    /// Takes lines that are to be offered to the history.
    pub history_sender: UnboundedSender<String>,
    /// The state of the task that prints.
    pub monitor: MonitorState,
}

/// A new `Readline` with all that belongs to it.
pub struct NewReadline {
    /// What reads the lines.
    pub readline: Readline,
    /// A writer to the same terminal.
    pub shared_writer: SharedWriter,
    /// Where the texts of writers come out, for the task that prints.
    pub line_receiver: Receiver<Text>,
    /// Where the lines that are to be offered to the history come out.
    pub history_receiver: UnboundedReceiver<String>,
    /// What is done to the terminal. Once one of the actions fails, the others are left out.
    pub actions: Vec<TerminalAction>,
}

impl Readline {
    /// Whether the cursor is within the line.
    pub open spec fn wf(self) -> bool {
        self.line_state@.cursor_in_line()
    }

    /// What the reading of lines works on.
    pub open spec fn reading(self) -> ReadingModel {
        ReadingModel {
            line: self.line_state@,
            history: self.history@,
            has_ended: self.monitor@.has_ended(),
        }
    }

    /// An empty line behind a prompt, on a terminal of the given size, with an associated
    /// writer. The prompt is shown, and the terminal is made to wrap long lines.
    pub fn new(prompt: String, term_size: (u16, u16)) -> (new: NewReadline)
        ensures
            new.readline.wf(),
            new.readline.line_state@ == (crate::line_state::LineModel {
                line: Seq::empty(),
                cursor: 0,
                prompt: prompt@,
                print_on_enter: true,
                print_on_control_c: true,
                term_size,
            }),
            new.readline.history@ == (crate::history::HistoryModel {
                entries: Seq::empty(),
                max_size: crate::history::HISTORY_SIZE_MAX as nat,
                position: None,
            }),
            crate::history::entry_channel(new.readline.history.sender)
                == crate::history::entry_source(new.history_receiver),
            crate::history::sent_entries(new.readline.history.sender) == Seq::<Seq<char>>::empty(),
            !crate::history::known_closed(new.readline.history.sender),
            crate::history::entry_channel(new.readline.history_sender)
                == crate::history::entry_source(new.history_receiver),
            crate::history::sent_entries(new.readline.history_sender) == Seq::<Seq<char>>::empty(),
            !crate::history::known_closed(new.readline.history_sender),
            new.readline.monitor@ == (crate::monitor_signal_task::MonitorModel {
                suspended: false,
                queue: Seq::empty(),
                writers_closed: false,
            }),
            new.shared_writer@ == (crate::shared_writer::WriterModel {
                buffer: Seq::empty(),
                sent: Seq::empty(),
                channel: crate::shared_writer::text_source(new.line_receiver),
            }),
            crate::shared_writer::text_capacity(new.shared_writer.line_sender)
                == crate::shared_writer::CHANNEL_CAPACITY,
            !crate::shared_writer::text_closed(new.shared_writer.line_sender),
            crate::ansi::ops(new.actions@) == seq![
                crate::ansi::write_text(new.readline.line_state@.render_text()),
                crate::ansi::write_text(crate::ansi::enable_line_wrap_sequence()),
                crate::ansi::TerminalOp::Flush,
            ],
    {
        // The channel for the texts of writers.
        let (shared_writer, line_receiver) = SharedWriter::new();

        // Set up the history.
        let (history, history_receiver) = History::new();
        let history_sender = clone_entry_sender(&history.sender);

        // Set up the line.
        let line_state = LineState::new(prompt, term_size);

        // Show the prompt.
        let mut actions: Vec<TerminalAction> = Vec::new();
        push_action(&mut actions, TerminalAction::Write(line_state.render()));
        push_action(&mut actions, enable_line_wrap());
        push_action(&mut actions, TerminalAction::Flush);
        assert(crate::ansi::ops(actions@) =~= seq![
            crate::ansi::write_text(line_state@.render_text()),
            crate::ansi::write_text(crate::ansi::enable_line_wrap_sequence()),
            crate::ansi::TerminalOp::Flush,
        ]);

        let readline = Readline {
            line_state,
            history,
            history_sender,
            monitor: MonitorState::new(),
        };
        NewReadline { readline, shared_writer, line_receiver, history_receiver, actions }
    }

    /// The signal that makes the task take no further texts, so that writers get an error
    /// instead of waiting for something that will never happen.
    pub fn close(&self) -> (signal: ReadlineControlSignal)
        ensures
            signal == ReadlineControlSignal::Close,
    {
        ReadlineControlSignal::Close
    }

    /// The signal that makes the task print all that is held back, and erase the prompt.
    pub fn flush(&self) -> (signal: ReadlineControlSignal)
        ensures
            signal == ReadlineControlSignal::Flush,
    {
        ReadlineControlSignal::Flush
    }

    /// Changes the prompt.
    pub fn update_prompt(&mut self, prompt: &str) -> (actions: Vec<TerminalAction>)
        requires
            old(self).wf(),
        ensures
            final(self).wf(),
            final(self).line_state@ == (crate::line_state::LineModel {
                prompt: prompt@,
                ..old(self).line_state@
            }),
            crate::ansi::ops(actions@) == seq![
                crate::ansi::TerminalOp::Write(
                    final(self).line_state@.replacing(old(self).line_state@),
                ),
            ],
            final(self).history == old(self).history,
            final(self).history_sender == old(self).history_sender,
            final(self).monitor == old(self).monitor,
    {
        let mut actions: Vec<TerminalAction> = Vec::new();
        push_action(&mut actions, TerminalAction::Write(self.line_state.update_prompt(prompt)));
        assert(crate::ansi::ops(actions@) =~= seq![
            crate::ansi::TerminalOp::Write(self.line_state@.replacing(old(self).line_state@)),
        ]);
        actions
    }

    /// Clears the screen, and shows the line anew.
    pub fn clear(&self) -> (actions: Vec<TerminalAction>)
        requires
            self.wf(),
        ensures
            crate::ansi::ops(actions@) == seq![
                crate::ansi::write_text(crate::ansi::clear_sequence(ClearType::All)),
                crate::ansi::TerminalOp::Write(self.line_state@.replacing(self.line_state@)),
                crate::ansi::TerminalOp::Flush,
            ],
    {
        let mut actions: Vec<TerminalAction> = Vec::new();
        let mut out = String::new();
        write_clear(&mut out, ClearType::All);
        assert(out@ =~= crate::ansi::clear_sequence(ClearType::All));
        push_action(&mut actions, write_action(out.as_str()));
        push_action(&mut actions, TerminalAction::Write(self.line_state.clear_and_render()));
        push_action(&mut actions, TerminalAction::Flush);
        assert(crate::ansi::ops(actions@) =~= seq![
            crate::ansi::write_text(crate::ansi::clear_sequence(ClearType::All)),
            crate::ansi::TerminalOp::Write(self.line_state@.replacing(self.line_state@)),
            crate::ansi::TerminalOp::Flush,
        ]);
        actions
    }

    /// Sets the most entries that the history keeps.
    pub fn set_max_history(&mut self, max_size: usize)
        ensures
            final(self).history@ == old(self).history@.resized(max_size as nat),
            final(self).history.sender == old(self).history.sender,
            final(self).line_state == old(self).line_state,
            final(self).history_sender == old(self).history_sender,
            final(self).monitor == old(self).monitor,
    {
        self.history.set_max_size(max_size);
    }

    /// Sets whether the line stays on the screen when the user presses Enter, and when the
    /// user presses Ctrl-C.
    pub fn should_print_line_on(&mut self, enter: bool, control_c: bool)
        ensures
            final(self).line_state@ == (crate::line_state::LineModel {
                print_on_enter: enter,
                print_on_control_c: control_c,
                ..old(self).line_state@
            }),
            final(self).history == old(self).history,
            final(self).history_sender == old(self).history_sender,
            final(self).monitor == old(self).monitor,
    {
        self.line_state.should_print_line_on_enter = enter;
        self.line_state.should_print_line_on_control_c = control_c;
    }

    /// Sends a line that is to be offered to the history; `None` if nobody is left to take it,
    /// and then no later line is taken either.
    pub fn add_history_entry(&mut self, entry: String) -> (sent: Option<()>)
        ensures
            crate::history::entry_channel(final(self).history_sender)
                == crate::history::entry_channel(old(self).history_sender),
            crate::history::sent_entries(final(self).history_sender) == if sent is Some {
                crate::history::sent_entries(old(self).history_sender).push(entry@)
            } else {
                crate::history::sent_entries(old(self).history_sender)
            },
            sent is None <==> crate::history::known_closed(final(self).history_sender),
            crate::history::known_closed(old(self).history_sender) ==> sent is None,
            final(self).line_state == old(self).line_state,
            final(self).history == old(self).history,
            final(self).monitor == old(self).monitor,
    {
        if send_entry(&mut self.history_sender, entry) {
            Some(())
        } else {
            None
        }
    }

    /// One turn of reading a line.
    pub fn readline(&mut self, input: ReadlineInput) -> (turn: ReadlineTurn)
        requires
            old(self).wf(),
            input matches ReadlineInput::Terminal(maybe_event) ==> stays_in_history(
                maybe_event,
                old(self).history@,
            ),
        ensures
            final(self).wf(),
            final(self).monitor == old(self).monitor,
            final(self).history_sender == old(self).history_sender,
            final(self).history.sender == old(self).history.sender,
            final(self).reading() == old(self).reading().after(input@),
            crate::ansi::ops(turn.actions@) == old(self).reading().ops(input@),
            flow_model(turn.control_flow) == old(self).reading().flow(input@),
            !(input is Terminal) ==> final(self).line_state == old(self).line_state,
            crate::line_state::is_boundary(old(self).line_state@.line, old(self).line_state@.cursor)
                ==> crate::line_state::is_boundary(
                final(self).line_state@.line,
                final(self).line_state@.cursor,
            ),
            input matches ReadlineInput::Terminal(Some(Ok(event))) ==> event.command() matches
                Command::Insert(c) ==> old(self).line_state@.cursor == old(
                self,
            ).line_state@.line.len() ==> {
                &&& final(self).line_state@.line == old(self).line_state@.line.push(c)
                &&& final(self).line_state@.cursor == final(self).line_state@.line.len()
            },
    {
        let turn = match input {
            ReadlineInput::Called => if self.monitor.has_ended() {
                ReadlineTurn {
                    actions: Vec::new(),
                    control_flow: ControlFlow::ReturnError(ReadlineError::Closed),
                }
            } else {
                ReadlineTurn { actions: Vec::new(), control_flow: ControlFlow::Continue }
            },
            ReadlineInput::Terminal(maybe_event) => process_event(
                maybe_event,
                &mut self.line_state,
                &mut self.history,
            ),
            ReadlineInput::HistoryLine(maybe_line) => {
                self.history.update(maybe_line);
                ReadlineTurn { actions: Vec::new(), control_flow: ControlFlow::Continue }
            },
        };
        assert(crate::ansi::ops(turn.actions@) =~= old(self).reading().ops(input@));
        turn
    }

    /// What the task that prints does in answer to an event.
    pub fn monitor_event(&mut self, event: MonitorEvent) -> (step: MonitorStep)
        requires
            old(self).wf(),
        ensures
            final(self).wf(),
            final(self).monitor@ == old(self).monitor@.after(event@),
            crate::ansi::ops(step.actions@) == old(self).monitor@.ops(
                event@,
                old(self).line_state@,
            ),
            step.flow == old(self).monitor@.flow(event@),
            final(self).line_state == old(self).line_state,
            final(self).history == old(self).history,
            final(self).history_sender == old(self).history_sender,
    {
        self.monitor.handle_event(event, &self.line_state)
    }
}

/// One turn of reading a line, and how its actions on the terminal went.
pub struct ReadlineStep {
    /// What the turn answers to.
    pub input: ReadlineInputModel,
    /// Whether all actions succeeded, or the error of the one that failed.
    pub terminal: Result<(), std::io::Error>,
}

/// What comes of one call that reads a line.
pub struct Reading {
    /// What the reading of lines works on afterwards.
    pub state: ReadingModel,
    /// How many turns were taken.
    pub taken: nat,
    /// What the call returns; `Continue` if it is still waiting.
    pub result: ControlFlow<ReadlineEventModel, ReadlineError>,
}

/// One call that reads a line: turns are taken one after another, until one of them does not
/// tell to go on.
pub open spec fn reading(state: ReadingModel, steps: Seq<ReadlineStep>) -> Reading
    decreases steps.len(),
{
    if steps.len() == 0 {
        Reading { state, taken: 0, result: ControlFlow::Continue }
    } else {
        let next = state.after(steps[0].input);
        let flow = concluded(state.flow(steps[0].input), steps[0].terminal);
        if flow is Continue {
            let rest = reading(next, steps.skip(1));
            Reading { taken: rest.taken + 1, ..rest }
        } else {
            Reading { state: next, taken: 1, result: flow }
        }
    }
}

/// What the reading of lines works on after some turns.
pub open spec fn after_steps(state: ReadingModel, steps: Seq<ReadlineStep>) -> ReadingModel
    decreases steps.len(),
{
    if steps.len() == 0 {
        state
    } else {
        after_steps(state, steps.drop_last()).after(steps.last().input)
    }
}

/// What one of some turns tells to do.
pub open spec fn step_flow(state: ReadingModel, steps: Seq<ReadlineStep>, i: int) -> ControlFlow<
    ReadlineEventModel,
    ReadlineError,
> {
    concluded(after_steps(state, steps.take(i)).flow(steps[i].input), steps[i].terminal)
}

proof fn lemma_after_steps_from_the_front(state: ReadingModel, steps: Seq<ReadlineStep>)
    requires
        steps.len() > 0,
    ensures
        after_steps(state, steps) == after_steps(state.after(steps[0].input), steps.skip(1)),
    decreases steps.len(),
{
    let earlier = steps.drop_last();
    if earlier.len() > 0 {
        lemma_after_steps_from_the_front(state, earlier);
        assert(steps.skip(1).drop_last() =~= earlier.skip(1));
        assert(steps.skip(1).last() == steps.last());
    } else {
        assert(after_steps(state, earlier) == state);
        assert(steps.skip(1) =~= Seq::<ReadlineStep>::empty());
    }
}

proof fn lemma_step_flow_from_the_front(state: ReadingModel, steps: Seq<ReadlineStep>, i: int)
    requires
        0 < i < steps.len(),
    ensures
        step_flow(state, steps, i) == step_flow(
            state.after(steps[0].input),
            steps.skip(1),
            i - 1,
        ),
{
    lemma_after_steps_from_the_front(state, steps.take(i));
    assert(steps.take(i).skip(1) =~= steps.skip(1).take(i - 1));
    assert(steps.skip(1)[i - 1] == steps[i]);
}

/// The turns before the first one that does not tell to go on cause no return, and that one
/// gives the result: exactly the turns up to it are taken, in order.
pub proof fn law_first_turn_that_does_not_go_on_gives_the_result(
    state: ReadingModel,
    steps: Seq<ReadlineStep>,
    k: int,
)
    requires
        0 <= k < steps.len(),
        forall|i: int| 0 <= i < k ==> #[trigger] step_flow(state, steps, i) is Continue,
        !(step_flow(state, steps, k) is Continue),
    ensures
        reading(state, steps) == (Reading {
            state: after_steps(state, steps.take(k + 1)),
            taken: (k + 1) as nat,
            result: step_flow(state, steps, k),
        }),
    decreases steps.len(),
{
    let next = state.after(steps[0].input);
    let rest = steps.skip(1);
    lemma_after_steps_from_the_front(state, steps.take(k + 1));
    assert(steps.take(k + 1).skip(1) =~= rest.take(k));
    assert(after_steps(state, steps.take(0)) == state);
    if k == 0 {
        assert(after_steps(next, rest.take(0)) == next);
    } else {
        assert(step_flow(state, steps, 0) is Continue);
        assert forall|i: int| 0 <= i < k - 1 implies #[trigger] step_flow(
            next,
            rest,
            i,
        ) is Continue by {
            lemma_step_flow_from_the_front(state, steps, i + 1);
            assert(step_flow(state, steps, i + 1) is Continue);
        }
        lemma_step_flow_from_the_front(state, steps, k);
        law_first_turn_that_does_not_go_on_gives_the_result(next, rest, k - 1);
    }
}

/// As long as all turns tell to go on, all of them are taken, in order, and nothing is returned.
pub proof fn law_reading_goes_on_until_a_turn_ends_it(
    state: ReadingModel,
    steps: Seq<ReadlineStep>,
)
    requires
        forall|i: int| 0 <= i < steps.len() ==> #[trigger] step_flow(state, steps, i) is Continue,
    ensures
        reading(state, steps) == (Reading {
            state: after_steps(state, steps),
            taken: steps.len(),
            result: ControlFlow::Continue,
        }),
    decreases steps.len(),
{
    if steps.len() > 0 {
        let next = state.after(steps[0].input);
        let rest = steps.skip(1);
        assert(after_steps(state, steps.take(0)) == state);
        assert(step_flow(state, steps, 0) is Continue);
        assert forall|i: int| 0 <= i < rest.len() implies #[trigger] step_flow(
            next,
            rest,
            i,
        ) is Continue by {
            lemma_step_flow_from_the_front(state, steps, i + 1);
            assert(step_flow(state, steps, i + 1) is Continue);
        }
        law_reading_goes_on_until_a_turn_ends_it(next, rest);
        lemma_after_steps_from_the_front(state, steps);
    }
}

/// The lines that are offered to the history in some turns, in order.
pub open spec fn offered_in(steps: Seq<ReadlineStep>) -> Seq<Seq<char>>
    decreases steps.len(),
{
    if steps.len() == 0 {
        Seq::empty()
    } else {
        match steps.last().input {
            ReadlineInputModel::HistoryLine(Some(line)) => offered_in(steps.drop_last()).push(line),
            _ => offered_in(steps.drop_last()),
        }
    }
}

/// Whatever else happens between them, each line that comes is offered to the history exactly
/// once, and in order.
pub proof fn law_lines_are_offered_once_in_order(state: ReadingModel, steps: Seq<ReadlineStep>)
    ensures
        after_steps(state, steps).history.entries == crate::history::offered(
            state.history,
            offered_in(steps),
        ).entries,
        after_steps(state, steps).history.max_size == state.history.max_size,
    decreases steps.len(),
{
    if steps.len() > 0 {
        let earlier = steps.drop_last();
        let between = after_steps(state, earlier);
        law_lines_are_offered_once_in_order(state, earlier);
        let lines = offered_in(earlier);
        crate::history::lemma_offered_keeps_max_size(state.history, lines);
        match steps.last().input {
            ReadlineInputModel::HistoryLine(Some(line)) => {
                assert(lines.push(line).drop_last() =~= lines);
                let model = crate::history::offered(state.history, lines);
                assert(model.updated(line).entries =~= between.history.updated(line).entries);
            },
            ReadlineInputModel::Terminal(Some(Ok(event))) => {
                crate::line_state::law_events_keep_settings(between.line, event, between.history);
            },
            _ => {},
        }
    }
}

proof fn lemma_reading_takes_turns_in_order(state: ReadingModel, steps: Seq<ReadlineStep>)
    ensures
        reading(state, steps).taken <= steps.len(),
        reading(state, steps).state == after_steps(
            state,
            steps.take(reading(state, steps).taken as int),
        ),
    decreases steps.len(),
{
    let taken = reading(state, steps).taken as int;
    if steps.len() > 0 {
        let next = state.after(steps[0].input);
        let rest = steps.skip(1);
        lemma_reading_takes_turns_in_order(next, rest);
        lemma_after_steps_from_the_front(state, steps.take(taken));
        assert(steps.take(taken).skip(1) =~= rest.take(taken - 1));
        assert(after_steps(next, rest.take(0)) == next);
    } else {
        assert(steps.take(taken) =~= steps);
    }
}

/// When a call that reads a line returns, the lines that came during it are in the history:
/// each was offered exactly once, and in order. The newest of them that is not empty is the
/// newest entry, unless the history keeps no entries at all.
pub proof fn law_history_holds_the_lines_that_came(
    state: ReadingModel,
    steps: Seq<ReadlineStep>,
    newest: int,
)
    ensures
        ({
            let read = reading(state, steps);
            let lines = offered_in(steps.take(read.taken as int));
            &&& read.state.history.entries == crate::history::offered(state.history, lines).entries
            &&& state.history.max_size > 0 && crate::history::is_newest(lines, newest)
                ==> read.state.history.entries.len() > 0 && read.state.history.entries[0]
                == lines[newest]
        }),
{
    let read = reading(state, steps);
    let lines = offered_in(steps.take(read.taken as int));
    lemma_reading_takes_turns_in_order(state, steps);
    law_lines_are_offered_once_in_order(state, steps.take(read.taken as int));
    if state.history.max_size > 0 && crate::history::is_newest(lines, newest) {
        crate::history::law_newest_line_becomes_the_newest_entry(state.history, lines, newest);
    }
}

/// A line that is offered to the history never makes a call return, and does nothing to the
/// line or to the terminal.
pub proof fn law_history_lines_do_not_end_reading(
    state: ReadingModel,
    maybe_line: Option<Seq<char>>,
)
    ensures
        state.flow(ReadlineInputModel::HistoryLine(maybe_line)) is Continue,
        state.ops(ReadlineInputModel::HistoryLine(maybe_line)).len() == 0,
        state.after(ReadlineInputModel::HistoryLine(maybe_line)).line == state.line,
{
}

/// An event of the terminal does to the line and to the history what the line says, has written
/// what the line says, and ends the reading exactly if the line says so.
pub proof fn law_events_are_handled_by_the_line(state: ReadingModel, event: InputEvent)
    ensures
        ({
            let input = ReadlineInputModel::Terminal(Some(Ok(event)));
            let handled = state.line.handled(event, state.history);
            let ops = state.ops(input);
            &&& state.after(input).line == handled.state
            &&& state.after(input).history == handled.history
            &&& state.after(input).has_ended == state.has_ended
            &&& ops.len() == 2
            &&& ops[0] == crate::ansi::TerminalOp::Write(handled.output)
            &&& ops[1] == crate::ansi::TerminalOp::Flush
            &&& handled.event is None ==> state.flow(input) is Continue
            &&& handled.event matches Some(event) ==> state.flow(input) is ReturnOk
                && state.flow(input)->ReturnOk_0 == event
        }),
{
}

/// What comes of the inputs that are no events: a call goes on unless everything has ended, and
/// then fails with `Closed`; an error of the terminal is returned; the end of the terminal's
/// events and of the history's lines are passed over. None of them changes anything, or touches
/// the terminal. A line that comes is offered to the history, and does nothing else.
pub proof fn law_other_inputs(
    state: ReadingModel,
    error: std::io::Error,
    line: Seq<char>,
)
    ensures
        ({
            let called = ReadlineInputModel::Called;
            let failed = ReadlineInputModel::Terminal(Some(Err(error)));
            let no_event = ReadlineInputModel::Terminal(None);
            let no_line = ReadlineInputModel::HistoryLine(None);
            let offered = ReadlineInputModel::HistoryLine(Some(line));
            &&& state.after(called) == state && state.ops(called).len() == 0
            &&& state.flow(called) == if state.has_ended {
                ControlFlow::<ReadlineEventModel, ReadlineError>::ReturnError(ReadlineError::Closed)
            } else {
                ControlFlow::Continue
            }
            &&& state.after(failed) == state && state.ops(failed).len() == 0
            &&& state.flow(failed) == ControlFlow::<ReadlineEventModel, ReadlineError>::ReturnError(
                ReadlineError::IO(error),
            )
            &&& state.after(no_event) == state && state.ops(no_event).len() == 0
            &&& state.flow(no_event) is Continue
            &&& state.after(no_line) == state && state.ops(no_line).len() == 0
            &&& state.flow(no_line) is Continue
            &&& state.after(offered) == (ReadingModel {
                history: state.history.updated(line),
                ..state
            })
            &&& state.ops(offered).len() == 0
            &&& state.flow(offered) is Continue
        }),
{
}

/// A turn whose actions succeeded ends as it tells to; one with an action that failed ends the
/// reading with the error of that action.
pub proof fn law_failed_actions_end_reading<T>(
    control_flow: ControlFlow<T, ReadlineError>,
    error: std::io::Error,
)
    ensures
        concluded(control_flow, Ok(())) == control_flow,
        concluded(control_flow, Err(error)) == ControlFlow::<T, ReadlineError>::ReturnError(
            ReadlineError::IO(error),
        ),
{
}

/// A turn that tells to return an event returns exactly that one, and one without an event goes
/// on and returns nothing.
pub proof fn law_what_a_turn_returns(
    control_flow: ControlFlow<ReadlineEvent, ReadlineError>,
    event: Option<ReadlineEventModel>,
)
    ensures
        returns_event(control_flow, event) <==> match (control_flow, event) {
            (ControlFlow::ReturnOk(returned), Some(event)) => returned@ == event,
            (ControlFlow::Continue, None) => true,
            _ => false,
        },
        goes_on(control_flow) <==> control_flow is Continue,
{
}

/// The model of what the reading works on holds what the fields hold; those of an event, of an
/// input and of what a turn tells to do hold the same as these.
pub proof fn law_models_of_reading(
    readline: Readline,
    event: ReadlineEvent,
    input: ReadlineInput,
    control_flow: ControlFlow<ReadlineEvent, ReadlineError>,
)
    ensures
        readline.reading().line == readline.line_state@,
        readline.reading().history == readline.history@,
        readline.reading().has_ended == (readline.monitor.writers_closed
            && readline.monitor.queue_paused_text@.len() == 0),
        event@ == match event {
            ReadlineEvent::Line(line) => ReadlineEventModel::Line(line@),
            ReadlineEvent::Eof => ReadlineEventModel::Eof,
            ReadlineEvent::Interrupted => ReadlineEventModel::Interrupted,
        },
        input@ == match input {
            ReadlineInput::Called => ReadlineInputModel::Called,
            ReadlineInput::Terminal(maybe_event) => ReadlineInputModel::Terminal(maybe_event),
            ReadlineInput::HistoryLine(Some(line)) => ReadlineInputModel::HistoryLine(Some(line@)),
            ReadlineInput::HistoryLine(None) => ReadlineInputModel::HistoryLine(None),
        },
        flow_model(control_flow) == match control_flow {
            ControlFlow::ReturnOk(event) => ControlFlow::ReturnOk(event@),
            ControlFlow::ReturnError(error) => ControlFlow::ReturnError(error),
            ControlFlow::Continue => ControlFlow::Continue,
        },
{
}

} // verus!
