//! The task that prints what writers hand over, and that heeds control signals.

use crate::ansi::{push_action, TerminalAction};
use crate::line_state::LineState;
use crate::readline::ReadlineControlSignal;
use crate::shared_writer::Text;
use vstd::prelude::*;

verus! {

/// What the task waits for.
#[derive(Debug, PartialEq, Eq)]
pub enum MonitorEvent {
    /// A text from a writer; `None` once no more texts come, because all writers are gone or
    /// their channel has been closed.
    Text(Option<Text>),
    /// A control signal; `None` once nobody is left to send one.
    Signal(Option<ReadlineControlSignal>),
}

/// What the task waits for, without its representation.
pub enum MonitorEventModel {
    /// A text from a writer; `None` once no more texts come, because all writers are gone or
    /// their channel has been closed.
    Text(Option<Seq<u8>>),
    /// A control signal; `None` once nobody is left to send one.
    Signal(Option<ReadlineControlSignal>),
}

impl View for MonitorEvent {
    type V = MonitorEventModel;

    open spec fn view(&self) -> MonitorEventModel {
        match *self {
            MonitorEvent::Text(Some(text)) => MonitorEventModel::Text(Some(text@)),
            MonitorEvent::Text(None) => MonitorEventModel::Text(None),
            MonitorEvent::Signal(signal) => MonitorEventModel::Signal(signal),
        }
    }
}

/// How the task goes on.
#[derive(Clone, Copy, Debug, PartialEq, Eq, Structural)]
pub enum MonitorFlow {
    /// Wait for the next event.
    Continue,
    /// Take no further texts from writers, and wait for the next event.
    CloseLines,
    /// End the task.
    Break,
}

/// What the task does in answer to an event.
pub struct MonitorStep {
    /// What is done to the terminal. Should one of the actions fail, the others are still done.
    pub actions: Vec<TerminalAction>,
    /// How the task goes on afterwards.
    pub flow: MonitorFlow,
}

/// The state of the task, without its representation.
#[verifier::ext_equal]
pub struct MonitorModel {
    /// Whether output is held back.
    pub suspended: bool,
    /// The texts that are held back, oldest first.
    pub queue: Seq<Seq<u8>>,
    /// Whether no more texts come, because all writers are gone or their channel has been
    /// closed, and every text has been taken.
    pub writers_closed: bool,
}

/// The texts of a sequence of byte vectors.
pub open spec fn byte_texts(texts: Seq<Text>) -> Seq<Seq<u8>> {
    texts.map_values(|text: Text| text@)
}

/// Showing each of some texts above the prompt.
pub open spec fn print_ops(
    texts: Seq<Seq<u8>>,
    line: crate::line_state::LineModel,
) -> Seq<crate::ansi::TerminalOp> {
    texts.map_values(
        |text: Seq<u8>| crate::ansi::TerminalOp::Write(line.print_bytes(text)),
    )
}

impl MonitorModel {
    /// Whether nothing is held back but while output is suspended.
    pub open spec fn holds_back_only_while_suspended(self) -> bool {
        !self.suspended ==> self.queue.len() == 0
    }

    /// Whether no more texts come, and every text has been printed.
    pub open spec fn has_ended(self) -> bool {
        self.writers_closed && self.queue.len() == 0
    }

    /// The state after a signal.
    pub open spec fn after_signal(self, signal: ReadlineControlSignal) -> MonitorModel {
        match signal {
            ReadlineControlSignal::Flush => MonitorModel { queue: Seq::empty(), ..self },
            ReadlineControlSignal::Suspend => MonitorModel { suspended: true, ..self },
            ReadlineControlSignal::Resume => MonitorModel {
                suspended: false,
                queue: Seq::empty(),
                ..self
            },
            ReadlineControlSignal::Close => self,
        }
    }

    /// The state after a text.
    pub open spec fn after_text(self, text: Seq<u8>) -> MonitorModel {
        if self.suspended {
            MonitorModel { queue: self.queue.push(text), ..self }
        } else {
            self
        }
    }

    /// The state after an event.
    pub open spec fn after(self, event: MonitorEventModel) -> MonitorModel {
        match event {
            MonitorEventModel::Text(Some(text)) => self.after_text(text),
            MonitorEventModel::Text(None) => MonitorModel { writers_closed: true, ..self },
            MonitorEventModel::Signal(Some(signal)) => self.after_signal(signal),
            MonitorEventModel::Signal(None) => self,
        }
    }

    /// The texts that are printed in answer to an event.
    pub open spec fn printed(self, event: MonitorEventModel) -> Seq<Seq<u8>> {
        match event {
            MonitorEventModel::Text(Some(text)) => if self.suspended {
                Seq::empty()
            } else {
                seq![text]
            },
            MonitorEventModel::Signal(Some(ReadlineControlSignal::Flush)) => self.queue,
            MonitorEventModel::Signal(Some(ReadlineControlSignal::Resume)) => self.queue,
            _ => Seq::empty(),
        }
    }

    /// What is done to the terminal in answer to an event: texts are printed; then, after a
    /// text, the line is shown anew, and after a flush it is erased; and then the terminal is
    /// flushed.
    pub open spec fn ops(
        self,
        event: MonitorEventModel,
        line: crate::line_state::LineModel,
    ) -> Seq<crate::ansi::TerminalOp> {
        let printed = print_ops(self.printed(event), line);
        match event {
            MonitorEventModel::Text(Some(text)) => if self.suspended {
                Seq::empty()
            } else {
                printed + seq![
                    crate::ansi::TerminalOp::Write(line.replacing(line)),
                    crate::ansi::TerminalOp::Flush,
                ]
            },
            MonitorEventModel::Signal(Some(ReadlineControlSignal::Flush)) => printed
                + erase_ops(line),
            MonitorEventModel::Signal(Some(ReadlineControlSignal::Resume)) => printed
                + erase_ops(line),
            _ => Seq::empty(),
        }
    }

    /// How the task goes on after an event. It ends once no more texts come and every text has
    /// been printed: texts that are held back are waited for until they are let go. It also
    /// ends once nobody is left to let them go.
    pub open spec fn flow(self, event: MonitorEventModel) -> MonitorFlow {
        match event {
            MonitorEventModel::Text(None) => if self.queue.len() == 0 {
                MonitorFlow::Break
            } else {
                MonitorFlow::Continue
            },
            MonitorEventModel::Signal(None) => MonitorFlow::Break,
            MonitorEventModel::Signal(Some(ReadlineControlSignal::Flush)) => self.flow_after_flush(),
            MonitorEventModel::Signal(Some(ReadlineControlSignal::Resume)) => {
                self.flow_after_flush()
            },
            MonitorEventModel::Signal(Some(ReadlineControlSignal::Close)) => {
                MonitorFlow::CloseLines
            },
            _ => MonitorFlow::Continue,
        }
    }

    /// How the task goes on once nothing is held back any more.
    pub open spec fn flow_after_flush(self) -> MonitorFlow {
        if self.writers_closed {
            MonitorFlow::Break
        } else {
            MonitorFlow::Continue
        }
    }
}

/// Erasing the line, and flushing the terminal.
pub open spec fn erase_ops(line: crate::line_state::LineModel) -> Seq<crate::ansi::TerminalOp> {
    seq![crate::ansi::write_text(line.clear_text()), crate::ansi::TerminalOp::Flush]
}

/// The state of the task.
pub struct MonitorState {
    /// Whether output is held back.
    pub is_suspended: bool,
    /// The texts that are held back, oldest first.
    pub queue_paused_text: Vec<Text>,
    /// Whether no more texts come, because all writers are gone or their channel has been
    /// closed, and every text has been taken.
    pub writers_closed: bool,
}

impl View for MonitorState {
    type V = MonitorModel;

    open spec fn view(&self) -> MonitorModel {
        MonitorModel {
            suspended: self.is_suspended,
            queue: byte_texts(self.queue_paused_text@),
            writers_closed: self.writers_closed,
        }
    }
}

impl MonitorState {
    /// The state at the start: nothing is held back.
    pub fn new() -> (state: MonitorState)
        ensures
            state@ == (MonitorModel {
                suspended: false,
                queue: Seq::empty(),
                writers_closed: false,
            }),
    {
        let state = MonitorState {
            is_suspended: false,
            queue_paused_text: Vec::new(),
            writers_closed: false,
        };
        assert(state@.queue =~= Seq::empty());
        state
    }

    /// Whether no more texts come, and every text has been printed.
    pub fn has_ended(&self) -> (ended: bool)
        ensures
            ended == self@.has_ended(),
    {
        self.writers_closed && self.queue_paused_text.len() == 0
    }

    /// What the task does in answer to an event.
    pub fn handle_event(&mut self, event: MonitorEvent, line_state: &LineState) -> (step:
        MonitorStep)
        requires
            line_state@.cursor_in_line(),
        ensures
            final(self)@ == old(self)@.after(event@),
            crate::ansi::ops(step.actions@) == old(self)@.ops(event@, line_state@),
            step.flow == old(self)@.flow(event@),
    {
        match event {
            // Got some text, print it.
            MonitorEvent::Text(Some(text)) => MonitorStep {
                actions: self.handle_text(text, line_state),
                flow: MonitorFlow::Continue,
            },
            // No more texts come.
            MonitorEvent::Text(None) => {
                self.writers_closed = true;
                // Texts that are held back have yet to be printed.
                let flow = if self.queue_paused_text.len() == 0 {
                    MonitorFlow::Break
                } else {
                    MonitorFlow::Continue
                };
                let step = MonitorStep { actions: Vec::new(), flow };
                assert(crate::ansi::ops(step.actions@) =~= Seq::empty());
                step
            },
            MonitorEvent::Signal(Some(signal)) => {
                let (actions, flow) = self.handle_signal(signal, line_state);
                MonitorStep { actions, flow }
            },
            MonitorEvent::Signal(None) => {
                let step = MonitorStep { actions: Vec::new(), flow: MonitorFlow::Break };
                assert(crate::ansi::ops(step.actions@) =~= Seq::empty());
                step
            },
        }
    }

    /// What the task does in answer to a control signal.
    pub fn handle_signal(&mut self, signal: ReadlineControlSignal, line_state: &LineState) -> (step:
        (Vec<TerminalAction>, MonitorFlow))
        requires
            line_state@.cursor_in_line(),
        ensures
            final(self)@ == old(self)@.after_signal(signal),
            crate::ansi::ops(step.0@) == old(self)@.ops(
                MonitorEventModel::Signal(Some(signal)),
                line_state@,
            ),
            step.1 == old(self)@.flow(MonitorEventModel::Signal(Some(signal))),
    {
        match signal {
            ReadlineControlSignal::Flush => (
                self.flush_internal(line_state),
                self.next_after_flush(),
            ),
            ReadlineControlSignal::Suspend => {
                self.is_suspended = true;
                let actions: Vec<TerminalAction> = Vec::new();
                assert(crate::ansi::ops(actions@) =~= Seq::empty());
                (actions, MonitorFlow::Continue)
            },
            ReadlineControlSignal::Resume => {
                self.is_suspended = false;
                (self.flush_internal(line_state), self.next_after_flush())
            },
            ReadlineControlSignal::Close => {
                let actions: Vec<TerminalAction> = Vec::new();
                assert(crate::ansi::ops(actions@) =~= Seq::empty());
                (actions, MonitorFlow::CloseLines)
            },
        }
    }

    /// How the task goes on once nothing is held back any more.
    fn next_after_flush(&self) -> (flow: MonitorFlow)
        ensures
            flow == self@.flow_after_flush(),
    {
        if self.writers_closed {
            MonitorFlow::Break
        } else {
            MonitorFlow::Continue
        }
    }

    /// What the task does with a text: it is held back while output is suspended, and printed
    /// otherwise.
    pub fn handle_text(&mut self, text: Text, line_state: &LineState) -> (actions: Vec<
        TerminalAction,
    >)
        requires
            line_state@.cursor_in_line(),
        ensures
            final(self)@ == old(self)@.after_text(text@),
            crate::ansi::ops(actions@) == old(self)@.ops(
                MonitorEventModel::Text(Some(text@)),
                line_state@,
            ),
    {
        let mut actions: Vec<TerminalAction> = Vec::new();
        assert(crate::ansi::ops(actions@) =~= Seq::empty());

        // Output is suspended, so queue the text. It will be printed when output goes on.
        if self.is_suspended {
            let ghost before = self@.queue;
            let ghost bytes = text@;
            self.queue_paused_text.push(text);
            assert(self@.queue =~= before.push(bytes));
            return actions;
        }
        // Print the text.
        push_action(
            &mut actions,
            TerminalAction::Write(line_state.print_data(text.as_slice())),
        );

        // Erase the line, and show it again.
        push_action(&mut actions, TerminalAction::Write(line_state.clear_and_render()));

        push_action(&mut actions, TerminalAction::Flush);
        assert(crate::ansi::ops(actions@) =~= old(self)@.ops(
            MonitorEventModel::Text(Some(text@)),
            line_state@,
        ));
        actions
    }

    /// Takes all texts out of the queue, and prints them.
    fn drain_queue_paused_text_and_print(&mut self, line_state: &LineState) -> (actions: Vec<
        TerminalAction,
    >)
        requires
            line_state@.cursor_in_line(),
        ensures
            final(self)@ == (MonitorModel { queue: Seq::empty(), ..old(self)@ }),
            crate::ansi::ops(actions@) == print_ops(old(self)@.queue, line_state@),
    {
        let ghost queue = self@.queue;
        let mut actions: Vec<TerminalAction> = Vec::new();
        let mut i: usize = 0;
        assert(crate::ansi::ops(actions@) =~= print_ops(queue.take(0), line_state@));
        while i < self.queue_paused_text.len()
            invariant
                i <= self.queue_paused_text@.len(),
                self@ == old(self)@,
                queue == self@.queue,
                line_state@.cursor_in_line(),
                crate::ansi::ops(actions@) == print_ops(queue.take(i as int), line_state@),
            decreases self.queue_paused_text@.len() - i,
        {
            push_action(
                &mut actions,
                TerminalAction::Write(
                    line_state.print_data(self.queue_paused_text[i].as_slice()),
                ),
            );
            assert(queue[i as int] == self.queue_paused_text@[i as int]@);
            assert(crate::ansi::ops(actions@) =~= print_ops(queue.take(i + 1), line_state@));
            i += 1;
        }
        assert(queue.take(i as int) =~= queue);
        self.queue_paused_text.clear();
        assert(self@.queue =~= Seq::empty());
        actions
    }

    /// Prints the texts in the queue, if there are any; then erases the line and flushes the
    /// terminal.
    fn flush_internal(&mut self, line_state: &LineState) -> (actions: Vec<TerminalAction>)
        requires
            line_state@.cursor_in_line(),
        ensures
            final(self)@ == (MonitorModel { queue: Seq::empty(), ..old(self)@ }),
            crate::ansi::ops(actions@) == print_ops(old(self)@.queue, line_state@) + erase_ops(
                line_state@,
            ),
    {
        let mut actions = self.drain_queue_paused_text_and_print(line_state);
        push_action(&mut actions, TerminalAction::Write(line_state.clear()));
        push_action(&mut actions, TerminalAction::Flush);
        assert(crate::ansi::ops(actions@) =~= print_ops(old(self)@.queue, line_state@) + erase_ops(
            line_state@,
        ));
        actions
    }
}

/// The texts that come with an event.
pub open spec fn received(event: MonitorEventModel) -> Seq<Seq<u8>> {
    match event {
        MonitorEventModel::Text(Some(text)) => seq![text],
        _ => Seq::empty(),
    }
}

/// The state after some events.
pub open spec fn after_all(state: MonitorModel, events: Seq<MonitorEventModel>) -> MonitorModel
    decreases events.len(),
{
    if events.len() == 0 {
        state
    } else {
        after_all(state, events.drop_last()).after(events.last())
    }
}

/// The texts that are printed in answer to some events, in order.
pub open spec fn printed_all(
    state: MonitorModel,
    events: Seq<MonitorEventModel>,
) -> Seq<Seq<u8>>
    decreases events.len(),
{
    if events.len() == 0 {
        Seq::empty()
    } else {
        printed_all(state, events.drop_last()) + after_all(state, events.drop_last()).printed(
            events.last(),
        )
    }
}

/// The texts that come with some events, in order.
pub open spec fn received_all(events: Seq<MonitorEventModel>) -> Seq<Seq<u8>>
    decreases events.len(),
{
    if events.len() == 0 {
        Seq::empty()
    } else {
        received_all(events.drop_last()) + received(events.last())
    }
}

/// How many of some events the task heeds: it ends with the first one after which it does not
/// go on, and nothing that comes later is looked at.
pub open spec fn heeded(state: MonitorModel, events: Seq<MonitorEventModel>) -> nat
    decreases events.len(),
{
    if events.len() == 0 {
        0
    } else if state.flow(events[0]) == MonitorFlow::Break {
        1
    } else {
        1 + heeded(state.after(events[0]), events.skip(1))
    }
}

/// How the task goes on after one of some events.
pub open spec fn flow_at(
    state: MonitorModel,
    events: Seq<MonitorEventModel>,
    i: int,
) -> MonitorFlow {
    after_all(state, events.take(i)).flow(events[i])
}

proof fn lemma_after_all_from_the_front(state: MonitorModel, events: Seq<MonitorEventModel>)
    requires
        events.len() > 0,
    ensures
        after_all(state, events) == after_all(state.after(events[0]), events.skip(1)),
    decreases events.len(),
{
    let earlier = events.drop_last();
    if earlier.len() > 0 {
        lemma_after_all_from_the_front(state, earlier);
        assert(events.skip(1).drop_last() =~= earlier.skip(1));
        assert(events.skip(1).last() == events.last());
    } else {
        assert(after_all(state, earlier) == state);
        assert(events.skip(1) =~= Seq::<MonitorEventModel>::empty());
    }
}

proof fn lemma_flow_at_from_the_front(
    state: MonitorModel,
    events: Seq<MonitorEventModel>,
    i: int,
)
    requires
        0 < i < events.len(),
    ensures
        flow_at(state, events, i) == flow_at(state.after(events[0]), events.skip(1), i - 1),
{
    lemma_after_all_from_the_front(state, events.take(i));
    assert(events.take(i).skip(1) =~= events.skip(1).take(i - 1));
    assert(events.skip(1)[i - 1] == events[i]);
}

/// Nothing comes after the end: the task heeds exactly the events up to the first one after
/// which it ends, and all of them if there is none.
pub proof fn law_nothing_is_heeded_after_the_end(
    state: MonitorModel,
    events: Seq<MonitorEventModel>,
)
    ensures
        heeded(state, events) <= events.len(),
        forall|i: int|
            0 <= i < heeded(state, events) - 1 ==> #[trigger] flow_at(state, events, i)
                != MonitorFlow::Break,
        heeded(state, events) < events.len() ==> 0 < heeded(state, events) && flow_at(
            state,
            events,
            heeded(state, events) - 1,
        ) == MonitorFlow::Break,
    decreases events.len(),
{
    if events.len() > 0 {
        let count = heeded(state, events);
        let next = state.after(events[0]);
        let rest = events.skip(1);
        assert(after_all(state, events.take(0)) == state);
        if state.flow(events[0]) != MonitorFlow::Break {
            law_nothing_is_heeded_after_the_end(next, rest);
            assert forall|i: int| 0 <= i < count - 1 implies #[trigger] flow_at(state, events, i)
                != MonitorFlow::Break by {
                if i > 0 {
                    lemma_flow_at_from_the_front(state, events, i);
                    assert(flow_at(next, rest, i - 1) != MonitorFlow::Break);
                }
            }
            if count < events.len() {
                lemma_flow_at_from_the_front(state, events, count - 1);
            }
        }
    }
}

/// The task never ends with texts that have not been printed, unless nobody is left to ask for
/// them: when it ends for another reason, every text has been printed once, in order.
pub proof fn law_task_ends_with_every_text_printed(
    state: MonitorModel,
    events: Seq<MonitorEventModel>,
)
    requires
        state.holds_back_only_while_suspended(),
        events.len() > 0,
        after_all(state, events.drop_last()).flow(events.last()) == MonitorFlow::Break,
        events.last() != MonitorEventModel::Signal(None),
    ensures
        printed_all(state, events) == state.queue + received_all(events),
        after_all(state, events).has_ended(),
{
    law_every_text_is_printed_once_in_order(state, events);
    assert(printed_all(state, events) + after_all(state, events).queue =~= printed_all(
        state,
        events,
    ));
}

proof fn lemma_texts_are_heeded(
    state: MonitorModel,
    texts: Seq<Seq<u8>>,
    others: Seq<MonitorEventModel>,
)
    ensures
        heeded(state, text_events(texts) + others) == texts.len() + heeded(
            after_all(state, text_events(texts)),
            others,
        ),
    decreases texts.len(),
{
    let events = text_events(texts) + others;
    if texts.len() > 0 {
        let next = state.after(events[0]);
        lemma_texts_are_heeded(next, texts.skip(1), others);
        lemma_after_all_from_the_front(state, text_events(texts));
        assert(text_events(texts).skip(1) =~= text_events(texts.skip(1)));
        assert(events.skip(1) =~= text_events(texts.skip(1)) + others);
    } else {
        assert(events =~= others);
    }
}

/// Whatever the events are, each text that was received has either been printed or is held
/// back: none is lost, printed twice, or printed out of order. Nothing is held back but while
/// output is suspended.
pub proof fn law_every_text_is_printed_once_in_order(
    state: MonitorModel,
    events: Seq<MonitorEventModel>,
)
    requires
        state.holds_back_only_while_suspended(),
    ensures
        printed_all(state, events) + after_all(state, events).queue == state.queue + received_all(
            events,
        ),
        after_all(state, events).holds_back_only_while_suspended(),
    decreases events.len(),
{
    if events.len() > 0 {
        let earlier = events.drop_last();
        law_every_text_is_printed_once_in_order(state, earlier);
        let between = after_all(state, earlier);
        let event = events.last();
        assert(between.printed(event) + between.after(event).queue =~= between.queue + received(
            event,
        ));
        assert(printed_all(state, events) + after_all(state, events).queue =~= printed_all(
            state,
            earlier,
        ) + (between.printed(event) + between.after(event).queue));
        assert(state.queue + received_all(events) =~= (state.queue + received_all(earlier))
            + received(event));
        assert(printed_all(state, earlier) + (between.queue + received(event)) =~= (printed_all(
            state,
            earlier,
        ) + between.queue) + received(event));
    } else {
        assert(printed_all(state, events) + state.queue =~= state.queue + received_all(events));
    }
}

/// While output is suspended, a text that comes is not printed, and nothing at all is done to
/// the terminal.
pub proof fn law_suspended_text_does_not_touch_the_terminal(
    state: MonitorModel,
    text: Seq<u8>,
    line: crate::line_state::LineModel,
)
    requires
        state.suspended,
    ensures
        state.printed(MonitorEventModel::Text(Some(text))).len() == 0,
        state.ops(MonitorEventModel::Text(Some(text)), line).len() == 0,
{
}

/// The events that some texts come with.
pub open spec fn text_events(texts: Seq<Seq<u8>>) -> Seq<MonitorEventModel> {
    texts.map_values(|text: Seq<u8>| MonitorEventModel::Text(Some(text)))
}

proof fn lemma_suspended_texts_are_held_back(state: MonitorModel, texts: Seq<Seq<u8>>)
    requires
        state.suspended,
    ensures
        after_all(state, text_events(texts)) == (MonitorModel {
            queue: state.queue + texts,
            ..state
        }),
        printed_all(state, text_events(texts)) == Seq::<Seq<u8>>::empty(),
    decreases texts.len(),
{
    if texts.len() > 0 {
        lemma_suspended_texts_are_held_back(state, texts.drop_last());
        assert(text_events(texts).drop_last() =~= text_events(texts.drop_last()));
        assert((state.queue + texts.drop_last()).push(texts.last()) =~= state.queue + texts);
    } else {
        assert(state.queue + texts =~= state.queue);
    }
}

/// Going on with the output undoes suspending it: the texts that came in between are held
/// back until then, and are all printed then.
pub proof fn law_resume_undoes_suspend(state: MonitorModel, texts: Seq<Seq<u8>>)
    requires
        !state.suspended,
        state.holds_back_only_while_suspended(),
    ensures
        ({
            let suspended = state.after_signal(ReadlineControlSignal::Suspend);
            let holding = after_all(suspended, text_events(texts));
            &&& printed_all(suspended, text_events(texts)) == Seq::<Seq<u8>>::empty()
            &&& holding.printed(
                MonitorEventModel::Signal(Some(ReadlineControlSignal::Resume)),
            ) == texts
            &&& holding.after_signal(ReadlineControlSignal::Resume) == state
        }),
{
    let suspended = state.after_signal(ReadlineControlSignal::Suspend);
    lemma_suspended_texts_are_held_back(suspended, texts);
    assert(state.queue =~= Seq::<Seq<u8>>::empty());
    assert(state.queue + texts =~= texts);
}

/// If a flush is heeded after all texts that were waiting for the task, then all of them have
/// been printed, in order, behind those that were held back; whether or not output is
/// suspended.
pub proof fn law_flush_outputs_all_that_was_written(state: MonitorModel, waiting: Seq<Seq<u8>>)
    requires
        state.holds_back_only_while_suspended(),
    ensures
        ({
            let flush = MonitorEventModel::Signal(Some(ReadlineControlSignal::Flush));
            let events = text_events(waiting).push(flush);
            &&& heeded(state, events) == events.len()
            &&& printed_all(state, events) == state.queue + waiting
            &&& after_all(state, events).queue == Seq::<Seq<u8>>::empty()
        }),
{
    let flush = MonitorEventModel::Signal(Some(ReadlineControlSignal::Flush));
    let events = text_events(waiting).push(flush);
    assert(events.drop_last() =~= text_events(waiting));
    law_every_text_is_printed_once_in_order(state, events);
    lemma_texts_are_heeded(state, waiting, seq![flush]);
    assert(text_events(waiting) + seq![flush] =~= events);
    assert(seq![flush].skip(1) =~= Seq::<MonitorEventModel>::empty());
    assert(heeded(after_all(state, text_events(waiting)), seq![flush]) == 1) by {
        reveal_with_fuel(heeded, 2);
    }
    lemma_received_texts(waiting);
    assert(received_all(events) =~= waiting);
    assert(printed_all(state, events) + after_all(state, events).queue =~= printed_all(
        state,
        events,
    ));
}

proof fn lemma_received_texts(texts: Seq<Seq<u8>>)
    ensures
        received_all(text_events(texts)) == texts,
    decreases texts.len(),
{
    if texts.len() > 0 {
        lemma_received_texts(texts.drop_last());
        assert(text_events(texts).drop_last() =~= text_events(texts.drop_last()));
        assert(texts.drop_last() + seq![texts.last()] =~= texts);
    } else {
        assert(texts =~= Seq::<Seq<u8>>::empty());
    }
}

/// Even if all writers are gone before a flush is asked for, all that they wrote has been
/// printed, in order, when the task ends: either nothing was held back, and the task ends with
/// the writers; or the task goes on until the flush, which prints what was held back. The same
/// holds if output goes on in place of the flush.
pub proof fn law_texts_outlive_their_writers(
    state: MonitorModel,
    waiting: Seq<Seq<u8>>,
    signal: ReadlineControlSignal,
)
    requires
        state.holds_back_only_while_suspended(),
        signal == ReadlineControlSignal::Flush || signal == ReadlineControlSignal::Resume,
    ensures
        ({
            let gone = MonitorEventModel::Text(None);
            let events = text_events(waiting) + seq![
                gone,
                MonitorEventModel::Signal(Some(signal)),
            ];
            let run = events.take(heeded(state, events) as int);
            &&& waiting.len() < run.len() <= events.len()
            &&& printed_all(state, run) == state.queue + waiting
            &&& after_all(state, run).has_ended()
            &&& after_all(state, run.drop_last()).flow(run.last()) == MonitorFlow::Break
        }),
{
    let gone = MonitorEventModel::Text(None);
    let last = MonitorEventModel::Signal(Some(signal));
    let ends = seq![gone, last];
    let events = text_events(waiting) + ends;
    lemma_texts_are_heeded(state, waiting, ends);
    lemma_received_texts(waiting);
    let taken = after_all(state, text_events(waiting));
    law_every_text_is_printed_once_in_order(state, text_events(waiting));
    let closed = taken.after(gone);
    assert(ends.skip(1) =~= seq![last]);
    assert(seq![last].skip(1) =~= Seq::<MonitorEventModel>::empty());
    assert(heeded(closed, seq![last]) == 1) by {
        assert(closed.flow(last) == MonitorFlow::Break);
    }
    assert(heeded(taken, ends) == if taken.queue.len() == 0 {
        1nat
    } else {
        2nat
    });
    let run = events.take(heeded(state, events) as int);
    law_every_text_is_printed_once_in_order(state, run);
    if taken.queue.len() == 0 {
        assert(run.drop_last() =~= text_events(waiting));
        assert(run.last() == gone);
        assert(received_all(run) =~= waiting);
    } else {
        assert(run =~= events);
        assert(run.drop_last().drop_last() =~= text_events(waiting));
        assert(run.drop_last().last() == gone);
        assert(run.last() == last);
        assert(after_all(state, run.drop_last()) == closed);
        assert(received_all(run.drop_last()) =~= waiting);
        assert(received_all(run) =~= waiting);
    }
    assert(printed_all(state, run) + after_all(state, run).queue =~= printed_all(state, run));
}

/// Once no more texts come, because all writers are gone or their channel has been closed, it
/// stays that way.
pub proof fn law_closed_writers_stay_closed(state: MonitorModel, events: Seq<MonitorEventModel>)
    requires
        state.writers_closed,
    ensures
        after_all(state, events).writers_closed,
    decreases events.len(),
{
    if events.len() > 0 {
        law_closed_writers_stay_closed(state, events.drop_last());
    }
}

/// After a flush, and after output goes on, nothing is held back; all that was is printed.
pub proof fn law_flush_prints_all_that_was_held_back(
    state: MonitorModel,
    signal: ReadlineControlSignal,
)
    requires
        signal == ReadlineControlSignal::Flush || signal == ReadlineControlSignal::Resume,
    ensures
        state.printed(MonitorEventModel::Signal(Some(signal))) == state.queue,
        state.after_signal(signal).queue.len() == 0,
{
}

/// A flush, and going on with the output, print every text that was held back, one write for
/// each and in order; then they erase the line and flush the terminal, and do nothing more.
pub proof fn law_flush_writes_each_text_that_was_held_back(
    state: MonitorModel,
    line: crate::line_state::LineModel,
    signal: ReadlineControlSignal,
)
    requires
        signal == ReadlineControlSignal::Flush || signal == ReadlineControlSignal::Resume,
    ensures
        ({
            let ops = state.ops(MonitorEventModel::Signal(Some(signal)), line);
            let count = state.queue.len() as int;
            &&& ops.len() == count + 2
            &&& forall|i: int|
                0 <= i < count ==> #[trigger] ops[i] == crate::ansi::TerminalOp::Write(
                    line.print_bytes(state.queue[i]),
                )
            &&& ops[count] == crate::ansi::TerminalOp::Write(
                vstd::utf8::encode_utf8(line.clear_text()),
            )
            &&& ops[count + 1] == crate::ansi::TerminalOp::Flush
        }),
{
}

/// A text that comes while output is not suspended is printed at once, then the line is erased
/// and shown anew, and the terminal is flushed; the task goes on as it was.
pub proof fn law_text_is_printed_at_once(
    state: MonitorModel,
    line: crate::line_state::LineModel,
    text: Seq<u8>,
)
    requires
        !state.suspended,
    ensures
        ({
            let event = MonitorEventModel::Text(Some(text));
            let ops = state.ops(event, line);
            &&& ops.len() == 3
            &&& ops[0] == crate::ansi::TerminalOp::Write(line.print_bytes(text))
            &&& ops[1] == crate::ansi::TerminalOp::Write(
                vstd::utf8::encode_utf8(line.clear_text() + line.render_text()),
            )
            &&& ops[2] == crate::ansi::TerminalOp::Flush
            &&& state.printed(event) == seq![text]
            &&& state.after(event) == state
            &&& state.flow(event) == MonitorFlow::Continue
        }),
{
}

/// A text that comes while output is suspended is held back behind those that were before it,
/// whole, however many there are; the task goes on, and nothing else changes.
pub proof fn law_suspended_text_is_held_back(
    state: MonitorModel,
    line: crate::line_state::LineModel,
    text: Seq<u8>,
)
    requires
        state.suspended,
    ensures
        ({
            let event = MonitorEventModel::Text(Some(text));
            let after = state.after(event);
            &&& after.queue == state.queue.push(text)
            &&& after.suspended
            &&& after.writers_closed == state.writers_closed
            &&& state.ops(event, line).len() == 0
            &&& state.flow(event) == MonitorFlow::Continue
        }),
{
}

/// What each signal does to the task: suspending holds back from then on, and keeps what is held
/// back; a flush lets that go, and holds back further; going on lets it go, and holds back no
/// more. Closing, and having nobody left to send a signal, change nothing.
pub proof fn law_signals_change_what_they_name(state: MonitorModel)
    ensures
        ({
            let after = |signal: ReadlineControlSignal|
                state.after(MonitorEventModel::Signal(Some(signal)));
            let suspended = after(ReadlineControlSignal::Suspend);
            let flushed = after(ReadlineControlSignal::Flush);
            let resumed = after(ReadlineControlSignal::Resume);
            &&& suspended.suspended && suspended.queue == state.queue && suspended.writers_closed
                == state.writers_closed
            &&& flushed.suspended == state.suspended && flushed.queue.len() == 0
                && flushed.writers_closed == state.writers_closed
            &&& !resumed.suspended && resumed.queue.len() == 0 && resumed.writers_closed
                == state.writers_closed
            &&& after(ReadlineControlSignal::Close) == state
            &&& state.after(MonitorEventModel::Signal(None)) == state
        }),
{
}

/// That no more texts come is remembered, and changes nothing else; and the task has ended in
/// full exactly when that is so and nothing is held back.
pub proof fn law_end_of_texts_is_remembered(state: MonitorModel)
    ensures
        ({
            let after = state.after(MonitorEventModel::Text(None));
            &&& after.writers_closed && after.queue == state.queue && after.suspended
                == state.suspended
            &&& state.has_ended() <==> state.writers_closed && state.queue.len() == 0
        }),
{
}

/// Events that bring no text and let none go do not touch the terminal.
pub proof fn law_other_events_do_not_touch_the_terminal(
    state: MonitorModel,
    event: MonitorEventModel,
    line: crate::line_state::LineModel,
)
    requires
        event == MonitorEventModel::Text(None) || event == MonitorEventModel::Signal(None) || event
            == MonitorEventModel::Signal(Some(ReadlineControlSignal::Suspend)) || event
            == MonitorEventModel::Signal(Some(ReadlineControlSignal::Close)),
    ensures
        state.ops(event, line).len() == 0,
        state.printed(event).len() == 0,
{
}

/// The task ends when nobody is left to send a signal, or when no more texts come and none is
/// held back any more; it closes the lines when it is told to, and goes on otherwise.
pub proof fn law_when_the_task_ends(state: MonitorModel)
    ensures
        ({
            let flow = |signal: ReadlineControlSignal|
                state.flow(MonitorEventModel::Signal(Some(signal)));
            let after_letting_go = if state.writers_closed {
                MonitorFlow::Break
            } else {
                MonitorFlow::Continue
            };
            &&& state.flow(MonitorEventModel::Signal(None)) == MonitorFlow::Break
            &&& state.flow(MonitorEventModel::Text(None)) == if state.queue.len() == 0 {
                MonitorFlow::Break
            } else {
                MonitorFlow::Continue
            }
            &&& flow(ReadlineControlSignal::Close) == MonitorFlow::CloseLines
            &&& flow(ReadlineControlSignal::Suspend) == MonitorFlow::Continue
            &&& flow(ReadlineControlSignal::Flush) == after_letting_go
            &&& flow(ReadlineControlSignal::Resume) == after_letting_go
        }),
{
}

/// The model of the task holds each text that is held back, byte for byte, and what the other
/// fields hold; the model of an event holds its text and its signal.
pub proof fn law_model_of_task(state: MonitorState, event: MonitorEvent)
    ensures
        state@.suspended == state.is_suspended,
        state@.writers_closed == state.writers_closed,
        state@.queue.len() == state.queue_paused_text@.len(),
        forall|i: int|
            0 <= i < state.queue_paused_text@.len() ==> #[trigger] state@.queue[i]
                == state.queue_paused_text@[i]@,
        event@ == match event {
            MonitorEvent::Text(Some(text)) => MonitorEventModel::Text(Some(text@)),
            MonitorEvent::Text(None) => MonitorEventModel::Text(None),
            MonitorEvent::Signal(signal) => MonitorEventModel::Signal(signal),
        },
{
}

} // verus!
