//! Writers that many tasks can hold, and that hand over whole lines to the terminal.

use thingbuf::mpsc::errors::TrySendError;
use thingbuf::mpsc::{Receiver, Sender};
use vstd::prelude::*;

verus! {

/// How many lines can wait to be printed.
pub const CHANNEL_CAPACITY: usize = 500;

/// What writers hand over to the terminal.
pub type Text = Vec<u8>;

#[verifier::external_type_specification]
#[verifier::external_body]
#[verifier::reject_recursive_types(T)]
#[verifier::reject_recursive_types(R)]
pub struct ExSender<T, R>(thingbuf::mpsc::Sender<T, R>);

#[verifier::external_type_specification]
#[verifier::external_body]
#[verifier::reject_recursive_types(T)]
#[verifier::reject_recursive_types(R)]
pub struct ExReceiver<T, R>(thingbuf::mpsc::Receiver<T, R>);

#[verifier::external_type_specification]
#[verifier::external_body]
pub struct ExDefaultRecycle(thingbuf::recycling::DefaultRecycle);

/// The texts that `try_send_ref` has put into the channel through this handle, oldest first.
pub uninterp spec fn sent_texts(sender: Sender<Text>) -> Seq<Seq<u8>>;

/// The channel that this handle puts texts into.
pub uninterp spec fn text_channel(sender: Sender<Text>) -> int;

/// The most texts that can wait in the channel of this handle.
pub uninterp spec fn text_capacity(sender: Sender<Text>) -> nat;

/// Whether the channel of this handle is known to be closed: whether a text that was to be put
/// into it through this handle, or through the handle that it was cloned from, has been refused
/// for that reason.
pub uninterp spec fn text_closed(sender: Sender<Text>) -> bool;

/// The channel that this receiver takes texts from.
pub uninterp spec fn text_source(receiver: Receiver<Text>) -> int;

/// Calls `thingbuf::mpsc::channel`: a new channel of the given capacity, with the receiver
/// joined to the sender and nothing sent yet. It panics on a capacity of zero, and where the
/// slots do not fit into memory.
#[verifier::external_body]
fn new_text_channel(capacity: usize) -> (pair: (Sender<Text>, Receiver<Text>))
    requires
        0 < capacity <= 0xffff,
    ensures
        text_channel(pair.0) == text_source(pair.1),
        text_capacity(pair.0) == capacity,
        sent_texts(pair.0) == Seq::<Seq<u8>>::empty(),
        !text_closed(pair.0),
{
    thingbuf::mpsc::channel(capacity)
}

/// Calls `Sender::clone` of `thingbuf`: another handle to the same channel, through which
/// nothing has been sent yet. A channel that is known to be closed is known to be so of both
/// handles.
#[verifier::external_body]
fn clone_text_sender(sender: &Sender<Text>) -> (handle: Sender<Text>)
    ensures
        text_channel(handle) == text_channel(*sender),
        text_capacity(handle) == text_capacity(*sender),
        sent_texts(handle) == Seq::<Seq<u8>>::empty(),
        text_closed(handle) == text_closed(*sender),
{
    sender.clone()
}

/// What came of trying to put a text into the channel.
#[derive(Clone, Copy, Debug, PartialEq, Eq, Structural)]
pub enum SendOutcome {
    /// The text is in the channel.
    Sent,
    /// The channel holds as many texts as it can.
    Full,
    /// The receiver is gone.
    Closed,
}

/// Calls `Sender::try_send_ref` of `thingbuf`, and swaps the text with the slot that it gives.
/// On success the text, and nothing else, has been put into the channel, and `text` holds
/// whatever was in the slot; on failure nothing has changed. A closed channel is never opened
/// again: once a text has been refused because of that, so are all that follow. Otherwise it
/// depends on the receiver and on other senders which of these comes.
#[verifier::external_body]
fn try_send_text(sender: &mut Sender<Text>, text: &mut Text) -> (outcome: SendOutcome)
    ensures
        text_channel(*final(sender)) == text_channel(*old(sender)),
        text_capacity(*final(sender)) == text_capacity(*old(sender)),
        sent_texts(*final(sender)) == if outcome == SendOutcome::Sent {
            sent_texts(*old(sender)).push(old(text)@)
        } else {
            sent_texts(*old(sender))
        },
        outcome != SendOutcome::Sent ==> final(text)@ == old(text)@,
        text_closed(*final(sender)) == (outcome == SendOutcome::Closed),
        text_closed(*old(sender)) ==> outcome == SendOutcome::Closed,
{
    match sender.try_send_ref() {
        Ok(mut slot) => {
            std::mem::swap(&mut *slot, text);
            SendOutcome::Sent
        },
        Err(TrySendError::Full(_)) => SendOutcome::Full,
        Err(_) => SendOutcome::Closed,
    }
}

/// Why bytes could not be handed over.
#[derive(Clone, Copy, Debug, PartialEq, Eq, Structural)]
pub enum WriteError {
    /// The channel is full: try again later.
    WouldBlock,
    /// The receiver of the channel is gone.
    Closed,
}

/// Whether bytes end with a line feed.
pub open spec fn ends_line(bytes: Seq<u8>) -> bool {
    bytes.len() > 0 && bytes.last() == 10
}

/// What a writer is, without its representation.
#[verifier::ext_equal]
pub struct WriterModel {
    /// What has been written, and not yet been handed over.
    pub buffer: Seq<u8>,
    /// What this writer has handed over.
    pub sent: Seq<Seq<u8>>,
    /// The channel that it hands its texts to.
    pub channel: int,
}

impl WriterModel {
    /// The writer after bytes have been written to it; `taken` tells whether the channel takes
    /// a text, should one be complete.
    pub open spec fn written(self, bytes: Seq<u8>, taken: bool) -> WriterModel {
        let whole = self.buffer + bytes;
        if ends_line(whole) && taken {
            WriterModel { buffer: Seq::empty(), sent: self.sent.push(whole), ..self }
        } else {
            WriterModel { buffer: whole, ..self }
        }
    }

    /// All bytes that were ever written, in order.
    pub open spec fn transcript(self) -> Seq<u8> {
        self.sent.flatten() + self.buffer
    }

    /// Whether every text that was handed over ends with a line feed.
    pub open spec fn sent_whole_lines(self) -> bool {
        forall|i: int| 0 <= i < self.sent.len() ==> ends_line(#[trigger] self.sent[i])
    }
}

/// Whether a slot of the channel could be reserved for a text.
#[derive(Clone, Copy, Debug, PartialEq, Eq, Structural)]
pub enum Reservation {
    /// A slot is there.
    Ready,
    /// All slots are taken for now.
    Pending,
    /// The receiver is gone.
    Closed,
}

/// The outcome of an asynchronous write or flush.
#[derive(Debug, PartialEq, Eq)]
pub enum PollOutcome<T> {
    /// It is done.
    Ready(Result<T, WriteError>),
    /// It has to be tried again.
    Pending,
}

/// What a blocking write of `written` bytes returns, once the channel has answered.
pub fn write_result(written: usize, outcome: SendOutcome) -> (result: Result<usize, WriteError>)
    ensures
        result == match outcome {
            SendOutcome::Sent => Ok::<usize, WriteError>(written),
            SendOutcome::Full => Err(WriteError::WouldBlock),
            SendOutcome::Closed => Err(WriteError::Closed),
        },
{
    match outcome {
        SendOutcome::Sent => Ok(written),
        SendOutcome::Full => Err(WriteError::WouldBlock),
        SendOutcome::Closed => Err(WriteError::Closed),
    }
}

/// A writer that keeps what is written to it until a line is complete, and then hands it over
/// to the terminal.
pub struct SharedWriter {
    /// What has been written, and not yet been handed over.
    pub buffer: Text,
    /// Takes the texts that are complete.
    pub line_sender: Sender<Text>,
}

impl View for SharedWriter {
    type V = WriterModel;

    open spec fn view(&self) -> WriterModel {
        WriterModel {
            buffer: self.buffer@,
            sent: sent_texts(self.line_sender),
            channel: text_channel(self.line_sender),
        }
    }
}

impl Clone for SharedWriter {
    /// Another writer to the same terminal; what this one keeps stays with it.
    fn clone(&self) -> (writer: Self)
        ensures
            writer@ == (WriterModel {
                buffer: Seq::empty(),
                sent: Seq::empty(),
                channel: self@.channel,
            }),
            text_capacity(writer.line_sender) == text_capacity(self.line_sender),
            text_closed(writer.line_sender) == text_closed(self.line_sender),
    {
        SharedWriter { buffer: Vec::new(), line_sender: clone_text_sender(&self.line_sender) }
    }
}

impl SharedWriter {
    /// A writer, with the receiving end of the channel that it hands its texts to.
    pub fn new() -> (pair: (SharedWriter, Receiver<Text>))
        ensures
            pair.0@.buffer == Seq::<u8>::empty(),
            pair.0@.sent == Seq::<Seq<u8>>::empty(),
            pair.0@.channel == text_source(pair.1),
            text_capacity(pair.0.line_sender) == CHANNEL_CAPACITY,
            !text_closed(pair.0.line_sender),
    {
        let (line_sender, line_receiver) = new_text_channel(CHANNEL_CAPACITY);
        (SharedWriter { buffer: Vec::new(), line_sender }, line_receiver)
    }

    /// Whether these bytes would complete a line.
    pub fn completes_line(&self, buf: &[u8]) -> (complete: bool)
        ensures
            complete == ends_line(self@.buffer + buf@),
    {
        if buf.len() > 0 {
            buf[buf.len() - 1] == 10
        } else {
            self.buffer.len() > 0 && self.buffer[self.buffer.len() - 1] == 10
        }
    }

    /// Writes bytes. Once they complete a line, all that was kept is handed over. If that
    /// fails, the bytes are kept nevertheless. It fails with `Closed` if the channel turns out
    /// to be closed, and with `WouldBlock` otherwise; once closed, the channel stays closed.
    pub fn write(&mut self, buf: &[u8]) -> (result: Result<usize, WriteError>)
        ensures
            final(self)@ == old(self)@.written(buf@, result is Ok),
            result matches Ok(count) ==> count == buf@.len(),
            if ends_line(old(self)@.buffer + buf@) {
                &&& result == Err::<usize, WriteError>(WriteError::Closed) <==> text_closed(
                    final(self).line_sender,
                )
                &&& text_closed(old(self).line_sender) ==> result == Err::<usize, WriteError>(
                    WriteError::Closed,
                )
            } else {
                &&& result is Ok
                &&& final(self).line_sender == old(self).line_sender
            },
            text_capacity(final(self).line_sender) == text_capacity(old(self).line_sender),
            final(self)@.transcript() == old(self)@.transcript() + buf@,
    {
        let complete = self.completes_line(buf);
        self.buffer.extend_from_slice(buf);
        let ghost whole = self.buffer@;
        assert(whole =~= old(self)@.buffer + buf@);
        proof {
            law_nothing_written_is_lost(old(self)@, buf@, true);
            law_nothing_written_is_lost(old(self)@, buf@, false);
        }
        if complete {
            let outcome = try_send_text(&mut self.line_sender, &mut self.buffer);
            if outcome == SendOutcome::Sent {
                self.buffer.clear();
            }
            write_result(buf.len(), outcome)
        } else {
            Ok(buf.len())
        }
    }

    /// Does nothing: only complete lines are handed over.
    pub fn flush(&mut self) -> (result: Result<(), WriteError>)
        ensures
            result == Ok::<(), WriteError>(()),
            *final(self) == *old(self),
    {
        Ok(())
    }

    /// Writes bytes in an asynchronous task. If they complete a line, `reservation` tells
    /// whether there is a slot for it, and all that was kept goes into that slot. Otherwise
    /// neither is looked at.
    pub fn poll_write(
        &mut self,
        buf: &[u8],
        reservation: Reservation,
        slot: &mut Text,
    ) -> (outcome: PollOutcome<usize>)
        ensures
            final(self).line_sender == old(self).line_sender,
            ({
                let whole = old(self)@.buffer + buf@;
                if !ends_line(whole) {
                    &&& outcome == PollOutcome::Ready(Ok::<usize, WriteError>(buf.len()))
                    &&& final(self).buffer@ == whole
                    &&& final(slot)@ == old(slot)@
                } else {
                    match reservation {
                        Reservation::Ready => {
                            &&& outcome == PollOutcome::Ready(Ok::<usize, WriteError>(buf.len()))
                            &&& final(self).buffer@ == Seq::<u8>::empty()
                            &&& final(slot)@ == whole
                        },
                        Reservation::Pending => {
                            &&& outcome == PollOutcome::<usize>::Pending
                            &&& final(self).buffer@ == whole
                            &&& final(slot)@ == old(slot)@
                        },
                        Reservation::Closed => {
                            &&& outcome == PollOutcome::<usize>::Ready(Err(WriteError::Closed))
                            &&& final(self).buffer@ == whole
                            &&& final(slot)@ == old(slot)@
                        },
                    }
                }
            }),
    {
        let complete = self.completes_line(buf);
        self.buffer.extend_from_slice(buf);
        assert(self.buffer@ =~= old(self)@.buffer + buf@);
        if complete {
            match self.poll_flush(reservation, slot) {
                PollOutcome::Ready(Ok(())) => PollOutcome::Ready(Ok(buf.len())),
                PollOutcome::Ready(Err(error)) => PollOutcome::Ready(Err(error)),
                PollOutcome::Pending => PollOutcome::Pending,
            }
        } else {
            PollOutcome::Ready(Ok(buf.len()))
        }
    }

    /// Hands over all that was kept, be it a complete line or not, in an asynchronous task.
    pub fn poll_flush(&mut self, reservation: Reservation, slot: &mut Text) -> (outcome:
        PollOutcome<()>)
        ensures
            final(self).line_sender == old(self).line_sender,
            match reservation {
                Reservation::Ready => {
                    &&& outcome == PollOutcome::Ready(Ok::<(), WriteError>(()))
                    &&& final(self).buffer@ == Seq::<u8>::empty()
                    &&& final(slot)@ == old(self).buffer@
                },
                Reservation::Pending => {
                    &&& outcome == PollOutcome::<()>::Pending
                    &&& final(self).buffer@ == old(self).buffer@
                    &&& final(slot)@ == old(slot)@
                },
                Reservation::Closed => {
                    &&& outcome == PollOutcome::<()>::Ready(Err(WriteError::Closed))
                    &&& final(self).buffer@ == old(self).buffer@
                    &&& final(slot)@ == old(slot)@
                },
            },
    {
        match reservation {
            Reservation::Ready => {
                std::mem::swap(slot, &mut self.buffer);
                self.buffer.clear();
                PollOutcome::Ready(Ok(()))
            },
            Reservation::Pending => PollOutcome::Pending,
            Reservation::Closed => PollOutcome::Ready(Err(WriteError::Closed)),
        }
    }

    /// Does nothing.
    pub fn poll_close(&mut self) -> (outcome: PollOutcome<()>)
        ensures
            outcome == PollOutcome::Ready(Ok::<(), WriteError>(())),
            *final(self) == *old(self),
    {
        PollOutcome::Ready(Ok(()))
    }
}

/// Whatever the channel does, what was handed over and what is kept are together exactly what
/// was written, in order.
pub proof fn law_nothing_written_is_lost(writer: WriterModel, bytes: Seq<u8>, taken: bool)
    ensures
        writer.written(bytes, taken).transcript() == writer.transcript() + bytes,
{
    let whole = writer.buffer + bytes;
    writer.sent.lemma_flatten_push(whole);
    assert(writer.sent.flatten() + whole + Seq::<u8>::empty() =~= writer.transcript() + bytes);
    assert(writer.sent.flatten() + whole =~= writer.transcript() + bytes);
}

/// Nothing but text that ends with a line feed is handed over by writing.
pub proof fn law_only_whole_lines_are_sent(writer: WriterModel, bytes: Seq<u8>, taken: bool)
    requires
        writer.sent_whole_lines(),
    ensures
        writer.written(bytes, taken).sent_whole_lines(),
{
}

/// While bytes come without a line feed at their end, nothing is handed over.
pub proof fn law_nothing_is_sent_without_line_feed(
    writer: WriterModel,
    bytes: Seq<u8>,
    taken: bool,
)
    requires
        bytes.len() > 0,
        bytes.last() != 10,
    ensures
        writer.written(bytes, taken).sent == writer.sent,
{
    assert((writer.buffer + bytes).last() == bytes.last());
}

/// The writer after one write for each of `writes`; `taken` tells for each of them whether the
/// channel takes a text.
pub open spec fn written_all(
    writer: WriterModel,
    writes: Seq<Seq<u8>>,
    taken: Seq<bool>,
) -> WriterModel
    decreases writes.len(),
{
    if writes.len() == 0 {
        writer
    } else {
        written_all(writer, writes.drop_last(), taken).written(
            writes.last(),
            taken[writes.len() - 1],
        )
    }
}

/// Over any number of writes, full or closed channels included, no byte is lost, doubled or
/// put out of order.
pub proof fn law_writes_arrive_in_order(
    writer: WriterModel,
    writes: Seq<Seq<u8>>,
    taken: Seq<bool>,
)
    ensures
        written_all(writer, writes, taken).transcript() == writer.transcript() + writes.flatten(),
    decreases writes.len(),
{
    if writes.len() == 0 {
        assert(writer.transcript() + writes.flatten() =~= writer.transcript());
    } else {
        let earlier = writes.drop_last();
        law_writes_arrive_in_order(writer, earlier, taken);
        law_nothing_written_is_lost(
            written_all(writer, earlier, taken),
            writes.last(),
            taken[writes.len() - 1],
        );
        earlier.lemma_flatten_push(writes.last());
        assert(earlier.push(writes.last()) =~= writes);
        assert(writer.transcript() + earlier.flatten() + writes.last() =~= writer.transcript()
            + writes.flatten());
    }
}

/// A line feed at the end completes a line, whatever comes before it, and no other byte does.
pub proof fn law_line_feed_completes_a_line(bytes: Seq<u8>, byte: u8)
    ensures
        ends_line(bytes.push(byte)) <==> byte == 10,
        !ends_line(Seq::<u8>::empty()),
{
}

/// A line that is complete is handed over at once, whole, with all that was kept before it, if
/// the channel takes it; otherwise all of it is kept. Nothing is handed over but that.
pub proof fn law_complete_line_is_handed_over_at_once(writer: WriterModel, bytes: Seq<u8>)
    requires
        bytes.len() > 0,
        bytes.last() == 10,
    ensures
        ({
            let taken = writer.written(bytes, true);
            let refused = writer.written(bytes, false);
            &&& taken.buffer.len() == 0
            &&& taken.sent == writer.sent.push(writer.buffer + bytes)
            &&& taken.channel == writer.channel
            &&& refused.buffer == writer.buffer + bytes
            &&& refused.sent == writer.sent
            &&& refused.channel == writer.channel
        }),
{
    assert((writer.buffer + bytes).last() == bytes.last());
}

/// Bytes that do not complete a line are kept behind what was kept before, and nothing else
/// changes.
pub proof fn law_incomplete_line_is_kept(writer: WriterModel, bytes: Seq<u8>, taken: bool)
    requires
        bytes.len() > 0,
        bytes.last() != 10,
    ensures
        ({
            let after = writer.written(bytes, taken);
            &&& after.buffer == writer.buffer + bytes
            &&& after.sent == writer.sent
            &&& after.channel == writer.channel
        }),
{
    assert((writer.buffer + bytes).last() == bytes.last());
}

/// Writing nothing changes nothing, unless a complete line was kept because the channel had not
/// taken it: then it is handed over if the channel takes it now.
pub proof fn law_writing_nothing(writer: WriterModel, taken: bool)
    ensures
        ({
            let after = writer.written(Seq::empty(), taken);
            if taken && writer.buffer.len() > 0 && writer.buffer.last() == 10 {
                &&& after.buffer.len() == 0
                &&& after.sent == writer.sent.push(writer.buffer)
                &&& after.channel == writer.channel
            } else {
                after == writer
            }
        }),
{
    assert(writer.buffer + Seq::<u8>::empty() =~= writer.buffer);
}

/// The transcript of a writer is what it handed over, text after text, and what it keeps.
pub proof fn law_transcript_holds_every_byte(writer: WriterModel, text: Seq<u8>)
    ensures
        writer.sent.len() == 0 ==> writer.transcript() == writer.buffer,
        (WriterModel { sent: writer.sent.push(text), ..writer }).transcript()
            == writer.sent.flatten() + text + writer.buffer,
{
    writer.sent.lemma_flatten_push(text);
    if writer.sent.len() == 0 {
        assert(writer.transcript() =~= writer.buffer);
    }
}

/// The model of a writer holds what it keeps, byte for byte, and what went through its handle.
pub proof fn law_model_of_writer(writer: SharedWriter)
    ensures
        writer@.buffer == writer.buffer@,
        writer@.sent == sent_texts(writer.line_sender),
        writer@.channel == text_channel(writer.line_sender),
{
}

} // verus!
