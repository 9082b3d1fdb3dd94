use r3bl_terminal_async::shared_writer::{
    write_result, PollOutcome, Reservation, SendOutcome, SharedWriter, WriteError,
    CHANNEL_CAPACITY,
};

#[test]
fn nothing_is_handed_over_without_a_line_feed() {
    let (mut writer, receiver) = SharedWriter::new();
    assert_eq!(writer.write(b"hello"), Ok(5));
    assert_eq!(writer.write(b" world"), Ok(6));
    assert_eq!(writer.buffer, b"hello world".to_vec());
    assert!(receiver.try_recv().is_err());
    assert_eq!(writer.flush(), Ok(()));
    assert!(receiver.try_recv().is_err());
}

#[test]
fn complete_line_is_handed_over_whole() {
    let (mut writer, receiver) = SharedWriter::new();
    assert_eq!(writer.write(b"hello"), Ok(5));
    assert_eq!(writer.write(b" world\n"), Ok(7));
    assert_eq!(writer.buffer, Vec::<u8>::new());
    assert_eq!(receiver.try_recv().unwrap(), b"hello world\n".to_vec());
    assert!(receiver.try_recv().is_err());
}

#[test]
fn line_feed_within_the_bytes_does_not_count() {
    let (mut writer, receiver) = SharedWriter::new();
    assert_eq!(writer.write(b"one\ntwo"), Ok(7));
    assert!(receiver.try_recv().is_err());
    assert_eq!(writer.write(b"\n"), Ok(1));
    assert_eq!(receiver.try_recv().unwrap(), b"one\ntwo\n".to_vec());
}

#[test]
fn no_bytes_complete_no_line() {
    let (mut writer, receiver) = SharedWriter::new();
    assert!(!writer.completes_line(b""));
    assert_eq!(writer.write(b""), Ok(0));
    assert!(receiver.try_recv().is_err());
    assert!(writer.completes_line(b"\n"));
    assert!(!writer.completes_line(b"\nx"));
}

#[test]
fn lines_arrive_in_order_even_if_slots_are_reused() {
    let (mut writer, receiver) = SharedWriter::new();
    for i in 0..2 * CHANNEL_CAPACITY {
        let line = format!("line {}\n", i);
        assert_eq!(writer.write(line.as_bytes()), Ok(line.len()));
        assert_eq!(writer.buffer.len(), 0);
        assert_eq!(receiver.try_recv().unwrap(), line.into_bytes());
    }
}

#[test]
fn full_channel_keeps_the_bytes() {
    let (mut writer, receiver) = SharedWriter::new();
    assert_eq!(writer.line_sender.capacity(), CHANNEL_CAPACITY);
    for _ in 0..CHANNEL_CAPACITY {
        assert_eq!(writer.write(b"x\n"), Ok(2));
    }
    assert_eq!(writer.write(b"late\n"), Err(WriteError::WouldBlock));
    assert_eq!(writer.buffer, b"late\n".to_vec());
    // Once there is room again, what was kept goes first.
    assert_eq!(receiver.try_recv().unwrap(), b"x\n".to_vec());
    assert_eq!(writer.write(b"later\n"), Ok(6));
    let mut last = Vec::new();
    while let Ok(text) = receiver.try_recv() {
        last = text;
    }
    assert_eq!(last, b"late\nlater\n".to_vec());
}

#[test]
fn closed_channel_is_an_error() {
    let (mut writer, receiver) = SharedWriter::new();
    drop(receiver);
    assert_eq!(writer.write(b"kept"), Ok(4));
    assert_eq!(writer.write(b"\n"), Err(WriteError::Closed));
    assert_eq!(writer.buffer, b"kept\n".to_vec());
    // It stays closed, for a clone too.
    assert_eq!(writer.write(b"\n"), Err(WriteError::Closed));
    assert_eq!(writer.clone().write(b"\n"), Err(WriteError::Closed));
}

#[test]
fn clone_shares_the_channel_but_not_the_buffer() {
    let (mut writer, receiver) = SharedWriter::new();
    assert_eq!(writer.write(b"mine"), Ok(4));
    let mut other = writer.clone();
    assert_eq!(other.buffer, Vec::<u8>::new());
    assert_eq!(other.write(b"yours\n"), Ok(6));
    assert_eq!(writer.write(b"\n"), Ok(1));
    assert_eq!(receiver.try_recv().unwrap(), b"yours\n".to_vec());
    assert_eq!(receiver.try_recv().unwrap(), b"mine\n".to_vec());
}

#[test]
fn answers_of_the_channel_become_results() {
    assert_eq!(write_result(7, SendOutcome::Sent), Ok(7));
    assert_eq!(write_result(7, SendOutcome::Full), Err(WriteError::WouldBlock));
    assert_eq!(write_result(7, SendOutcome::Closed), Err(WriteError::Closed));
}

#[test]
fn asynchronous_write_fills_the_slot() {
    let (mut writer, _receiver) = SharedWriter::new();
    let mut slot = b"left over".to_vec();
    assert_eq!(
        writer.poll_write(b"one", Reservation::Ready, &mut slot),
        PollOutcome::Ready(Ok(3))
    );
    assert_eq!(slot, b"left over".to_vec());
    assert_eq!(writer.buffer, b"one".to_vec());
    assert_eq!(
        writer.poll_write(b" two\n", Reservation::Ready, &mut slot),
        PollOutcome::Ready(Ok(5))
    );
    assert_eq!(slot, b"one two\n".to_vec());
    assert_eq!(writer.buffer, Vec::<u8>::new());
}

#[test]
fn asynchronous_write_keeps_bytes_that_cannot_go() {
    let (mut writer, _receiver) = SharedWriter::new();
    let mut slot = Vec::new();
    assert_eq!(
        writer.poll_write(b"a\n", Reservation::Pending, &mut slot),
        PollOutcome::Pending
    );
    assert_eq!(writer.buffer, b"a\n".to_vec());
    assert_eq!(
        writer.poll_write(b"b\n", Reservation::Closed, &mut slot),
        PollOutcome::Ready(Err(WriteError::Closed))
    );
    assert_eq!(writer.buffer, b"a\nb\n".to_vec());
    assert_eq!(slot, Vec::<u8>::new());
}

#[test]
fn asynchronous_flush_hands_over_incomplete_lines() {
    let (mut writer, _receiver) = SharedWriter::new();
    let mut slot = Vec::new();
    assert_eq!(writer.write(b"partial"), Ok(7));
    assert_eq!(
        writer.poll_flush(Reservation::Pending, &mut slot),
        PollOutcome::Pending
    );
    assert_eq!(
        writer.poll_flush(Reservation::Closed, &mut slot),
        PollOutcome::Ready(Err(WriteError::Closed))
    );
    assert_eq!(writer.buffer, b"partial".to_vec());
    assert_eq!(
        writer.poll_flush(Reservation::Ready, &mut slot),
        PollOutcome::Ready(Ok(()))
    );
    assert_eq!(slot, b"partial".to_vec());
    assert_eq!(writer.buffer, Vec::<u8>::new());
    assert_eq!(writer.poll_close(), PollOutcome::Ready(Ok(())));
}
