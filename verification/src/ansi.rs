//! What is written to a terminal, and the escape sequences that move its cursor and clear it.

use crossterm::Command;
use vstd::prelude::*;

verus! {

/// The digit that stands for a number below ten.
pub open spec fn digit(value: nat) -> char {
    (48 + value) as char
}

/// A number in decimal notation, without leading zeros.
pub open spec fn decimal(value: nat) -> Seq<char>
    decreases value,
{
    if value < 10 {
        seq![digit(value)]
    } else {
        decimal(value / 10).push(digit(value % 10))
    }
}

/// The two characters that start a control sequence.
pub open spec fn csi() -> Seq<char> {
    seq!['\u{1b}', '[']
}

/// Moves the cursor to a column of its row, counted from zero.
pub open spec fn move_to_column_sequence(column: nat) -> Seq<char> {
    csi() + decimal(column + 1) + seq!['G']
}

/// Moves the cursor up by a number of rows.
pub open spec fn move_up_sequence(rows: nat) -> Seq<char> {
    csi() + decimal(rows) + seq!['A']
}

/// Makes the terminal continue text that is too long for a row on the next row.
pub open spec fn enable_line_wrap_sequence() -> Seq<char> {
    csi() + seq!['?', '7', 'h']
}

/// The parts of the screen that can be cleared.
#[derive(Clone, Copy, Debug, PartialEq, Eq, Structural)]
pub enum ClearType {
    /// All cells.
    All,
    /// All cells from the cursor on, in its row and in the rows below.
    FromCursorDown,
    /// All cells in the row of the cursor.
    CurrentLine,
}

/// Clears a part of the screen.
pub open spec fn clear_sequence(clear_type: ClearType) -> Seq<char> {
    match clear_type {
        ClearType::All => csi() + seq!['2', 'J'],
        ClearType::FromCursorDown => csi() + seq!['J'],
        ClearType::CurrentLine => csi() + seq!['2', 'K'],
    }
}

/// Calls `write_ansi` of `crossterm::cursor::MoveToColumn`, which appends the sequence. It adds
/// one to the column, so the largest `u16` is left out.
#[verifier::external_body]
pub(crate) fn write_move_to_column(out: &mut String, column: u16)
    requires
        column < u16::MAX,
    ensures
        final(out)@ == old(out)@ + move_to_column_sequence(column as nat),
{
    let _ = crossterm::cursor::MoveToColumn(column).write_ansi(out);
}

/// Calls `write_ansi` of `crossterm::cursor::MoveUp`, which appends the sequence.
#[verifier::external_body]
pub(crate) fn write_move_up(out: &mut String, rows: u16)
    ensures
        final(out)@ == old(out)@ + move_up_sequence(rows as nat),
{
    let _ = crossterm::cursor::MoveUp(rows).write_ansi(out);
}

/// Calls `write_ansi` of `crossterm::terminal::Clear`, which appends the sequence.
#[verifier::external_body]
pub(crate) fn write_clear(out: &mut String, clear_type: ClearType)
    ensures
        final(out)@ == old(out)@ + clear_sequence(clear_type),
{
    let outside_type = match clear_type {
        ClearType::All => crossterm::terminal::ClearType::All,
        ClearType::FromCursorDown => crossterm::terminal::ClearType::FromCursorDown,
        ClearType::CurrentLine => crossterm::terminal::ClearType::CurrentLine,
    };
    let _ = crossterm::terminal::Clear(outside_type).write_ansi(out);
}

/// Calls `write_ansi` of `crossterm::style::Print`, which appends the text as it is.
#[verifier::external_body]
pub(crate) fn write_print(out: &mut String, text: &str)
    ensures
        final(out)@ == old(out)@ + text@,
{
    let _ = crossterm::style::Print(text).write_ansi(out);
}

/// Calls `write_ansi` of `crossterm::terminal::EnableLineWrap`, which appends the sequence.
#[verifier::external_body]
pub(crate) fn write_enable_line_wrap(out: &mut String)
    ensures
        final(out)@ == old(out)@ + enable_line_wrap_sequence(),
{
    let _ = crossterm::terminal::EnableLineWrap.write_ansi(out);
}

/// One thing that is to be done to a terminal.
#[derive(Debug, PartialEq, Eq)]
pub enum TerminalAction {
    /// Write these bytes.
    Write(Vec<u8>),
    /// Flush what has been written.
    Flush,
}

/// One thing that is to be done to a terminal, without its representation.
pub enum TerminalOp {
    /// Write these bytes.
    Write(Seq<u8>),
    /// Flush what has been written.
    Flush,
}

impl View for TerminalAction {
    type V = TerminalOp;

    open spec fn view(&self) -> TerminalOp {
        match *self {
            TerminalAction::Write(bytes) => TerminalOp::Write(bytes@),
            TerminalAction::Flush => TerminalOp::Flush,
        }
    }
}

/// What is to be done to a terminal, in order.
pub open spec fn ops(actions: Seq<TerminalAction>) -> Seq<TerminalOp> {
    actions.map_values(|action: TerminalAction| action@)
}

/// Writing a text.
pub open spec fn write_text(text: Seq<char>) -> TerminalOp {
    TerminalOp::Write(vstd::utf8::encode_utf8(text))
}

/// Adds an action to the end of a list.
pub(crate) fn push_action(actions: &mut Vec<TerminalAction>, action: TerminalAction)
    ensures
        ops(final(actions)@) == ops(old(actions)@).push(action@),
{
    let ghost before = actions@;
    let ghost op = action@;
    actions.push(action);
    assert(ops(actions@) =~= ops(before).push(op));
}

/// The action that writes a text.
pub(crate) fn write_action(text: &str) -> (action: TerminalAction)
    ensures
        action@ == write_text(text@),
{
    TerminalAction::Write(text.as_bytes_vec())
}

/// The action that makes the terminal wrap long lines.
pub fn enable_line_wrap() -> (action: TerminalAction)
    ensures
        action@ == write_text(enable_line_wrap_sequence()),
{
    let mut out = String::new();
    write_enable_line_wrap(&mut out);
    assert(out@ =~= enable_line_wrap_sequence());
    write_action(out.as_str())
}

/// The number that some digits stand for.
pub open spec fn number_of(digits: Seq<char>) -> nat
    decreases digits.len(),
{
    if digits.len() == 0 {
        0
    } else {
        number_of(digits.drop_last()) * 10 + (digits.last() as nat - 48) as nat
    }
}

/// The decimal notation of a number consists of digits, without leading zeros, and stands for
/// that number.
pub proof fn law_decimal_stands_for_the_number(value: nat)
    ensures
        decimal(value).len() > 0,
        number_of(decimal(value)) == value,
        forall|i: int|
            0 <= i < decimal(value).len() ==> 48 <= (#[trigger] decimal(value)[i]) as nat <= 57,
        decimal(value).len() > 1 ==> decimal(value)[0] != '0',
    decreases value,
{
    let digits = decimal(value);
    if value < 10 {
        assert(digits.drop_last() =~= Seq::<char>::empty());
        assert(digits.last() as nat == 48 + value);
        assert(number_of(digits.drop_last()) == 0);
        assert(number_of(digits) == value);
    } else {
        law_decimal_stands_for_the_number(value / 10);
        assert(digits.drop_last() =~= decimal(value / 10));
        assert(digits.last() as nat == 48 + value % 10);
        assert(number_of(digits) == (value / 10) * 10 + value % 10);
        assert(digits[0] == decimal(value / 10)[0]);
        if value / 10 < 10 {
            assert(decimal(value / 10)[0] as nat == 48 + value / 10);
            assert('0' as nat == 48);
        } else {
            law_decimal_stands_for_the_number(value / 10 / 10);
        }
    }
}

/// Whether a text is a control sequence of one number and a final character.
pub open spec fn is_sequence(text: Seq<char>, number: nat, last: char) -> bool {
    &&& text.len() >= 4
    &&& text[0] == '\u{1b}'
    &&& text[1] == '['
    &&& text.last() == last
    &&& text[2] != '0'
    &&& number_of(text.subrange(2, text.len() - 1)) == number
    &&& forall|i: int| 2 <= i < text.len() - 1 ==> 48 <= (#[trigger] text[i]) as nat <= 57
}

proof fn lemma_is_sequence(number: nat, last: char)
    requires
        number > 0,
    ensures
        is_sequence(csi() + decimal(number) + seq![last], number, last),
{
    law_decimal_stands_for_the_number(number);
    let text = csi() + decimal(number) + seq![last];
    assert(text.subrange(2, text.len() - 1) =~= decimal(number));
    assert(text[2] == decimal(number)[0]);
    if decimal(number).len() == 1 && text[2] == '0' {
        assert(decimal(number).drop_last() =~= Seq::<char>::empty());
        assert(number_of(decimal(number).drop_last()) == 0);
        assert(number_of(decimal(number)) == 0);
    }
    assert forall|i: int| 2 <= i < text.len() - 1 implies 48 <= (#[trigger] text[i]) as nat
        <= 57 by {
        assert(text[i] == decimal(number)[i - 2]);
    }
}

/// The sequences that move the cursor tell the column, counted from one, and the rows; those
/// that clear tell what is cleared.
pub proof fn law_sequences_tell_what_they_do(column: nat, rows: nat)
    requires
        rows > 0,
    ensures
        is_sequence(move_to_column_sequence(column), column + 1, 'G'),
        is_sequence(move_up_sequence(rows), rows, 'A'),
        clear_sequence(ClearType::All) == seq!['\u{1b}', '[', '2', 'J'],
        clear_sequence(ClearType::FromCursorDown) == seq!['\u{1b}', '[', 'J'],
        clear_sequence(ClearType::CurrentLine) == seq!['\u{1b}', '[', '2', 'K'],
        enable_line_wrap_sequence() == seq!['\u{1b}', '[', '?', '7', 'h'],
{
    lemma_is_sequence(column + 1, 'G');
    lemma_is_sequence(rows, 'A');
    assert(clear_sequence(ClearType::All) =~= seq!['\u{1b}', '[', '2', 'J']);
    assert(clear_sequence(ClearType::FromCursorDown) =~= seq!['\u{1b}', '[', 'J']);
    assert(clear_sequence(ClearType::CurrentLine) =~= seq!['\u{1b}', '[', '2', 'K']);
    assert(enable_line_wrap_sequence() =~= seq!['\u{1b}', '[', '?', '7', 'h']);
}

pub(crate) proof fn lemma_first_column()
    ensures
        move_to_column_sequence(0) == seq!['\u{1b}', '[', '1', 'G'],
        clear_sequence(ClearType::FromCursorDown) == seq!['\u{1b}', '[', 'J'],
        clear_sequence(ClearType::CurrentLine) == seq!['\u{1b}', '[', '2', 'K'],
{
    assert(digit(1) == '1');
    assert(move_to_column_sequence(0) =~= seq!['\u{1b}', '[', '1', 'G']);
    assert(clear_sequence(ClearType::FromCursorDown) =~= seq!['\u{1b}', '[', 'J']);
    assert(clear_sequence(ClearType::CurrentLine) =~= seq!['\u{1b}', '[', '2', 'K']);
}

/// The model of some actions holds each of them, with all its bytes, and writing a text is
/// writing its UTF-8 bytes.
pub proof fn law_model_of_actions(actions: Seq<TerminalAction>, text: Seq<char>)
    ensures
        ops(actions).len() == actions.len(),
        forall|i: int|
            0 <= i < actions.len() ==> #[trigger] ops(actions)[i] == match actions[i] {
                TerminalAction::Write(bytes) => TerminalOp::Write(bytes@),
                TerminalAction::Flush => TerminalOp::Flush,
            },
        write_text(text) == TerminalOp::Write(vstd::utf8::encode_utf8(text)),
{
}

} // verus!
