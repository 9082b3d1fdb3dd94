//! What a spinner writes to the terminal.

use crate::ansi::{
    push_action, write_action, write_clear, write_move_to_column, write_move_up, write_print,
    ClearType, TerminalAction,
};
use crate::spinner_style::{SpinnerStyle, SpinnerTemplate, BLOCK_DOTS, BRAILLE_DOTS};
use vstd::prelude::*;

verus! {

/// Turns the state of a spinner into text, and text into what is done to the terminal.
pub trait SpinnerRender {
    /// The text for one tick.
    fn render_tick(&self, message: &str, count: usize, display_width: usize) -> String;

    /// What shows the text for one tick.
    fn paint_tick(&self, output: &str) -> Vec<TerminalAction>;

    /// The text for the end.
    fn render_final_tick(&self, message: &str, display_width: usize) -> String;

    /// What shows the text for the end.
    fn paint_final_tick(&self, output: &str) -> Vec<TerminalAction>;
}

/// A text of one character, repeated.
pub open spec fn repeated(c: char, count: nat) -> Seq<char> {
    Seq::new(count, |i: int| c)
}

impl SpinnerStyle {
    /// The text for the tick that `count` ticks came before.
    pub open spec fn tick_text(self, message: Seq<char>, count: nat) -> Seq<char> {
        match self.template {
            SpinnerTemplate::Dots => message + repeated('.', count),
            SpinnerTemplate::Braille => BRAILLE_DOTS@[(count % BRAILLE_DOTS@.len()) as int]@ + seq![
                ' ',
            ] + message,
            SpinnerTemplate::Block => BLOCK_DOTS@[(count % BLOCK_DOTS@.len()) as int]@ + seq![' ']
                + message,
        }
    }

    /// What is written for a tick: the text takes the place of what the row of the cursor
    /// holds, and the cursor ends up in that row again. Dots only ever grow, so they need no
    /// clearing.
    pub open spec fn painted_tick(self, output: Seq<char>) -> Seq<char> {
        let start = crate::ansi::move_to_column_sequence(0);
        let cleared = match self.template {
            SpinnerTemplate::Dots => start,
            _ => start + crate::ansi::clear_sequence(ClearType::CurrentLine),
        };
        cleared + output + seq!['\n'] + crate::ansi::move_up_sequence(1)
    }

    /// What is written at the end: the text takes the place of what the row of the cursor
    /// holds, and the cursor goes to the row below.
    pub open spec fn painted_final_tick(self, output: Seq<char>) -> Seq<char> {
        crate::ansi::move_to_column_sequence(0) + crate::ansi::clear_sequence(
            ClearType::CurrentLine,
        ) + output + seq!['\n']
    }
}

/// Writing a text at once, which flushes the terminal, and then flushing it in any case.
pub open spec fn write_and_flush(text: Seq<char>) -> Seq<crate::ansi::TerminalOp> {
    seq![
        crate::ansi::write_text(text),
        crate::ansi::TerminalOp::Flush,
        crate::ansi::TerminalOp::Flush,
    ]
}

/// The actions that write a text at once, and then flush the terminal in any case.
fn write_and_flush_actions(text: &str) -> (actions: Vec<TerminalAction>)
    ensures
        crate::ansi::ops(actions@) == write_and_flush(text@),
{
    let mut actions: Vec<TerminalAction> = Vec::new();
    push_action(&mut actions, write_action(text));
    push_action(&mut actions, TerminalAction::Flush);
    push_action(&mut actions, TerminalAction::Flush);
    assert(crate::ansi::ops(actions@) =~= write_and_flush(text@));
    actions
}

/// The line feed, as text.
fn push_line_feed(out: &mut String)
    ensures
        final(out)@ == old(out)@ + seq!['\n'],
{
    proof {
        reveal_strlit("\n");
    }
    write_print(out, "\n");
    assert("\n"@ =~= seq!['\n']);
}

/// A dot and a message, with a space between them.
fn join_with_space(dot: &str, message: &str) -> (text: String)
    ensures
        text@ == dot@ + seq![' '] + message@,
{
    proof {
        reveal_strlit(" ");
    }
    let mut text = String::new();
    text.append(dot);
    text.append(" ");
    text.append(message);
    assert(text@ =~= dot@ + seq![' '] + message@);
    text
}

impl SpinnerRender for SpinnerStyle {
    fn render_tick(&self, message: &str, count: usize, _display_width: usize) -> (text: String)
        ensures
            text@ == self.tick_text(message@, count as nat),
    {
        match self.template {
            SpinnerTemplate::Dots => {
                proof {
                    reveal_strlit(".");
                }
                let mut text = String::new();
                text.append(message);
                let mut dots: usize = 0;
                assert(text@ =~= message@ + repeated('.', 0));
                while dots < count
                    invariant
                        dots <= count,
                        text@ == message@ + repeated('.', dots as nat),
                    decreases count - dots,
                {
                    proof {
                        reveal_strlit(".");
                    }
                    text.append(".");
                    dots += 1;
                    assert(text@ =~= message@ + repeated('.', dots as nat));
                }
                text
            },
            SpinnerTemplate::Braille => {
                // Translate the count into an index of the dots.
                let index_to_use: usize = count % BRAILLE_DOTS.len();
                join_with_space(BRAILLE_DOTS[index_to_use], message)
            },
            SpinnerTemplate::Block => {
                // Translate the count into an index of the blocks.
                let index_to_use: usize = count % BLOCK_DOTS.len();
                join_with_space(BLOCK_DOTS[index_to_use], message)
            },
        }
    }

    fn paint_tick(&self, output: &str) -> (actions: Vec<TerminalAction>)
        ensures
            crate::ansi::ops(actions@) == write_and_flush(self.painted_tick(output@)),
    {
        let mut out = String::new();
        write_move_to_column(&mut out, 0);
        match self.template {
            SpinnerTemplate::Dots => {},
            SpinnerTemplate::Braille => {
                write_clear(&mut out, ClearType::CurrentLine);
            },
            SpinnerTemplate::Block => {
                write_clear(&mut out, ClearType::CurrentLine);
            },
        }
        // Make sure that the output ends with a line feed, so that it is printed.
        write_print(&mut out, output);
        push_line_feed(&mut out);
        write_move_up(&mut out, 1);
        assert(out@ =~= self.painted_tick(output@));
        write_and_flush_actions(out.as_str())
    }

    fn render_final_tick(&self, final_message: &str, _display_width: usize) -> (text: String)
        ensures
            text@ == final_message@,
    {
        final_message.to_owned()
    }

    fn paint_final_tick(&self, output: &str) -> (actions: Vec<TerminalAction>)
        ensures
            crate::ansi::ops(actions@) == write_and_flush(self.painted_final_tick(output@)),
    {
        let mut out = String::new();
        write_move_to_column(&mut out, 0);
        write_clear(&mut out, ClearType::CurrentLine);
        write_print(&mut out, output);
        push_line_feed(&mut out);
        assert(out@ =~= self.painted_final_tick(output@));
        write_and_flush_actions(out.as_str())
    }
}

/// Ticks of a spinner of braille dots or blocks come around: they repeat after as many ticks
/// as there are shapes.
pub proof fn law_ticks_come_around(style: SpinnerStyle, message: Seq<char>, count: nat)
    ensures
        style.template == SpinnerTemplate::Braille ==> style.tick_text(
            message,
            count + BRAILLE_DOTS@.len(),
        ) == style.tick_text(message, count),
        style.template == SpinnerTemplate::Block ==> style.tick_text(
            message,
            count + BLOCK_DOTS@.len(),
        ) == style.tick_text(message, count),
{
}

/// Each tick of a spinner of dots shows one dot more, so a tick covers what the tick before it
/// left on the screen.
pub proof fn law_dots_grow(style: SpinnerStyle, message: Seq<char>, count: nat)
    requires
        style.template == SpinnerTemplate::Dots,
    ensures
        style.tick_text(message, count + 1) == style.tick_text(message, count).push('.'),
{
    assert(style.tick_text(message, count + 1) =~= style.tick_text(message, count).push('.'));
}

/// A tick of a spinner of dots is the message, whole, and then exactly as many dots as there
/// were ticks before.
pub proof fn law_dots_follow_the_message(style: SpinnerStyle, message: Seq<char>, count: nat)
    requires
        style.template == SpinnerTemplate::Dots,
    ensures
        ({
            let text = style.tick_text(message, count);
            &&& text.len() == message.len() + count
            &&& text.take(message.len() as int) == message
            &&& forall|i: int| message.len() <= i < text.len() ==> #[trigger] text[i] == '.'
        }),
{
    assert(style.tick_text(message, count).take(message.len() as int) =~= message);
}

/// A tick of a spinner of braille dots or blocks is the shape whose turn it is, a space, and the
/// message, whole. Each shape has its turn: the shapes come one after another, over and over.
pub proof fn law_shapes_take_turns(
    style: SpinnerStyle,
    message: Seq<char>,
    rounds: nat,
    turn: nat,
)
    requires
        turn < 8,
        style.template != SpinnerTemplate::Dots,
    ensures
        ({
            let text = style.tick_text(message, rounds * 8 + turn);
            let shape = if style.template == SpinnerTemplate::Braille {
                BRAILLE_DOTS@[turn as int]@
            } else {
                BLOCK_DOTS@[turn as int]@
            };
            let width = shape.len() as int;
            &&& text.len() == width + 1 + message.len()
            &&& text.take(width) == shape
            &&& text[width] == ' '
            &&& text.skip(width + 1) == message
        }),
{
    let count = rounds * 8 + turn;
    let text = style.tick_text(message, count);
    let shape = if style.template == SpinnerTemplate::Braille {
        BRAILLE_DOTS@[turn as int]@
    } else {
        BLOCK_DOTS@[turn as int]@
    };
    assert(BRAILLE_DOTS@.len() == 8);
    assert(BLOCK_DOTS@.len() == 8);
    assert(count % 8 == turn);
    let width = shape.len() as int;
    assert(text.take(width) =~= shape);
    assert(text.skip(width + 1) =~= message);
}

/// A tick is painted from the first column on, the text whole and then a line feed, and the
/// cursor goes back up by the one row that the line feed took. What was in the row is cleared
/// first, but for dots, which cover it.
pub proof fn law_tick_is_painted_over_the_last_one(style: SpinnerStyle, output: Seq<char>)
    ensures
        ({
            let start = if style.template == SpinnerTemplate::Dots {
                seq!['\u{1b}', '[', '1', 'G']
            } else {
                seq!['\u{1b}', '[', '1', 'G', '\u{1b}', '[', '2', 'K']
            };
            style.painted_tick(output) == start + output + seq!['\n', '\u{1b}', '[', '1', 'A']
        }),
{
    let start = if style.template == SpinnerTemplate::Dots {
        seq!['\u{1b}', '[', '1', 'G']
    } else {
        seq!['\u{1b}', '[', '1', 'G', '\u{1b}', '[', '2', 'K']
    };
    crate::ansi::lemma_first_column();
    assert(crate::ansi::digit(1) == '1');
    assert(crate::ansi::move_up_sequence(1) =~= seq!['\u{1b}', '[', '1', 'A']);
    assert(style.painted_tick(output) =~= start + output + seq!['\n', '\u{1b}', '[', '1', 'A']);
}

/// The end is painted from the first column on, in a row that is cleared first, the text whole,
/// and the cursor goes to the next row.
pub proof fn law_end_is_painted_over_the_last_tick(style: SpinnerStyle, output: Seq<char>)
    ensures
        style.painted_final_tick(output) == seq!['\u{1b}', '[', '1', 'G', '\u{1b}', '[', '2', 'K']
            + output + seq!['\n'],
{
    crate::ansi::lemma_first_column();
    assert(style.painted_final_tick(output) =~= seq![
        '\u{1b}',
        '[',
        '1',
        'G',
        '\u{1b}',
        '[',
        '2',
        'K',
    ] + output + seq!['\n']);
}

/// What is painted is written whole, in one piece, and then flushed.
pub proof fn law_painting_is_written_and_flushed(text: Seq<char>)
    ensures
        write_and_flush(text).len() == 3,
        write_and_flush(text)[0] == crate::ansi::TerminalOp::Write(vstd::utf8::encode_utf8(text)),
        write_and_flush(text)[1] == crate::ansi::TerminalOp::Flush,
        write_and_flush(text)[2] == crate::ansi::TerminalOp::Flush,
{
}

} // verus!
