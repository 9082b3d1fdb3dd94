//! The line that the user is editing, and how it is shown.

use crate::ansi::{write_clear, write_move_to_column, write_move_up, write_print, ClearType};
use crate::history::History;
use crate::input::{Command, InputEvent};
use crate::readline::ReadlineEvent;
use crate::unicode::{width, Segments};
use vstd::prelude::*;

verus! {

/// The first place at or after `position` where a grapheme cluster starts.
pub open spec fn snapped(line: Seq<char>, position: nat) -> nat {
    let clusters = crate::unicode::grapheme_clusters(line);
    crate::unicode::cluster_start(
        clusters,
        crate::unicode::cluster_at_or_after(clusters, position, 0),
    )
}

/// Whether a grapheme cluster starts or the line ends at `position`.
pub open spec fn is_boundary(line: Seq<char>, position: nat) -> bool {
    snapped(line, position) == position
}

/// How many rows below the prompt the cursor is after text of this width.
pub open spec fn row_after(columns_taken: nat, columns: nat) -> nat {
    if columns_taken == 0 {
        0
    } else {
        ((columns_taken - 1) as nat) / columns
    }
}

/// The column of the cursor after text of this width. Past the last column of a row the cursor
/// stays there until more text comes.
pub open spec fn column_after(columns_taken: nat, columns: nat) -> nat {
    let taken = ((columns_taken - 1) as nat) % columns + 1;
    if columns_taken == 0 {
        0
    } else if taken < columns {
        taken
    } else {
        (columns - 1) as nat
    }
}

/// Moves the cursor up, if by any row at all.
pub open spec fn up_sequence(rows: nat) -> Seq<char> {
    if rows == 0 {
        Seq::empty()
    } else if rows > u16::MAX {
        crate::ansi::move_up_sequence(u16::MAX as nat)
    } else {
        crate::ansi::move_up_sequence(rows)
    }
}

/// Bytes as they are written in raw mode: a line feed also goes back to the first column.
pub open spec fn with_carriage_returns(data: Seq<u8>) -> Seq<u8>
    decreases data.len(),
{
    if data.len() == 0 {
        Seq::empty()
    } else {
        let earlier = with_carriage_returns(data.drop_last()).push(data.last());
        if data.last() == 10 {
            earlier + vstd::utf8::encode_utf8(crate::ansi::move_to_column_sequence(0))
        } else {
            earlier
        }
    }
}

/// What the line is, without its representation.
#[verifier::ext_equal]
pub struct LineModel {
    /// What the user has entered so far.
    pub line: Seq<char>,
    /// How many characters of the line come before the cursor.
    pub cursor: nat,
    /// What is shown in front of the line.
    pub prompt: Seq<char>,
    /// Whether the line stays on the screen when it is entered.
    pub print_on_enter: bool,
    /// Whether the line stays on the screen when it is given up.
    pub print_on_control_c: bool,
    /// The columns and rows of the terminal.
    pub term_size: (u16, u16),
}

/// What handling an event leads to.
pub struct Handled {
    /// The line afterwards.
    pub state: LineModel,
    /// The history afterwards.
    pub history: crate::history::HistoryModel,
    /// What reading a line ends with, if it does.
    pub event: Option<crate::readline::ReadlineEventModel>,
    /// What is written to the terminal.
    pub output: Seq<u8>,
}

impl LineModel {
    /// How many columns the terminal has; one without columns counts as one of one column.
    pub open spec fn columns(self) -> nat {
        if self.term_size.0 == 0 {
            1
        } else {
            self.term_size.0 as nat
        }
    }

    /// The line before the cursor.
    pub open spec fn before_cursor(self) -> Seq<char> {
        self.line.take(self.cursor as int)
    }

    /// The row of the cursor, counted from the prompt.
    pub open spec fn cursor_row(self) -> nat {
        row_after(
            crate::unicode::display_width(self.prompt + self.before_cursor()),
            self.columns(),
        )
    }

    /// The column of the cursor.
    pub open spec fn cursor_column(self) -> nat {
        column_after(
            crate::unicode::display_width(self.prompt + self.before_cursor()),
            self.columns(),
        )
    }

    /// The row that the line ends in, counted from the prompt.
    pub open spec fn last_row(self) -> nat {
        row_after(crate::unicode::display_width(self.prompt + self.line), self.columns())
    }

    /// What is written to erase the prompt and the line.
    pub open spec fn clear_text(self) -> Seq<char> {
        up_sequence(self.cursor_row()) + crate::ansi::move_to_column_sequence(0)
            + crate::ansi::clear_sequence(ClearType::FromCursorDown)
    }

    /// What is written to show the prompt and the line, with the cursor at its place.
    pub open spec fn render_text(self) -> Seq<char> {
        let back = if self.last_row() > self.cursor_row() {
            (self.last_row() - self.cursor_row()) as nat
        } else {
            0
        };
        self.prompt + self.line + up_sequence(back) + crate::ansi::move_to_column_sequence(
            self.cursor_column(),
        )
    }

    /// What is written to show this line in place of another one.
    pub open spec fn replacing(self, shown: LineModel) -> Seq<u8> {
        vstd::utf8::encode_utf8(shown.clear_text() + self.render_text())
    }

    /// What is written to show data above the prompt. Data that ends within a line gets a line
    /// feed of its own.
    pub open spec fn print_bytes(self, data: Seq<u8>) -> Seq<u8> {
        let whole = if data.len() > 0 && data.last() != 10 {
            data.push(10)
        } else {
            data
        };
        vstd::utf8::encode_utf8(self.clear_text()) + with_carriage_returns(whole)
            + vstd::utf8::encode_utf8(self.render_text())
    }

    /// The line with the cursor somewhere else.
    pub open spec fn moved(self, cursor: nat) -> LineModel {
        LineModel { cursor, ..self }
    }

    /// The line with a part of it replaced, and the cursor behind that part.
    pub open spec fn spliced(self, from: nat, to: nat, text: Seq<char>) -> LineModel {
        let line = self.line.take(from as int) + text + self.line.skip(to as int);
        LineModel { line, cursor: snapped(line, from + text.len()), ..self }
    }

    /// The line with another text in it, and the cursor at its end.
    pub open spec fn filled(self, text: Seq<char>) -> LineModel {
        self.spliced(0, self.line.len(), text)
    }

    /// The cluster that the cursor is in front of.
    pub open spec fn cluster_at_cursor(self) -> int {
        crate::unicode::cluster_at_or_after(
            crate::unicode::grapheme_clusters(self.line),
            self.cursor,
            0,
        )
    }

    /// The place of a cluster in the line.
    pub open spec fn place_of(self, cluster: int) -> nat {
        crate::unicode::cluster_start(crate::unicode::grapheme_clusters(self.line), cluster)
    }

    /// The place one cluster left of the cursor.
    pub open spec fn left(self) -> nat {
        self.place_of(self.cluster_at_cursor() - 1)
    }

    /// The place one cluster right of the cursor.
    pub open spec fn right(self) -> nat {
        let count = crate::unicode::grapheme_clusters(self.line).len();
        if self.cluster_at_cursor() < count {
            self.place_of(self.cluster_at_cursor() + 1)
        } else {
            self.place_of(count as int)
        }
    }

    /// The place behind the previous whitespace, leaving aside whitespace that the cursor is
    /// just behind of.
    pub open spec fn previous_whitespace(self) -> nat {
        let clusters = crate::unicode::grapheme_clusters(self.line);
        let word = crate::unicode::skip_back(
            clusters,
            crate::unicode::skip_back(clusters, self.cluster_at_cursor(), true),
            false,
        );
        if self.place_of(word) < self.cursor {
            self.place_of(word)
        } else {
            self.cursor
        }
    }

    /// The place in front of the next whitespace, leaving aside whitespace that the cursor is
    /// just in front of.
    pub open spec fn next_whitespace(self) -> nat {
        let clusters = crate::unicode::grapheme_clusters(self.line);
        self.place_of(
            crate::unicode::skip_forward(
                clusters,
                crate::unicode::skip_forward(clusters, self.cluster_at_cursor(), true),
                false,
            ),
        )
    }

    /// The line after a command that only edits it.
    pub open spec fn edited(self, command: Command) -> LineModel {
        match command {
            Command::Insert(c) => self.spliced(self.cursor, self.cursor, seq![c]),
            Command::MoveLeft => self.moved(self.left()),
            Command::MoveRight => self.moved(self.right()),
            Command::MoveToPreviousWhitespace => self.moved(self.previous_whitespace()),
            Command::MoveToNextWhitespace => self.moved(self.next_whitespace()),
            Command::MoveToStart => self.moved(0),
            Command::MoveToEnd => self.moved(self.line.len()),
            Command::EraseLeft => self.spliced(self.left(), self.cursor, Seq::empty()),
            Command::EraseRight => self.spliced(self.cursor, self.right(), Seq::empty()),
            Command::EraseToPreviousWhitespace => self.spliced(
                self.previous_whitespace(),
                self.cursor,
                Seq::empty(),
            ),
            Command::EraseToStart => self.spliced(0, self.cursor, Seq::empty()),
            _ => self,
        }
    }

    /// What is written when the line is left: it stays on the screen if `keep` is set, and is
    /// erased otherwise; then the prompt is shown with an empty line.
    pub open spec fn leave_bytes(self, keep: bool) -> Seq<u8> {
        let next = self.filled(Seq::empty());
        let kept = if keep {
            self.prompt + self.line + seq!['\n'] + crate::ansi::move_to_column_sequence(0)
        } else {
            Seq::empty()
        };
        vstd::utf8::encode_utf8(self.clear_text() + kept + next.render_text())
    }

    /// What a command leads to.
    pub open spec fn commanded(
        self,
        command: Command,
        history: crate::history::HistoryModel,
    ) -> Handled {
        match command {
            Command::Nothing => Handled {
                state: self,
                history,
                event: None,
                output: Seq::empty(),
            },
            Command::EndOfInput => Handled {
                state: self,
                history,
                event: Some(crate::readline::ReadlineEventModel::Eof),
                output: Seq::empty(),
            },
            Command::Submit => Handled {
                state: self.filled(Seq::empty()),
                history,
                event: Some(crate::readline::ReadlineEventModel::Line(self.line)),
                output: self.leave_bytes(self.print_on_enter),
            },
            Command::Interrupt => Handled {
                state: self.filled(Seq::empty()),
                history,
                event: Some(crate::readline::ReadlineEventModel::Interrupted),
                output: self.leave_bytes(self.print_on_control_c),
            },
            Command::ClearScreen => Handled {
                state: self,
                history,
                event: None,
                output: vstd::utf8::encode_utf8(
                    crate::ansi::clear_sequence(ClearType::All) + self.clear_text()
                        + self.render_text(),
                ),
            },
            Command::HistoryOlder => self.recalled(history.next_text(), history.scrolled_next()),
            Command::HistoryNewer => self.recalled(
                history.previous_text(),
                history.scrolled_previous(),
            ),
            _ => Handled {
                state: self.edited(command),
                history,
                event: None,
                output: self.edited(command).replacing(self),
            },
        }
    }

    /// What showing an entry of the history leads to, if there is one.
    pub open spec fn recalled(
        self,
        text: Option<Seq<char>>,
        history: crate::history::HistoryModel,
    ) -> Handled {
        match text {
            Some(text) => Handled {
                state: self.filled(text),
                history,
                event: None,
                output: self.filled(text).replacing(self),
            },
            None => Handled { state: self, history, event: None, output: Seq::empty() },
        }
    }

    /// The line on a terminal of another size.
    pub open spec fn resized(self, term_size: (u16, u16)) -> LineModel {
        LineModel { term_size, ..self }
    }

    /// What an event leads to.
    pub open spec fn handled(
        self,
        event: InputEvent,
        history: crate::history::HistoryModel,
    ) -> Handled {
        match event {
            InputEvent::Key(key) => self.commanded(key.bound_to(), history),
            InputEvent::Resize(columns, rows) => {
                let resized = self.resized((columns, rows));
                Handled {
                    state: resized,
                    history,
                    event: None,
                    output: resized.replacing(resized),
                }
            },
            InputEvent::Other => self.commanded(Command::Nothing, history),
        }
    }

    /// Whether the cursor is within the line.
    pub open spec fn cursor_in_line(self) -> bool {
        self.cursor <= self.line.len()
    }
}

fn row_after_width(columns_taken: usize, columns: usize) -> (row: usize)
    requires
        columns > 0,
    ensures
        row == row_after(columns_taken as nat, columns as nat),
{
    if columns_taken == 0 {
        0
    } else {
        (columns_taken - 1) / columns
    }
}

fn column_after_width(columns_taken: usize, columns: usize) -> (column: u16)
    requires
        0 < columns <= u16::MAX,
    ensures
        column == column_after(columns_taken as nat, columns as nat),
        column < u16::MAX,
{
    if columns_taken == 0 {
        0
    } else {
        let taken: usize = (columns_taken - 1) % columns + 1;
        if taken < columns {
            taken as u16
        } else {
            (columns - 1) as u16
        }
    }
}

fn write_up(out: &mut String, rows: usize)
    ensures
        final(out)@ == old(out)@ + up_sequence(rows as nat),
{
    if rows > 0 {
        let limit: usize = u16::MAX as usize;
        if rows > limit {
            write_move_up(out, u16::MAX);
        } else {
            write_move_up(out, rows as u16);
        }
    } else {
        assert(old(out)@ + Seq::<char>::empty() =~= old(out)@);
    }
}

/// The line that the user is editing.
pub struct LineState {
    /// What the user has entered so far.
    pub line: String,
    /// How many characters of the line come before the cursor.
    pub cursor: usize,
    /// What is shown in front of the line.
    pub prompt: String,
    /// Whether the prompt and the line stay on the screen when the line is entered.
    pub should_print_line_on_enter: bool,
    /// Whether the prompt and the line stay on the screen when the line is given up.
    pub should_print_line_on_control_c: bool,
    /// The columns and rows of the terminal.
    pub term_size: (u16, u16),
}

/// What comes of handling an event.
pub struct Response {
    /// What reading a line ends with, if it does.
    pub event: Option<ReadlineEvent>,
    /// What is to be written to the terminal.
    pub output: Vec<u8>,
}

impl View for LineState {
    type V = LineModel;

    open spec fn view(&self) -> LineModel {
        LineModel {
            line: self.line@,
            cursor: self.cursor as nat,
            prompt: self.prompt@,
            print_on_enter: self.should_print_line_on_enter,
            print_on_control_c: self.should_print_line_on_control_c,
            term_size: self.term_size,
        }
    }
}

impl LineState {
    /// An empty line behind a prompt, on a terminal of the given size.
    pub fn new(prompt: String, term_size: (u16, u16)) -> (state: LineState)
        ensures
            state@ == (LineModel {
                line: Seq::empty(),
                cursor: 0,
                prompt: prompt@,
                print_on_enter: true,
                print_on_control_c: true,
                term_size,
            }),
    {
        LineState {
            line: String::new(),
            cursor: 0,
            prompt,
            should_print_line_on_enter: true,
            should_print_line_on_control_c: true,
            term_size,
        }
    }

    fn columns(&self) -> (columns: usize)
        ensures
            columns == self@.columns(),
            0 < columns <= u16::MAX,
    {
        if self.term_size.0 == 0 {
            1
        } else {
            self.term_size.0 as usize
        }
    }

    /// The width of the prompt and the line before the cursor.
    fn width_before_cursor(&self) -> (columns: usize)
        requires
            self@.cursor_in_line(),
        ensures
            columns == crate::unicode::display_width(self@.prompt + self@.before_cursor()),
    {
        let mut text = self.prompt.clone();
        text.append(self.line.as_str().substring_char(0, self.cursor));
        assert(self.line@.subrange(0, self.cursor as int) =~= self@.before_cursor());
        width(text.as_str())
    }

    /// The width of the prompt and the line.
    fn width_of_line(&self) -> (columns: usize)
        ensures
            columns == crate::unicode::display_width(self@.prompt + self@.line),
    {
        let mut text = self.prompt.clone();
        text.append(self.line.as_str());
        width(text.as_str())
    }

    fn write_clear_text(&self, out: &mut String)
        requires
            self@.cursor_in_line(),
        ensures
            final(out)@ == old(out)@ + self@.clear_text(),
    {
        let row = row_after_width(self.width_before_cursor(), self.columns());
        write_up(out, row);
        write_move_to_column(out, 0);
        write_clear(out, ClearType::FromCursorDown);
        assert(out@ =~= old(out)@ + self@.clear_text());
    }

    fn write_render_text(&self, out: &mut String)
        requires
            self@.cursor_in_line(),
        ensures
            final(out)@ == old(out)@ + self@.render_text(),
    {
        let columns = self.columns();
        let before = self.width_before_cursor();
        let cursor_row = row_after_width(before, columns);
        let last_row = row_after_width(self.width_of_line(), columns);
        let back: usize = if last_row > cursor_row {
            last_row - cursor_row
        } else {
            0
        };
        write_print(out, self.prompt.as_str());
        write_print(out, self.line.as_str());
        write_up(out, back);
        write_move_to_column(out, column_after_width(before, columns));
        assert(out@ =~= old(out)@ + self@.render_text());
    }

    /// What erases the prompt and the line.
    pub fn clear(&self) -> (output: Vec<u8>)
        requires
            self@.cursor_in_line(),
        ensures
            output@ == vstd::utf8::encode_utf8(self@.clear_text()),
    {
        let mut out = String::new();
        self.write_clear_text(&mut out);
        assert(out@ =~= self@.clear_text());
        out.as_str().as_bytes_vec()
    }

    /// What shows the prompt and the line.
    pub fn render(&self) -> (output: Vec<u8>)
        requires
            self@.cursor_in_line(),
        ensures
            output@ == vstd::utf8::encode_utf8(self@.render_text()),
    {
        let mut out = String::new();
        self.write_render_text(&mut out);
        assert(out@ =~= self@.render_text());
        out.as_str().as_bytes_vec()
    }

    /// What erases the prompt and the line, and shows them anew.
    pub fn clear_and_render(&self) -> (output: Vec<u8>)
        requires
            self@.cursor_in_line(),
        ensures
            output@ == self@.replacing(self@),
    {
        let mut out = String::new();
        self.write_clear_text(&mut out);
        self.write_render_text(&mut out);
        assert(out@ =~= self@.clear_text() + self@.render_text());
        out.as_str().as_bytes_vec()
    }

    /// What shows data above the prompt and the line.
    pub fn print_data(&self, data: &[u8]) -> (output: Vec<u8>)
        requires
            self@.cursor_in_line(),
        ensures
            output@ == self@.print_bytes(data@),
    {
        let mut output = self.clear();
        let ghost cleared = output@;
        let mut go_back = String::new();
        write_move_to_column(&mut go_back, 0);
        assert(go_back@ =~= crate::ansi::move_to_column_sequence(0));
        let mut i: usize = 0;
        assert(data@.take(0) =~= Seq::<u8>::empty());
        assert(output@ =~= cleared + with_carriage_returns(data@.take(0)));
        while i < data.len()
            invariant
                i <= data@.len(),
                go_back@ == crate::ansi::move_to_column_sequence(0),
                output@ == cleared + with_carriage_returns(data@.take(i as int)),
            decreases data@.len() - i,
        {
            let ghost before = output@;
            output.push(data[i]);
            if data[i] == 10 {
                output.extend_from_slice(go_back.as_str().as_bytes());
            }
            proof {
                let taken = data@.take(i + 1);
                assert(taken.drop_last() =~= data@.take(i as int));
                assert(output@ =~= cleared + with_carriage_returns(taken));
            }
            i += 1;
        }
        assert(data@.take(data@.len() as int) =~= data@);
        if data.len() > 0 && data[data.len() - 1] != 10 {
            output.push(10);
            output.extend_from_slice(go_back.as_str().as_bytes());
            proof {
                let whole = data@.push(10);
                assert(whole.drop_last() =~= data@);
                assert(output@ =~= cleared + with_carriage_returns(whole));
            }
        }
        let rendered = self.render();
        output.extend_from_slice(rendered.as_slice());
        assert(output@ =~= self@.print_bytes(data@));
        output
    }

    /// Changes the prompt, and shows the line behind the new one.
    pub fn update_prompt(&mut self, prompt: &str) -> (output: Vec<u8>)
        requires
            old(self)@.cursor_in_line(),
        ensures
            final(self)@ == (LineModel { prompt: prompt@, ..old(self)@ }),
            output@ == final(self)@.replacing(old(self)@),
    {
        let mut out = String::new();
        self.write_clear_text(&mut out);
        self.prompt = prompt.to_owned();
        self.write_render_text(&mut out);
        assert(out@ =~= old(self)@.clear_text() + self@.render_text());
        out.as_str().as_bytes_vec()
    }

    /// Replaces a part of the line, and puts the cursor behind that part.
    fn splice(&mut self, from: usize, to: usize, text: &str)
        requires
            from <= to <= old(self)@.line.len(),
        ensures
            final(self)@ == old(self)@.spliced(from as nat, to as nat, text@),
            final(self)@.cursor_in_line(),
            is_boundary(final(self)@.line, final(self)@.cursor),
            final(self)@.cursor >= from + text@.len(),
    {
        let count: usize = self.line.as_str().unicode_len();
        let mut line = String::new();
        line.append(self.line.as_str().substring_char(0, from));
        line.append(text);
        let behind: usize = line.as_str().unicode_len();
        line.append(self.line.as_str().substring_char(to, count));
        assert(line@ =~= self.line@.take(from as int) + text@ + self.line@.skip(to as int));

        let segments = Segments::new(line.as_str());
        let cursor = segments.start(segments.index_at(behind));
        proof {
            crate::unicode::lemma_cluster_at_or_after(segments.clusters(), behind as nat, 0);
        }
        self.line = line;
        self.cursor = cursor;
    }

    /// The place one cluster left of the cursor, and the place behind the previous whitespace.
    fn places_left(&self) -> (places: (usize, usize))
        requires
            self@.cursor_in_line(),
        ensures
            places.0 == self@.left(),
            places.0 <= self@.cursor,
            is_boundary(self@.line, places.0 as nat),
            places.1 == self@.previous_whitespace(),
            places.1 <= self@.cursor,
            is_boundary(self@.line, self@.cursor) ==> is_boundary(self@.line, places.1 as nat),
    {
        let segments = Segments::new(self.line.as_str());
        let index = segments.index_at(self.cursor);
        let word = segments.start(
            segments.skip_back(segments.skip_back(index, true), false),
        );
        let left = if index > 0 {
            segments.start(index - 1)
        } else {
            segments.start(0)
        };
        proof {
            crate::unicode::lemma_cluster_at_or_after(
                segments.clusters(),
                self.cursor as nat,
                0,
            );
        }
        let previous: usize = if word < self.cursor {
            word
        } else {
            self.cursor
        };
        (left, previous)
    }

    /// The place one cluster right of the cursor, and the place in front of the next
    /// whitespace.
    fn places_right(&self) -> (places: (usize, usize))
        requires
            self@.cursor_in_line(),
        ensures
            places.0 == self@.right(),
            self@.cursor <= places.0 <= self@.line.len(),
            is_boundary(self@.line, places.0 as nat),
            places.1 == self@.next_whitespace(),
            places.1 <= self@.line.len(),
            is_boundary(self@.line, places.1 as nat),
    {
        let segments = Segments::new(self.line.as_str());
        let index = segments.index_at(self.cursor);
        let next = segments.start(
            segments.skip_forward(segments.skip_forward(index, true), false),
        );
        proof {
            crate::unicode::lemma_cluster_at_or_after(
                segments.clusters(),
                self.cursor as nat,
                0,
            );
        }
        let right = if index < segments.len() {
            segments.start(index + 1)
        } else {
            segments.start(index)
        };
        (right, next)
    }

    /// Does what a command asks for, if it only edits the line.
    pub fn edit(&mut self, command: Command)
        requires
            old(self)@.cursor_in_line(),
        ensures
            final(self)@ == old(self)@.edited(command),
            final(self)@.cursor_in_line(),
            is_boundary(old(self)@.line, old(self)@.cursor) ==> is_boundary(
                final(self)@.line,
                final(self)@.cursor,
            ),
            command matches Command::Insert(c) ==> old(self)@.cursor == old(self)@.line.len() ==> {
                &&& final(self)@.line == old(self)@.line.push(c)
                &&& final(self)@.cursor == final(self)@.line.len()
            },
    {
        let cursor: usize = self.cursor;
        proof {
            reveal_strlit("");
            assert(""@ =~= Seq::<char>::empty());
        }
        match command {
            Command::Insert(c) => {
                let mut text = String::new();
                text.push(c);
                assert(text@ =~= seq![c]);
                self.splice(cursor, cursor, text.as_str());
                proof {
                    let typed = old(self)@.line;
                    if cursor == typed.len() {
                        assert(typed.take(cursor as int) + seq![c] + typed.skip(cursor as int)
                            =~= typed.push(c));
                    }
                }
            },
            Command::MoveLeft => {
                self.cursor = self.places_left().0;
            },
            Command::MoveRight => {
                self.cursor = self.places_right().0;
            },
            Command::MoveToPreviousWhitespace => {
                self.cursor = self.places_left().1;
            },
            Command::MoveToNextWhitespace => {
                self.cursor = self.places_right().1;
            },
            Command::MoveToStart => {
                self.cursor = 0;
                assert(is_boundary(self@.line, 0));
            },
            Command::MoveToEnd => {
                let segments = Segments::new(self.line.as_str());
                let end = segments.start(segments.len());
                proof {
                    crate::unicode::lemma_cluster_start(
                        segments.clusters(),
                        segments.clusters().len() as int,
                    );
                }
                self.cursor = end;
            },
            Command::EraseLeft => {
                let left = self.places_left().0;
                self.splice(left, cursor, "");
            },
            Command::EraseRight => {
                let right = self.places_right().0;
                self.splice(cursor, right, "");
            },
            Command::EraseToPreviousWhitespace => {
                let previous = self.places_left().1;
                self.splice(previous, cursor, "");
            },
            Command::EraseToStart => {
                self.splice(0, cursor, "");
            },
            _ => {},
        }
    }

    /// Puts another text into the line, and shows it.
    fn recall(&mut self, text: &str) -> (output: Vec<u8>)
        requires
            old(self)@.cursor_in_line(),
        ensures
            final(self)@ == old(self)@.filled(text@),
            final(self)@.cursor_in_line(),
            is_boundary(final(self)@.line, final(self)@.cursor),
            output@ == final(self)@.replacing(old(self)@),
    {
        let mut out = String::new();
        self.write_clear_text(&mut out);
        let count: usize = self.line.as_str().unicode_len();
        self.splice(0, count, text);
        self.write_render_text(&mut out);
        assert(out@ =~= old(self)@.clear_text() + self@.render_text());
        out.as_str().as_bytes_vec()
    }

    /// Leaves the line, which stays on the screen if `keep` is set, for an empty one.
    fn leave(&mut self, keep: bool) -> (left: (String, Vec<u8>))
        requires
            old(self)@.cursor_in_line(),
        ensures
            final(self)@ == old(self)@.filled(Seq::empty()),
            final(self)@.cursor_in_line(),
            is_boundary(final(self)@.line, final(self)@.cursor),
            left.0@ == old(self)@.line,
            left.1@ == old(self)@.leave_bytes(keep),
    {
        proof {
            reveal_strlit("");
            assert(""@ =~= Seq::<char>::empty());
            reveal_strlit("\n");
            assert("\n"@ =~= seq!['\n']);
        }
        let mut out = String::new();
        self.write_clear_text(&mut out);
        assert(out@ =~= old(self)@.clear_text());
        let ghost cleared = out@;
        if keep {
            write_print(&mut out, self.prompt.as_str());
            write_print(&mut out, self.line.as_str());
            write_print(&mut out, "\n");
            write_move_to_column(&mut out, 0);
            assert(out@ =~= cleared + (self@.prompt + self@.line + seq!['\n']
                + crate::ansi::move_to_column_sequence(0)));
        } else {
            assert(out@ =~= cleared + Seq::<char>::empty());
        }
        let line = self.line.clone();
        let count: usize = self.line.as_str().unicode_len();
        self.splice(0, count, "");
        self.write_render_text(&mut out);
        (line, out.as_str().as_bytes_vec())
    }

    /// Handles an event from the terminal.
    pub fn handle_event(&mut self, event: InputEvent, history: &mut History) -> (response: Response)
        requires
            old(self)@.cursor_in_line(),
            event.command() == Command::HistoryOlder ==> old(history)@.position_in_range(),
            event.command() == Command::HistoryNewer ==> old(history)@.can_scroll_forward(),
        ensures
            ({
                let handled = old(self)@.handled(event, old(history)@);
                &&& final(self)@ == handled.state
                &&& final(history)@ == handled.history
                &&& response.output@ == handled.output
                &&& match response.event {
                    Some(event) => handled.event == Some(event@),
                    None => handled.event is None,
                }
            }),
            final(history).sender == old(history).sender,
            final(self)@.cursor_in_line(),
            is_boundary(old(self)@.line, old(self)@.cursor) ==> is_boundary(
                final(self)@.line,
                final(self)@.cursor,
            ),
            event.command() matches Command::Insert(c) ==> old(self)@.cursor == old(
                self,
            )@.line.len() ==> {
                &&& final(self)@.line == old(self)@.line.push(c)
                &&& final(self)@.cursor == final(self)@.line.len()
            },
    {
        let key = match event {
            InputEvent::Key(key) => key,
            InputEvent::Resize(columns, rows) => {
                self.term_size = (columns, rows);
                return Response { event: None, output: self.clear_and_render() };
            },
            InputEvent::Other => {
                return Response { event: None, output: Vec::new() };
            },
        };
        let command = key.command();
        match command {
            Command::Nothing => Response { event: None, output: Vec::new() },
            Command::EndOfInput => Response {
                event: Some(ReadlineEvent::Eof),
                output: Vec::new(),
            },
            Command::Submit => {
                let keep = self.should_print_line_on_enter;
                let (line, output) = self.leave(keep);
                Response { event: Some(ReadlineEvent::Line(line)), output }
            },
            Command::Interrupt => {
                let keep = self.should_print_line_on_control_c;
                let (_, output) = self.leave(keep);
                Response { event: Some(ReadlineEvent::Interrupted), output }
            },
            Command::ClearScreen => {
                let mut out = String::new();
                write_clear(&mut out, ClearType::All);
                self.write_clear_text(&mut out);
                self.write_render_text(&mut out);
                assert(out@ =~= crate::ansi::clear_sequence(ClearType::All) + self@.clear_text()
                    + self@.render_text());
                Response { event: None, output: out.as_str().as_bytes_vec() }
            },
            Command::HistoryOlder => {
                let output = match history.search_next(self.line.as_str()) {
                    Some(text) => self.recall(text),
                    None => Vec::new(),
                };
                Response { event: None, output }
            },
            Command::HistoryNewer => {
                let output = match history.search_previous(self.line.as_str()) {
                    Some(text) => self.recall(text),
                    None => Vec::new(),
                };
                Response { event: None, output }
            },
            _ => {
                let mut out = String::new();
                self.write_clear_text(&mut out);
                self.edit(command);
                self.write_render_text(&mut out);
                assert(out@ =~= old(self)@.clear_text() + self@.render_text());
                Response { event: None, output: out.as_str().as_bytes_vec() }
            },
        }
    }
}

/// Reading a line ends with Enter, which gives the line as it is; with Ctrl-C; and with
/// Ctrl-D. No other event ends it.
pub proof fn law_what_ends_reading(
    state: LineModel,
    event: InputEvent,
    history: crate::history::HistoryModel,
)
    ensures
        state.handled(event, history).event == match event.command() {
            Command::Submit => Some(crate::readline::ReadlineEventModel::Line(state.line)),
            Command::Interrupt => Some(crate::readline::ReadlineEventModel::Interrupted),
            Command::EndOfInput => Some(crate::readline::ReadlineEventModel::Eof),
            _ => None,
        },
{
}

/// After Enter and after Ctrl-C the line is empty.
pub proof fn law_a_line_that_is_left_is_gone(
    state: LineModel,
    event: InputEvent,
    history: crate::history::HistoryModel,
)
    requires
        event.command() == Command::Submit || event.command() == Command::Interrupt,
    ensures
        state.handled(event, history).state.line == Seq::<char>::empty(),
        state.handled(event, history).state.cursor == 0,
{
    assert(state.line.take(0) + Seq::<char>::empty() + state.line.skip(state.line.len() as int)
        =~= Seq::<char>::empty());
}

/// No event changes the prompt, or whether lines stay on the screen; the size of the terminal
/// is only changed by an event that says so; and the history is only scrolled, never changed.
pub proof fn law_events_keep_settings(
    state: LineModel,
    event: InputEvent,
    history: crate::history::HistoryModel,
)
    ensures
        ({
            let handled = state.handled(event, history);
            &&& handled.state.prompt == state.prompt
            &&& handled.state.print_on_enter == state.print_on_enter
            &&& handled.state.print_on_control_c == state.print_on_control_c
            &&& !(event is Resize) ==> handled.state.term_size == state.term_size
            &&& handled.history.entries == history.entries
            &&& handled.history.max_size == history.max_size
        }),
{
}

/// Moving the cursor does not change the line.
pub proof fn law_moving_keeps_the_line(state: LineModel, command: Command)
    requires
        command is MoveLeft || command is MoveRight || command is MoveToPreviousWhitespace
            || command is MoveToNextWhitespace || command is MoveToStart || command is MoveToEnd,
    ensures
        state.edited(command).line == state.line,
{
}

/// Typing, and erasing what is left of the cursor, do not touch what is right of the cursor.
/// Ctrl-U erases all that is left of it.
pub proof fn law_edits_at_the_left_keep_the_right(state: LineModel, command: Command)
    requires
        state.cursor_in_line(),
        command is Insert || command is EraseLeft || command is EraseToPreviousWhitespace
            || command is EraseToStart,
    ensures
        exists|kept: Seq<char>|
            state.edited(command).line == #[trigger] (kept + state.line.skip(state.cursor as int)),
        command is EraseToStart ==> state.edited(command).line == state.line.skip(
            state.cursor as int,
        ),
        command matches Command::Insert(c) ==> state.edited(command).line
            == state.before_cursor().push(c) + state.line.skip(state.cursor as int),
{
    let right = state.line.skip(state.cursor as int);
    match command {
        Command::Insert(c) => {
            assert(state.edited(command).line =~= state.before_cursor().push(c) + right);
        },
        Command::EraseLeft => {
            let kept = state.line.take(state.left() as int) + Seq::<char>::empty();
            assert(state.edited(command).line =~= kept + right);
        },
        Command::EraseToPreviousWhitespace => {
            let kept = state.line.take(state.previous_whitespace() as int) + Seq::<char>::empty();
            assert(state.edited(command).line =~= kept + right);
        },
        _ => {
            let kept = state.line.take(0) + Seq::<char>::empty();
            assert(state.edited(command).line =~= kept + right);
            assert(state.edited(command).line =~= right);
        },
    }
}

/// Delete does not touch what is left of the cursor.
pub proof fn law_delete_keeps_the_left(state: LineModel)
    requires
        state.cursor_in_line(),
    ensures
        state.edited(Command::EraseRight).line == state.before_cursor() + state.line.skip(
            state.right() as int,
        ),
{
    assert(state.edited(Command::EraseRight).line =~= state.before_cursor() + state.line.skip(
        state.right() as int,
    ));
}

/// Right undoes Left, wherever there is something left of the cursor.
pub proof fn law_right_undoes_left(state: LineModel)
    requires
        state.cursor_in_line(),
        state.cursor > 0,
    ensures
        crate::unicode::well_segmented(state.line) && is_boundary(state.line, state.cursor) ==> state.edited(
            Command::MoveLeft,
        ).edited(Command::MoveRight) == state,
{
    if crate::unicode::well_segmented(state.line) && is_boundary(state.line, state.cursor) {
        let clusters = crate::unicode::grapheme_clusters(state.line);
        let index = state.cluster_at_cursor();
        crate::unicode::lemma_cluster_at_or_after(clusters, state.cursor, 0);
        let moved = state.edited(Command::MoveLeft);
        crate::unicode::lemma_cluster_at_or_after(clusters, moved.cursor, 0);
        crate::unicode::lemma_cluster_start(clusters, index - 1);
        let found = moved.cluster_at_cursor();
        if found < index - 1 {
            lemma_starts_differ(clusters, found, index - 1);
        }
        if found > index - 1 {
            assert(crate::unicode::cluster_start(clusters, index - 1) < moved.cursor);
        }
    }
}

pub(crate) proof fn lemma_starts_differ(clusters: Seq<Seq<char>>, low: int, high: int)
    requires
        0 <= low < high <= clusters.len(),
        forall|i: int| 0 <= i < clusters.len() ==> (#[trigger] clusters[i]).len() > 0,
    ensures
        crate::unicode::cluster_start(clusters, low) < crate::unicode::cluster_start(
            clusters,
            high,
        ),
    decreases high - low,
{
    assert(clusters[high - 1].len() > 0);
    if low + 1 < high {
        lemma_starts_differ(clusters, low, high - 1);
    }
}

/// The line after some characters have been typed.
pub open spec fn typed(state: LineModel, text: Seq<char>) -> LineModel
    decreases text.len(),
{
    if text.len() == 0 {
        state
    } else {
        typed(state, text.drop_last()).edited(Command::Insert(text.last()))
    }
}

/// Text that is typed at the end of the line is what Enter gives, behind what was there. The
/// lines that occur on the way are taken to be well segmented.
pub proof fn law_typed_text_is_entered(
    state: LineModel,
    text: Seq<char>,
    history: crate::history::HistoryModel,
)
    requires
        state.cursor == state.line.len(),
    ensures
        (forall|k: int|
            0 < k <= text.len() ==> crate::unicode::well_segmented(state.line + #[trigger] text.take(k))) ==> {
            let after = typed(state, text);
            &&& after.line == state.line + text
            &&& after.cursor == after.line.len()
            &&& after.commanded(Command::Submit, history).event == Some(
                crate::readline::ReadlineEventModel::Line(state.line + text),
            )
        },
    decreases text.len(),
{
    if forall|k: int| 0 < k <= text.len() ==> crate::unicode::well_segmented(state.line + #[trigger] text.take(k)) {
        if text.len() == 0 {
            assert(state.line + text =~= state.line);
        } else {
            assert forall|k: int| 0 < k <= text.drop_last().len() implies crate::unicode::well_segmented(
                state.line + #[trigger] text.drop_last().take(k),
            ) by {
                assert(text.drop_last().take(k) =~= text.take(k));
            }
            law_typed_text_is_entered(state, text.drop_last(), history);
            let before = typed(state, text.drop_last());
            let after = typed(state, text);
            assert(before.line.take(before.cursor as int) + seq![text.last()] + before.line.skip(
                before.cursor as int,
            ) =~= state.line + text);
            assert(text.take(text.len() as int) =~= text);
            assert(crate::unicode::well_segmented(after.line));
            let clusters = crate::unicode::grapheme_clusters(after.line);
            crate::unicode::lemma_cluster_at_or_after(clusters, after.line.len(), 0);
            crate::unicode::lemma_cluster_start(
                clusters,
                crate::unicode::cluster_at_or_after(clusters, after.line.len(), 0),
            );
        }
    }
}

/// A line that was taken into the history is what the up arrow brings back first.
pub proof fn law_entered_line_can_be_recalled(
    state: LineModel,
    history: crate::history::HistoryModel,
    line: Seq<char>,
)
    requires
        history.max_size > 0,
        !history.ignores(line),
    ensures
        state.commanded(Command::HistoryOlder, history.updated(line)).state.line == line,
{
    crate::history::law_newest_line_is_shown_first(history, line);
    assert(state.line.take(0) + line + state.line.skip(state.line.len() as int) =~= line);
}

/// Data is written as it comes, piece after piece.
pub proof fn law_data_is_written_in_order(first: Seq<u8>, second: Seq<u8>)
    ensures
        with_carriage_returns(first + second) == with_carriage_returns(first)
            + with_carriage_returns(second),
    decreases second.len(),
{
    if second.len() == 0 {
        assert(first + second =~= first);
        assert(with_carriage_returns(first) + with_carriage_returns(second)
            =~= with_carriage_returns(first));
    } else {
        law_data_is_written_in_order(first, second.drop_last());
        assert((first + second).drop_last() =~= first + second.drop_last());
        assert((first + second).last() == second.last());
        assert(with_carriage_returns(first + second) =~= with_carriage_returns(first)
            + with_carriage_returns(second));
    }
}

/// A piece of data without a line feed is written unchanged.
pub proof fn law_data_within_a_line_is_written_unchanged(data: Seq<u8>)
    requires
        forall|i: int| 0 <= i < data.len() ==> #[trigger] data[i] != 10,
    ensures
        with_carriage_returns(data) == data,
    decreases data.len(),
{
    if data.len() > 0 {
        law_data_within_a_line_is_written_unchanged(data.drop_last());
        assert(data.drop_last().push(data.last()) =~= data);
    }
}

} // verus!
