//! What comes from the keyboard, and what the keys are bound to.

use vstd::prelude::*;

verus! {

/// A key.
#[derive(Clone, Copy, Debug, PartialEq, Eq, Structural)]
pub enum KeyCode {
    /// A key that stands for a character.
    Char(char),
    /// Enter.
    Enter,
    /// Backspace.
    Backspace,
    /// Delete.
    Delete,
    /// The left arrow.
    Left,
    /// The right arrow.
    Right,
    /// The up arrow.
    Up,
    /// The down arrow.
    Down,
    /// Home.
    Home,
    /// End.
    End,
    /// Any other key.
    Other,
}

/// A key that was pressed, with its modifiers.
#[derive(Clone, Copy, Debug, PartialEq, Eq, Structural)]
pub struct KeyEvent {
    /// The key.
    pub code: KeyCode,
    /// Whether Ctrl was held down.
    pub control: bool,
    /// Whether Alt was held down.
    pub alt: bool,
}

/// What comes from the terminal.
#[derive(Clone, Copy, Debug, PartialEq, Eq, Structural)]
pub enum InputEvent {
    /// A key was pressed.
    Key(KeyEvent),
    /// The terminal has a new size, in columns and rows.
    Resize(u16, u16),
    /// Anything else.
    Other,
}

/// What a key is bound to.
#[derive(Clone, Copy, Debug, PartialEq, Eq, Structural)]
pub enum Command {
    /// Put a character in front of the cursor.
    Insert(char),
    /// Move the cursor left.
    MoveLeft,
    /// Move the cursor right.
    MoveRight,
    /// Move the cursor to the previous whitespace.
    MoveToPreviousWhitespace,
    /// Move the cursor to the next whitespace.
    MoveToNextWhitespace,
    /// Move the cursor to the start of the line.
    MoveToStart,
    /// Move the cursor to the end of the line.
    MoveToEnd,
    /// Erase what is left of the cursor, by one.
    EraseLeft,
    /// Erase what is right of the cursor, by one.
    EraseRight,
    /// Erase the input from the cursor to the previous whitespace.
    EraseToPreviousWhitespace,
    /// Erase the input before the cursor.
    EraseToStart,
    /// Clear the screen.
    ClearScreen,
    /// Show an older entry of the history.
    HistoryOlder,
    /// Show a newer entry of the history.
    HistoryNewer,
    /// Enter the line.
    Submit,
    /// Give up the line.
    Interrupt,
    /// End the input.
    EndOfInput,
    /// Nothing at all.
    Nothing,
}

impl KeyEvent {
    /// What the key is bound to.
    pub open spec fn bound_to(self) -> Command {
        match self.code {
            KeyCode::Char(c) => if self.alt {
                Command::Nothing
            } else if !self.control {
                Command::Insert(c)
            } else if c == 'a' {
                Command::MoveToStart
            } else if c == 'c' {
                Command::Interrupt
            } else if c == 'd' {
                Command::EndOfInput
            } else if c == 'e' {
                Command::MoveToEnd
            } else if c == 'l' {
                Command::ClearScreen
            } else if c == 'u' {
                Command::EraseToStart
            } else if c == 'w' {
                Command::EraseToPreviousWhitespace
            } else {
                Command::Nothing
            },
            KeyCode::Enter => Command::Submit,
            KeyCode::Backspace => Command::EraseLeft,
            KeyCode::Delete => Command::EraseRight,
            KeyCode::Left => if self.control {
                Command::MoveToPreviousWhitespace
            } else {
                Command::MoveLeft
            },
            KeyCode::Right => if self.control {
                Command::MoveToNextWhitespace
            } else {
                Command::MoveRight
            },
            KeyCode::Up => Command::HistoryOlder,
            KeyCode::Down => Command::HistoryNewer,
            KeyCode::Home => Command::MoveToStart,
            KeyCode::End => Command::MoveToEnd,
            KeyCode::Other => Command::Nothing,
        }
    }

    /// What the key is bound to.
    pub fn command(&self) -> (command: Command)
        ensures
            command == self.bound_to(),
    {
        match self.code {
            KeyCode::Char(c) => if self.alt {
                Command::Nothing
            } else if self.control {
                match c {
                    'a' => Command::MoveToStart,
                    'c' => Command::Interrupt,
                    'd' => Command::EndOfInput,
                    'e' => Command::MoveToEnd,
                    'l' => Command::ClearScreen,
                    'u' => Command::EraseToStart,
                    'w' => Command::EraseToPreviousWhitespace,
                    _ => Command::Nothing,
                }
            } else {
                Command::Insert(c)
            },
            KeyCode::Enter => Command::Submit,
            KeyCode::Backspace => Command::EraseLeft,
            KeyCode::Delete => Command::EraseRight,
            KeyCode::Left => if self.control {
                Command::MoveToPreviousWhitespace
            } else {
                Command::MoveLeft
            },
            KeyCode::Right => if self.control {
                Command::MoveToNextWhitespace
            } else {
                Command::MoveRight
            },
            KeyCode::Up => Command::HistoryOlder,
            KeyCode::Down => Command::HistoryNewer,
            KeyCode::Home => Command::MoveToStart,
            KeyCode::End => Command::MoveToEnd,
            KeyCode::Other => Command::Nothing,
        }
    }
}

impl InputEvent {
    /// What the event asks for, if it comes from a key.
    pub open spec fn command(self) -> Command {
        match self {
            InputEvent::Key(key) => key.bound_to(),
            _ => Command::Nothing,
        }
    }
}

} // verus!
