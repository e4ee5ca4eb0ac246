use crate::session::Key;
use crate::text::string_of_chars;
use vstd::prelude::*;

verus! {

/// What the terminal does after a key press while `cat` copies the keyboard.
#[derive(Debug)]
pub enum CatAction {
    Nothing,
    /// Shows the character typed.
    Echo(char),
    /// Erases the last character shown.
    Erase,
    /// Ends the line and writes it out again.
    Line(String),
    /// Stops copying; the flag tells whether by interruption.
    Stop(bool),
}

/// The line typed so far while `cat` copies the keyboard.
pub struct CatLine {
    line: Vec<char>,
}

impl View for CatLine {
    type V = Seq<char>;

    closed spec fn view(&self) -> Seq<char> {
        self.line@
    }
}

impl CatLine {
    pub fn new() -> (r: CatLine)
        ensures
            r@.len() == 0,
    {
        CatLine { line: Vec::new() }
    }

    /// Handles one key press: a character is added and shown, Backspace
    /// takes back the last one, Enter writes the line out and starts a new
    /// one, and the interrupt and end-of-input chords stop.
    pub fn handle_key(&mut self, key: Key) -> (r: CatAction)
        ensures
            match key {
                Key::Char(c) => r == CatAction::Echo(c) && final(self)@ == old(self)@.push(c),
                Key::Backspace => if old(self)@.len() > 0 {
                    r == CatAction::Erase && final(self)@ == old(self)@.drop_last()
                } else {
                    r == CatAction::Nothing && final(self)@ == old(self)@
                },
                Key::Enter => (r matches CatAction::Line(s) && s@ == old(self)@) && final(self)@.len() == 0,
                Key::Interrupt => r == CatAction::Stop(true) && final(self)@ == old(self)@,
                Key::EndOfInput => r == CatAction::Stop(false) && final(self)@ == old(self)@,
                _ => r == CatAction::Nothing && final(self)@ == old(self)@,
            },
    {
        match key {
            Key::Char(c) => {
                self.line.push(c);
                CatAction::Echo(c)
            },
            Key::Backspace => {
                if self.line.len() > 0 {
                    self.line.pop();
                    CatAction::Erase
                } else {
                    CatAction::Nothing
                }
            },
            Key::Enter => {
                let s = string_of_chars(&self.line);
                self.line = Vec::new();
                CatAction::Line(s)
            },
            Key::Interrupt => CatAction::Stop(true),
            Key::EndOfInput => CatAction::Stop(false),
            _ => CatAction::Nothing,
        }
    }
}

} // verus!
