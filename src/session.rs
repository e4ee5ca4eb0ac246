use crate::history::{recorded, History};
use crate::parser::{parse_input, parses_to, CommandEnum, ParseResult};
use crate::text::{chars_of, string_of_chars};
use crate::tokenizer::tokenize;
use vstd::prelude::*;

verus! {

/// A key press, as the line editor sees it.
#[derive(Clone, Copy, PartialEq, Eq, Structural, Debug)]
pub enum Key {
    Char(char),
    Backspace,
    Enter,
    Up,
    Down,
    Left,
    Right,
    /// The chord that cancels the line being typed.
    Interrupt,
    /// The chord that ends the session.
    EndOfInput,
    Other,
}

/// What the terminal has to show after a key press.
#[derive(Debug)]
pub enum Reaction {
    /// Nothing changed.
    Nothing,
    /// The line being edited, or the cursor on it, changed: draw it again.
    RedrawLine,
    /// The line was cancelled: show a marker and a fresh prompt.
    Interrupted,
    /// The text is incomplete: go on with a continuation prompt.
    Continue,
    /// The text was accepted: run these commands, in order, then prompt anew.
    Execute(Vec<CommandEnum>),
    /// End the session.
    Quit,
}

/// The line editor: the text typed so far (earlier lines of an incomplete
/// entry included), where the line being edited starts in it, the cursor as a
/// count of characters into that line, and whether the entry continues an
/// incomplete one.
pub struct Session {
    text: Vec<char>,
    line_start: usize,
    cursor: usize,
    continuing: bool,
}

/// A `Session` as values.
pub struct SessionView {
    pub text: Seq<char>,
    pub line_start: nat,
    pub cursor: nat,
    pub continuing: bool,
}

impl View for Session {
    type V = SessionView;

    closed spec fn view(&self) -> SessionView {
        SessionView {
            text: self.text@,
            line_start: self.line_start as nat,
            cursor: self.cursor as nat,
            continuing: self.continuing,
        }
    }
}

impl SessionView {
    /// The line being edited.
    pub open spec fn line(self) -> Seq<char> {
        self.text.subrange(self.line_start as int, self.text.len() as int)
    }

    /// The cursor lies within the line being edited.
    pub open spec fn wf(self) -> bool {
        self.line_start <= self.text.len() && self.cursor <= self.line().len()
    }

    /// Where the cursor stands in the whole text.
    pub open spec fn offset(self) -> int {
        (self.line_start + self.cursor) as int
    }

    pub open spec fn is_blank_entry(self) -> bool {
        self.text.len() == 0 && self.line_start == 0 && self.cursor == 0 && !self.continuing
    }
}

impl Session {
    pub fn new() -> (r: Session)
        ensures
            r@.is_blank_entry(),
            r@.wf(),
    {
        Session { text: Vec::new(), line_start: 0, cursor: 0, continuing: false }
    }

    /// The whole text typed so far.
    pub fn buffer(&self) -> (r: String)
        ensures
            r@ == self@.text,
    {
        string_of_chars(&self.text)
    }

    /// The line being edited.
    pub fn current_line(&self) -> (r: String)
        requires
            self@.wf(),
        ensures
            r@ == self@.line(),
    {
        let mut out: Vec<char> = Vec::new();
        let mut i: usize = self.line_start;
        while i < self.text.len()
            invariant
                self.line_start <= i <= self.text@.len(),
                out@ == self.text@.subrange(self.line_start as int, i as int),
            decreases self.text@.len() - i,
        {
            out.push(self.text[i]);
            assert(out@ =~= self.text@.subrange(self.line_start as int, i + 1));
            i = i + 1;
        }
        string_of_chars(&out)
    }

    /// How many characters into the line being edited the cursor stands.
    pub fn cursor(&self) -> (r: usize)
        ensures
            r == self@.cursor,
    {
        self.cursor
    }

    /// The terminal column of the cursor, counted from the start of the line
    /// being edited: the displayed width of the characters before it.
    pub fn cursor_column(&self) -> (r: u128)
        requires
            self@.wf(),
        ensures
            r == crate::text::width_spec(self@.line().take(self@.cursor as int)),
    {
        let n = self.text.len();
        assert(self@.line().len() == n - self.line_start);
        let end = self.line_start + self.cursor;
        let mut before: Vec<char> = Vec::new();
        let mut i: usize = self.line_start;
        while i < end
            invariant
                self@.wf(),
                end == self.line_start + self.cursor,
                self.line_start <= i <= end,
                end <= self.text@.len(),
                before@ == self.text@.subrange(self.line_start as int, i as int),
            decreases end - i,
        {
            before.push(self.text[i]);
            assert(before@ =~= self.text@.subrange(self.line_start as int, i + 1));
            i = i + 1;
        }
        assert(before@ =~= self@.line().take(self@.cursor as int));
        assert(before@.take(before@.len() as int) == before@);
        crate::text::width_of_prefix(&before, before.len())
    }

    /// Whether the entry continues an incomplete one.
    pub fn is_continuing(&self) -> (r: bool)
        ensures
            r == self@.continuing,
    {
        self.continuing
    }

    fn line_len(&self) -> (r: usize)
        requires
            self@.wf(),
        ensures
            r == self@.line().len(),
    {
        self.text.len() - self.line_start
    }

    fn reset(&mut self)
        ensures
            final(self)@.is_blank_entry(),
    {
        self.text = Vec::new();
        self.line_start = 0;
        self.cursor = 0;
        self.continuing = false;
    }

    /// Inserts `c` at the cursor and moves the cursor past it.
    pub fn insert_char(&mut self, c: char)
        requires
            old(self)@.wf(),
            old(self)@.text.len() < usize::MAX,
        ensures
            final(self)@.wf(),
            final(self)@.text == old(self)@.text.insert(old(self)@.offset(), c),
            final(self)@.line_start == old(self)@.line_start,
            final(self)@.cursor == old(self)@.cursor + 1,
            final(self)@.continuing == old(self)@.continuing,
    {
        assert(self@.line().len() == self.text@.len() - self.line_start);
        self.text.insert(self.line_start + self.cursor, c);
        self.cursor = self.cursor + 1;
    }

    /// Removes the character left of the cursor, if any; returns whether
    /// there was one.
    pub fn delete_back(&mut self) -> (r: bool)
        requires
            old(self)@.wf(),
        ensures
            final(self)@.wf(),
            r == (old(self)@.cursor > 0),
            r ==> final(self)@.text == old(self)@.text.remove(old(self)@.offset() - 1)
                && final(self)@.cursor == old(self)@.cursor - 1 && final(self)@.line_start
                == old(self)@.line_start && final(self)@.continuing == old(self)@.continuing,
            !r ==> final(self)@ == old(self)@,
    {
        if self.cursor > 0 {
            let n = self.text.len();
            assert(self@.line().len() == n - self.line_start);
            self.text.remove(self.line_start + (self.cursor - 1));
            self.cursor = self.cursor - 1;
            true
        } else {
            false
        }
    }

    /// Moves the cursor one character left, if it can; returns whether it did.
    pub fn move_left(&mut self) -> (r: bool)
        requires
            old(self)@.wf(),
        ensures
            final(self)@.wf(),
            r == (old(self)@.cursor > 0),
            final(self)@.text == old(self)@.text,
            final(self)@.line_start == old(self)@.line_start,
            final(self)@.continuing == old(self)@.continuing,
            final(self)@.cursor == if r {
                old(self)@.cursor - 1
            } else {
                old(self)@.cursor as int
            },
    {
        if self.cursor > 0 {
            self.cursor = self.cursor - 1;
            true
        } else {
            false
        }
    }

    /// Moves the cursor one character right, if it can; returns whether it
    /// did.
    pub fn move_right(&mut self) -> (r: bool)
        requires
            old(self)@.wf(),
        ensures
            final(self)@.wf(),
            r == (old(self)@.cursor < old(self)@.line().len()),
            final(self)@.text == old(self)@.text,
            final(self)@.line_start == old(self)@.line_start,
            final(self)@.continuing == old(self)@.continuing,
            final(self)@.cursor == if r {
                old(self)@.cursor + 1 as int
            } else {
                old(self)@.cursor as int
            },
    {
        if self.cursor < self.line_len() {
            self.cursor = self.cursor + 1;
            true
        } else {
            false
        }
    }

    /// Puts `line` in place of the whole text, with the cursor at its end.
    pub fn replace_text(&mut self, line: &String)
        ensures
            final(self)@.wf(),
            final(self)@.text == line@,
            final(self)@.line_start == 0,
            final(self)@.cursor == line@.len(),
            final(self)@.continuing == old(self)@.continuing,
    {
        self.text = chars_of(line.as_str());
        self.line_start = 0;
        self.cursor = self.text.len();
        assert(self@.line() =~= self@.text);
    }

    /// Handles one key press. Keys that edit act on the line being edited;
    /// Up and Down bring back history entries; Enter hands the text to the
    /// parser and either yields the commands to run or, where the text is
    /// incomplete, starts a new line of it; Interrupt cancels the entry,
    /// keeping it in the history where a single line is worth keeping.
    pub fn handle_key(&mut self, key: Key, history: &mut History) -> (r: Reaction)
        requires
            old(self)@.wf(),
            old(self)@.text.len() < usize::MAX,
            old(history).wf(),
        ensures
            final(self)@.wf(),
            final(history).wf(),
            (key matches Key::Char(_)) || key == Key::Backspace || key == Key::Left || key
                == Key::Right ==> final(self)@.line_start == old(self)@.line_start && final(
                self)@.continuing == old(self)@.continuing,
            (key == Key::Up || key == Key::Down) && r == Reaction::RedrawLine ==> final(
                self)@.line_start == 0,
            match key {
                Key::Char(c) => r == Reaction::RedrawLine && final(self)@.text == old(self)@.text.insert(old(self)@.offset(), c) && final(self)@.cursor == old(self)@.cursor
                    + 1 && final(self)@.line_start == old(self)@.line_start && *final(history) == *old(history),
                Key::Backspace => *final(history) == *old(history) && if old(self)@.cursor > 0 {
                    r == Reaction::RedrawLine && final(self)@.text == old(self)@.text.remove(
                        old(self)@.offset() - 1,
                    ) && final(self)@.cursor == old(self)@.cursor - 1
                } else {
                    r == Reaction::Nothing && final(self)@ == old(self)@
                },
                Key::Left => *final(history) == *old(history) && final(self)@.text == old(self)@.text && if old(self)@.cursor > 0 {
                    r == Reaction::RedrawLine && final(self)@.cursor == old(self)@.cursor - 1
                } else {
                    r == Reaction::Nothing && final(self)@ == old(self)@
                },
                Key::Right => *final(history) == *old(history) && final(self)@.text == old(self)@.text && if old(self)@.cursor < old(self)@.line().len() {
                    r == Reaction::RedrawLine && final(self)@.cursor == old(self)@.cursor + 1
                } else {
                    r == Reaction::Nothing && final(self)@ == old(self)@
                },
                Key::Up => final(history)@.entries == old(history)@.entries && if old(history)@.index > 0 {
                    r == Reaction::RedrawLine && final(history)@.index == old(history)@.index - 1
                        && final(self)@.text == final(history)@.entries[final(history)@.index as int] && final(self)@.cursor == final(self)@.text.len()
                        && final(self)@.continuing == old(self)@.continuing
                } else {
                    r == Reaction::Nothing && final(self)@ == old(self)@ && final(history)@.index
                        == old(history)@.index
                },
                Key::Down => final(history)@.entries == old(history)@.entries && if old(history)@.index < old(history)@.entries.len() {
                    r == Reaction::RedrawLine && final(history)@.index == old(history)@.index + 1
                        && (if final(history)@.index < final(history)@.entries.len() {
                        final(self)@.text == final(history)@.entries[final(history)@.index as int]
                    } else {
                        final(self)@.text.len() == 0
                    }) && final(self)@.cursor == final(self)@.text.len() && final(self)@.continuing == old(self)@.continuing
                } else {
                    r == Reaction::Nothing && final(self)@ == old(self)@ && final(history)@.index
                        == old(history)@.index
                },
                Key::Enter => match r {
                    Reaction::Execute(cmds) => parses_to(old(self)@.text, cmds@)
                        && final(self)@.is_blank_entry() && final(history)@.index == final(history)@.entries.len() && final(history)@.entries == recorded(old(history)@.entries, old(self)@.text),
                    Reaction::Continue => tokenize(old(self)@.text).is_none()
                        && final(self)@.text == old(self)@.text.push('\n') && final(self)@.line_start == final(self)@.text.len() && final(self)@.cursor == 0 && final(self)@.continuing && *final(history) == *old(history),
                    _ => false,
                },
                Key::Interrupt => r == Reaction::Interrupted && final(self)@.is_blank_entry()
                    && final(history)@.index == final(history)@.entries.len() && final(history)@.entries == recorded(old(history)@.entries, old(self)@.text),
                Key::EndOfInput => r == Reaction::Quit && final(self)@ == old(self)@ && *final(history) == *old(history),
                Key::Other => r == Reaction::Nothing && final(self)@ == old(self)@ && *final(history) == *old(history),
            },
    {
        match key {
            Key::Char(c) => {
                self.insert_char(c);
                Reaction::RedrawLine
            },
            Key::Backspace => {
                if self.delete_back() {
                    Reaction::RedrawLine
                } else {
                    Reaction::Nothing
                }
            },
            Key::Left => {
                if self.move_left() {
                    Reaction::RedrawLine
                } else {
                    Reaction::Nothing
                }
            },
            Key::Right => {
                if self.move_right() {
                    Reaction::RedrawLine
                } else {
                    Reaction::Nothing
                }
            },
            Key::Up => match history.up() {
                Some(line) => {
                    self.replace_text(&line);
                    Reaction::RedrawLine
                },
                None => Reaction::Nothing,
            },
            Key::Down => match history.down() {
                Some(line) => {
                    self.replace_text(&line);
                    Reaction::RedrawLine
                },
                None => Reaction::Nothing,
            },
            Key::Enter => {
                let text = self.buffer();
                match parse_input(text.as_str()) {
                    ParseResult::Ready(cmds) => {
                        history.record(&text);
                        self.reset();
                        Reaction::Execute(cmds)
                    },
                    ParseResult::Incomplete => {
                        self.text.push('\n');
                        self.line_start = self.text.len();
                        self.cursor = 0;
                        self.continuing = true;
                        Reaction::Continue
                    },
                }
            },
            Key::Interrupt => {
                let text = self.buffer();
                history.record(&text);
                self.reset();
                Reaction::Interrupted
            },
            Key::EndOfInput => Reaction::Quit,
            Key::Other => Reaction::Nothing,
        }
    }
}

} // verus!
