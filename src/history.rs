use crate::tokenizer::strings_view;
use vstd::prelude::*;
use vstd::string::*;

verus! {

/// The accepted input lines, oldest first, and the line that navigation
/// has reached: `index == entries.len()` means none, a blank line.
pub struct History {
    entries: Vec<String>,
    index: usize,
}

/// A `History` as values: its lines and the navigation index.
pub struct HistoryView {
    pub entries: Seq<Seq<char>>,
    pub index: nat,
}

impl View for History {
    type V = HistoryView;

    closed spec fn view(&self) -> HistoryView {
        HistoryView { entries: strings_view(self.entries@), index: self.index as nat }
    }
}

/// `entries` after `line` is offered: it is appended unless it repeats the
/// last entry.
pub open spec fn pushed(entries: Seq<Seq<char>>, line: Seq<char>) -> Seq<Seq<char>> {
    if entries.len() > 0 && entries.last() == line {
        entries
    } else {
        entries.push(line)
    }
}

/// No entry equals the one right after it.
pub open spec fn no_adjacent_duplicates(entries: Seq<Seq<char>>) -> bool {
    forall|i: int| 0 <= i < entries.len() - 1 ==> #[trigger] entries[i] != entries[i + 1]
}

/// Offering lines one at a time never leaves two equal entries side by side.
pub proof fn lemma_pushed_keeps_no_adjacent_duplicates(entries: Seq<Seq<char>>, line: Seq<char>)
    requires
        no_adjacent_duplicates(entries),
    ensures
        no_adjacent_duplicates(pushed(entries, line)),
{
    let r = pushed(entries, line);
    assert forall|i: int| 0 <= i < r.len() - 1 implies #[trigger] r[i] != r[i + 1] by {
        if r.len() == entries.len() + 1 && i == entries.len() - 1 {
            assert(r[i] == entries.last());
        } else {
            assert(r[i] == entries[i] && r[i + 1] == entries[i + 1]);
        }
    }
}

/// Whether a line is kept in the history once accepted or interrupted: it
/// holds something besides blanks, and no line feed.
pub open spec fn worth_keeping(line: Seq<char>) -> bool {
    crate::text::trim_spec(line).len() > 0 && !line.contains('\n')
}

/// `entries` after an accepted or interrupted `line`: offered where it is
/// worth keeping, else unchanged.
pub open spec fn recorded(entries: Seq<Seq<char>>, line: Seq<char>) -> Seq<Seq<char>> {
    if worth_keeping(line) {
        pushed(entries, line)
    } else {
        entries
    }
}

/// Accepting the same line twice in a row keeps it at most once more.
pub proof fn lemma_record_same_twice(entries: Seq<Seq<char>>, line: Seq<char>)
    ensures
        recorded(recorded(entries, line), line) == recorded(entries, line),
{
}

/// Accepting a line worth keeping right after a different one keeps it as
/// the newest entry, after all the others.
pub proof fn lemma_record_different(entries: Seq<Seq<char>>, line: Seq<char>)
    requires
        entries.len() > 0,
        entries.last() != line,
        worth_keeping(line),
    ensures
        recorded(entries, line) == entries.push(line),
{
}

impl History {
    /// The navigation index points at an entry or just past the last, and
    /// no two neighbouring entries are equal.
    pub open spec fn wf(&self) -> bool {
        self@.index <= self@.entries.len() && no_adjacent_duplicates(self@.entries)
    }

    pub fn new() -> (r: History)
        ensures
            r@.entries.len() == 0,
            r@.index == 0,
            r.wf(),
    {
        let r = History { entries: Vec::new(), index: 0 };
        assert(r@.entries =~= Seq::empty());
        r
    }

    pub fn len(&self) -> (r: usize)
        ensures
            r == self@.entries.len(),
    {
        self.entries.len()
    }

    pub fn index(&self) -> (r: usize)
        ensures
            r == self@.index,
    {
        self.index
    }

    /// The entry at `i`.
    pub fn get(&self, i: usize) -> (r: Option<String>)
        ensures
            i < self@.entries.len() ==> (r matches Some(s) && s@ == self@.entries[i as int]),
            i >= self@.entries.len() ==> r.is_none(),
    {
        if i < self.entries.len() {
            Some(self.entries[i].clone())
        } else {
            None
        }
    }

    /// Appends `line` unless it equals the last entry. Navigation is left
    /// where it was.
    pub fn push(&mut self, line: &String)
        requires
            old(self).wf(),
        ensures
            final(self)@.entries == pushed(old(self)@.entries, line@),
            final(self)@.index == old(self)@.index,
            final(self).wf(),
    {
        let n = self.entries.len();
        if n > 0 && self.entries[n - 1] == *line {
            assert(strings_view(self.entries@).last() == self.entries@[n - 1]@);
            return ;
        }
        self.entries.push(line.clone());
        assert(strings_view(self.entries@) =~= strings_view(old(self).entries@).push(line@));
        proof {
            lemma_pushed_keeps_no_adjacent_duplicates(old(self)@.entries, line@);
        }
    }

    /// Ends a round of navigation: the next `up` starts from the newest entry.
    pub fn reset_navigation(&mut self)
        requires
            old(self).wf(),
        ensures
            final(self)@.entries == old(self)@.entries,
            final(self)@.index == final(self)@.entries.len(),
            final(self).wf(),
    {
        self.index = self.entries.len();
    }

    /// Keeps an accepted or interrupted line, where it is worth keeping, and
    /// ends navigation.
    pub fn record(&mut self, line: &String)
        requires
            old(self).wf(),
        ensures
            final(self)@.entries == recorded(old(self)@.entries, line@),
            final(self)@.index == final(self)@.entries.len(),
            final(self).wf(),
    {
        let trimmed = crate::text::trim(line.as_str());
        if !trimmed.as_str().is_empty() && !contains_newline(line.as_str()) {
            self.push(line);
        }
        self.reset_navigation();
    }

    /// Steps to the previous entry and returns it; at the oldest entry,
    /// nothing changes and `None` comes back.
    pub fn up(&mut self) -> (r: Option<String>)
        requires
            old(self).wf(),
        ensures
            final(self)@.entries == old(self)@.entries,
            final(self).wf(),
            old(self)@.index == 0 ==> r.is_none() && final(self)@.index == 0,
            old(self)@.index > 0 ==> final(self)@.index == old(self)@.index - 1,
            old(self)@.index > 0 ==> (r matches Some(s) && s@
                == final(self)@.entries[final(self)@.index as int]),
    {
        if self.index > 0 {
            self.index = self.index - 1;
            Some(self.entries[self.index].clone())
        } else {
            None
        }
    }

    /// Steps to the next entry and returns it, or a blank line past the
    /// newest; with no selection, nothing changes and `None` comes back.
    pub fn down(&mut self) -> (r: Option<String>)
        requires
            old(self).wf(),
        ensures
            final(self)@.entries == old(self)@.entries,
            final(self).wf(),
            old(self)@.index == old(self)@.entries.len() ==> r.is_none() && final(self)@.index
                == old(self)@.index,
            old(self)@.index < old(self)@.entries.len() ==> final(self)@.index == old(self)@.index
                + 1,
            old(self)@.index < old(self)@.entries.len() ==> (r matches Some(s) && (if final(self)@.index
                < final(self)@.entries.len() {
                s@ == final(self)@.entries[final(self)@.index as int]
            } else {
                s@.len() == 0
            })),
    {
        if self.index < self.entries.len() {
            self.index = self.index + 1;
            if self.index < self.entries.len() {
                Some(self.entries[self.index].clone())
            } else {
                Some(String::new())
            }
        } else {
            None
        }
    }
}

/// Whether `s` holds a line feed.
pub fn contains_newline(s: &str) -> (r: bool)
    ensures
        r == s@.contains('\n'),
{
    let n = s.unicode_len();
    let mut i: usize = 0;
    while i < n
        invariant
            n == s@.len(),
            i <= n,
            forall|j: int| 0 <= j < i ==> s@[j] != '\n',
        decreases n - i,
    {
        if s.get_char(i) == '\n' {
            return true;
        }
        i = i + 1;
    }
    false
}

/// Offering the same line twice in a row keeps it once.
pub proof fn lemma_push_same_twice(entries: Seq<Seq<char>>, line: Seq<char>)
    ensures
        pushed(pushed(entries, line), line) == pushed(entries, line),
        pushed(entries, line).last() == line,
{
}

/// Offering a line, then a different one, keeps both, in that order.
pub proof fn lemma_push_different(entries: Seq<Seq<char>>, a: Seq<char>, b: Seq<char>)
    requires
        a != b,
    ensures
        pushed(pushed(entries, a), b) == pushed(entries, a).push(b),
        pushed(pushed(entries, a), b).drop_last().last() == a,
{
}

} // verus!
