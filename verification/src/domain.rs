//! Value types that describe the history of one line of one file.

use vstd::prelude::*;

verus! {

/// The order of the events in a query's result: `Asc` puts the oldest
/// timestamp first, `Desc` the newest.
#[derive(Debug, Clone, Copy, PartialEq, Eq, Structural)]
pub enum SortOrder {
    Asc,
    Desc,
}

/// How a commit touched the file: the first collected commit creates the
/// line, later ones modify it. `Deleted` is defined for completeness and is
/// never produced by the engine.
#[derive(Debug, Clone, Copy, PartialEq, Eq, Structural)]
pub enum ChangeType {
    Created,
    Modified,
    Deleted,
}

/// The text label of a change classification.
pub open spec fn change_type_label(c: ChangeType) -> Seq<char> {
    match c {
        ChangeType::Created => "Created"@,
        ChangeType::Modified => "Modified"@,
        ChangeType::Deleted => "Deleted"@,
    }
}

impl ChangeType {
    /// The classification as text, as a renderer prints it.
    pub fn label(&self) -> (r: String)
        ensures
            r@ == change_type_label(*self),
    {
        match self {
            ChangeType::Created => String::from_str("Created"),
            ChangeType::Modified => String::from_str("Modified"),
            ChangeType::Deleted => String::from_str("Deleted"),
        }
    }
}

/// One event in a line's history: the projection of one relevant commit.
/// The timestamp is a count of seconds since the Unix epoch, UTC.
#[derive(Debug, Clone, PartialEq)]
pub struct LineEntry {
    pub commit_hash: String,
    pub author: String,
    pub timestamp: i64,
    pub message: String,
    pub content: String,
    pub change_type: ChangeType,
}

/// The mathematical value of a `LineEntry`.
pub ghost struct LineEntryView {
    pub commit_hash: Seq<char>,
    pub author: Seq<char>,
    pub timestamp: i64,
    pub message: Seq<char>,
    pub content: Seq<char>,
    pub change_type: ChangeType,
}

impl View for LineEntry {
    type V = LineEntryView;

    open spec fn view(&self) -> LineEntryView {
        LineEntryView {
            commit_hash: self.commit_hash@,
            author: self.author@,
            timestamp: self.timestamp,
            message: self.message@,
            content: self.content@,
            change_type: self.change_type,
        }
    }
}

/// The aggregate result of one query: the file, the 1-based line number,
/// and the ordered sequence of events.
#[derive(Debug, Clone, PartialEq)]
pub struct LineHistory {
    pub file_path: String,
    pub line_number: u32,
    pub entries: Vec<LineEntry>,
}

/// The mathematical value of a `LineHistory`.
pub ghost struct LineHistoryView {
    pub file_path: Seq<char>,
    pub line_number: u32,
    pub entries: Seq<LineEntryView>,
}

impl View for LineHistory {
    type V = LineHistoryView;

    open spec fn view(&self) -> LineHistoryView {
        LineHistoryView {
            file_path: self.file_path@,
            line_number: self.line_number,
            entries: Seq::new(self.entries@.len(), |i: int| self.entries@[i]@),
        }
    }
}

impl LineHistory {
    /// A history for the given file and line with no events yet.
    pub fn new(file_path: String, line_number: u32) -> (r: Self)
        ensures
            r@.file_path == file_path@,
            r@.line_number == line_number,
            r@.entries == Seq::<LineEntryView>::empty(),
    {
        let r = Self { file_path, line_number, entries: Vec::new() };
        proof {
            assert(r@.entries =~= Seq::<LineEntryView>::empty());
        }
        r
    }

    /// Appends one event at the end of the sequence.
    pub fn add_entry(&mut self, entry: LineEntry)
        ensures
            final(self)@.file_path == old(self)@.file_path,
            final(self)@.line_number == old(self)@.line_number,
            final(self)@.entries == old(self)@.entries.push(entry@),
    {
        let ghost before = self@.entries;
        self.entries.push(entry);
        proof {
            assert(self@.entries =~= before.push(entry@));
        }
    }

    /// The number of events recorded so far.
    pub fn entry_count(&self) -> (r: usize)
        ensures
            r == self@.entries.len(),
    {
        self.entries.len()
    }
}

} // verus!
