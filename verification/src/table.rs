//! The tabular rendering: a `File:`/`Line:` header, then one table row
//! per event. The table layout itself comes from the tabled crate, behind
//! a trusted wrapper whose output is named.

use vstd::prelude::*;

use crate::dates::datetime_text;
use crate::dates::format_datetime;
use crate::domain::change_type_label;
use crate::domain::LineEntry;
use crate::domain::LineEntryView;
use crate::domain::LineHistory;
use crate::domain::LineHistoryView;
use crate::policy::OutputFormatter;
use crate::render::short_hash;
use crate::render::short_hash_of;
use crate::strutil::dec_str;
use crate::strutil::u32_to_string;

verus! {

/// What tabled renders for the given cell texts: a function of the rows
/// alone.
pub uninterp spec fn rendered_table(rows: Seq<Seq<Seq<char>>>) -> Seq<char>;

/// Relies on tabled's `Builder`, `Table` and its text rendering: the
/// output is a pure function of the cell texts.
#[verifier::external_body]
fn render_table(rows: Vec<Vec<String>>) -> (r: String)
    ensures
        r@ == rendered_table(rows.deep_view()),
{
    tabled::builder::Builder::from(rows).build().to_string()
}

/// The column headers.
pub open spec fn table_header_row() -> Seq<Seq<char>> {
    seq!["Commit"@, "Author"@, "Timestamp"@, "Message"@, "Change Type"@]
}

/// One event's row: abbreviated hash, author, timestamp with a ` UTC`
/// suffix, message and classification.
pub open spec fn table_row(e: LineEntryView) -> Seq<Seq<char>> {
    seq![
        short_hash(e.commit_hash),
        e.author,
        datetime_text(e.timestamp) + " UTC"@,
        e.message,
        change_type_label(e.change_type),
    ]
}

/// The full cell grid: the header row, then one row per event.
pub open spec fn table_rows(es: Seq<LineEntryView>) -> Seq<Seq<Seq<char>>> {
    seq![table_header_row()] + Seq::new(es.len(), |i: int| table_row(es[i]))
}

/// The whole rendering.
pub open spec fn table_text(h: LineHistoryView) -> Seq<char> {
    "File: "@ + h.file_path + "\nLine: "@ + dec_str(h.line_number as int) + "\n\n"@ + if h.entries
        .len() == 0 {
        "No history entries"@
    } else {
        rendered_table(table_rows(h.entries))
    }
}

/// Renders a history as a table.
pub struct TableFormatter;

fn entry_row(e: &LineEntry) -> (r: Vec<String>)
    ensures
        r.deep_view() == table_row(e@),
{
    let mut row: Vec<String> = Vec::new();
    row.push(short_hash_of(e.commit_hash.as_str()));
    row.push(e.author.clone());
    let mut ts = format_datetime(e.timestamp);
    ts.append(" UTC");
    row.push(ts);
    row.push(e.message.clone());
    row.push(e.change_type.label());
    proof {
        assert(row.deep_view() =~= table_row(e@));
    }
    row
}

impl TableFormatter {
    /// A table formatter.
    pub fn new() -> Self {
        TableFormatter
    }

    /// Renders the history.
    pub fn format(&self, history: &LineHistory) -> (r: String)
        ensures
            r@ == table_text(history@),
    {
        let mut out = String::from_str("File: ");
        out.append(history.file_path.as_str());
        out.append("\nLine: ");
        let line_str = u32_to_string(history.line_number);
        out.append(line_str.as_str());
        out.append("\n\n");
        if history.entries.len() == 0 {
            out.append("No history entries");
            proof {
                assert(out@ =~= table_text(history@));
            }
            return out;
        }
        let mut rows: Vec<Vec<String>> = Vec::new();
        let mut header: Vec<String> = Vec::new();
        header.push(String::from_str("Commit"));
        header.push(String::from_str("Author"));
        header.push(String::from_str("Timestamp"));
        header.push(String::from_str("Message"));
        header.push(String::from_str("Change Type"));
        proof {
            assert(header.deep_view() =~= table_header_row());
        }
        rows.push(header);
        let mut i: usize = 0;
        while i < history.entries.len()
            invariant
                i <= history@.entries.len(),
                history@.entries.len() == history.entries@.len(),
                rows.deep_view() == seq![table_header_row()] + Seq::new(
                    i as nat,
                    |k: int| table_row(history@.entries[k]),
                ),
            decreases history@.entries.len() - i,
        {
            let ghost before = rows.deep_view();
            let row = entry_row(&history.entries[i]);
            rows.push(row);
            proof {
                assert(history@.entries[i as int] == history.entries@[i as int]@);
                assert(rows.deep_view() =~= before.push(table_row(history@.entries[i as int])));
                assert(rows.deep_view() =~= seq![table_header_row()] + Seq::new(
                    (i + 1) as nat,
                    |k: int| table_row(history@.entries[k]),
                ));
            }
            i += 1;
        }
        proof {
            assert(rows.deep_view() =~= table_rows(history@.entries));
        }
        let body = render_table(rows);
        out.append(body.as_str());
        proof {
            assert(out@ =~= table_text(history@));
        }
        out
    }
}

impl OutputFormatter for TableFormatter {
    fn format(&self, history: &LineHistory) -> (r: String)
        ensures
            r@ == table_text(history@),
    {
        TableFormatter::format(self, history)
    }
}

} // verus!
