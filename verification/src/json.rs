//! The JSON rendering: a pretty-printed object with the file path, line
//! number and event array, two-space indentation, every string escaped.

use vstd::prelude::*;

use crate::dates::format_rfc3339;
use crate::dates::rfc3339_text;
use crate::domain::change_type_label;
use crate::domain::LineEntry;
use crate::domain::LineEntryView;
use crate::domain::LineHistory;
use crate::domain::LineHistoryView;
use crate::policy::OutputFormatter;
use crate::render::escape_json_into;
use crate::render::json_escaped;
use crate::strutil::dec_str;
use crate::strutil::u32_to_string;

verus! {

/// One event as a JSON object, indented for its place inside the array.
pub open spec fn json_entry_text(e: LineEntryView) -> Seq<char> {
    "{\n      \"commit_hash\": \""@ + json_escaped(e.commit_hash)
        + "\",\n      \"author\": \""@ + json_escaped(e.author)
        + "\",\n      \"timestamp\": \""@ + json_escaped(rfc3339_text(e.timestamp))
        + "\",\n      \"message\": \""@ + json_escaped(e.message)
        + "\",\n      \"content\": \""@ + json_escaped(e.content)
        + "\",\n      \"change_type\": \""@ + json_escaped(change_type_label(e.change_type))
        + "\"\n    }"@
}

/// The first `n` event objects, comma-separated.
pub open spec fn json_entry_items(es: Seq<LineEntryView>, n: int) -> Seq<char>
    decreases n,
{
    if n <= 0 {
        Seq::empty()
    } else {
        json_entry_items(es, n - 1) + (if n > 1 {
            ",\n    "@
        } else {
            Seq::<char>::empty()
        }) + json_entry_text(es[n - 1])
    }
}

/// The event array.
pub open spec fn json_entries_text(es: Seq<LineEntryView>) -> Seq<char> {
    if es.len() == 0 {
        "[]"@
    } else {
        "[\n    "@ + json_entry_items(es, es.len() as int) + "\n  ]"@
    }
}

/// The whole rendering.
pub open spec fn json_text(h: LineHistoryView) -> Seq<char> {
    "{\n  \"file_path\": \""@ + json_escaped(h.file_path) + "\",\n  \"line_number\": "@ + dec_str(
        h.line_number as int,
    ) + ",\n  \"entries\": "@ + json_entries_text(h.entries) + "\n}"@
}

/// Renders a history as pretty-printed JSON.
pub struct JsonFormatter;

#[verifier::rlimit(60)]
fn append_entry(out: &mut String, e: &LineEntry)
    ensures
        final(out)@ == old(out)@ + json_entry_text(e@),
{
    out.append("{\n      \"commit_hash\": \"");
    escape_json_into(out, e.commit_hash.as_str());
    out.append("\",\n      \"author\": \"");
    escape_json_into(out, e.author.as_str());
    out.append("\",\n      \"timestamp\": \"");
    let ts = format_rfc3339(e.timestamp);
    escape_json_into(out, ts.as_str());
    out.append("\",\n      \"message\": \"");
    escape_json_into(out, e.message.as_str());
    out.append("\",\n      \"content\": \"");
    escape_json_into(out, e.content.as_str());
    out.append("\",\n      \"change_type\": \"");
    let label = e.change_type.label();
    escape_json_into(out, label.as_str());
    out.append("\"\n    }");
    proof {
        assert(final(out)@ =~= old(out)@ + json_entry_text(e@));
    }
}

impl JsonFormatter {
    /// A JSON formatter.
    pub fn new() -> Self {
        JsonFormatter
    }

    /// Renders the history.
    pub fn format(&self, history: &LineHistory) -> (r: String)
        ensures
            r@ == json_text(history@),
    {
        let mut out = String::from_str("{\n  \"file_path\": \"");
        escape_json_into(&mut out, history.file_path.as_str());
        out.append("\",\n  \"line_number\": ");
        let line_str = u32_to_string(history.line_number);
        out.append(line_str.as_str());
        out.append(",\n  \"entries\": ");
        if history.entries.len() == 0 {
            out.append("[]");
        } else {
            out.append("[\n    ");
            let ghost prefix = out@;
            let mut i: usize = 0;
            while i < history.entries.len()
                invariant
                    i <= history@.entries.len(),
                    history@.entries.len() == history.entries@.len(),
                    out@ == prefix + json_entry_items(history@.entries, i as int),
                decreases history@.entries.len() - i,
            {
                if i > 0 {
                    out.append(",\n    ");
                }
                append_entry(&mut out, &history.entries[i]);
                proof {
                    assert(history@.entries[i as int] == history.entries@[i as int]@);
                    assert(out@ =~= prefix + json_entry_items(history@.entries, i + 1));
                }
                i += 1;
            }
            out.append("\n  ]");
        }
        out.append("\n}");
        proof {
            assert(out@ =~= json_text(history@));
        }
        out
    }
}

impl OutputFormatter for JsonFormatter {
    fn format(&self, history: &LineHistory) -> (r: String)
        ensures
            r@ == json_text(history@),
    {
        JsonFormatter::format(self, history)
    }
}

} // verus!
