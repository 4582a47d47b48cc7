//! The YAML rendering: a mapping with the file path, line number and
//! event list, every scalar quoted where a plain form would be unsafe.

use vstd::prelude::*;

use crate::dates::format_rfc3339;
use crate::dates::rfc3339_text;
use crate::domain::change_type_label;
use crate::domain::LineEntry;
use crate::domain::LineEntryView;
use crate::domain::LineHistory;
use crate::domain::LineHistoryView;
use crate::policy::OutputFormatter;
use crate::render::yaml_scalar;
use crate::render::yaml_scalar_into;
use crate::strutil::dec_str;
use crate::strutil::u32_to_string;

verus! {

/// One event as a YAML list item.
pub open spec fn yaml_entry_text(e: LineEntryView) -> Seq<char> {
    "- commit_hash: "@ + yaml_scalar(e.commit_hash) + "\n  author: "@ + yaml_scalar(e.author)
        + "\n  timestamp: "@ + yaml_scalar(rfc3339_text(e.timestamp)) + "\n  message: "@
        + yaml_scalar(e.message) + "\n  content: "@ + yaml_scalar(e.content)
        + "\n  change_type: "@ + yaml_scalar(change_type_label(e.change_type)) + seq!['\n']
}

/// The first `n` event items.
pub open spec fn yaml_entry_items(es: Seq<LineEntryView>, n: int) -> Seq<char>
    decreases n,
{
    if n <= 0 {
        Seq::empty()
    } else {
        yaml_entry_items(es, n - 1) + yaml_entry_text(es[n - 1])
    }
}

/// The whole rendering.
pub open spec fn yaml_text(h: LineHistoryView) -> Seq<char> {
    "file_path: "@ + yaml_scalar(h.file_path) + "\nline_number: "@ + dec_str(h.line_number as int)
        + "\nentries:"@ + if h.entries.len() == 0 {
        " []\n"@
    } else {
        seq!['\n'] + yaml_entry_items(h.entries, h.entries.len() as int)
    }
}

/// Renders a history as YAML.
pub struct YamlFormatter;

#[verifier::rlimit(60)]
fn append_entry(out: &mut String, e: &LineEntry)
    ensures
        final(out)@ == old(out)@ + yaml_entry_text(e@),
{
    out.append("- commit_hash: ");
    yaml_scalar_into(out, e.commit_hash.as_str());
    out.append("\n  author: ");
    yaml_scalar_into(out, e.author.as_str());
    out.append("\n  timestamp: ");
    let ts = format_rfc3339(e.timestamp);
    yaml_scalar_into(out, ts.as_str());
    out.append("\n  message: ");
    yaml_scalar_into(out, e.message.as_str());
    out.append("\n  content: ");
    yaml_scalar_into(out, e.content.as_str());
    out.append("\n  change_type: ");
    let label = e.change_type.label();
    yaml_scalar_into(out, label.as_str());
    out.push('\n');
    proof {
        assert(final(out)@ =~= old(out)@ + yaml_entry_text(e@));
    }
}

impl YamlFormatter {
    /// A YAML formatter.
    pub fn new() -> Self {
        YamlFormatter
    }

    /// Renders the history.
    pub fn format(&self, history: &LineHistory) -> (r: String)
        ensures
            r@ == yaml_text(history@),
    {
        let mut out = String::from_str("file_path: ");
        yaml_scalar_into(&mut out, history.file_path.as_str());
        out.append("\nline_number: ");
        let line_str = u32_to_string(history.line_number);
        out.append(line_str.as_str());
        out.append("\nentries:");
        if history.entries.len() == 0 {
            out.append(" []\n");
        } else {
            out.push('\n');
            let ghost prefix = out@;
            let mut i: usize = 0;
            while i < history.entries.len()
                invariant
                    i <= history@.entries.len(),
                    history@.entries.len() == history.entries@.len(),
                    out@ == prefix + yaml_entry_items(history@.entries, i as int),
                decreases history@.entries.len() - i,
            {
                append_entry(&mut out, &history.entries[i]);
                proof {
                    assert(history@.entries[i as int] == history.entries@[i as int]@);
                    assert(out@ =~= prefix + yaml_entry_items(history@.entries, i + 1));
                }
                i += 1;
            }
        }
        proof {
            assert(out@ =~= yaml_text(history@));
        }
        out
    }
}

impl OutputFormatter for YamlFormatter {
    fn format(&self, history: &LineHistory) -> (r: String)
        ensures
            r@ == yaml_text(history@),
    {
        YamlFormatter::format(self, history)
    }
}

} // verus!
