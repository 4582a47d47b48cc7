//! The coloured text rendering: one block per event, each field wrapped
//! in an ANSI colour escape. Whether colours are emitted is an explicit
//! property of the formatter instance, so the rendering is a function of
//! the history and that switch alone.

use vstd::prelude::*;

use crate::dates::datetime_text;
use crate::dates::format_datetime;
use crate::domain::change_type_label;
use crate::domain::LineEntry;
use crate::domain::LineEntryView;
use crate::domain::LineHistory;
use crate::domain::LineHistoryView;
use crate::policy::OutputFormatter;
use crate::render::paint_into;
use crate::render::painted;
use crate::render::short_hash;
use crate::render::short_hash_of;
use crate::strutil::dec_str;
use crate::strutil::u32_to_string;

verus! {

/// One event's block: abbreviated hash, author, timestamp and
/// classification on one line, the message on the next, and the line
/// content, where present, indented under them.
pub open spec fn colored_entry_text(e: LineEntryView, on: bool) -> Seq<char> {
    painted("92"@, short_hash(e.commit_hash), on) + seq![' '] + painted("34"@, e.author, on)
        + seq![' '] + painted("37"@, datetime_text(e.timestamp), on) + seq![' '] + painted(
        "35"@,
        seq!['('] + change_type_label(e.change_type) + seq![')'],
        on,
    ) + seq!['\n'] + painted("37"@, e.message, on) + if e.content.len() > 0 {
        seq!['\n', ' ', ' '] + painted("97"@, e.content, on)
    } else {
        Seq::empty()
    }
}

/// The first `n` event blocks, separated by newlines.
pub open spec fn colored_entries_text(es: Seq<LineEntryView>, on: bool, n: int) -> Seq<char>
    decreases n,
{
    if n <= 0 {
        Seq::empty()
    } else {
        colored_entries_text(es, on, n - 1) + (if n > 1 {
            seq!['\n']
        } else {
            Seq::<char>::empty()
        }) + colored_entry_text(es[n - 1], on)
    }
}

/// The whole rendering: a `file:line` header, then the event blocks, or a
/// placeholder when there are none.
pub open spec fn colored_text(h: LineHistoryView, on: bool) -> Seq<char> {
    let header = painted("36"@, h.file_path, on) + seq![':'] + painted(
        "33"@,
        dec_str(h.line_number as int),
        on,
    ) + seq!['\n'];
    if h.entries.len() == 0 {
        header + painted("2"@, "No history found"@, on)
    } else {
        header + colored_entries_text(h.entries, on, h.entries.len() as int)
    }
}

/// Renders a history as coloured text.
pub struct ColoredFormatter {
    colors: bool,
}

fn append_entry(out: &mut String, e: &LineEntry, on: bool)
    ensures
        final(out)@ == old(out)@ + colored_entry_text(e@, on),
{
    let hash8 = short_hash_of(e.commit_hash.as_str());
    paint_into(out, "92", hash8.as_str(), on);
    out.push(' ');
    paint_into(out, "34", e.author.as_str(), on);
    out.push(' ');
    let ts = format_datetime(e.timestamp);
    paint_into(out, "37", ts.as_str(), on);
    out.push(' ');
    let mut tag = String::from_str("(");
    let label = e.change_type.label();
    tag.append(label.as_str());
    tag.append(")");
    proof {
        reveal_strlit("(");
        reveal_strlit(")");
        assert(tag@ =~= seq!['('] + change_type_label(e.change_type) + seq![')']);
    }
    paint_into(out, "35", tag.as_str(), on);
    out.push('\n');
    paint_into(out, "37", e.message.as_str(), on);
    if !e.content.as_str().is_empty() {
        out.push('\n');
        out.push(' ');
        out.push(' ');
        paint_into(out, "97", e.content.as_str(), on);
    }
    proof {
        assert(final(out)@ =~= old(out)@ + colored_entry_text(e@, on));
    }
}

impl ColoredFormatter {
    /// Whether this instance emits ANSI colour escapes.
    pub closed spec fn colors_on(&self) -> bool {
        self.colors
    }

    /// A formatter that emits colour escapes.
    pub fn new() -> (r: Self)
        ensures
            r.colors_on(),
    {
        ColoredFormatter { colors: true }
    }

    /// A formatter that emits bare text.
    pub fn monochrome() -> (r: Self)
        ensures
            !r.colors_on(),
    {
        ColoredFormatter { colors: false }
    }

    /// Renders the history.
    pub fn format(&self, history: &LineHistory) -> (r: String)
        ensures
            r@ == colored_text(history@, self.colors_on()),
    {
        let mut out = String::new();
        paint_into(&mut out, "36", history.file_path.as_str(), self.colors);
        out.push(':');
        let line_str = u32_to_string(history.line_number);
        paint_into(&mut out, "33", line_str.as_str(), self.colors);
        out.push('\n');
        let ghost header = out@;
        if history.entries.len() == 0 {
            paint_into(&mut out, "2", "No history found", self.colors);
            proof {
                assert(out@ =~= colored_text(history@, self.colors_on()));
            }
            return out;
        }
        let mut i: usize = 0;
        while i < history.entries.len()
            invariant
                i <= history@.entries.len(),
                history@.entries.len() == history.entries@.len(),
                out@ == header + colored_entries_text(history@.entries, self.colors, i as int),
                self.colors == self.colors_on(),
        decreases history@.entries.len() - i,
        {
            if i > 0 {
                out.push('\n');
            }
            append_entry(&mut out, &history.entries[i], self.colors);
            proof {
                assert(history@.entries[i as int] == history.entries@[i as int]@);
                assert(out@ =~= header + colored_entries_text(
                    history@.entries,
                    self.colors,
                    i + 1,
                ));
            }
            i += 1;
        }
        proof {
            assert(out@ =~= colored_text(history@, self.colors_on()));
        }
        out
    }
}

impl OutputFormatter for ColoredFormatter {
    fn format(&self, history: &LineHistory) -> (r: String)
        ensures
            r@ == colored_text(history@, self.colors_on()),
    {
        ColoredFormatter::format(self, history)
    }
}

} // verus!
