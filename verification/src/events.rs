//! Normalized local events and the line that the activity log records for each.
use vstd::prelude::*;

use crate::text::{chars_of, decimal, piece, push_decimal};

verus! {

#[derive(Debug, Clone, Copy, PartialEq, Eq, Structural)]
pub enum EventKind {
    System,
    Activity,
    Notification,
    Browser,
    File,
    Task,
}

impl EventKind {
    pub open spec fn spec_label(self) -> Seq<char> {
        match self {
            EventKind::System => "system"@,
            EventKind::Activity => "activity"@,
            EventKind::Notification => "notification"@,
            EventKind::Browser => "browser"@,
            EventKind::File => "file"@,
            EventKind::Task => "task"@,
        }
    }

    pub fn label(self) -> (r: &'static str)
        ensures
            r@ == self.spec_label(),
    {
        match self {
            EventKind::System => "system",
            EventKind::Activity => "activity",
            EventKind::Notification => "notification",
            EventKind::Browser => "browser",
            EventKind::File => "file",
            EventKind::Task => "task",
        }
    }
}

/// A privacy-preserving summary of something that happened locally.
#[derive(Debug)]
pub struct LocalEvent {
    pub kind: EventKind,
    pub summary: String,
    pub detail: String,
}

/// `s.replace('\n', " ")`.
pub open spec fn newlines_to_spaces(s: Seq<char>) -> Seq<char> {
    s.map_values(|c: char| if c == '\n' { ' ' } else { c })
}

/// The tab-separated activity-log line of `event` at `timestamp` (no line end).
pub open spec fn record_line(kind: EventKind, summary: Seq<char>, detail: Seq<char>, timestamp: u64) -> Seq<char> {
    decimal(timestamp as nat) + "\t"@ + kind.spec_label() + "\t"@ + newlines_to_spaces(summary)
        + "\t"@ + newlines_to_spaces(detail)
}

/// Appends `s` to `out` with each line break replaced by a space.
pub fn push_single_line(out: &mut String, s: &str)
    ensures
        final(out)@ == old(out)@ + newlines_to_spaces(s@),
{
    let v = chars_of(s);
    let ghost base = out@;
    let mut start: usize = 0;
    let mut i: usize = 0;
    while i < v.len()
        invariant
            v@ == s@,
            start <= i <= v@.len(),
            out@ == base + newlines_to_spaces(v@.take(start as int)),
            forall|j: int| start <= j < i ==> v@[j] != '\n',
        decreases v@.len() - i,
    {
        if v[i] == '\n' {
            let part = piece(s, start, i);
            out.append(part.as_str());
            out.append(" ");
            proof {
                reveal_strlit(" ");
                assert(newlines_to_spaces(v@.take(i + 1)) =~= newlines_to_spaces(
                    v@.take(start as int),
                ) + v@.subrange(start as int, i as int) + seq![' ']);
            }
            start = i + 1;
        }
        i = i + 1;
    }
    let part = piece(s, start, v.len());
    out.append(part.as_str());
    proof {
        assert(newlines_to_spaces(v@.take(v@.len() as int)) =~= newlines_to_spaces(
            v@.take(start as int),
        ) + v@.subrange(start as int, v@.len() as int));
        assert(v@.take(v@.len() as int) =~= v@);
    }
}

/// The activity-log line for `event` recorded at `timestamp` seconds since the
/// Unix epoch: timestamp, kind, summary and detail separated by tabs, each
/// field on one line.
pub fn format_record(event: &LocalEvent, timestamp: u64) -> (line: String)
    ensures
        line@ == record_line(event.kind, event.summary@, event.detail@, timestamp),
{
    let mut line = String::new();
    push_decimal(&mut line, timestamp);
    line.append("\t");
    line.append(event.kind.label());
    line.append("\t");
    push_single_line(&mut line, event.summary.as_str());
    line.append("\t");
    push_single_line(&mut line, event.detail.as_str());
    assert(line@ =~= record_line(event.kind, event.summary@, event.detail@, timestamp));
    line
}

} // verus!
