//! Desktop notifications as `dbus-monitor` prints their `Notify` calls.
use vstd::prelude::*;

use crate::collectors::NotificationEvent;
use crate::text::{
    chars_of, contains, contains_range, has_prefix, piece, strip_prefix, strip_suffix_char,
    strip_suffix_range, trim, trim_range,
};

verus! {

/// The value of a `string "..."` argument line.
pub open spec fn string_argument(line: Seq<char>) -> Option<Seq<char>> {
    match strip_prefix(trim(line), "string \""@) {
        Some(rest) => strip_suffix_char(rest, '"'),
        None => None,
    }
}

/// The string arguments of a method call, in order.
pub open spec fn string_arguments(lines: Seq<Seq<char>>) -> Seq<Seq<char>>
    decreases lines.len(),
{
    if lines.len() == 0 {
        Seq::empty()
    } else {
        let before = string_arguments(lines.drop_last());
        match string_argument(lines.last()) {
            Some(s) => before.push(s),
            None => before,
        }
    }
}

pub open spec fn mentions_notify(lines: Seq<Seq<char>>) -> bool {
    exists|i: int| 0 <= i < lines.len() && contains(#[trigger] lines[i], "member=Notify"@)
}

/// Application, summary and body of a `Notify(app_name, replaces_id, app_icon,
/// summary, body, ...)` call: the first, third and fourth string arguments (the
/// body may be missing).
pub open spec fn notification_fields(lines: Seq<Seq<char>>) -> Option<
    (Seq<char>, Seq<char>, Seq<char>),
> {
    if !mentions_notify(lines) {
        None
    } else {
        let strings = string_arguments(lines);
        if strings.len() < 3 {
            None
        } else {
            Some(
                (
                    strings[0],
                    strings[2],
                    if strings.len() > 3 {
                        strings[3]
                    } else {
                        Seq::empty()
                    },
                ),
            )
        }
    }
}

pub open spec fn lines_view(lines: Seq<String>) -> Seq<Seq<char>> {
    lines.map_values(|l: String| l@)
}

pub open spec fn event_fields(e: NotificationEvent) -> (Seq<char>, Seq<char>, Seq<char>) {
    match e {
        NotificationEvent::Received { app, summary, body } => (app@, summary@, body@),
    }
}

fn string_argument_of(line: &str) -> (r: Option<String>)
    ensures
        match r {
            Some(s) => string_argument(line@) == Some(s@),
            None => string_argument(line@) is None,
        },
{
    let v = chars_of(line);
    assert(v@.subrange(0, v@.len() as int) =~= v@);
    let (a, b) = trim_range(&v, 0, v.len());
    let prefix = chars_of("string \"");
    if !has_prefix(&v, a, b, &prefix) {
        return None;
    }
    let start = a + prefix.len();
    assert(v@.subrange(a as int, b as int).skip(prefix@.len() as int) =~= v@.subrange(
        start as int,
        b as int,
    ));
    match strip_suffix_range(&v, start, b, '"') {
        Some(end) => Some(piece(line, start, end)),
        None => None,
    }
}

/// The notification that a `dbus-monitor` message shows, if it is a `Notify`
/// call with at least a summary.
pub fn parse_notification(lines: &[String]) -> (r: Option<NotificationEvent>)
    ensures
        match r {
            Some(e) => notification_fields(lines_view(lines@)) == Some(event_fields(e)),
            None => notification_fields(lines_view(lines@)) is None,
        },
{
    let ghost ls = lines_view(lines@);
    let mut notify = false;
    let mut i: usize = 0;
    while i < lines.len()
        invariant
            i <= lines@.len(),
            ls == lines_view(lines@),
            notify == exists|j: int| 0 <= j < i && contains(#[trigger] ls[j], "member=Notify"@),
        decreases lines@.len() - i,
    {
        let found = crate::text::str_contains(lines[i].as_str(), "member=Notify");
        assert(ls[i as int] == lines@[i as int]@);
        if found {
            notify = true;
        }
        i = i + 1;
    }
    if !notify {
        return None;
    }
    let mut strings: Vec<String> = Vec::new();
    let mut k: usize = 0;
    while k < lines.len()
        invariant
            k <= lines@.len(),
            ls == lines_view(lines@),
            lines_view(strings@) == string_arguments(ls.take(k as int)),
        decreases lines@.len() - k,
    {
        proof {
            assert(ls.take(k + 1).drop_last() =~= ls.take(k as int));
            assert(ls.take(k + 1).last() == lines@[k as int]@);
        }
        let ghost before = strings@;
        match string_argument_of(lines[k].as_str()) {
            Some(s) => {
                strings.push(s);
                assert(lines_view(strings@) =~= lines_view(before).push(strings@.last()@));
            },
            None => {},
        }
        k = k + 1;
    }
    assert(ls.take(lines@.len() as int) =~= ls);
    if strings.len() < 3 {
        return None;
    }
    let app = strings[0].clone();
    let summary = strings[2].clone();
    let body = if strings.len() > 3 {
        strings[3].clone()
    } else {
        String::new()
    };
    proof {
        assert(lines_view(strings@)[0] == strings@[0]@);
        assert(lines_view(strings@)[2] == strings@[2]@);
        if strings@.len() > 3 {
            assert(lines_view(strings@)[3] == strings@[3]@);
        }
    }
    Some(NotificationEvent::Received { app, summary, body })
}

/// Groups `dbus-monitor` output lines into messages: a message ends at an empty
/// line or where the next `method call` begins.
pub struct NotificationBuffer {
    message: Vec<String>,
}

impl View for NotificationBuffer {
    type V = Seq<Seq<char>>;

    closed spec fn view(&self) -> Seq<Seq<char>> {
        lines_view(self.message@)
    }
}

pub open spec fn parsed(lines: Seq<Seq<char>>, e: Option<NotificationEvent>) -> bool {
    match e {
        Some(e) => notification_fields(lines) == Some(event_fields(e)),
        None => notification_fields(lines) is None,
    }
}

impl NotificationBuffer {
    pub fn new() -> (b: NotificationBuffer)
        ensures
            b@ == Seq::<Seq<char>>::empty(),
    {
        let b = NotificationBuffer { message: Vec::new() };
        assert(b@ =~= Seq::<Seq<char>>::empty());
        b
    }

    /// Takes the next output line; returns the notification of the message that
    /// the line ends, if any.
    pub fn push_line(&mut self, line: String) -> (e: Option<NotificationEvent>)
        ensures
            line@.len() == 0 ==> parsed(old(self)@, e) && final(self)@ == Seq::<
                Seq<char>,
            >::empty(),
            line@.len() > 0 && "method call"@.is_prefix_of(line@) ==> parsed(old(self)@, e)
                && final(self)@ == seq![line@],
            line@.len() > 0 && !"method call"@.is_prefix_of(line@) ==> e is None
                && final(self)@ == old(self)@.push(line@),
    {
        if line.as_str().is_empty() {
            let e = parse_notification(self.message.as_slice());
            self.message = Vec::new();
            assert(self@ =~= Seq::<Seq<char>>::empty());
            return e;
        }
        let v = chars_of(line.as_str());
        let prefix = chars_of("method call");
        assert(v@.subrange(0, v@.len() as int) =~= v@);
        let starts = has_prefix(&v, 0, v.len(), &prefix);
        let mut event = None;
        if starts {
            event = parse_notification(self.message.as_slice());
            self.message = Vec::new();
        }
        let ghost before = self.message@;
        self.message.push(line);
        assert(lines_view(self.message@) =~= lines_view(before).push(self.message@.last()@));
        event
    }

    /// The notification of the last, unterminated message, if any.
    pub fn finish(&mut self) -> (e: Option<NotificationEvent>)
        ensures
            parsed(old(self)@, e),
            final(self)@ == Seq::<Seq<char>>::empty(),
    {
        let e = parse_notification(self.message.as_slice());
        self.message = Vec::new();
        assert(self@ =~= Seq::<Seq<char>>::empty());
        e
    }
}

} // verus!
