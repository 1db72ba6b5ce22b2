//! User settings: watched sources, routines, quiet hours and pausing.
use vstd::prelude::*;

use crate::text::{
    chars_of, decimal2, find_char, index_of_char, is_whitespace, lemma_decimal2_parse,
    lemma_index_of_char_absent, lemma_index_of_char_append, lemma_lines_append, lemma_lines_cons,
    lemma_trim_unchanged, lines, next_line, parse_u8, parse_u8_range, piece, push_decimal2, trim,
    trim_range,
};

verus! {

#[derive(Debug, Clone, PartialEq, Eq)]
pub struct Routine {
    pub name: String,
    pub hour: u8,
    pub minute: u8,
}

#[derive(Debug, Clone, Copy, PartialEq, Eq, Structural)]
pub struct QuietHours {
    pub start_hour: u8,
    pub end_hour: u8,
}

impl QuietHours {
    /// Whether `hour` falls in the quiet period; a period whose start is after its
    /// end wraps past midnight.
    pub open spec fn spec_contains_hour(self, hour: u8) -> bool {
        if self.start_hour <= self.end_hour {
            self.start_hour <= hour && hour < self.end_hour
        } else {
            hour >= self.start_hour || hour < self.end_hour
        }
    }

    pub fn contains_hour(&self, hour: u8) -> (b: bool)
        ensures
            b == self.spec_contains_hour(hour),
    {
        if self.start_hour <= self.end_hour {
            self.start_hour <= hour && hour < self.end_hour
        } else {
            hour >= self.start_hour || hour < self.end_hour
        }
    }
}

/// The saved settings. Paths are kept as text.
#[derive(Debug, Clone)]
pub struct Settings {
    pub calendar_path: Option<String>,
    pub watch_directory: Option<String>,
    pub watched_units: Vec<String>,
    pub routines: Vec<Routine>,
    pub break_reminder_minutes: Option<u64>,
    pub quiet_hours: Option<QuietHours>,
    pub paused_until_unix_secs: Option<u64>,
    pub read_notifications: bool,
    pub focused_app_awareness: bool,
}

impl Default for Settings {
    fn default() -> (s: Settings)
        ensures
            s.calendar_path is None,
            s.watch_directory is None,
            s.watched_units@.len() == 0,
            s.routines@.len() == 0,
            s.break_reminder_minutes is None,
            s.quiet_hours is None,
            s.paused_until_unix_secs is None,
            !s.read_notifications,
            !s.focused_app_awareness,
    {
        Settings {
            calendar_path: None,
            watch_directory: None,
            watched_units: Vec::new(),
            routines: Vec::new(),
            break_reminder_minutes: None,
            quiet_hours: None,
            paused_until_unix_secs: None,
            read_notifications: false,
            focused_app_awareness: false,
        }
    }
}

/// The current time in whole seconds since the Unix epoch, or 0 when the clock
/// is set before it.
///
/// Calls `std::time::SystemTime::now`; what it returns depends on the clock, so
/// nothing is stated of it.
#[verifier::external_body]
fn now_unix_secs() -> u64 {
    match std::time::SystemTime::now().duration_since(std::time::UNIX_EPOCH) {
        Ok(elapsed) => elapsed.as_secs(),
        Err(_) => 0,
    }
}

/// One hour after `now` seconds, or the largest time when that does not fit.
pub open spec fn one_hour_after(now: u64) -> u64 {
    if now <= u64::MAX - 3600 {
        (now + 3600) as u64
    } else {
        u64::MAX
    }
}

/// Whether reactions are paused at `now`.
pub open spec fn paused_at(paused_until: Option<u64>, now: u64) -> bool {
    match paused_until {
        Some(until) => now < until,
        None => false,
    }
}

impl Settings {
    /// Whether reactions are paused now (the pause ends after its deadline): the
    /// answer of `reactions_paused_at` for the clock's reading, whatever it is.
    pub fn reactions_paused(&self) -> (b: bool)
        ensures
            exists|now: u64| b == #[trigger] paused_at(self.paused_until_unix_secs, now),
    {
        let now = now_unix_secs();
        let b = self.reactions_paused_at(now);
        assert(b == paused_at(self.paused_until_unix_secs, now));
        b
    }

    /// Whether reactions are paused at `now` seconds since the Unix epoch.
    pub fn reactions_paused_at(&self, now: u64) -> (b: bool)
        ensures
            b == paused_at(self.paused_until_unix_secs, now),
    {
        match self.paused_until_unix_secs {
            Some(until) => now < until,
            None => false,
        }
    }

    /// Pauses reactions for the next hour.
    pub fn pause_for_one_hour(&mut self)
        ensures
            exists|now: u64|
                final(self).paused_until_unix_secs == Some(#[trigger] one_hour_after(now)),
            final(self).calendar_path == old(self).calendar_path,
            final(self).watch_directory == old(self).watch_directory,
            final(self).watched_units == old(self).watched_units,
            final(self).routines == old(self).routines,
            final(self).break_reminder_minutes == old(self).break_reminder_minutes,
            final(self).quiet_hours == old(self).quiet_hours,
            final(self).read_notifications == old(self).read_notifications,
            final(self).focused_app_awareness == old(self).focused_app_awareness,
    {
        let now = now_unix_secs();
        self.pause_for_one_hour_at(now);
        assert(self.paused_until_unix_secs == Some(one_hour_after(now)));
    }

    /// Pauses reactions until one hour after `now` (at most `u64::MAX`).
    pub fn pause_for_one_hour_at(&mut self, now: u64)
        ensures
            final(self).paused_until_unix_secs == Some(one_hour_after(now)),
            final(self).calendar_path == old(self).calendar_path,
            final(self).watch_directory == old(self).watch_directory,
            final(self).watched_units == old(self).watched_units,
            final(self).routines == old(self).routines,
            final(self).break_reminder_minutes == old(self).break_reminder_minutes,
            final(self).quiet_hours == old(self).quiet_hours,
            final(self).read_notifications == old(self).read_notifications,
            final(self).focused_app_awareness == old(self).focused_app_awareness,
    {
        self.paused_until_unix_secs = Some(now.saturating_add(60 * 60));
    }

    /// Whether `hour` (local time) is within the configured quiet hours.
    pub fn in_quiet_hours(&self, hour: u8) -> (b: bool)
        ensures
            b == match self.quiet_hours {
                Some(q) => q.spec_contains_hour(hour),
                None => false,
            },
    {
        match &self.quiet_hours {
            Some(quiet) => quiet.contains_hour(hour),
            None => false,
        }
    }
}

// ---------------------------------------------------------------------------
// Routines as text: one `Name@HH:MM` per line
// ---------------------------------------------------------------------------
/// A routine as name text, hour and minute.
pub open spec fn routine_view(r: Routine) -> (Seq<char>, u8, u8) {
    (r.name@, r.hour, r.minute)
}

pub open spec fn routines_view(rs: Seq<Routine>) -> Seq<(Seq<char>, u8, u8)> {
    rs.map_values(|r: Routine| routine_view(r))
}

/// The routine that one non-blank line describes, or the message for its error.
pub open spec fn routine_of_line(line: Seq<char>) -> Result<(Seq<char>, u8, u8), Seq<char>> {
    let at = index_of_char(line, '@');
    if at < 0 || at >= line.len() {
        Err("Routines must use Name@HH:MM"@)
    } else {
        let name = line.take(at);
        let time = line.skip(at + 1);
        let colon = index_of_char(time, ':');
        if colon < 0 || colon >= time.len() {
            Err("Routine times must use HH:MM"@)
        } else {
            match parse_u8(trim(time.take(colon))) {
                None => Err("Routine hour must be 0-23"@),
                Some(hour) => match parse_u8(trim(time.skip(colon + 1))) {
                    None => Err("Routine minute must be 0-59"@),
                    Some(minute) => if trim(name).len() == 0 || hour > 23 || minute > 59 {
                        Err("Routine name or time is invalid"@)
                    } else {
                        Ok((trim(name), hour, minute))
                    },
                },
            }
        }
    }
}

/// The routines of the non-blank lines, or the error of the first bad line.
pub open spec fn routines_of(ls: Seq<Seq<char>>) -> Result<Seq<(Seq<char>, u8, u8)>, Seq<char>>
    decreases ls.len(),
{
    if ls.len() == 0 {
        Ok(Seq::empty())
    } else if trim(ls[0]).len() == 0 {
        routines_of(ls.drop_first())
    } else {
        match routine_of_line(ls[0]) {
            Err(e) => Err(e),
            Ok(r) => match routines_of(ls.drop_first()) {
                Ok(rest) => Ok(seq![r] + rest),
                Err(e) => Err(e),
            },
        }
    }
}

/// `acc` followed by what `rest` gives.
pub open spec fn after(acc: Seq<(Seq<char>, u8, u8)>, rest: Result<Seq<(Seq<char>, u8, u8)>, Seq<char>>) -> Result<Seq<(Seq<char>, u8, u8)>, Seq<char>> {
    match rest {
        Ok(rs) => Ok(acc + rs),
        Err(e) => Err(e),
    }
}

fn routine_of_range(text: &str, v: &Vec<char>, lo: usize, hi: usize) -> (r: Result<
    Routine,
    String,
>)
    requires
        lo <= hi <= v@.len(),
        v@ == text@,
    ensures
        match r {
            Ok(routine) => routine_of_line(v@.subrange(lo as int, hi as int)) == Ok::<
                (Seq<char>, u8, u8),
                Seq<char>,
            >(routine_view(routine)),
            Err(e) => routine_of_line(v@.subrange(lo as int, hi as int)) == Err::<
                (Seq<char>, u8, u8),
                Seq<char>,
            >(e@),
        },
{
    let ghost line = v@.subrange(lo as int, hi as int);
    let at = find_char(v, lo, hi, '@');
    if at == hi {
        return Err("Routines must use Name@HH:MM".to_owned());
    }
    let ghost time = line.skip(at - lo + 1);
    assert(time =~= v@.subrange(at + 1, hi as int));
    assert(line.take(at - lo) =~= v@.subrange(lo as int, at as int));
    let colon = find_char(v, at + 1, hi, ':');
    if colon == hi {
        return Err("Routine times must use HH:MM".to_owned());
    }
    assert(time.take(colon - at - 1) =~= v@.subrange(at + 1, colon as int));
    assert(time.skip(colon - at) =~= v@.subrange(colon + 1, hi as int));
    let (h0, h1) = trim_range(v, at + 1, colon);
    let hour = match parse_u8_range(v, h0, h1) {
        Some(h) => h,
        None => return Err("Routine hour must be 0-23".to_owned()),
    };
    let (m0, m1) = trim_range(v, colon + 1, hi);
    let minute = match parse_u8_range(v, m0, m1) {
        Some(m) => m,
        None => return Err("Routine minute must be 0-59".to_owned()),
    };
    let (n0, n1) = trim_range(v, lo, at);
    if n0 == n1 || hour > 23 || minute > 59 {
        return Err("Routine name or time is invalid".to_owned());
    }
    Ok(Routine { name: piece(text, n0, n1), hour, minute })
}

/// Routines from the settings text: one `Name@HH:MM` per non-blank line; the
/// first malformed line gives the error message.
pub fn parse_routines(value: &str) -> (r: Result<Vec<Routine>, String>)
    ensures
        match r {
            Ok(rs) => routines_of(lines(value@)) == Ok::<Seq<(Seq<char>, u8, u8)>, Seq<char>>(
                routines_view(rs@),
            ),
            Err(e) => routines_of(lines(value@)) == Err::<Seq<(Seq<char>, u8, u8)>, Seq<char>>(
                e@,
            ),
        },
{
    let v = chars_of(value);
    let mut routines: Vec<Routine> = Vec::new();
    let mut pos: usize = 0;
    assert(v@.skip(0) =~= v@);
    assert(routines_view(routines@) + Seq::<(Seq<char>, u8, u8)>::empty() =~= routines_view(
        routines@,
    ));
    while pos < v.len()
        invariant
            pos <= v@.len(),
            v@ == value@,
            routines_of(lines(v@)) == after(routines_view(routines@), routines_of(lines(v@.skip(pos as int)))),
        decreases v@.len() - pos,
    {
        let (end, next) = next_line(&v, pos);
        let ghost line = v@.subrange(pos as int, end as int);
        let ghost rest = lines(v@.skip(next as int));
        proof {
            lemma_lines_cons(v@.skip(pos as int), line, rest);
        }
        let (t0, t1) = trim_range(&v, pos, end);
        if t0 < t1 {
            match routine_of_range(value, &v, pos, end) {
                Ok(routine) => {
                    let ghost before = routines_view(routines@);
                    routines.push(routine);
                    proof {
                        assert(routines_view(routines@) =~= before.push(routine_view(routine)));
                        match routines_of(rest) {
                            Ok(rs) => {
                                assert(before + (seq![routine_view(routine)] + rs) =~= before.push(
                                    routine_view(routine),
                                ) + rs);
                            },
                            Err(_) => {},
                        }
                    }
                },
                Err(e) => {
                    return Err(e);
                },
            }
        }
        pos = next;
    }
    assert(v@.skip(pos as int) =~= Seq::<char>::empty());
    assert(routines_view(routines@) + Seq::<(Seq<char>, u8, u8)>::empty() =~= routines_view(
        routines@,
    ));
    Ok(routines)
}

/// The settings text line of a routine: `Name@HH:MM`.
pub open spec fn routine_line(r: (Seq<char>, u8, u8)) -> Seq<char> {
    r.0 + "@"@ + decimal2(r.1 as nat) + ":"@ + decimal2(r.2 as nat)
}

/// The settings text of `routines`: `Name@HH:MM` lines joined by line breaks.
pub open spec fn routines_text_of(rs: Seq<(Seq<char>, u8, u8)>) -> Seq<char>
    decreases rs.len(),
{
    if rs.len() == 0 {
        Seq::empty()
    } else if rs.len() == 1 {
        routine_line(rs.last())
    } else {
        routines_text_of(rs.drop_last()) + "\n"@ + routine_line(rs.last())
    }
}

pub fn routines_text(routines: &Vec<Routine>) -> (text: String)
    ensures
        text@ == routines_text_of(routines_view(routines@)),
{
    let mut text = String::new();
    let mut i: usize = 0;
    while i < routines.len()
        invariant
            i <= routines@.len(),
            text@ == routines_text_of(routines_view(routines@).take(i as int)),
        decreases routines@.len() - i,
    {
        let ghost before = text@;
        if i > 0 {
            text.append("\n");
        }
        let r = &routines[i];
        text.append(r.name.as_str());
        text.append("@");
        push_decimal2(&mut text, r.hour as u64);
        text.append(":");
        push_decimal2(&mut text, r.minute as u64);
        proof {
            let rs = routines_view(routines@).take(i + 1);
            assert(rs.drop_last() =~= routines_view(routines@).take(i as int));
            assert(rs.last() == routine_view(routines@[i as int]));
            if i == 0 {
                assert(text@ =~= routines_text_of(rs));
            } else {
                assert(text@ =~= routines_text_of(rs));
            }
        }
        i = i + 1;
    }
    assert(routines_view(routines@).take(routines@.len() as int) =~= routines_view(routines@));
    text
}

// ---------------------------------------------------------------------------
// Other settings text
// ---------------------------------------------------------------------------
/// The watched unit names of settings text: each non-blank line, trimmed.
pub open spec fn unit_names_of(ls: Seq<Seq<char>>) -> Seq<Seq<char>>
    decreases ls.len(),
{
    if ls.len() == 0 {
        Seq::empty()
    } else if trim(ls[0]).len() == 0 {
        unit_names_of(ls.drop_first())
    } else {
        seq![trim(ls[0])] + unit_names_of(ls.drop_first())
    }
}

/// The watched units of settings text, one per non-blank line, trimmed.
pub fn watched_units_of(text: &str) -> (units: Vec<String>)
    ensures
        units@.map_values(|u: String| u@) == unit_names_of(lines(text@)),
{
    let v = chars_of(text);
    let mut units: Vec<String> = Vec::new();
    let mut pos: usize = 0;
    assert(v@.skip(0) =~= v@);
    assert(units@.map_values(|u: String| u@) + unit_names_of(lines(v@)) =~= unit_names_of(
        lines(v@),
    ));
    while pos < v.len()
        invariant
            pos <= v@.len(),
            v@ == text@,
            unit_names_of(lines(v@)) == units@.map_values(|u: String| u@) + unit_names_of(
                lines(v@.skip(pos as int)),
            ),
        decreases v@.len() - pos,
    {
        let (end, next) = next_line(&v, pos);
        let ghost line = v@.subrange(pos as int, end as int);
        let ghost rest = lines(v@.skip(next as int));
        proof {
            lemma_lines_cons(v@.skip(pos as int), line, rest);
            assert(lines(v@.skip(pos as int)).drop_first() == rest);
        }
        let (t0, t1) = trim_range(&v, pos, end);
        if t0 < t1 {
            let ghost before = units@.map_values(|u: String| u@);
            units.push(piece(text, t0, t1));
            proof {
                assert(units@.map_values(|u: String| u@) =~= before.push(trim(line)));
                assert(before + (seq![trim(line)] + unit_names_of(rest)) =~= before.push(
                    trim(line),
                ) + unit_names_of(rest));
            }
        }
        pos = next;
    }
    assert(v@.skip(pos as int) =~= Seq::<char>::empty());
    assert(units@.map_values(|u: String| u@) + Seq::<Seq<char>>::empty() =~= units@.map_values(
        |u: String| u@,
    ));
    units
}

/// The break interval that the settings window's minute count gives: none for
/// zero (or less), which disables the reminder.
pub fn break_minutes_of(value: i32) -> (r: Option<u64>)
    ensures
        r == if value > 0 {
            Some(value as u64)
        } else {
            None::<u64>
        },
{
    if value > 0 {
        Some(value as u64)
    } else {
        None
    }
}

// ---------------------------------------------------------------------------
// Laws
// ---------------------------------------------------------------------------
/// A pause started at `now` holds for the next hour and ends after it.
pub proof fn law_pause_lasts_one_hour(now: u64, later: u64)
    requires
        now <= u64::MAX - 3600,
    ensures
        now <= later < now + 3600 ==> paused_at(Some((now + 3600) as u64), later),
        later >= now + 3600 ==> !paused_at(Some((now + 3600) as u64), later),
{
}

/// A routine that settings text can hold: a non-empty name that neither starts
/// nor ends with whitespace and holds no `@` or line break, at a valid time of
/// day.
pub open spec fn writable_routine(r: (Seq<char>, u8, u8)) -> bool {
    &&& r.0.len() > 0
    &&& !is_whitespace(r.0[0])
    &&& !is_whitespace(r.0.last())
    &&& !r.0.contains('@')
    &&& !r.0.contains('\n')
    &&& r.1 <= 23
    &&& r.2 <= 59
}

proof fn lemma_routine_line(r: (Seq<char>, u8, u8))
    requires
        writable_routine(r),
    ensures
        routine_of_line(routine_line(r)) == Ok::<(Seq<char>, u8, u8), Seq<char>>(r),
        trim(routine_line(r)).len() > 0,
        routine_line(r).len() > 0,
        !routine_line(r).contains('\n'),
        routine_line(r).last() != '\n',
        routine_line(r).last() != '\r',
{
    reveal_strlit("@");
    reveal_strlit(":");
    let (name, hour, minute) = r;
    let dh = decimal2(hour as nat);
    let dm = decimal2(minute as nat);
    lemma_decimal2_parse(hour as nat);
    lemma_decimal2_parse(minute as nat);
    let line = routine_line(r);
    let time = dh + seq![':'] + dm;
    assert(line =~= name + (seq!['@'] + time));
    lemma_index_of_char_absent(name, '@');
    lemma_index_of_char_append(name, seq!['@'] + time, '@');
    assert(index_of_char(seq!['@'] + time, '@') == 0);
    let at = name.len() as int;
    assert(index_of_char(line, '@') == at);
    assert(line.take(at) =~= name);
    assert(line.skip(at + 1) =~= time);
    assert(!dh.contains(':')) by {
        if dh.contains(':') {
            let j = choose|j: int| 0 <= j < dh.len() && dh[j] == ':';
            assert(j == 0 || j == 1);
        }
    }
    lemma_index_of_char_absent(dh, ':');
    lemma_index_of_char_append(dh, seq![':'] + dm, ':');
    assert(time =~= dh + (seq![':'] + dm));
    assert(index_of_char(seq![':'] + dm, ':') == 0);
    assert(index_of_char(time, ':') == 2);
    assert(time.take(2) =~= dh);
    assert(time.skip(3) =~= dm);
    lemma_trim_unchanged(dh);
    lemma_trim_unchanged(dm);
    lemma_trim_unchanged(name);
    assert(line[0] == name[0]);
    assert(line.last() == dm[1]);
    lemma_trim_unchanged(line);
    assert(!line.contains('\n')) by {
        if line.contains('\n') {
            let j = choose|j: int| 0 <= j < line.len() && line[j] == '\n';
            if j < at {
                assert(name[j] == '\n');
            } else if j > at + 3 {
                assert(dm[j - at - 4] == '\n');
            } else if j > at {
                assert(dh[j - at - 1] == '\n');
            }
        }
    }
}

proof fn lemma_routines_text_last(rs: Seq<(Seq<char>, u8, u8)>)
    requires
        rs.len() > 0,
        writable_routine(rs.last()),
    ensures
        routines_text_of(rs).len() > 0,
        routines_text_of(rs).last() == routine_line(rs.last()).last(),
{
    lemma_routine_line(rs.last());
}

proof fn lemma_routines_text_lines(rs: Seq<(Seq<char>, u8, u8)>)
    requires
        forall|i: int| 0 <= i < rs.len() ==> writable_routine(#[trigger] rs[i]),
    ensures
        lines(routines_text_of(rs)) == rs.map_values(|r: (Seq<char>, u8, u8)| routine_line(r)),
    decreases rs.len(),
{
    if rs.len() == 0 {
        assert(lines(Seq::<char>::empty()) =~= Seq::<Seq<char>>::empty());
        assert(rs.map_values(|r: (Seq<char>, u8, u8)| routine_line(r)) =~= Seq::<
            Seq<char>,
        >::empty());
    } else {
        let line = routine_line(rs.last());
        assert(writable_routine(rs[rs.len() - 1]));
        lemma_routine_line(rs.last());
        if rs.len() == 1 {
            lemma_index_of_char_absent(line, '\n');
            assert(lines(line) == seq![line]);
            assert(rs.map_values(|r: (Seq<char>, u8, u8)| routine_line(r)) =~= seq![line]);
        } else {
            let prefix = rs.drop_last();
            assert(forall|i: int| 0 <= i < prefix.len() ==> prefix[i] == rs[i]);
            lemma_routines_text_lines(prefix);
            assert(writable_routine(prefix[prefix.len() - 1]));
            lemma_routines_text_last(prefix);
            lemma_routine_line(prefix.last());
            reveal_strlit("\n");
            assert(routines_text_of(rs) =~= routines_text_of(prefix) + seq!['\n'] + line);
            lemma_lines_append(routines_text_of(prefix), line);
            assert(rs.map_values(|r: (Seq<char>, u8, u8)| routine_line(r)) =~= prefix.map_values(
                |r: (Seq<char>, u8, u8)| routine_line(r),
            ).push(line));
        }
    }
}

proof fn lemma_routines_of_lines(rs: Seq<(Seq<char>, u8, u8)>)
    requires
        forall|i: int| 0 <= i < rs.len() ==> writable_routine(#[trigger] rs[i]),
    ensures
        routines_of(rs.map_values(|r: (Seq<char>, u8, u8)| routine_line(r))) == Ok::<
            Seq<(Seq<char>, u8, u8)>,
            Seq<char>,
        >(rs),
    decreases rs.len(),
{
    let ls = rs.map_values(|r: (Seq<char>, u8, u8)| routine_line(r));
    if rs.len() == 0 {
        assert(rs =~= Seq::<(Seq<char>, u8, u8)>::empty());
    } else {
        let tail = rs.drop_first();
        assert(forall|i: int| 0 <= i < tail.len() ==> tail[i] == rs[i + 1]);
        lemma_routines_of_lines(tail);
        assert(writable_routine(rs[0]));
        lemma_routine_line(rs[0]);
        assert(ls.drop_first() =~= tail.map_values(|r: (Seq<char>, u8, u8)| routine_line(r)));
        assert(seq![rs[0]] + tail =~= rs);
    }
}

/// Routines written as settings text read back as the same routines.
pub proof fn law_routines_text_roundtrip(rs: Seq<(Seq<char>, u8, u8)>)
    requires
        forall|i: int| 0 <= i < rs.len() ==> writable_routine(#[trigger] rs[i]),
    ensures
        routines_of(lines(routines_text_of(rs))) == Ok::<Seq<(Seq<char>, u8, u8)>, Seq<char>>(rs),
{
    lemma_routines_text_lines(rs);
    lemma_routines_of_lines(rs);
}

/// Quiet hours that start and end at the same hour are never in effect; a
/// period that wraps past midnight covers midnight.
pub proof fn law_quiet_hours(q: QuietHours, hour: u8)
    ensures
        q.start_hour == q.end_hour ==> !q.spec_contains_hour(hour),
        q.start_hour > q.end_hour ==> q.spec_contains_hour(0) || q.end_hour == 0,
{
}

} // verus!
