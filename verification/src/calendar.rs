//! Local, selected-file calendar and routine collectors.
use vstd::prelude::*;

use crate::collectors::{TaskEvent, TaskEventModel, task_events_view};
use std::collections::HashSet;

use crate::duration::Duration;
use crate::settings::{Routine, routine_view, routines_view};
use crate::text::{
    chars_of, find_char, has_prefix, index_of_char, lines, next_line, piece,
    strip_prefix, strip_suffix_char,
};

verus! {

/// A moment in local time, with the fields the collectors read.
#[derive(Debug, Clone, Copy, PartialEq, Eq, Structural)]
pub struct LocalDateTime {
    /// Whole seconds since the Unix epoch.
    pub timestamp: i64,
    /// Nanoseconds past `timestamp`, below one second.
    pub nanos: u32,
    pub year: i32,
    /// Day of the year, from 1.
    pub ordinal: u32,
    pub hour: u32,
    pub minute: u32,
}

/// The `strftime` pattern of iCalendar date-times such as `20261224T093000`.
pub open spec fn ical_format() -> Seq<char> {
    "%Y%m%dT%H%M%S"@
}

/// What `chrono::NaiveDateTime::parse_from_str(value, format)` gives, as the Unix
/// timestamp of that date and time read in UTC.
pub uninterp spec fn naive_timestamp(value: Seq<char>, format: Seq<char>) -> Option<i64>;

/// Calls `chrono::NaiveDateTime::parse_from_str` and converts a success with
/// `and_utc().timestamp()`; the result is named by `naive_timestamp`.
#[verifier::external_body]
fn parse_naive_timestamp(value: &str, format: &str) -> (r: Option<i64>)
    ensures
        r == naive_timestamp(value@, format@),
{
    match chrono::NaiveDateTime::parse_from_str(value, format) {
        Ok(t) => Some(t.and_utc().timestamp()),
        Err(_) => None,
    }
}

/// Calls `chrono::Local.from_local_datetime(..).single()` on the date and time
/// whose UTC reading has timestamp `naive`, and returns the Unix timestamp of the
/// local time it names. The result depends on the machine's time zone; what is
/// stated is that a local offset is less than a day (chrono's `FixedOffset`), so
/// the result lies within a day of `naive`. `None` stands for a gap or fold in
/// local time.
#[verifier::external_body]
fn local_timestamp(naive: i64) -> (r: Option<i64>)
    ensures
        r matches Some(t) ==> naive - 86400 < t < naive + 86400,
{
    match chrono::DateTime::from_timestamp(naive, 0) {
        Some(t) => match chrono::TimeZone::from_local_datetime(&chrono::Local, &t.naive_utc()).single() {
            Some(local) => Some(local.timestamp()),
            None => None,
        },
        None => None,
    }
}

/// The value of a `DTSTART[;params]:value` line.
pub open spec fn dtstart_value(line: Seq<char>) -> Option<Seq<char>> {
    match strip_prefix(line, "DTSTART"@) {
        None => None,
        Some(rest) => {
            let i = index_of_char(rest, ':');
            if i < 0 || i >= rest.len() {
                None
            } else {
                Some(rest.skip(i + 1))
            }
        },
    }
}

/// What the start time of `line` can be: none unless it is a `DTSTART` line; for
/// a value ending in `Z`, the UTC reading of the rest; for any other value (local
/// time, which depends on the time zone) none when the value does not parse, and
/// otherwise, if any, a time within a day of its UTC reading.
pub open spec fn start_allowed(line: Seq<char>, r: Option<i64>) -> bool {
    match dtstart_value(line) {
        None => r is None,
        Some(value) => match strip_suffix_char(value, 'Z') {
            Some(utc) => r == naive_timestamp(utc, ical_format()),
            None => match naive_timestamp(value, ical_format()) {
                None => r is None,
                Some(n) => r matches Some(t) ==> n - 86400 < t < n + 86400,
            },
        },
    }
}

/// The start time of a `DTSTART` line as a Unix timestamp. A value ending in `Z`
/// is UTC; any other value is local time.
pub fn parse_start(line: &str) -> (r: Option<i64>)
    ensures
        start_allowed(line@, r),
{
    let v = chars_of(line);
    let key = chars_of("DTSTART");
    assert(v@.subrange(0, v@.len() as int) =~= v@);
    if !has_prefix(&v, 0, v.len(), &key) {
        return None;
    }
    let start = key.len();
    assert(v@.skip(start as int) =~= v@.subrange(start as int, v@.len() as int));
    let colon = find_char(&v, start, v.len(), ':');
    if colon == v.len() {
        return None;
    }
    assert(v@.skip(start as int).skip(colon - start + 1) =~= v@.subrange(
        colon + 1,
        v@.len() as int,
    ));
    let n = v.len();
    if n > colon + 1 && v[n - 1] == 'Z' {
        assert(v@.subrange(colon + 1, n as int).drop_last() =~= v@.subrange(
            colon + 1,
            n - 1,
        ));
        let value = line.substring_char(colon + 1, n - 1);
        return parse_naive_timestamp(value, "%Y%m%dT%H%M%S");
    }
    let value = line.substring_char(colon + 1, n);
    match parse_naive_timestamp(value, "%Y%m%dT%H%M%S") {
        Some(naive) => local_timestamp(naive),
        None => None,
    }
}

/// The present values of `rs`, in order.
pub open spec fn present(rs: Seq<Option<i64>>) -> Seq<i64>
    decreases rs.len(),
{
    if rs.len() == 0 {
        Seq::empty()
    } else {
        let p = present(rs.drop_last());
        match rs.last() {
            Some(t) => p.push(t),
            None => p,
        }
    }
}

/// Whether `starts` can be the start times read from calendar text `contents`:
/// the start time of each line, where it has one, in line order.
pub open spec fn starts_of(contents: Seq<char>, starts: Seq<i64>) -> bool {
    exists|found: Seq<Option<i64>>|
        #[trigger] present(found) == starts && found.len() == lines(contents).len() && forall|
            k: int,
        | 0 <= k < found.len() ==> start_allowed(lines(contents)[k], #[trigger] found[k])
}

/// `0 <= start.signed_duration_since(now).num_seconds() <= 300` for a start at
/// whole second `start`: the difference in nanoseconds, truncated toward zero
/// to whole seconds, is between 0 and 300.
pub open spec fn starts_soon(start: i64, now: LocalDateTime) -> bool {
    let d = (start - now.timestamp) * 1_000_000_000 - now.nanos;
    -1_000_000_000 < d && d < 301_000_000_000
}

/// Announcements of one poll: each start that begins soon and was not announced
/// before is announced once. Returns the number announced and the new set.
pub open spec fn announce(announced: Set<i64>, starts: Seq<i64>, now: LocalDateTime) -> (
    nat,
    Set<i64>,
)
    decreases starts.len(),
{
    if starts.len() == 0 {
        (0, announced)
    } else {
        let (count, seen) = announce(announced, starts.drop_last(), now);
        let s = starts.last();
        if starts_soon(s, now) && !seen.contains(s) {
            (count + 1, seen.insert(s))
        } else {
            (count, seen)
        }
    }
}

/// Announced starts are forgotten one day after `now`.
pub open spec fn retained(announced: Set<i64>, now: LocalDateTime) -> Set<i64> {
    announced.filter(|t: i64| t >= now.timestamp - 86400)
}

pub open spec fn calendar_soon_events(n: nat) -> Seq<TaskEventModel> {
    Seq::new(n, |i: int| TaskEventModel::Started("Calendar event starts soon"@))
}

/// Watches one user-selected iCalendar file for events that start within five
/// minutes.
pub struct CalendarWatcher {
    path: String,
    announced: HashSet<i64>,
}

pub struct CalendarWatcherModel {
    pub path: Seq<char>,
    pub announced: Set<i64>,
}

impl View for CalendarWatcher {
    type V = CalendarWatcherModel;

    closed spec fn view(&self) -> CalendarWatcherModel {
        CalendarWatcherModel { path: self.path@, announced: self.announced@ }
    }
}

proof fn lemma_push_to_set(s: Seq<i64>, x: i64)
    ensures
        s.push(x).to_set() == s.to_set().insert(x),
{
    assert forall|y: i64| #[trigger] s.push(x).to_set().contains(y) == s.to_set().insert(
        x,
    ).contains(y) by {
        if s.push(x).contains(y) {
            let j = choose|j: int| 0 <= j < s.push(x).len() && s.push(x)[j] == y;
            if j < s.len() {
                assert(s[j] == y);
            }
        }
        if s.contains(y) {
            let j = choose|j: int| 0 <= j < s.len() && s[j] == y;
            assert(s.push(x)[j] == y);
        }
        if y == x {
            assert(s.push(x)[s.len() as int] == y);
        }
    }
    assert(s.push(x).to_set() =~= s.to_set().insert(x));
}

impl CalendarWatcher {
    pub fn new(path: String) -> (w: CalendarWatcher)
        ensures
            w@.path == path@,
            w@.announced == Set::<i64>::empty(),
            w@.announced.finite(),
    {
        CalendarWatcher { path, announced: HashSet::new() }
    }

    /// The calendar file that the caller reads for each poll.
    pub fn path(&self) -> (p: &str)
        ensures
            p@ == self@.path,
    {
        self.path.as_str()
    }

    /// Announces each of `starts` (Unix timestamps) that begins within the next
    /// five minutes and was not announced before, then forgets announcements
    /// older than a day.
    pub fn poll_starts(&mut self, starts: Vec<i64>, now: LocalDateTime) -> (events: Vec<TaskEvent>)
        requires
            now.timestamp >= i64::MIN + 86400,
            now.nanos < 1_000_000_000,
        ensures
            ({
                let (count, seen) = announce(old(self)@.announced, starts@, now);
                &&& task_events_view(events@) == calendar_soon_events(count)
                &&& final(self)@.announced == retained(seen, now)
                &&& final(self)@.path == old(self)@.path
            }),
            old(self)@.announced.finite() ==> final(self)@.announced.finite(),
    {
        broadcast use vstd::std_specs::hash::group_hash_axioms;
        let ghost announced0 = self@.announced;
        let mut events: Vec<TaskEvent> = Vec::new();
        let mut i: usize = 0;
        while i < starts.len()
            invariant
                i <= starts@.len(),
                now.nanos < 1_000_000_000,
                self.path@ == old(self).path@,
                ({
                    let (count, seen) = announce(announced0, starts@.take(i as int), now);
                    task_events_view(events@) == calendar_soon_events(count)
                        && self.announced@ == seen
                }),
            decreases starts@.len() - i,
        {
            let s = starts[i];
            proof {
                assert(starts@.take(i + 1).drop_last() =~= starts@.take(i as int));
                assert(starts@.take(i + 1).last() == s);
            }
            let d: i128 = (s as i128 - now.timestamp as i128) * 1_000_000_000 - now.nanos as i128;
            let soon = -1_000_000_000 < d && d < 301_000_000_000;
            if soon && self.announced.insert(s) {
                let ghost before_events = events@;
                events.push(TaskEvent::Started("Calendar event starts soon".to_owned()));
                proof {
                    assert(task_events_view(events@) =~= task_events_view(before_events).push(
                        TaskEventModel::Started("Calendar event starts soon"@),
                    ));
                    let (count, _) = announce(announced0, starts@.take(i as int), now);
                    assert(calendar_soon_events(count).push(
                        TaskEventModel::Started("Calendar event starts soon"@),
                    ) =~= calendar_soon_events(count + 1));
                }
            }
            i = i + 1;
        }
        assert(starts@.take(starts@.len() as int) =~= starts@);
        let cutoff = now.timestamp - 24 * 60 * 60;
        let ghost seen = self.announced@;
        let mut kept: HashSet<i64> = HashSet::new();
        let keys = self.announced.iter();
        assert(vstd::std_specs::iter::IteratorSpec::remaining(&keys).unref().to_set() == seen);
        assert(vstd::std_specs::iter::IteratorSpec::remaining(&keys).len() == 0 ==> seen.filter(
            |x: i64| x >= cutoff,
        ) =~= Set::<i64>::empty()) by {
            if vstd::std_specs::iter::IteratorSpec::remaining(&keys).len() == 0 {
                assert(vstd::std_specs::iter::IteratorSpec::remaining(&keys).unref() =~= Seq::<
                    i64,
                >::empty());
            }
        }
        for t in it: keys
            invariant
                cutoff == now.timestamp - 86400,
                it.seq().unref().to_set() == seen,
                kept@ == it.seq().take(it.index()).unref().to_set().filter(|x: i64| x >= cutoff),
                it.index() == it.seq().len() ==> kept@ == seen.filter(|x: i64| x >= cutoff),
            ensures
                kept@ == seen.filter(|x: i64| x >= cutoff),
        {
            if *t >= cutoff {
                kept.insert(*t);
            }
            assert(it.seq().take(it.index() + 1).unref() =~= it.seq().take(it.index()).unref().push(
                *t,
            ));
            assert(it.seq().take(it.index() + 1).unref().to_set() == it.seq().take(
                it.index(),
            ).unref().to_set().insert(*t)) by {
                lemma_push_to_set(it.seq().take(it.index()).unref(), *t);
            }
            assert(kept@ =~= it.seq().take(it.index() + 1).unref().to_set().filter(
                |x: i64| x >= cutoff,
            ));
            assert(it.index() + 1 == it.seq().len() ==> it.seq().take(it.index() + 1) =~= it.seq());
        }
        self.announced = kept;
        assert(self@.announced =~= retained(seen, now));
        events
    }

    /// Start times of the `DTSTART` lines of calendar text, in line order.
    pub fn start_times(contents: &str) -> (starts: Vec<i64>)
        ensures
            starts_of(contents@, starts@),
    {
        let v = chars_of(contents);
        let mut starts: Vec<i64> = Vec::new();
        let mut pos: usize = 0;
        let ghost mut done: Seq<Seq<char>> = Seq::empty();
        let ghost mut found: Seq<Option<i64>> = Seq::empty();
        assert(v@.skip(0) =~= v@);
        assert(lines(v@) =~= done + lines(v@.skip(0)));
        while pos < v.len()
            invariant
                pos <= v@.len(),
                v@ == contents@,
                lines(v@) == done + lines(v@.skip(pos as int)),
                found.len() == done.len(),
                starts@ == present(found),
                forall|k: int| 0 <= k < found.len() ==> start_allowed(done[k], #[trigger] found[k]),
            decreases v@.len() - pos,
        {
            let (end, next) = next_line(&v, pos);
            let line = piece(contents, pos, end);
            let r = parse_start(line.as_str());
            match r {
                Some(start) => starts.push(start),
                None => {},
            }
            proof {
                let old_done = done;
                let old_found = found;
                done = done.push(v@.subrange(pos as int, end as int));
                found = found.push(r);
                assert(lines(v@) =~= done + lines(v@.skip(next as int))) by {
                    assert(old_done + (seq![v@.subrange(pos as int, end as int)] + lines(
                        v@.skip(next as int),
                    )) =~= done + lines(v@.skip(next as int)));
                }
                assert(found.drop_last() =~= old_found);
                assert forall|k: int| 0 <= k < found.len() implies start_allowed(
                    done[k],
                    #[trigger] found[k],
                ) by {
                    if k < old_found.len() {
                        assert(done[k] == old_done[k]);
                        assert(found[k] == old_found[k]);
                    }
                }
            }
            pos = next;
        }
        assert(v@.skip(pos as int) =~= Seq::<char>::empty());
        assert(done =~= lines(v@));
        starts
    }

    /// Polls the calendar text (`None` when the file could not be read, which
    /// changes nothing): announces each event that starts within five minutes,
    /// once.
    pub fn poll_at(&mut self, contents: Option<&str>, now: LocalDateTime) -> (events: Vec<TaskEvent>)
        requires
            now.timestamp >= i64::MIN + 86400,
            now.nanos < 1_000_000_000,
        ensures
            contents is None ==> events@.len() == 0 && final(self)@ == old(self)@,
            contents matches Some(text) ==> exists|starts: Seq<i64>|
                #[trigger] starts_of(text@, starts) && task_events_view(events@)
                    == calendar_soon_events(announce(old(self)@.announced, starts, now).0)
                    && final(self)@.announced == retained(
                    announce(old(self)@.announced, starts, now).1,
                    now,
                ),
            final(self)@.path == old(self)@.path,
            old(self)@.announced.finite() ==> final(self)@.announced.finite(),
    {
        match contents {
            None => Vec::new(),
            Some(text) => {
                let starts = CalendarWatcher::start_times(text);
                let ghost s = starts@;
                let events = self.poll_starts(starts, now);
                assert({
                    let (count, seen) = announce(old(self)@.announced, s, now);
                    &&& task_events_view(events@) == calendar_soon_events(count)
                    &&& self@.announced == retained(seen, now)
                });
                events
            },
        }
    }
}

// ---------------------------------------------------------------------------
// Routines and break reminders
// ---------------------------------------------------------------------------
/// A routine's announcement key: its name and the day.
pub open spec fn announcement(name: Seq<char>, now: LocalDateTime) -> (Seq<char>, i32, u32) {
    (name, now.year, now.ordinal)
}

/// Routines due at `now` that were not yet announced today, in order, and the
/// announcements afterwards.
pub open spec fn due_routines(routines: Seq<(Seq<char>, u8, u8)>, announced: Set<(Seq<char>, i32, u32)>, now: LocalDateTime) -> (
    Seq<Seq<char>>,
    Set<(Seq<char>, i32, u32)>,
)
    decreases routines.len(),
{
    if routines.len() == 0 {
        (Seq::empty(), announced)
    } else {
        let (names, seen) = due_routines(routines.drop_last(), announced, now);
        let r = routines.last();
        if r.1 == (now.hour as u8) && r.2 == (now.minute as u8) && !seen.contains(
            announcement(r.0, now),
        ) {
            (names.push(r.0), seen.insert(announcement(r.0, now)))
        } else {
            (names, seen)
        }
    }
}

pub struct RoutineWatcherModel {
    pub routines: Seq<(Seq<char>, u8, u8)>,
    pub announced: Set<(Seq<char>, i32, u32)>,
    pub break_interval: Option<nat>,
    pub active_for: nat,
}

/// Announces routines at their time of day, once a day, and a break after a
/// full interval of activity.
pub struct RoutineWatcher {
    routines: Vec<Routine>,
    announced: Vec<(String, i32, u32)>,
    break_interval: Option<Duration>,
    active_for: Duration,
}

pub open spec fn key_view(k: (String, i32, u32)) -> (Seq<char>, i32, u32) {
    (k.0@, k.1, k.2)
}

impl View for RoutineWatcher {
    type V = RoutineWatcherModel;

    closed spec fn view(&self) -> RoutineWatcherModel {
        RoutineWatcherModel {
            routines: routines_view(self.routines@),
            announced: self.announced@.map_values(|k: (String, i32, u32)| key_view(k)).to_set(),
            break_interval: match self.break_interval {
                Some(d) => Some(d@),
                None => None,
            },
            active_for: self.active_for@,
        }
    }
}

/// The activity clock after a tick: reset while idle, advanced otherwise.
pub open spec fn active_after(m: RoutineWatcherModel, elapsed: nat, idle: bool) -> nat {
    if idle {
        0
    } else {
        m.active_for + elapsed
    }
}

/// A break reminder is due when the activity clock reaches the interval.
pub open spec fn break_due(m: RoutineWatcherModel, elapsed: nat, idle: bool) -> bool {
    match m.break_interval {
        Some(i) => active_after(m, elapsed, idle) >= i,
        None => false,
    }
}

/// The task events for routine names, then a break reminder when one is due.
pub open spec fn routine_events(names: Seq<Seq<char>>, break_due: bool) -> Seq<TaskEventModel> {
    let started = names.map_values(|n: Seq<char>| TaskEventModel::Started(n));
    if break_due {
        started.push(TaskEventModel::Started("Break reminder"@))
    } else {
        started
    }
}

impl RoutineWatcher {
    pub fn new(routines: Vec<Routine>, break_reminder_minutes: Option<u64>) -> (w: RoutineWatcher)
        requires
            break_reminder_minutes matches Some(m) ==> m * 60 <= u64::MAX,
        ensures
            w@.routines == routines_view(routines@),
            w@.announced == Set::<(Seq<char>, i32, u32)>::empty(),
            w@.break_interval == match break_reminder_minutes {
                Some(m) => Some((m * 60 * 1_000_000_000) as nat),
                None => None::<nat>,
            },
            w@.active_for == 0,
    {
        let break_interval = match break_reminder_minutes {
            Some(minutes) => Some(Duration::from_secs(minutes * 60)),
            None => None,
        };
        let w = RoutineWatcher {
            routines,
            announced: Vec::new(),
            break_interval,
            active_for: Duration::zero(),
        };
        assert(w@.announced =~= Set::<(Seq<char>, i32, u32)>::empty());
        w
    }

    /// Time active since the last break, or since the session was last idle.
    pub fn active_for(&self) -> (d: Duration)
        ensures
            d@ == self@.active_for,
    {
        self.active_for
    }

    fn announced_contains(&self, name: &String, year: i32, ordinal: u32) -> (b: bool)
        ensures
            b == self@.announced.contains((name@, year, ordinal)),
    {
        let ghost keys = self.announced@.map_values(|k: (String, i32, u32)| key_view(k));
        let mut i: usize = 0;
        while i < self.announced.len()
            invariant
                i <= self.announced@.len(),
                keys == self.announced@.map_values(|k: (String, i32, u32)| key_view(k)),
                forall|j: int| 0 <= j < i ==> keys[j] != (name@, year, ordinal),
            decreases self.announced@.len() - i,
        {
            let k = &self.announced[i];
            assert(keys[i as int] == key_view(self.announced@[i as int]));
            if k.1 == year && k.2 == ordinal && k.0 == *name {
                assert(keys.contains((name@, year, ordinal)));
                return true;
            }
            i = i + 1;
        }
        assert(!keys.contains((name@, year, ordinal)));
        false
    }

    /// Advances the activity clock by `elapsed` (reset while idle), announces each
    /// routine due at `now` once a day, and a break when a full interval of
    /// activity has passed.
    pub fn tick(&mut self, now: LocalDateTime, elapsed: Duration, idle: bool) -> (events: Vec<TaskEvent>)
        requires
            !idle ==> old(self)@.active_for + elapsed@ <= u128::MAX,
        ensures
            ({
                let m = old(self)@;
                let active = active_after(m, elapsed@, idle);
                let break_due = break_due(m, elapsed@, idle);
                let (names, seen) = due_routines(m.routines, m.announced, now);
                &&& task_events_view(events@) == routine_events(names, break_due)
                &&& final(self)@.routines == m.routines
                &&& final(self)@.announced == seen
                &&& final(self)@.break_interval == m.break_interval
                &&& final(self)@.active_for == if break_due {
                    0
                } else {
                    active
                }
            }),
    {
        if idle {
            self.active_for = Duration::zero();
        } else {
            self.active_for = self.active_for.plus(elapsed);
        }
        let ghost m0 = self@;
        let mut events: Vec<TaskEvent> = Vec::new();
        let ghost mut names: Seq<Seq<char>> = Seq::empty();
        let hour = now.hour as u8;
        let minute = now.minute as u8;
        let mut i: usize = 0;
        while i < self.routines.len()
            invariant
                i <= self.routines@.len(),
                m0.routines == routines_view(self.routines@),
                hour == now.hour as u8,
                minute == now.minute as u8,
                self@.active_for == m0.active_for,
                self@.break_interval == m0.break_interval,
                self@.routines == m0.routines,
                ({
                    let (ns, seen) = due_routines(m0.routines.take(i as int), m0.announced, now);
                    ns == names && self@.announced == seen
                }),
                task_events_view(events@) == names.map_values(
                    |n: Seq<char>| TaskEventModel::Started(n),
                ),
            decreases self.routines@.len() - i,
        {
            proof {
                assert(m0.routines.take(i + 1).drop_last() =~= m0.routines.take(i as int));
                assert(m0.routines.take(i + 1).last() == routine_view(self.routines@[i as int]));
            }
            let r_hour = self.routines[i].hour;
            let r_minute = self.routines[i].minute;
            if r_hour == hour && r_minute == minute {
                let name = self.routines[i].name.clone();
                if !self.announced_contains(&name, now.year, now.ordinal) {
                    let ghost before = self.announced@;
                    let ghost before_events = events@;
                    self.announced.push((name.clone(), now.year, now.ordinal));
                    events.push(TaskEvent::Started(name));
                    proof {
                        let kv = |k: (String, i32, u32)| key_view(k);
                        assert(self.announced@.map_values(kv) =~= before.map_values(kv).push(
                            announcement(self.routines@[i as int].name@, now),
                        ));
                        assert forall|x: (Seq<char>, i32, u32)| #[trigger] before.map_values(
                            kv,
                        ).push(announcement(self.routines@[i as int].name@, now)).to_set().contains(
                            x,
                        ) == before.map_values(kv).to_set().insert(
                            announcement(self.routines@[i as int].name@, now),
                        ).contains(x) by {
                            let s = before.map_values(kv);
                            let a = announcement(self.routines@[i as int].name@, now);
                            if s.push(a).contains(x) {
                                let j = choose|j: int| 0 <= j < s.push(a).len() && s.push(a)[j] == x;
                                if j < s.len() {
                                    assert(s[j] == x);
                                }
                            }
                            if s.contains(x) {
                                let j = choose|j: int| 0 <= j < s.len() && s[j] == x;
                                assert(s.push(a)[j] == x);
                            }
                            if x == a {
                                assert(s.push(a)[s.len() as int] == x);
                            }
                        }
                        assert(self@.announced =~= old_announced_insert(before, self.routines@[i as int].name@, now));
                        names = names.push(self.routines@[i as int].name@);
                        assert(task_events_view(events@) =~= task_events_view(before_events).push(
                            TaskEventModel::Started(self.routines@[i as int].name@),
                        ));
                        assert(names.map_values(|n: Seq<char>| TaskEventModel::Started(n))
                            =~= names.drop_last().map_values(
                            |n: Seq<char>| TaskEventModel::Started(n),
                        ).push(TaskEventModel::Started(self.routines@[i as int].name@)));
                    }
                }
            }
            i = i + 1;
        }
        assert(m0.routines.take(self.routines@.len() as int) =~= m0.routines);
        let due = match self.break_interval {
            Some(interval) => self.active_for.at_least(&interval),
            None => false,
        };
        if due {
            self.active_for = Duration::zero();
            let ghost before_events = events@;
            events.push(TaskEvent::Started("Break reminder".to_owned()));
            assert(task_events_view(events@) =~= task_events_view(before_events).push(
                TaskEventModel::Started("Break reminder"@),
            ));
        }
        events
    }
}

/// The announcement set after adding today's key for `name`.
pub open spec fn old_announced_insert(before: Seq<(String, i32, u32)>, name: Seq<char>, now: LocalDateTime) -> Set<(Seq<char>, i32, u32)> {
    before.map_values(|k: (String, i32, u32)| key_view(k)).to_set().insert(announcement(name, now))
}

// ---------------------------------------------------------------------------
// Laws
// ---------------------------------------------------------------------------
pub proof fn lemma_announce_one(announced: Set<i64>, s: i64, now: LocalDateTime)
    ensures
        announce(announced, seq![s], now) == if starts_soon(s, now) && !announced.contains(s) {
            (1nat, announced.insert(s))
        } else {
            (0nat, announced)
        },
{
    assert(seq![s].drop_last() =~= Seq::<i64>::empty());
    assert(announce(announced, Seq::<i64>::empty(), now) == (0nat, announced));
}

/// The starts among `starts` that begin soon after `now`.
pub open spec fn soon_starts(starts: Seq<i64>, now: LocalDateTime) -> Set<i64> {
    Set::new(|t: i64| starts.contains(t) && starts_soon(t, now))
}

/// One poll announces each distinct start that begins within five minutes and
/// was not announced before, once, and nothing else: the announced set grows by
/// exactly those starts, and the count is how many they are.
pub proof fn law_poll_announces_new_soon_starts(
    announced: Set<i64>,
    starts: Seq<i64>,
    now: LocalDateTime,
)
    ensures
        ({
            let (count, seen) = announce(announced, starts, now);
            &&& seen == announced.union(soon_starts(starts, now))
            &&& soon_starts(starts, now).finite()
            &&& count == soon_starts(starts, now).difference(announced).len()
            &&& announced.finite() ==> seen.finite() && count + announced.len() == seen.len()
        }),
    decreases starts.len(),
{
    let (count, seen) = announce(announced, starts, now);
    if starts.len() == 0 {
        assert(soon_starts(starts, now) =~= Set::<i64>::empty());
        assert(seen =~= announced.union(soon_starts(starts, now)));
        assert(soon_starts(starts, now).difference(announced) =~= Set::<i64>::empty());
    } else {
        let prefix = starts.drop_last();
        let t = starts.last();
        law_poll_announces_new_soon_starts(announced, prefix, now);
        let (c0, seen0) = announce(announced, prefix, now);
        assert(forall|x: i64| starts.contains(x) <==> (prefix.contains(x) || x == t)) by {
            assert forall|x: i64| starts.contains(x) implies (prefix.contains(x) || x == t) by {
                let j = choose|j: int| 0 <= j < starts.len() && starts[j] == x;
                if j < prefix.len() {
                    assert(prefix[j] == x);
                }
            }
            assert forall|x: i64| prefix.contains(x) implies starts.contains(x) by {
                let j = choose|j: int| 0 <= j < prefix.len() && prefix[j] == x;
                assert(starts[j] == x);
            }
            assert(starts[starts.len() - 1] == t);
        }
        let new0 = soon_starts(prefix, now).difference(announced);
        let new1 = soon_starts(starts, now).difference(announced);
        assert(soon_starts(starts, now).subset_of(starts.to_set()));
        vstd::seq_lib::seq_to_set_is_finite(starts);
        vstd::set_lib::lemma_set_subset_finite(starts.to_set(), soon_starts(starts, now));
        assert(soon_starts(prefix, now).subset_of(seen0));
        if starts_soon(t, now) && !seen0.contains(t) {
            assert(seen =~= announced.union(soon_starts(starts, now)));
            assert(new1 =~= new0.insert(t));
            assert(!new0.contains(t));
        } else {
            assert(seen =~= announced.union(soon_starts(starts, now)));
            assert(new1 =~= new0);
        }
    }
}

/// An event start is announced once: a start announced at one poll is kept by
/// that poll's clean-up and is not announced again at a later poll.
pub proof fn law_event_announced_once(
    announced: Set<i64>,
    s: i64,
    first: LocalDateTime,
    second: LocalDateTime,
)
    requires
        starts_soon(s, first),
        !announced.contains(s),
        first.nanos < 1_000_000_000,
    ensures
        announce(announced, seq![s], first).0 == 1,
        retained(announce(announced, seq![s], first).1, first).contains(s),
        announce(retained(announce(announced, seq![s], first).1, first), seq![s], second).0 == 0,
{
    lemma_announce_one(announced, s, first);
    let kept = retained(announced.insert(s), first);
    assert(s >= first.timestamp);
    assert(kept.contains(s));
    lemma_announce_one(kept, s, second);
}

proof fn lemma_due_routines_cover(routines: Seq<(Seq<char>, u8, u8)>, announced: Set<(Seq<char>, i32, u32)>, now: LocalDateTime)
    ensures
        announced.subset_of(due_routines(routines, announced, now).1),
        forall|i: int|
            0 <= i < routines.len() && routines[i].1 == (now.hour as u8) && routines[i].2 == (
            now.minute as u8) ==> due_routines(routines, announced, now).1.contains(
                #[trigger] announcement(routines[i].0, now),
            ),
    decreases routines.len(),
{
    if routines.len() > 0 {
        lemma_due_routines_cover(routines.drop_last(), announced, now);
        assert forall|i: int|
            0 <= i < routines.len() && routines[i].1 == (now.hour as u8) && routines[i].2 == (
            now.minute as u8) implies due_routines(routines, announced, now).1.contains(
            #[trigger] announcement(routines[i].0, now),
        ) by {
            if i < routines.len() - 1 {
                assert(routines.drop_last()[i] == routines[i]);
            }
        }
    }
}

proof fn lemma_due_routines_none(routines: Seq<(Seq<char>, u8, u8)>, announced: Set<(Seq<char>, i32, u32)>, now: LocalDateTime)
    requires
        forall|i: int|
            0 <= i < routines.len() && routines[i].1 == (now.hour as u8) && routines[i].2 == (
            now.minute as u8) ==> announced.contains(#[trigger] announcement(routines[i].0, now)),
    ensures
        due_routines(routines, announced, now).0.len() == 0,
        due_routines(routines, announced, now).1 == announced,
    decreases routines.len(),
{
    if routines.len() > 0 {
        assert forall|i: int|
            0 <= i < routines.drop_last().len() && routines.drop_last()[i].1 == (now.hour as u8)
                && routines.drop_last()[i].2 == (now.minute as u8) implies announced.contains(
            #[trigger] announcement(routines.drop_last()[i].0, now),
        ) by {
            assert(routines.drop_last()[i] == routines[i]);
        }
        lemma_due_routines_none(routines.drop_last(), announced, now);
        let r = routines.last();
        if r.1 == (now.hour as u8) && r.2 == (now.minute as u8) {
            assert(announced.contains(announcement(routines[routines.len() - 1].0, now)));
        }
    }
}

/// Each routine is announced at most once a day: a second check in the same
/// minute of the same day announces nothing.
pub proof fn law_routine_once_per_day(
    routines: Seq<(Seq<char>, u8, u8)>,
    announced: Set<(Seq<char>, i32, u32)>,
    now: LocalDateTime,
)
    ensures
        due_routines(routines, due_routines(routines, announced, now).1, now).0.len() == 0,
{
    lemma_due_routines_cover(routines, announced, now);
    lemma_due_routines_none(routines, due_routines(routines, announced, now).1, now);
}

/// Whether routine `r` is due at `now` (its hour and minute).
pub open spec fn due_at(r: (Seq<char>, u8, u8), now: LocalDateTime) -> bool {
    r.1 == (now.hour as u8) && r.2 == (now.minute as u8)
}

/// Whether some routine due at `now` has `name`.
pub open spec fn named_due(routines: Seq<(Seq<char>, u8, u8)>, name: Seq<char>, now: LocalDateTime) -> bool {
    exists|i: int| 0 <= i < routines.len() && due_at(routines[i], now) && #[trigger] routines[i].0 == name
}

/// A tick's routine announcements, routine by routine: each routine due at this
/// minute whose name was not announced today is announced, each name once,
/// nothing else is, and the announcements of the day grow by exactly the due
/// names.
pub proof fn law_routines_due_per_routine(
    routines: Seq<(Seq<char>, u8, u8)>,
    announced: Set<(Seq<char>, i32, u32)>,
    now: LocalDateTime,
)
    ensures
        ({
            let (names, seen) = due_routines(routines, announced, now);
            &&& forall|i: int|
                0 <= i < routines.len() && due_at(#[trigger] routines[i], now) && !announced.contains(
                    announcement(routines[i].0, now),
                ) ==> names.contains(routines[i].0)
            &&& forall|k: int|
                0 <= k < names.len() ==> #[trigger] named_due(routines, names[k], now)
                    && !announced.contains(announcement(names[k], now))
            &&& forall|j: int, k: int| 0 <= j < k < names.len() ==> #[trigger] names[j] != #[trigger] names[k]
            &&& forall|x: (Seq<char>, i32, u32)|
                #[trigger] seen.contains(x) <==> announced.contains(x) || (x.1 == now.year && x.2
                    == now.ordinal && named_due(routines, x.0, now))
        }),
    decreases routines.len(),
{
    if routines.len() > 0 {
        let rs = routines.drop_last();
        let n = routines.len() - 1;
        let r = routines.last();
        law_routines_due_per_routine(rs, announced, now);
        let (names0, seen0) = due_routines(rs, announced, now);
        let (names, seen) = due_routines(routines, announced, now);
        assert(routines[n] == r);
        assert(forall|i: int| 0 <= i < n ==> rs[i] == routines[i]);
        assert forall|name: Seq<char>| named_due(rs, name, now) implies named_due(routines, name, now) by {
            let i = choose|i: int| 0 <= i < rs.len() && due_at(rs[i], now) && #[trigger] rs[i].0 == name;
            assert(routines[i].0 == name);
        }
        assert forall|name: Seq<char>| named_due(routines, name, now) implies named_due(rs, name, now)
            || (due_at(r, now) && r.0 == name) by {
            let i = choose|i: int|
                0 <= i < routines.len() && due_at(routines[i], now) && #[trigger] routines[i].0 == name;
            if i < n {
                assert(rs[i].0 == name);
            }
        }
        if due_at(r, now) {
            assert(named_due(routines, r.0, now)) by {
                assert(routines[n].0 == r.0);
            }
        }
        let fresh = due_at(r, now) && !seen0.contains(announcement(r.0, now));
        if fresh {
            assert(names == names0.push(r.0));
            assert(!announced.contains(announcement(r.0, now)));
            assert(forall|k: int| 0 <= k < names0.len() ==> names0[k] != r.0) by {
                assert forall|k: int| 0 <= k < names0.len() implies names0[k] != r.0 by {
                    assert(named_due(rs, names0[k], now));
                    assert(seen0.contains(announcement(names0[k], now)));
                }
            }
        } else {
            assert(names == names0);
        }
        assert forall|i: int|
            0 <= i < routines.len() && due_at(#[trigger] routines[i], now) && !announced.contains(
                announcement(routines[i].0, now),
            ) implies names.contains(routines[i].0) by {
            if i < n {
                assert(due_at(rs[i], now));
                assert(names0.contains(rs[i].0));
                let k = choose|k: int| 0 <= k < names0.len() && names0[k] == rs[i].0;
                assert(names[k] == names0[k]);
            } else if fresh {
                assert(names[names.len() - 1] == r.0);
            } else {
                assert(named_due(rs, r.0, now) || announced.contains(announcement(r.0, now)));
                if named_due(rs, r.0, now) {
                    let j = choose|j: int| 0 <= j < rs.len() && due_at(rs[j], now) && #[trigger] rs[j].0 == r.0;
                    assert(due_at(rs[j], now));
                    assert(names0.contains(rs[j].0));
                    let k = choose|k: int| 0 <= k < names0.len() && names0[k] == rs[j].0;
                    assert(names[k] == names0[k]);
                }
            }
        }
        assert forall|k: int| 0 <= k < names.len() implies #[trigger] named_due(routines, names[k], now)
            && !announced.contains(announcement(names[k], now)) by {
            if k < names0.len() {
                assert(names[k] == names0[k]);
                assert(named_due(rs, names0[k], now));
            }
        }
        assert forall|j: int, k: int| 0 <= j < k < names.len() implies #[trigger] names[j] != #[trigger] names[k] by {
            if k < names0.len() {
                assert(names[j] == names0[j] && names[k] == names0[k]);
            } else {
                assert(names[j] == names0[j]);
            }
        }
        assert forall|x: (Seq<char>, i32, u32)|
            #[trigger] seen.contains(x) <==> announced.contains(x) || (x.1 == now.year && x.2
                == now.ordinal && named_due(routines, x.0, now)) by {
            if x.1 == now.year && x.2 == now.ordinal && named_due(routines, x.0, now) && !named_due(rs, x.0, now) {
                assert(due_at(r, now) && r.0 == x.0);
                assert(x == announcement(r.0, now));
            }
        }
    }
}

/// A break reminder needs a full interval of activity: right after one (the
/// activity clock is back at zero), a step shorter than the interval gives no
/// other, and an idle step never does.
pub proof fn law_break_needs_full_interval(m: RoutineWatcherModel, elapsed: nat, idle: bool)
    requires
        m.break_interval matches Some(i) && i > 0,
    ensures
        m.active_for == 0 && elapsed < m.break_interval->0 ==> !break_due(m, elapsed, idle),
        idle ==> !break_due(m, elapsed, idle),
        !idle && m.active_for + elapsed >= m.break_interval->0 ==> break_due(m, elapsed, idle),
{
}

} // verus!
