use ikaros_virtual::calendar::{parse_start, CalendarWatcher, LocalDateTime, RoutineWatcher};
use ikaros_virtual::collectors::TaskEvent;
use ikaros_virtual::duration::Duration;
use ikaros_virtual::settings::Routine;

fn at(timestamp: i64, hour: u32, minute: u32) -> LocalDateTime {
    LocalDateTime {
        timestamp,
        nanos: 0,
        year: 2026,
        ordinal: 358,
        hour,
        minute,
    }
}

#[test]
fn parses_local_ical_start_time() {
    assert!(parse_start("DTSTART:20261224T093000").is_some());
}

#[test]
fn breaks_only_fire_after_the_full_interval() {
    let now = at(1_798_104_600, 9, 30);
    let mut watcher = RoutineWatcher::new(Vec::new(), Some(60));
    assert!(watcher
        .tick(now, Duration::from_secs(59 * 60), false)
        .is_empty());
    assert_eq!(
        watcher.tick(now, Duration::from_secs(60), false),
        vec![TaskEvent::Started("Break reminder".to_owned())]
    );
}

#[test]
fn utc_start_times_are_exact() {
    assert_eq!(parse_start("DTSTART:20261224T093000Z"), Some(1_798_104_600));
    assert_eq!(
        parse_start("DTSTART;VALUE=DATE-TIME:20261224T093001Z"),
        Some(1_798_104_601)
    );
    assert_eq!(parse_start("DTEND:20261224T093000Z"), None);
    assert_eq!(parse_start("DTSTART20261224T093000Z"), None);
    assert_eq!(parse_start("DTSTART:not a date"), None);
}

#[test]
fn calendar_events_are_announced_once_within_five_minutes() {
    let mut watcher = CalendarWatcher::new("/home/owl/cal.ics".to_owned());
    assert_eq!(watcher.path(), "/home/owl/cal.ics");
    let start = 1_798_104_600;
    let text = "BEGIN:VEVENT\nDTSTART:20261224T093000Z\nEND:VEVENT\n";
    assert!(watcher.poll_at(Some(text), at(start - 301, 9, 24)).is_empty());
    assert_eq!(
        watcher.poll_at(Some(text), at(start - 300, 9, 25)),
        vec![TaskEvent::Started("Calendar event starts soon".to_owned())]
    );
    assert!(watcher.poll_at(Some(text), at(start - 10, 9, 29)).is_empty());
    assert!(watcher.poll_at(None, at(start, 9, 30)).is_empty());
    let mut fresh = CalendarWatcher::new("c".to_owned());
    let late = LocalDateTime {
        nanos: 500_000_000,
        ..at(start - 301, 9, 24)
    };
    assert_eq!(fresh.poll_starts(vec![start, start], late).len(), 1);
}

#[test]
fn routines_are_announced_once_a_day() {
    let routines = vec![Routine {
        name: "Stand up".to_owned(),
        hour: 10,
        minute: 0,
    }];
    let mut watcher = RoutineWatcher::new(routines, None);
    assert!(watcher.tick(at(0, 9, 59), Duration::zero(), false).is_empty());
    assert_eq!(
        watcher.tick(at(60, 10, 0), Duration::zero(), false),
        vec![TaskEvent::Started("Stand up".to_owned())]
    );
    assert!(watcher.tick(at(70, 10, 0), Duration::zero(), false).is_empty());
    let next_day = LocalDateTime {
        ordinal: 359,
        ..at(86_460, 10, 0)
    };
    assert_eq!(
        watcher.tick(next_day, Duration::zero(), false),
        vec![TaskEvent::Started("Stand up".to_owned())]
    );
}

#[test]
fn idling_resets_the_break_clock() {
    let now = at(0, 12, 0);
    let mut watcher = RoutineWatcher::new(Vec::new(), Some(1));
    assert!(watcher.tick(now, Duration::from_secs(59), false).is_empty());
    assert!(watcher.tick(now, Duration::from_secs(59), true).is_empty());
    assert!(watcher.tick(now, Duration::from_secs(59), false).is_empty());
    assert_eq!(watcher.tick(now, Duration::from_secs(1), false).len(), 1);
}

#[test]
fn start_times_follow_the_dtstart_lines() {
    let text = "BEGIN:VEVENT\r\nDTSTART:20261224T093000Z\r\nEND:VEVENT\nDTSTART:20261224T093001Z";
    assert_eq!(
        CalendarWatcher::start_times(text),
        vec![1_798_104_600, 1_798_104_601]
    );
    assert!(CalendarWatcher::start_times("SUMMARY:owl\n").is_empty());
}

#[test]
fn the_break_clock_counts_active_time() {
    let now = at(0, 12, 0);
    let mut watcher = RoutineWatcher::new(Vec::new(), Some(10));
    assert_eq!(watcher.active_for(), Duration::zero());
    watcher.tick(now, Duration::from_secs(30), false);
    watcher.tick(now, Duration::from_secs(30), false);
    assert_eq!(watcher.active_for(), Duration::from_secs(60));
    watcher.tick(now, Duration::from_secs(30), true);
    assert_eq!(watcher.active_for(), Duration::zero());
}
