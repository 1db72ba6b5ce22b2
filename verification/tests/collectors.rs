use ikaros_virtual::collectors::{
    browser_event, file_event, is_partial_download, lock_event, notification_event, parse_session_flag,
    session_event, task_event, BrowserEvent, ChildStatus, FileEntry, FileEvent, FileWatcher,
    IdleWatcher, NotificationEvent, ProcessTask, SessionEvent, SystemdUnitWatcher, TaskEvent,
};
use ikaros_virtual::events::{format_record, EventKind, LocalEvent};

#[test]
fn idle_watcher_only_emits_transitions() {
    let mut watcher = IdleWatcher::default();
    assert_eq!(watcher.poll(Some(false)), None);
    assert_eq!(watcher.poll(Some(true)), Some(SessionEvent::IdleStarted));
    assert_eq!(watcher.poll(Some(true)), None);
    assert_eq!(watcher.poll(Some(false)), Some(SessionEvent::IdleEnded));
}

#[test]
fn browser_events_do_not_drop_the_explicit_source() {
    let event = browser_event(BrowserEvent::DownloadCompleted("report.pdf".to_owned()));
    assert_eq!(event.kind, EventKind::Browser);
    assert_eq!(event.summary, "Browser download completed");
}

fn entry(path: &str, size: u64, modified: i128) -> FileEntry {
    FileEntry {
        path: path.to_owned(),
        is_file: true,
        modified: Some(modified),
        size,
    }
}

#[test]
fn watcher_reports_a_new_stable_file_as_a_completed_download() {
    let mut watcher = FileWatcher::new("/tmp/ikaros-watcher".to_owned());
    assert!(watcher.poll(Some(Vec::new())).is_empty());
    let file = entry("/tmp/ikaros-watcher/report.pdf", 4, 7);
    assert!(matches!(
        watcher.poll(Some(vec![file.clone()])).as_slice(),
        [FileEvent::Created(_)]
    ));
    assert!(watcher.poll(Some(vec![file.clone()])).is_empty());
    assert!(matches!(
        watcher.poll(Some(vec![file])).as_slice(),
        [FileEvent::DownloadCompleted(path)] if path.ends_with("report.pdf")
    ));
}

#[test]
fn file_watcher_ignores_existing_files_partials_and_unreadable_listings() {
    let mut watcher = FileWatcher::new("/d".to_owned());
    assert!(watcher.poll(Some(vec![entry("/d/old.txt", 1, 1)])).is_empty());
    assert!(watcher.poll(None).is_empty());
    for _ in 0..5 {
        assert!(watcher.poll(Some(vec![entry("/d/old.txt", 1, 1)])).is_empty());
    }
    let partial = entry("/d/movie.mkv.part", 10, 1);
    let directory = FileEntry {
        is_file: false,
        ..entry("/d/sub", 0, 1)
    };
    assert!(watcher.poll(Some(vec![partial, directory])).is_empty());
    assert_eq!(
        watcher.poll(Some(vec![entry("/d/old.txt", 2, 1)])),
        vec![FileEvent::Created("/d/old.txt".to_owned())]
    );
    assert_eq!(
        watcher.poll(Some(vec![entry("/d/old.txt", 3, 1)])),
        vec![FileEvent::Modified("/d/old.txt".to_owned())]
    );
    assert_eq!(watcher.directory(), "/d");
}

#[test]
fn partial_downloads_are_recognized_by_extension() {
    assert!(is_partial_download("/d/a.part"));
    assert!(is_partial_download("/d/a.zip.crdownload"));
    assert!(is_partial_download("x.tmp"));
    assert!(!is_partial_download("/d/.tmp"));
    assert!(!is_partial_download("/d/a.pdf"));
    assert!(!is_partial_download("/d.part/a"));
    assert!(!is_partial_download("/d/part"));
}

#[test]
fn events_have_fixed_summaries() {
    let e = file_event(FileEvent::Modified("a".to_owned()));
    assert_eq!((e.kind, e.summary.as_str(), e.detail.as_str()), (EventKind::File, "File modified", "a"));
    let e = notification_event(NotificationEvent::Received {
        app: "chat".to_owned(),
        summary: "Hi".to_owned(),
        body: "there".to_owned(),
    });
    assert_eq!(e.summary, "chat: Hi");
    assert_eq!(e.detail, "there");
    let e = browser_event(BrowserEvent::TabChanged {
        title: "Docs".to_owned(),
        url: "https://x".to_owned(),
    });
    assert_eq!(e.detail, "Docs (https://x)");
    let e = browser_event(BrowserEvent::MediaChanged { playing: false });
    assert_eq!(e.detail, "paused");
    let e = session_event(SessionEvent::IdleEnded);
    assert_eq!((e.kind, e.summary.as_str(), e.detail.as_str()), (EventKind::Activity, "Session state", "active"));
    let e = task_event(TaskEvent::Failed("backup".to_owned()));
    assert_eq!((e.kind, e.summary.as_str(), e.detail.as_str()), (EventKind::Task, "Task failed", "backup"));
}

#[test]
fn session_flags_are_yes_or_no() {
    assert_eq!(parse_session_flag("yes\n"), Some(true));
    assert_eq!(parse_session_flag(" no "), Some(false));
    assert_eq!(parse_session_flag("maybe"), None);
    let mut idle = IdleWatcher::default();
    assert!(!idle.is_idle());
    idle.poll(Some(true));
    assert!(idle.is_idle());
    assert_eq!(idle.poll(None), None);
    assert!(idle.is_idle());
}

#[test]
fn systemd_units_report_starts_successes_and_failures() {
    let mut watcher = SystemdUnitWatcher::new(vec![
        "backup.service".to_owned(),
        "build.service".to_owned(),
        "backup.service".to_owned(),
    ]);
    assert_eq!(
        watcher.unit_names(),
        vec!["backup.service".to_owned(), "build.service".to_owned()]
    );
    assert_eq!(
        watcher.poll_states(vec![Some("active\n".to_owned()), Some("failed\n".to_owned())]),
        vec![
            TaskEvent::Started("backup.service".to_owned()),
            TaskEvent::Failed("build.service".to_owned())
        ]
    );
    assert_eq!(
        watcher.poll_states(vec![None, Some("failed".to_owned())]),
        vec![]
    );
    assert_eq!(
        watcher.poll_states(vec![Some("inactive".to_owned()), Some("active".to_owned())]),
        vec![
            TaskEvent::Succeeded("backup.service".to_owned()),
            TaskEvent::Started("build.service".to_owned())
        ]
    );
}

#[test]
fn process_tasks_report_start_then_outcome_once() {
    let mut task = ProcessTask::new("maintenance".to_owned());
    assert!(!task.awaits_exit());
    assert_eq!(
        task.poll(ChildStatus::Running),
        vec![TaskEvent::Started("maintenance".to_owned())]
    );
    assert!(task.awaits_exit());
    assert_eq!(task.poll(ChildStatus::Running), vec![]);
    assert_eq!(
        task.poll(ChildStatus::Failed),
        vec![TaskEvent::Failed("maintenance".to_owned())]
    );
    assert!(!task.awaits_exit());
    assert_eq!(task.poll(ChildStatus::Succeeded), vec![]);
}

#[test]
fn activity_log_lines_are_tab_separated_single_lines() {
    let event = LocalEvent {
        kind: EventKind::Notification,
        summary: "two\nlines".to_owned(),
        detail: "a\nb\n".to_owned(),
    };
    assert_eq!(format_record(&event, 1700000000), "1700000000\tnotification\ttwo lines\ta b ");
    assert_eq!(EventKind::System.label(), "system");
}

#[test]
fn lock_readings_report_the_first_state_and_each_change() {
    assert_eq!(lock_event(None, false), Some(SessionEvent::Unlocked));
    assert_eq!(lock_event(None, true), Some(SessionEvent::Locked));
    assert_eq!(lock_event(Some(false), false), None);
    assert_eq!(lock_event(Some(false), true), Some(SessionEvent::Locked));
    assert_eq!(lock_event(Some(true), true), None);
    assert_eq!(lock_event(Some(true), false), Some(SessionEvent::Unlocked));
}
