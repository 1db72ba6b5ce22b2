use ikaros_virtual::companion::SpriteLoop;
use ikaros_virtual::events::{EventKind, LocalEvent};
use ikaros_virtual::notifications::{parse_notification, NotificationBuffer};
use ikaros_virtual::collectors::NotificationEvent;
use ikaros_virtual::routing::animation_for;
use ikaros_virtual::collectors::{session_event, SessionEvent};
use ikaros_virtual::dispatch::{
    respond_to_alert, respond_to_event, respond_to_lock, PollClock, PollsDue,
};
use ikaros_virtual::duration::Duration;
use ikaros_virtual::status::{AlertKind, SystemStatus};

#[test]
fn routes_notifications_to_the_notification_cycle() {
    let event = LocalEvent {
        kind: EventKind::Notification,
        summary: String::new(),
        detail: String::new(),
    };
    assert_eq!(animation_for(&event), SpriteLoop::Notification);
}

#[test]
fn routes_low_battery_to_an_emotion() {
    let event = LocalEvent {
        kind: EventKind::System,
        summary: "Ikaros: low battery".to_owned(),
        detail: String::new(),
    };
    assert_eq!(animation_for(&event), SpriteLoop::Emotion);
}

#[test]
fn routes_build_tasks_to_compile_animation() {
    let event = LocalEvent {
        kind: EventKind::Task,
        summary: "Task started".to_owned(),
        detail: "release build".to_owned(),
    };
    assert_eq!(animation_for(&event), SpriteLoop::Compile);
}

fn route(kind: EventKind, summary: &str, detail: &str) -> SpriteLoop {
    animation_for(&LocalEvent {
        kind,
        summary: summary.to_owned(),
        detail: detail.to_owned(),
    })
}

#[test]
fn routes_every_kind_of_event() {
    assert_eq!(route(EventKind::System, "Ikaros: low disk space", ""), SpriteLoop::Warning);
    assert_eq!(route(EventKind::System, "Ikaros: network offline", ""), SpriteLoop::Emotion);
    assert_eq!(route(EventKind::Activity, "Session state", "unlocked"), SpriteLoop::SleepWake);
    assert_eq!(route(EventKind::Activity, "Session state", "idle"), SpriteLoop::Sleep);
    assert_eq!(route(EventKind::Task, "Task started", "Break reminder"), SpriteLoop::Notification);
    assert_eq!(route(EventKind::Task, "Task succeeded", "x"), SpriteLoop::Success);
    assert_eq!(route(EventKind::Task, "Task failed", "x"), SpriteLoop::Emotion);
    assert_eq!(route(EventKind::Task, "Task started", "backup"), SpriteLoop::Working);
    assert_eq!(route(EventKind::Task, "Other", "backup"), SpriteLoop::Presence);
    assert_eq!(route(EventKind::Browser, "Browser download completed", "f"), SpriteLoop::Success);
    assert_eq!(route(EventKind::Browser, "Browser tab changed", "f"), SpriteLoop::Presence);
    assert_eq!(route(EventKind::File, "Download completed", "f"), SpriteLoop::Success);
    assert_eq!(route(EventKind::File, "File created", "f"), SpriteLoop::Presence);
}

#[test]
fn parses_notify_method_arguments() {
    let lines = [
        "method call sender=:1.1 -> destination=:1.2 path=/org/freedesktop/Notifications; interface=org.freedesktop.Notifications; member=Notify",
        "   string \"chat\"",
        "   uint32 0",
        "   string \"\"",
        "   string \"New message\"",
        "   string \"Hello\"",
    ];
    assert_eq!(
        parse_notification(&lines.map(str::to_owned)),
        Some(NotificationEvent::Received {
            app: "chat".to_owned(),
            summary: "New message".to_owned(),
            body: "Hello".to_owned()
        })
    );
}

#[test]
fn notification_messages_are_split_at_blank_lines_and_calls() {
    let mut buffer = NotificationBuffer::new();
    assert_eq!(buffer.push_line("method call member=Notify".to_owned()), None);
    assert_eq!(buffer.push_line("   string \"mail\"".to_owned()), None);
    assert_eq!(buffer.push_line("   string \"\"".to_owned()), None);
    assert_eq!(buffer.push_line("   string \"Inbox\"".to_owned()), None);
    assert_eq!(
        buffer.push_line("method call member=Other".to_owned()),
        Some(NotificationEvent::Received {
            app: "mail".to_owned(),
            summary: "Inbox".to_owned(),
            body: String::new()
        })
    );
    assert_eq!(buffer.push_line(String::new()), None);
    assert_eq!(buffer.finish(), None);
    let not_notify = ["method call member=Other", "string \"a\"", "string \"b\"", "string \"c\""];
    assert_eq!(parse_notification(&not_notify.map(str::to_owned)), None);
}

#[test]
fn polls_come_due_at_their_intervals() {
    let mut clock = PollClock::new();
    assert_eq!(
        clock.tick(Duration::from_millis(50)),
        PollsDue { session: true, status: true }
    );
    assert_eq!(
        clock.tick(Duration::from_millis(4950)),
        PollsDue { session: false, status: false }
    );
    assert_eq!(
        clock.tick(Duration::from_millis(50)),
        PollsDue { session: true, status: false }
    );
    assert_eq!(
        clock.tick(Duration::from_secs(5)),
        PollsDue { session: true, status: true }
    );
}

#[test]
fn responses_follow_the_event_policy() {
    let lock = respond_to_lock(session_event(SessionEvent::Locked));
    assert_eq!(lock.record.detail, "locked");
    assert!(lock.reaction.is_none() && lock.notify.is_none() && !lock.warn);
    let idle = respond_to_event(session_event(SessionEvent::IdleStarted));
    assert_eq!(idle.reaction, Some(SpriteLoop::Sleep));
    assert!(idle.notify.is_none() && !idle.warn);
    let status = SystemStatus {
        memory_used_percent: 95,
        load_average: None,
        disk_available_gib: None,
        battery: None,
        network_connected: true,
        focus: None,
    };
    let alert = respond_to_alert(AlertKind::MemoryPressure, &status);
    assert_eq!(alert.record.kind, EventKind::System);
    assert_eq!(alert.record.summary, "Ikaros: memory pressure");
    assert!(alert.record.detail.starts_with("Memory: 95%"));
    assert_eq!(alert.notify, Some(AlertKind::MemoryPressure));
    assert!(alert.warn && alert.reaction.is_none());
}
