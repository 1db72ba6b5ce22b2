//! The overlay's decisions between polls: when the session and the system are
//! polled, and what is done with each event they bring (logged, shown as a
//! reaction, sent as a desktop notification).
use vstd::prelude::*;

use crate::companion::SpriteLoop;
use crate::duration::Duration;
use crate::events::{EventKind, LocalEvent};
use crate::routing::{animation_for, reaction};
use crate::status::{format_status, status_text, AlertKind, SystemStatus};

verus! {

/// Seconds between two polls of the session (lock, idle, watched directory).
pub const SESSION_POLL_SECS: u64 = 5;

/// Seconds between two polls of the system status and the other watchers.
pub const STATUS_POLL_SECS: u64 = 10;

/// The time since each kind of poll, in nanoseconds.
pub struct PollClockModel {
    pub since_session: nat,
    pub since_status: nat,
}

/// Counts the time since the last session poll and the last status poll.
pub struct PollClock {
    since_session: Duration,
    since_status: Duration,
}

impl View for PollClock {
    type V = PollClockModel;

    closed spec fn view(&self) -> PollClockModel {
        PollClockModel { since_session: self.since_session@, since_status: self.since_status@ }
    }
}

/// Which polls are due on a frame.
#[derive(Debug, Clone, Copy, PartialEq, Eq, Structural)]
pub struct PollsDue {
    pub session: bool,
    pub status: bool,
}

pub open spec fn secs_nanos(secs: u64) -> nat {
    (secs * 1_000_000_000) as nat
}

/// Whether a poll with `interval` seconds is due after `since` and `elapsed`.
pub open spec fn poll_due(since: nat, elapsed: nat, interval: u64) -> bool {
    since + elapsed >= secs_nanos(interval)
}

/// The time since a poll after `elapsed`: zero when it was due.
pub open spec fn since_after(since: nat, elapsed: nat, interval: u64) -> nat {
    if poll_due(since, elapsed, interval) {
        0
    } else {
        since + elapsed
    }
}

/// Advances one count; returns whether its poll is due.
fn advance(since: &mut Duration, elapsed: Duration, interval: Duration) -> (due: bool)
    requires
        old(since)@ <= interval@,
        interval@ <= u64::MAX,
    ensures
        due == (old(since)@ + elapsed@ >= interval@),
        final(since)@ == if due {
            0
        } else {
            old(since)@ + elapsed@
        },
        final(since)@ <= interval@,
{
    if elapsed.at_least(&interval) || since.plus(elapsed).at_least(&interval) {
        *since = Duration::zero();
        true
    } else {
        *since = since.plus(elapsed);
        false
    }
}

impl PollClock {
    /// Neither count is above its interval.
    pub open spec fn wf(&self) -> bool {
        &&& self@.since_session <= secs_nanos(SESSION_POLL_SECS)
        &&& self@.since_status <= secs_nanos(STATUS_POLL_SECS)
    }

    /// Both polls are due at the first frame.
    pub fn new() -> (c: PollClock)
        ensures
            c.wf(),
            c@.since_session == secs_nanos(SESSION_POLL_SECS),
            c@.since_status == secs_nanos(STATUS_POLL_SECS),
    {
        PollClock {
            since_session: Duration::from_secs(SESSION_POLL_SECS),
            since_status: Duration::from_secs(STATUS_POLL_SECS),
        }
    }

    /// Counts `elapsed` toward both polls and says which are due; a due poll's
    /// count starts over.
    pub fn tick(&mut self, elapsed: Duration) -> (due: PollsDue)
        requires
            old(self).wf(),
        ensures
            final(self).wf(),
            due.session == poll_due(old(self)@.since_session, elapsed@, SESSION_POLL_SECS),
            due.status == poll_due(old(self)@.since_status, elapsed@, STATUS_POLL_SECS),
            final(self)@.since_session == since_after(
                old(self)@.since_session,
                elapsed@,
                SESSION_POLL_SECS,
            ),
            final(self)@.since_status == since_after(
                old(self)@.since_status,
                elapsed@,
                STATUS_POLL_SECS,
            ),
    {
        let session = advance(
            &mut self.since_session,
            elapsed,
            Duration::from_secs(SESSION_POLL_SECS),
        );
        let status = advance(&mut self.since_status, elapsed, Duration::from_secs(STATUS_POLL_SECS));
        PollsDue { session, status }
    }
}

/// What the overlay does with one event: the activity-log entry, the reaction
/// to show, and the desktop notification to send.
pub struct Response {
    pub record: LocalEvent,
    pub reaction: Option<SpriteLoop>,
    /// A notification for this alert, with the status it reports on.
    pub notify: Option<AlertKind>,
    /// Whether the owl shows its warning.
    pub warn: bool,
}

/// A change of the lock state is only logged.
pub fn respond_to_lock(event: LocalEvent) -> (r: Response)
    ensures
        r.record == event,
        r.reaction is None,
        r.notify is None,
        !r.warn,
{
    Response { record: event, reaction: None, notify: None, warn: false }
}

/// Any other event (idle changes, files, notifications, tasks) is logged and
/// shown as its reaction.
pub fn respond_to_event(event: LocalEvent) -> (r: Response)
    ensures
        r.record == event,
        r.reaction == Some(reaction(event.kind, event.summary@, event.detail@)),
        r.notify is None,
        !r.warn,
{
    let animation = animation_for(&event);
    Response { record: event, reaction: Some(animation), notify: None, warn: false }
}

/// An alert is sent as a desktop notification, shown as the warning, and logged
/// as a system event with the alert's summary and the status text.
pub fn respond_to_alert(alert: AlertKind, status: &SystemStatus) -> (r: Response)
    ensures
        r.record.kind == EventKind::System,
        r.record.summary@ == alert.spec_summary(),
        r.record.detail@ == status_text(*status),
        r.reaction is None,
        r.notify == Some(alert),
        r.warn,
{
    Response {
        record: LocalEvent {
            kind: EventKind::System,
            summary: alert.summary().to_owned(),
            detail: format_status(status),
        },
        reaction: None,
        notify: Some(alert),
        warn: true,
    }
}

} // verus!
