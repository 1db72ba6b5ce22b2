//! Which short visual reaction each normalized event gets.
use vstd::prelude::*;

use crate::companion::SpriteLoop;
use crate::events::{EventKind, LocalEvent};
use crate::text::{contains, str_contains, str_eq};

verus! {

/// The reaction for an event of `kind` with `summary` and `detail`.
pub open spec fn reaction(kind: EventKind, summary: Seq<char>, detail: Seq<char>) -> SpriteLoop {
    match kind {
        EventKind::System => if contains(summary, "low battery"@) || contains(
            summary,
            "network offline"@,
        ) {
            SpriteLoop::Emotion
        } else {
            SpriteLoop::Warning
        },
        EventKind::Activity => if detail == "active"@ || detail == "unlocked"@ {
            SpriteLoop::SleepWake
        } else {
            SpriteLoop::Sleep
        },
        EventKind::Notification => SpriteLoop::Notification,
        EventKind::Task => if detail == "Calendar event starts soon"@ || detail
            == "Break reminder"@ {
            SpriteLoop::Notification
        } else if summary == "Task succeeded"@ {
            SpriteLoop::Success
        } else if summary == "Task failed"@ {
            SpriteLoop::Emotion
        } else if summary == "Task started"@ && (contains(detail, "build"@) || contains(
            detail,
            "compile"@,
        )) {
            SpriteLoop::Compile
        } else if summary == "Task started"@ {
            SpriteLoop::Working
        } else {
            SpriteLoop::Presence
        },
        EventKind::Browser => if summary == "Browser download completed"@ {
            SpriteLoop::Success
        } else {
            SpriteLoop::Presence
        },
        EventKind::File => if summary == "Download completed"@ {
            SpriteLoop::Success
        } else {
            SpriteLoop::Presence
        },
    }
}

/// Maps normalized, privacy-preserving events to short visual reactions.
pub fn animation_for(event: &LocalEvent) -> (a: SpriteLoop)
    ensures
        a == reaction(event.kind, event.summary@, event.detail@),
{
    let summary = event.summary.as_str();
    let detail = event.detail.as_str();
    match event.kind {
        EventKind::System => {
            if str_contains(summary, "low battery") || str_contains(summary, "network offline") {
                SpriteLoop::Emotion
            } else {
                SpriteLoop::Warning
            }
        },
        EventKind::Activity => {
            if str_eq(detail, "active") || str_eq(detail, "unlocked") {
                SpriteLoop::SleepWake
            } else {
                SpriteLoop::Sleep
            }
        },
        EventKind::Notification => SpriteLoop::Notification,
        EventKind::Task => {
            if str_eq(detail, "Calendar event starts soon") || str_eq(detail, "Break reminder") {
                SpriteLoop::Notification
            } else if str_eq(summary, "Task succeeded") {
                SpriteLoop::Success
            } else if str_eq(summary, "Task failed") {
                SpriteLoop::Emotion
            } else if str_eq(summary, "Task started") && (str_contains(detail, "build")
                || str_contains(detail, "compile")) {
                SpriteLoop::Compile
            } else if str_eq(summary, "Task started") {
                SpriteLoop::Working
            } else {
                SpriteLoop::Presence
            }
        },
        EventKind::Browser => {
            if str_eq(summary, "Browser download completed") {
                SpriteLoop::Success
            } else {
                SpriteLoop::Presence
            }
        },
        EventKind::File => {
            if str_eq(summary, "Download completed") {
                SpriteLoop::Success
            } else {
                SpriteLoop::Presence
            }
        },
    }
}

// ---------------------------------------------------------------------------
// Laws
// ---------------------------------------------------------------------------
/// Session events: the session coming back (detail `active` or `unlocked`) wakes
/// the owl with the sleep-wake loop; the session going idle or locked (any other
/// detail) puts it to sleep.
pub proof fn law_session_reactions(summary: Seq<char>, detail: Seq<char>)
    ensures
        detail == "active"@ ==> reaction(EventKind::Activity, summary, detail) == SpriteLoop::SleepWake,
        detail == "unlocked"@ ==> reaction(EventKind::Activity, summary, detail)
            == SpriteLoop::SleepWake,
        detail == "idle"@ ==> reaction(EventKind::Activity, summary, detail) == SpriteLoop::Sleep,
        detail == "locked"@ ==> reaction(EventKind::Activity, summary, detail) == SpriteLoop::Sleep,
        detail != "active"@ && detail != "unlocked"@ ==> reaction(EventKind::Activity, summary, detail)
            == SpriteLoop::Sleep,
{
    reveal_strlit("active");
    reveal_strlit("unlocked");
    reveal_strlit("idle");
    reveal_strlit("locked");
    assert("idle"@.len() != "active"@.len() && "idle"@.len() != "unlocked"@.len());
    assert("locked"@.len() != "unlocked"@.len() && "locked"@[0] != "active"@[0]);
}

} // verus!
