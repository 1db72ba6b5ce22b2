//! The owl companion: sprite loops, the permission boundary, memory telemetry and
//! the approval of proposed commands.
use vstd::prelude::*;

use crate::duration::Duration;
use crate::text::{
    chars_of, decimal, first_prefixed, first_prefixed_range, first_word, first_word_range, lines,
    parse_u64, parse_u64_range, push_decimal,
};

verus! {

/// Memory use, in percent, at which the companion raises a memory-pressure alert.
pub const MEMORY_ALERT_THRESHOLD_PERCENT: u8 = 90;

/// Seconds between two memory-pressure alerts.
pub const MEMORY_ALERT_COOLDOWN_SECS: u64 = 900;

pub open spec fn memory_alert_cooldown_nanos() -> nat {
    900 * 1_000_000_000
}

#[derive(Debug, Clone, Copy, PartialEq, Eq, Structural)]
pub enum Perch {
    BottomLeft,
    BottomRight,
}

impl Perch {
    pub open spec fn spec_label(self) -> Seq<char> {
        match self {
            Perch::BottomLeft => "the bottom-left corner"@,
            Perch::BottomRight => "the bottom-right corner"@,
        }
    }

    pub fn label(self) -> (r: &'static str)
        ensures
            r@ == self.spec_label(),
    {
        match self {
            Perch::BottomLeft => "the bottom-left corner",
            Perch::BottomRight => "the bottom-right corner",
        }
    }
}

#[derive(Debug, Clone, Copy, PartialEq, Eq, Structural)]
pub enum SpriteLoop {
    Perch,
    Blink,
    Sleep,
    WalkLeft,
    WalkRight,
    Fly,
    Alert,
    Flinch,
    Idle,
    Party,
    Working,
    Thinking,
    Warning,
    Charging,
    Presence,
    Success,
    Notification,
    Silly,
    Emotion,
    SleepWake,
    Compile,
}

impl SpriteLoop {
    /// Frames in each loop of the active art pack.
    pub open spec fn spec_frame_count(self) -> u8 {
        match self {
            SpriteLoop::Perch => 4,
            SpriteLoop::Blink => 4,
            SpriteLoop::Sleep => 4,
            SpriteLoop::Idle | SpriteLoop::Warning | SpriteLoop::Success => 4,
            SpriteLoop::Working | SpriteLoop::Compile => 3,
            SpriteLoop::WalkLeft => 8,
            SpriteLoop::WalkRight => 4,
            SpriteLoop::Fly => 4,
            SpriteLoop::Alert | SpriteLoop::Flinch => 3,
            SpriteLoop::Party | SpriteLoop::Thinking => 5,
            SpriteLoop::Charging | SpriteLoop::Presence | SpriteLoop::Notification
            | SpriteLoop::Silly | SpriteLoop::Emotion | SpriteLoop::SleepWake => 5,
        }
    }

    #[verifier::when_used_as_spec(spec_frame_count)]
    pub fn frame_count(self) -> (n: u8)
        ensures
            n == self.spec_frame_count(),
            n >= 3,
    {
        match self {
            SpriteLoop::Perch => 4,
            SpriteLoop::Blink => 4,
            SpriteLoop::Sleep => 4,
            SpriteLoop::Idle | SpriteLoop::Warning | SpriteLoop::Success => 4,
            SpriteLoop::Working | SpriteLoop::Compile => 3,
            SpriteLoop::WalkLeft => 8,
            SpriteLoop::WalkRight => 4,
            SpriteLoop::Fly => 4,
            SpriteLoop::Alert | SpriteLoop::Flinch => 3,
            SpriteLoop::Party | SpriteLoop::Thinking => 5,
            SpriteLoop::Charging | SpriteLoop::Presence | SpriteLoop::Notification
            | SpriteLoop::Silly | SpriteLoop::Emotion | SpriteLoop::SleepWake => 5,
        }
    }

    /// How long each frame of the loop is shown, in milliseconds.
    pub open spec fn frame_millis(self) -> nat {
        match self {
            SpriteLoop::Fly => 80,
            SpriteLoop::WalkLeft | SpriteLoop::WalkRight => 140,
            SpriteLoop::Alert | SpriteLoop::Flinch => 110,
            SpriteLoop::Idle | SpriteLoop::Thinking => 250,
            SpriteLoop::Working | SpriteLoop::Compile | SpriteLoop::Success
            | SpriteLoop::Notification | SpriteLoop::Silly => 200,
            SpriteLoop::Party => 167,
            SpriteLoop::Warning => 110,
            SpriteLoop::Charging | SpriteLoop::Presence | SpriteLoop::Emotion
            | SpriteLoop::SleepWake => 250,
            _ => 450,
        }
    }

    pub open spec fn frame_nanos(self) -> nat {
        self.frame_millis() * 1_000_000
    }

    pub fn frame_duration(self) -> (d: Duration)
        ensures
            d@ == self.frame_nanos(),
            0 < d@ <= 450_000_000,
    {
        let millis: u64 = match self {
            SpriteLoop::Fly => 80,
            SpriteLoop::WalkLeft | SpriteLoop::WalkRight => 140,
            SpriteLoop::Alert | SpriteLoop::Flinch => 110,
            SpriteLoop::Idle | SpriteLoop::Thinking => 250,
            SpriteLoop::Working | SpriteLoop::Compile | SpriteLoop::Success
            | SpriteLoop::Notification | SpriteLoop::Silly => 200,
            SpriteLoop::Party => 167,
            SpriteLoop::Warning => 110,
            SpriteLoop::Charging | SpriteLoop::Presence | SpriteLoop::Emotion
            | SpriteLoop::SleepWake => 250,
            _ => 450,
        };
        Duration::from_millis(millis)
    }
}

#[derive(Debug, Clone, Copy, PartialEq, Eq, Structural)]
pub enum Activity {
    Perched(Perch),
    Walking,
    Flying,
    Alert,
}

#[derive(Debug, Clone, Copy, PartialEq, Eq, Structural)]
pub enum Capability {
    ReadSystemTelemetry,
    ShowNotifications,
    ReadSelectedFiles,
    BrowserSummary,
    RunApprovedCommand,
}

/// The capabilities that the user has granted.
#[derive(Debug)]
pub struct Permissions {
    granted: Vec<Capability>,
}

impl View for Permissions {
    type V = Set<Capability>;

    closed spec fn view(&self) -> Set<Capability> {
        self.granted@.to_set()
    }
}

impl Default for Permissions {
    fn default() -> (p: Permissions)
        ensures
            p@ == Set::<Capability>::empty(),
    {
        let p = Permissions { granted: Vec::new() };
        assert(p@ =~= Set::<Capability>::empty());
        p
    }
}

proof fn lemma_push_contains(s: Seq<Capability>, c: Capability)
    ensures
        forall|x: Capability| #[trigger] s.push(c).contains(x) == (s.contains(x) || x == c),
{
    assert forall|x: Capability| #[trigger] s.push(c).contains(x) == (s.contains(x) || x == c) by {
        if s.push(c).contains(x) {
            let j = choose|j: int| 0 <= j < s.push(c).len() && s.push(c)[j] == x;
            if j < s.len() {
                assert(s[j] == x);
            }
        }
        if s.contains(x) {
            let j = choose|j: int| 0 <= j < s.len() && s[j] == x;
            assert(s.push(c)[j] == x);
        }
        if x == c {
            assert(s.push(c)[s.len() as int] == x);
        }
    }
}

impl Permissions {
    fn position(&self, capability: Capability) -> (r: Option<usize>)
        ensures
            match r {
                Some(i) => i < self.granted@.len() && self.granted@[i as int] == capability,
                None => !self.granted@.contains(capability),
            },
    {
        let mut i: usize = 0;
        while i < self.granted.len()
            invariant
                i <= self.granted@.len(),
                forall|j: int| 0 <= j < i ==> self.granted@[j] != capability,
            decreases self.granted@.len() - i,
        {
            if self.granted[i] == capability {
                return Some(i);
            }
            i = i + 1;
        }
        None
    }

    /// Adds `capability` to the granted set.
    pub fn grant(&mut self, capability: Capability)
        ensures
            final(self)@ == old(self)@.insert(capability),
    {
        if self.position(capability).is_none() {
            self.granted.push(capability);
        }
        proof {
            assert forall|c: Capability| #[trigger] final(self)@.contains(c) == old(
                self,
            )@.insert(capability).contains(c) by {
                if c == capability {
                    if !old(self).granted@.contains(c) {
                        assert(final(self).granted@[final(self).granted@.len() - 1] == c);
                    }
                } else if old(self).granted@.contains(c) {
                    let j = choose|j: int|
                        0 <= j < old(self).granted@.len() && old(self).granted@[j] == c;
                    assert(final(self).granted@[j] == c);
                } else if final(self).granted@.contains(c) {
                    let j = choose|j: int|
                        0 <= j < final(self).granted@.len() && final(self).granted@[j] == c;
                    assert(j < old(self).granted@.len());
                    assert(old(self).granted@[j] == c);
                }
            }
            assert(final(self)@ =~= old(self)@.insert(capability));
        }
    }

    /// Removes `capability` from the granted set.
    pub fn revoke(&mut self, capability: Capability)
        ensures
            final(self)@ == old(self)@.remove(capability),
    {
        let mut kept: Vec<Capability> = Vec::new();
        let mut i: usize = 0;
        while i < self.granted.len()
            invariant
                i <= self.granted@.len(),
                self.granted@ == old(self).granted@,
                forall|c: Capability| #[trigger]
                    kept@.contains(c) <==> (c != capability && self.granted@.take(
                        i as int,
                    ).contains(c)),
            decreases self.granted@.len() - i,
        {
            let c = self.granted[i];
            let ghost before = self.granted@.take(i as int);
            let ghost after = self.granted@.take(i + 1);
            let ghost old_kept = kept@;
            proof {
                assert(after =~= before.push(c));
                lemma_push_contains(before, c);
            }
            if c != capability {
                kept.push(c);
                proof {
                    lemma_push_contains(old_kept, c);
                }
            }
            proof {
                assert forall|x: Capability| #[trigger] kept@.contains(x) <==> (x != capability
                    && after.contains(x)) by {
                    assert(after.contains(x) == (before.contains(x) || x == c));
                    assert(old_kept.contains(x) == (x != capability && before.contains(x)));
                    if c != capability {
                        assert(kept@.contains(x) == (old_kept.contains(x) || x == c));
                    }
                }
            }
            i = i + 1;
        }
        assert(self.granted@.take(i as int) =~= self.granted@);
        self.granted = kept;
        assert(final(self)@ =~= old(self)@.remove(capability));
    }

    /// Whether `capability` has been granted.
    pub fn allows(&self, capability: Capability) -> (b: bool)
        ensures
            b == self@.contains(capability),
    {
        self.position(capability).is_some()
    }
}

/// Memory figures read from `/proc/meminfo`, in KiB.
#[derive(Debug, Clone)]
pub struct SystemSnapshot {
    pub memory_total_kib: u64,
    pub memory_available_kib: u64,
}

/// Memory in use, in KiB: total less available, and never below zero.
pub open spec fn used_kib(total: u64, available: u64) -> nat {
    if total >= available {
        (total - available) as nat
    } else {
        0
    }
}

/// Percent of memory in use, rounded down; zero when the total is unknown.
pub open spec fn used_percent(total: u64, available: u64) -> nat {
    if total == 0 {
        0
    } else {
        (used_kib(total, available) * 100) / (total as nat)
    }
}

/// The used amount times one hundred fits in a `u64`, as the percentage
/// computation needs.
pub open spec fn percent_in_range(total: u64, available: u64) -> bool {
    used_kib(total, available) * 100 <= u64::MAX
}

/// `(used * 100) / total`, for `total != 0`.
pub fn percent_of(total: u64, available: u64) -> (p: u8)
    requires
        percent_in_range(total, available),
    ensures
        p == used_percent(total, available),
        p <= 100,
{
    if total == 0 {
        return 0;
    }
    let used = total.saturating_sub(available);
    proof {
        assert((used * 100) / (total as int) <= 100) by (nonlinear_arith)
            requires
                used <= total,
                total > 0,
        ;
    }
    ((used * 100) / total) as u8
}

impl SystemSnapshot {
    /// Figures read from the text of `/proc/meminfo`.
    pub fn parse(meminfo: &str) -> (s: SystemSnapshot)
        ensures
            s.memory_total_kib == meminfo_field(meminfo@, "MemTotal:"@),
            s.memory_available_kib == meminfo_field(meminfo@, "MemAvailable:"@),
    {
        SystemSnapshot {
            memory_total_kib: meminfo_value(meminfo, "MemTotal:"),
            memory_available_kib: meminfo_value(meminfo, "MemAvailable:"),
        }
    }

    pub open spec fn in_range(&self) -> bool {
        percent_in_range(self.memory_total_kib, self.memory_available_kib)
    }

    pub open spec fn spec_used_percent(&self) -> nat {
        used_percent(self.memory_total_kib, self.memory_available_kib)
    }

    pub fn memory_used_percent(&self) -> (p: u8)
        requires
            self.in_range(),
        ensures
            p == self.spec_used_percent(),
            p <= 100,
    {
        percent_of(self.memory_total_kib, self.memory_available_kib)
    }
}

/// The number on the `/proc/meminfo` line that starts with `key`, or 0.
pub open spec fn meminfo_field(meminfo: Seq<char>, key: Seq<char>) -> u64 {
    match first_prefixed(lines(meminfo), key) {
        Some(rest) => match first_word(rest) {
            Some(w) => match parse_u64(w) {
                Some(v) => v,
                None => 0,
            },
            None => 0,
        },
        None => 0,
    }
}

/// The value of the first `/proc/meminfo` line that starts with `key`, or 0
/// when there is none or it is not a number.
pub fn meminfo_value(meminfo: &str, key: &str) -> (v: u64)
    ensures
        v == meminfo_field(meminfo@, key@),
{
    let text = chars_of(meminfo);
    let k = chars_of(key);
    match first_prefixed_range(&text, &k) {
        Some((a, b)) => match first_word_range(&text, a, b) {
            Some((c, d)) => match parse_u64_range(&text, c, d) {
                Some(v) => v,
                None => 0,
            },
            None => 0,
        },
        None => 0,
    }
}

#[derive(Debug, Clone, Copy, PartialEq, Eq, Structural)]
pub enum PetEvent {
    MemoryPressure,
}

pub open spec fn memory_pressure_message(percent: nat) -> Seq<char> {
    "Memory use is "@ + decimal(percent) + "%. Would you like to open System Monitor?"@
}

impl PetEvent {
    pub fn message(self, snapshot: &SystemSnapshot) -> (m: String)
        requires
            snapshot.in_range(),
        ensures
            m@ == memory_pressure_message(snapshot.spec_used_percent()),
    {
        match self {
            PetEvent::MemoryPressure => {
                let mut m = String::new();
                m.append("Memory use is ");
                push_decimal(&mut m, snapshot.memory_used_percent() as u64);
                m.append("%. Would you like to open System Monitor?");
                m
            },
        }
    }
}

/// A command that the owl may propose; it runs only once approved.
#[derive(Debug, Clone, PartialEq, Eq)]
pub struct ActionProposal {
    pub id: &'static str,
    pub label: &'static str,
    pub program: &'static str,
    pub arguments: Vec<&'static str>,
}

impl ActionProposal {
    pub fn open_system_monitor() -> (p: ActionProposal)
        ensures
            p.id@ == "open-system-monitor"@,
            p.label@ == "Open System Monitor"@,
            p.program@ == "gnome-system-monitor"@,
            p.arguments@.len() == 0,
    {
        ActionProposal {
            id: "open-system-monitor",
            label: "Open System Monitor",
            program: "gnome-system-monitor",
            arguments: Vec::new(),
        }
    }
}

#[derive(Debug, Clone, PartialEq, Eq, Structural)]
pub enum ApprovalError {
    CommandPermissionNotGranted,
}

/// A proposal that passed the permission check.
#[derive(Debug, Clone, PartialEq, Eq)]
pub struct ApprovedAction(ActionProposal);

impl ApprovedAction {
    pub closed spec fn spec_proposal(&self) -> ActionProposal {
        self.0
    }

    pub fn proposal(&self) -> (p: &ActionProposal)
        ensures
            *p == self.spec_proposal(),
    {
        &self.0
    }
}

/// What a `Companion` holds, as the contracts see it.
pub struct CompanionModel {
    pub activity: Activity,
    pub animation: SpriteLoop,
    pub frame: u8,
    pub frame_elapsed: nat,
    pub permissions: Set<Capability>,
    pub latest_snapshot: Option<SystemSnapshot>,
    pub last_memory_alert: Option<nat>,
}

pub struct Companion {
    activity: Activity,
    animation: SpriteLoop,
    frame: u8,
    frame_elapsed: Duration,
    permissions: Permissions,
    latest_snapshot: Option<SystemSnapshot>,
    last_memory_alert: Option<Duration>,
}

impl View for Companion {
    type V = CompanionModel;

    closed spec fn view(&self) -> CompanionModel {
        CompanionModel {
            activity: self.activity,
            animation: self.animation,
            frame: self.frame,
            frame_elapsed: self.frame_elapsed@,
            permissions: self.permissions@,
            latest_snapshot: self.latest_snapshot,
            last_memory_alert: match self.last_memory_alert {
                Some(d) => Some(d@),
                None => None,
            },
        }
    }
}

/// The animation state a fresh loop starts in.
pub open spec fn restarted(m: CompanionModel, activity: Activity, animation: SpriteLoop) -> CompanionModel {
    CompanionModel { activity, animation, frame: 0, frame_elapsed: 0, ..m }
}

/// A memory alert is due when none was raised before, or the last one is at
/// least one cooldown old.
pub open spec fn memory_alert_due(last: Option<nat>, now: nat) -> bool {
    match last {
        None => true,
        Some(t) => now >= t && now - t >= memory_alert_cooldown_nanos(),
    }
}

/// Whether `observe` raises a memory-pressure alert.
pub open spec fn raises_memory_alert(m: CompanionModel, snapshot: SystemSnapshot, now: nat) -> bool {
    &&& m.permissions.contains(Capability::ReadSystemTelemetry)
    &&& snapshot.spec_used_percent() >= MEMORY_ALERT_THRESHOLD_PERCENT
    &&& memory_alert_due(m.last_memory_alert, now)
}

impl Companion {
    /// The animation frame and its elapsed time stay within the current loop, and a
    /// stored snapshot can be reported.
    pub open spec fn wf(&self) -> bool {
        &&& self@.frame < self@.animation.spec_frame_count()
        &&& self@.frame_elapsed < self@.animation.frame_nanos()
        &&& match self@.latest_snapshot {
            Some(s) => s.in_range(),
            None => true,
        }
    }

    /// Perched bottom-right, showing the perch loop, with only local telemetry and
    /// desktop notifications granted.
    pub fn new() -> (c: Companion)
        ensures
            c.wf(),
            c@.activity == Activity::Perched(Perch::BottomRight),
            c@.animation == SpriteLoop::Perch,
            c@.frame == 0,
            c@.frame_elapsed == 0,
            c@.permissions == set![Capability::ReadSystemTelemetry, Capability::ShowNotifications],
            c@.latest_snapshot is None,
            c@.last_memory_alert is None,
    {
        let mut permissions = Permissions::default();
        permissions.grant(Capability::ReadSystemTelemetry);
        permissions.grant(Capability::ShowNotifications);
        assert(permissions@ =~= set![Capability::ReadSystemTelemetry, Capability::ShowNotifications]);
        Companion {
            activity: Activity::Perched(Perch::BottomRight),
            animation: SpriteLoop::Perch,
            frame: 0,
            frame_elapsed: Duration::zero(),
            permissions,
            latest_snapshot: None,
            last_memory_alert: None,
        }
    }

    /// Records `snapshot` (when telemetry is allowed) and raises a memory-pressure
    /// alert when memory use is at or above the threshold and no alert was raised
    /// within the cooldown.
    pub fn observe(&mut self, snapshot: SystemSnapshot, now: Duration) -> (e: Option<PetEvent>)
        requires
            old(self).wf(),
            snapshot.in_range(),
        ensures
            final(self).wf(),
            !old(self)@.permissions.contains(Capability::ReadSystemTelemetry) ==> e is None
                && final(self)@ == old(self)@,
            old(self)@.permissions.contains(Capability::ReadSystemTelemetry) ==> {
                if raises_memory_alert(old(self)@, snapshot, now@) {
                    &&& e == Some(PetEvent::MemoryPressure)
                    &&& final(self)@ == (CompanionModel {
                        latest_snapshot: Some(snapshot),
                        last_memory_alert: Some(now@),
                        ..restarted(old(self)@, Activity::Alert, SpriteLoop::Alert)
                    })
                } else {
                    &&& e is None
                    &&& final(self)@ == (CompanionModel {
                        latest_snapshot: Some(snapshot),
                        ..old(self)@
                    })
                }
            },
    {
        if !self.permissions.allows(Capability::ReadSystemTelemetry) {
            return None;
        }
        let event = if snapshot.memory_used_percent() >= MEMORY_ALERT_THRESHOLD_PERCENT
            && self.memory_alert_is_due(now) {
            self.last_memory_alert = Some(now);
            self.set_activity(Activity::Alert, SpriteLoop::Alert);
            Some(PetEvent::MemoryPressure)
        } else {
            None
        };
        self.latest_snapshot = Some(snapshot);
        event
    }

    /// Starts flying, or walking left when `flying` is false.
    pub fn begin_roaming(&mut self, flying: bool)
        ensures
            old(self).wf() ==> final(self).wf(),
            final(self)@ == if flying {
                restarted(old(self)@, Activity::Flying, SpriteLoop::Fly)
            } else {
                restarted(old(self)@, Activity::Walking, SpriteLoop::WalkLeft)
            },
    {
        if flying {
            self.set_activity(Activity::Flying, SpriteLoop::Fly);
        } else {
            self.begin_walking(false);
        }
    }

    /// Starts walking, to the right when `right` is true.
    pub fn begin_walking(&mut self, right: bool)
        ensures
            old(self).wf() ==> final(self).wf(),
            final(self)@ == restarted(
                old(self)@,
                Activity::Walking,
                if right {
                    SpriteLoop::WalkRight
                } else {
                    SpriteLoop::WalkLeft
                },
            ),
    {
        let animation = if right {
            SpriteLoop::WalkRight
        } else {
            SpriteLoop::WalkLeft
        };
        self.set_activity(Activity::Walking, animation);
    }

    /// Shows `animation` from its first frame without changing the activity.
    pub fn set_visual_animation(&mut self, animation: SpriteLoop)
        ensures
            old(self).wf() ==> final(self).wf(),
            final(self)@ == restarted(old(self)@, old(self)@.activity, animation),
    {
        self.animation = animation;
        self.frame = 0;
        self.frame_elapsed = Duration::zero();
    }

    /// Perches at `perch`, showing the perch loop.
    pub fn perch(&mut self, perch: Perch)
        ensures
            old(self).wf() ==> final(self).wf(),
            final(self)@ == restarted(old(self)@, Activity::Perched(perch), SpriteLoop::Perch),
    {
        self.set_activity(Activity::Perched(perch), SpriteLoop::Perch);
    }

    /// Advances the animation by `elapsed`: one frame per full frame duration,
    /// wrapping at the end of the loop.
    pub fn tick(&mut self, elapsed: Duration)
        requires
            old(self).wf(),
            old(self)@.frame_elapsed + elapsed@ <= u128::MAX,
        ensures
            final(self).wf(),
            ({
                let total = old(self)@.frame_elapsed + elapsed@;
                let step = old(self)@.animation.frame_nanos();
                final(self)@ == (CompanionModel {
                    frame: ((old(self)@.frame + total / step) % (old(
                        self,
                    )@.animation.spec_frame_count() as int)) as u8,
                    frame_elapsed: total % step,
                    ..old(self)@
                })
            }),
    {
        let ghost m = self@;
        let ghost total: nat = m.frame_elapsed + elapsed@;
        let frame_duration = self.animation.frame_duration();
        let count = self.animation.frame_count();
        let ghost step: nat = frame_duration@;
        let ghost c: nat = count as nat;
        self.frame_elapsed = self.frame_elapsed.plus(elapsed);
        let ghost mut k: nat = 0;
        proof {
            vstd::arithmetic::div_mod::lemma_small_mod(m.frame as nat, c);
        }
        while self.frame_elapsed.at_least(&frame_duration)
            invariant
                step == m.animation.frame_nanos(),
                step == frame_duration@,
                step > 0,
                c == m.animation.spec_frame_count(),
                c == count,
                c >= 3,
                self.animation == m.animation,
                self.activity == m.activity,
                self.permissions@ == m.permissions,
                self.latest_snapshot == m.latest_snapshot,
                self@.last_memory_alert == m.last_memory_alert,
                self.frame_elapsed@ + k * step == total,
                self.frame < c,
                self.frame as int == (m.frame + k) % (c as int),
            decreases self.frame_elapsed@,
        {
            self.frame_elapsed = self.frame_elapsed.saturating_sub(frame_duration);
            proof {
                vstd::arithmetic::div_mod::lemma_add_mod_noop(m.frame + k, 1, c as int);
                vstd::arithmetic::div_mod::lemma_small_mod(1, c);
                vstd::arithmetic::div_mod::lemma_mod_bound(m.frame + k + 1, c as int);
                assert(self.frame_elapsed@ + (k + 1) * step == total) by (nonlinear_arith)
                    requires
                        self.frame_elapsed@ + step + k * step == total,
                ;
            }
            self.frame = (self.frame + 1) % count;
            proof {
                k = k + 1;
            }
        }
        proof {
            vstd::arithmetic::div_mod::lemma_fundamental_div_mod_converse(
                total as int,
                step as int,
                k as int,
                self.frame_elapsed@ as int,
            );
        }
    }

    /// Approves `proposal` only when running approved commands has been granted.
    pub fn approve_action(&self, proposal: ActionProposal) -> (r: Result<
        ApprovedAction,
        ApprovalError,
    >)
        ensures
            self@.permissions.contains(Capability::RunApprovedCommand) ==> (r matches Ok(a)
                && a.spec_proposal() == proposal),
            !self@.permissions.contains(Capability::RunApprovedCommand) ==> r == Err::<
                ApprovedAction,
                ApprovalError,
            >(ApprovalError::CommandPermissionNotGranted),
    {
        if !self.permissions.allows(Capability::RunApprovedCommand) {
            return Err(ApprovalError::CommandPermissionNotGranted);
        }
        Ok(ApprovedAction(proposal))
    }

    /// The permission set, for granting or revoking.
    pub fn permissions_mut(&mut self) -> (p: &mut Permissions)
        ensures
            p@ == old(self)@.permissions,
            final(self)@ == (CompanionModel { permissions: final(p)@, ..old(self)@ }),
            old(self).wf() ==> final(self).wf(),
    {
        &mut self.permissions
    }

    pub fn activity(&self) -> (a: Activity)
        ensures
            a == self@.activity,
    {
        self.activity
    }

    pub fn animation(&self) -> (a: SpriteLoop)
        ensures
            a == self@.animation,
    {
        self.animation
    }

    pub fn frame(&self) -> (f: u8)
        ensures
            f == self@.frame,
    {
        self.frame
    }

    /// The corner the owl perches at; bottom-right while it is not perched.
    pub fn position(&self) -> (p: Perch)
        ensures
            p == match self@.activity {
                Activity::Perched(perch) => perch,
                _ => Perch::BottomRight,
            },
    {
        match self.activity {
            Activity::Perched(perch) => perch,
            Activity::Walking | Activity::Flying | Activity::Alert => Perch::BottomRight,
        }
    }

    /// The memory use of the latest snapshot, or that none was collected.
    pub fn status_line(&self) -> (s: String)
        requires
            self.wf(),
        ensures
            s@ == match self@.latest_snapshot {
                Some(snapshot) => "Memory use: "@ + decimal(snapshot.spec_used_percent()) + "%."@,
                None => "No system telemetry has been collected."@,
            },
    {
        match &self.latest_snapshot {
            Some(snapshot) => {
                let mut s = String::new();
                s.append("Memory use: ");
                push_decimal(&mut s, snapshot.memory_used_percent() as u64);
                s.append("%.");
                s
            },
            None => "No system telemetry has been collected.".to_owned(),
        }
    }

    fn memory_alert_is_due(&self, now: Duration) -> (b: bool)
        ensures
            b == memory_alert_due(self@.last_memory_alert, now@),
    {
        match self.last_memory_alert {
            None => true,
            Some(last_alert) => now.saturating_sub(last_alert).at_least(
                &Duration::from_secs(MEMORY_ALERT_COOLDOWN_SECS),
            ),
        }
    }

    fn set_activity(&mut self, activity: Activity, animation: SpriteLoop)
        ensures
            final(self)@ == restarted(old(self)@, activity, animation),
            old(self).wf() ==> final(self).wf(),
    {
        self.activity = activity;
        self.animation = animation;
        self.frame = 0;
        self.frame_elapsed = Duration::zero();
    }
}

impl Default for Companion {
    fn default() -> (c: Companion)
        ensures
            c.wf(),
            c@.activity == Activity::Perched(Perch::BottomRight),
            c@.animation == SpriteLoop::Perch,
            c@.frame == 0,
            c@.frame_elapsed == 0,
            c@.permissions == set![Capability::ReadSystemTelemetry, Capability::ShowNotifications],
            c@.latest_snapshot is None,
            c@.last_memory_alert is None,
    {
        Companion::new()
    }
}

// ---------------------------------------------------------------------------
// Laws
// ---------------------------------------------------------------------------
/// A granted capability is allowed, a revoked one is not, granting twice is
/// granting once, and neither touches any other capability.
pub proof fn law_grant_and_revoke(granted: Set<Capability>, c: Capability, other: Capability)
    requires
        other != c,
    ensures
        granted.insert(c).contains(c),
        !granted.remove(c).contains(c),
        granted.insert(c).insert(c) == granted.insert(c),
        granted.insert(c).contains(other) == granted.contains(other),
        granted.remove(c).contains(other) == granted.contains(other),
{
    assert(granted.insert(c).insert(c) =~= granted.insert(c));
}

/// The model after `observe` raised a memory alert at `now` for `snapshot`.
pub open spec fn after_memory_alert(m: CompanionModel, snapshot: SystemSnapshot, now: nat) -> CompanionModel {
    CompanionModel {
        latest_snapshot: Some(snapshot),
        last_memory_alert: Some(now),
        ..restarted(m, Activity::Alert, SpriteLoop::Alert)
    }
}

/// Memory pressure alerts at most once per cooldown: after an alert at `first`,
/// no observation before `first` plus the cooldown raises another.
pub proof fn law_memory_alert_once_per_cooldown(
    m: CompanionModel,
    s1: SystemSnapshot,
    first: nat,
    s2: SystemSnapshot,
    second: nat,
)
    requires
        raises_memory_alert(m, s1, first),
        first <= second < first + memory_alert_cooldown_nanos(),
    ensures
        !raises_memory_alert(after_memory_alert(m, s1, first), s2, second),
{
}

/// Once the cooldown has passed, continued memory pressure alerts again.
pub proof fn law_memory_alert_repeats_after_cooldown(
    m: CompanionModel,
    s1: SystemSnapshot,
    first: nat,
    s2: SystemSnapshot,
    second: nat,
)
    requires
        raises_memory_alert(m, s1, first),
        second >= first + memory_alert_cooldown_nanos(),
        s2.spec_used_percent() >= MEMORY_ALERT_THRESHOLD_PERCENT,
    ensures
        raises_memory_alert(after_memory_alert(m, s1, first), s2, second),
{
}

/// Without the telemetry grant no observation raises an alert.
pub proof fn law_no_alert_without_telemetry(m: CompanionModel, s: SystemSnapshot, now: nat)
    requires
        !m.permissions.contains(Capability::ReadSystemTelemetry),
    ensures
        !raises_memory_alert(m, s, now),
{
}

} // verus!
