//! The overlay owl's behaviour: which pose it takes on each frame, when it
//! rests, walks, flies or dances, and the random choices between them. Screen
//! positions are not kept here; each step says what happens to them.
use vstd::prelude::*;

use crate::companion::SpriteLoop;
use crate::context::FocusContext;
use crate::duration::Duration;

verus! {

/// Seconds between two checks of the music player.
pub const SIGNAL_POLL_SECS: u64 = 2;

/// Length of the dance at the start of each music cycle, in milliseconds.
pub const MUSIC_DANCE_MILLIS: u128 = 5000;

/// Length of one music cycle, in milliseconds.
pub const MUSIC_DANCE_CYCLE_MILLIS: u128 = 90000;

#[derive(Debug, Clone, Copy, PartialEq, Eq, Structural)]
pub enum PetMode {
    Rest,
    Walk,
    Fly,
    Dance,
}

/// A behaviour that a step starts, with the random draws that place it.
#[derive(Debug, Clone, Copy, PartialEq, Eq, Structural)]
pub enum NextMode {
    Rest,
    /// Walk to `margin + (max_x - margin) * target_draw / u64::MAX`.
    Walk { target_draw: u64 },
    /// Fly from the current position along an arc of height between 18% and
    /// 52% of the screen, both placed by their draws as for `Walk`.
    Fly { target_draw: u64, arc_draw: u64 },
}

/// What the owl shows this frame.
#[derive(Debug, Clone, Copy, PartialEq, Eq, Structural)]
pub enum PetPose {
    /// Back in the nearest bottom corner, on the floor, showing `animation`.
    Cornered(SpriteLoop),
    /// On the floor at the current column, showing `animation`.
    Grounded(SpriteLoop),
    /// At the current position, showing the warning loop.
    Warning,
    /// Bobbing above the floor to the beat of `beat` (the time danced so far).
    Dance { beat: Duration },
    /// Resting at the current position, showing `animation`.
    Rest(SpriteLoop),
    /// Walking one step toward the walk target.
    Walk,
    /// Flying: `elapsed` of `duration` along the flight arc.
    Fly { elapsed: Duration, duration: Duration },
}

/// A behaviour that began this step.
#[derive(Debug, Clone, Copy, PartialEq, Eq, Structural)]
pub struct Started {
    /// The flight before it ended on the floor at its target.
    pub landed: bool,
    pub next: NextMode,
}

/// The outcome of one step, in the order the overlay applies it.
#[derive(Debug, Clone, Copy, PartialEq, Eq, Structural)]
pub struct PetDecision {
    /// A dance ended: the owl is back on the floor.
    pub dance_ended: bool,
    /// A new behaviour started.
    pub started: Option<Started>,
    pub pose: PetPose,
}

/// The owl's behavioural state.
pub struct PetBehavior {
    pub mode: PetMode,
    pub mode_elapsed: Duration,
    pub mode_duration: Duration,
    pub signal_elapsed: Duration,
    pub music_playing: bool,
    pub music_elapsed: Duration,
    pub focus: Option<FocusContext>,
    pub warning_for: Duration,
    pub reaction: Option<(SpriteLoop, Duration)>,
    pub charging: bool,
    pub locked: bool,
    pub idle: bool,
    pub fullscreen: bool,
    pub paused: bool,
    pub quiet: bool,
    pub rng: u64,
}

/// One xorshift64 step (shifts 13, 7, 17).
pub open spec fn xorshift(s: u64) -> u64 {
    let a = s ^ (s << 13u64);
    let b = a ^ (a >> 7u64);
    b ^ (b << 17u64)
}

/// The state as the contracts see it, with durations in nanoseconds.
pub struct PetModel {
    pub mode: PetMode,
    pub mode_elapsed: nat,
    pub mode_duration: nat,
    pub music_playing: bool,
    pub music_elapsed: nat,
    pub focus: Option<FocusContext>,
    pub warning_for: nat,
    pub reaction: Option<(SpriteLoop, nat)>,
    pub charging: bool,
    pub locked: bool,
    pub idle: bool,
    pub fullscreen: bool,
    pub paused: bool,
    pub quiet: bool,
    pub rng: u64,
}

impl View for PetBehavior {
    type V = PetModel;

    open spec fn view(&self) -> PetModel {
        PetModel {
            mode: self.mode,
            mode_elapsed: self.mode_elapsed@,
            mode_duration: self.mode_duration@,
            music_playing: self.music_playing,
            music_elapsed: self.music_elapsed@,
            focus: self.focus,
            warning_for: self.warning_for@,
            reaction: match self.reaction {
                Some((a, d)) => Some((a, d@)),
                None => None,
            },
            charging: self.charging,
            locked: self.locked,
            idle: self.idle,
            fullscreen: self.fullscreen,
            paused: self.paused,
            quiet: self.quiet,
            rng: self.rng,
        }
    }
}

pub open spec fn secs(n: nat) -> nat {
    n * 1_000_000_000
}

pub open spec fn sat_sub(a: nat, b: nat) -> nat {
    if a >= b {
        (a - b) as nat
    } else {
        0
    }
}

/// The behaviour that starts after the current one, and the state it leaves.
/// Draws: the kind (out of 100: below 35 rest, below 70 walk, else fly), its
/// duration, then its placement.
pub open spec fn next_mode(m: PetModel) -> (PetModel, bool, NextMode) {
    let r1 = xorshift(m.rng);
    let r2 = xorshift(r1);
    let r3 = xorshift(r2);
    let r4 = xorshift(r3);
    let landed = m.mode == PetMode::Fly;
    let kind = r1 % 100;
    if kind < 35 {
        (
            PetModel {
                mode: PetMode::Rest,
                mode_elapsed: 0,
                mode_duration: secs((2 + r2 % 5) as nat),
                rng: r2,
                ..m
            },
            landed,
            NextMode::Rest,
        )
    } else if kind < 70 {
        (
            PetModel {
                mode: PetMode::Walk,
                mode_elapsed: 0,
                mode_duration: secs((3 + r2 % 5) as nat),
                rng: r3,
                ..m
            },
            landed,
            NextMode::Walk { target_draw: r3 },
        )
    } else {
        (
            PetModel {
                mode: PetMode::Fly,
                mode_elapsed: 0,
                mode_duration: secs((2 + r2 % 4) as nat),
                rng: r4,
                ..m
            },
            landed,
            NextMode::Fly { target_draw: r3, arc_draw: r4 },
        )
    }
}

/// The resting loop: charging, or the focus context's loop.
pub open spec fn rest_loop(m: PetModel) -> SpriteLoop {
    if m.charging {
        SpriteLoop::Charging
    } else {
        match m.focus {
            Some(FocusContext::Coding) => SpriteLoop::Working,
            Some(FocusContext::Browsing) => SpriteLoop::Thinking,
            _ => SpriteLoop::Idle,
        }
    }
}

/// Whether `music` (milliseconds played) is in the dance at the start of its cycle.
pub open spec fn dancing_at(music_nanos: nat) -> bool {
    (music_nanos / 1_000_000) % (MUSIC_DANCE_CYCLE_MILLIS as nat) < MUSIC_DANCE_MILLIS
}

/// One frame of behaviour after `elapsed`, given whether a walk reached its
/// target. Sleep in the nearest bottom corner while locked or idle; perch while
/// paused, in quiet hours or under a fullscreen window; then a triggered
/// reaction; then a warning while resting; then the music dance; otherwise the current behaviour, which is
/// replaced when its time is up or the walk arrived.
pub open spec fn step(m: PetModel, elapsed: nat, arrived: bool) -> (PetModel, PetDecision) {
    let music = if m.music_playing {
        m.music_elapsed + elapsed
    } else {
        0
    };
    let m1 = PetModel { music_elapsed: music, ..m };
    if m.locked || m.idle {
        (m1, PetDecision { dance_ended: false, started: None, pose: PetPose::Cornered(SpriteLoop::Sleep) })
    } else if m.paused || m.quiet || m.fullscreen {
        (m1, PetDecision { dance_ended: false, started: None, pose: PetPose::Grounded(SpriteLoop::Perch) })
    } else if m.reaction is Some {
        let (animation, remaining) = m.reaction->0;
        let left = sat_sub(remaining, elapsed);
        (
            PetModel {
                reaction: if left > 0 {
                    Some((animation, left))
                } else {
                    None
                },
                ..m1
            },
            PetDecision { dance_ended: false, started: None, pose: PetPose::Grounded(animation) },
        )
    } else {
        let m2 = PetModel { warning_for: sat_sub(m.warning_for, elapsed), ..m1 };
        if m2.warning_for > 0 && m2.mode == PetMode::Rest {
            (m2, PetDecision { dance_ended: false, started: None, pose: PetPose::Warning })
        } else if m2.music_playing && dancing_at(music) {
            let m3 = PetModel {
                mode: PetMode::Dance,
                mode_elapsed: m2.mode_elapsed + elapsed,
                ..m2
            };
            (m3, PetDecision { dance_ended: false, started: None, pose: PetPose::Dance { beat: Duration::of_nanos(m3.mode_elapsed) } })
        } else {
            let dance_ended = m2.mode == PetMode::Dance;
            let m3 = if dance_ended {
                PetModel { mode: PetMode::Rest, mode_elapsed: 0, ..m2 }
            } else {
                m2
            };
            let m4 = PetModel { mode_elapsed: m3.mode_elapsed + elapsed, ..m3 };
            let m5 = if m4.focus == Some(FocusContext::Coding) && m4.mode == PetMode::Rest {
                PetModel { mode_duration: secs(30), ..m4 }
            } else {
                m4
            };
            let change = m5.mode_elapsed >= m5.mode_duration || (m5.mode == PetMode::Walk
                && arrived);
            let (m6, started) = if change {
                let (n, landed, next) = next_mode(m5);
                (n, Some(Started { landed, next }))
            } else {
                (m5, None)
            };
            let pose = match m6.mode {
                PetMode::Rest => PetPose::Rest(rest_loop(m6)),
                PetMode::Walk => PetPose::Walk,
                PetMode::Fly => PetPose::Fly {
                    elapsed: Duration::of_nanos(m6.mode_elapsed),
                    duration: Duration::of_nanos(m6.mode_duration),
                },
                PetMode::Dance => PetPose::Rest(SpriteLoop::Perch),
            };
            (m6, PetDecision { dance_ended, started, pose })
        }
    }
}

/// The step's state fits the duration arithmetic.
pub open spec fn step_in_range(m: PetModel, elapsed: nat) -> bool {
    &&& m.music_elapsed + elapsed <= u128::MAX
    &&& m.mode_elapsed + elapsed <= u128::MAX
}

fn next_random(rng: &mut u64) -> (r: u64)
    ensures
        r == xorshift(*old(rng)),
        *final(rng) == r,
{
    let mut s = *rng;
    s = s ^ (s << 13u64);
    s = s ^ (s >> 7u64);
    s = s ^ (s << 17u64);
    *rng = s;
    s
}

impl PetBehavior {
    /// Resting for three seconds, with no signals yet, the music check due, and
    /// the random generator seeded with `seed`.
    pub fn new(seed: u64) -> (p: PetBehavior)
        ensures
            p@.mode == PetMode::Rest,
            p@.mode_elapsed == 0,
            p@.mode_duration == secs(3),
            p.signal_elapsed@ == secs(SIGNAL_POLL_SECS as nat),
            !p@.music_playing,
            p@.music_elapsed == 0,
            p@.focus is None,
            p@.warning_for == 0,
            p@.reaction is None,
            !p@.charging && !p@.locked && !p@.idle && !p@.fullscreen && !p@.paused && !p@.quiet,
            p@.rng == seed,
    {
        PetBehavior {
            mode: PetMode::Rest,
            mode_elapsed: Duration::zero(),
            mode_duration: Duration::from_secs(3),
            signal_elapsed: Duration::from_secs(SIGNAL_POLL_SECS),
            music_playing: false,
            music_elapsed: Duration::zero(),
            focus: None,
            warning_for: Duration::zero(),
            reaction: None,
            charging: false,
            locked: false,
            idle: false,
            fullscreen: false,
            paused: false,
            quiet: false,
            rng: seed,
        }
    }

    fn start_next_mode(&mut self) -> (r: Started)
        ensures
            ({
                let (n, landed, next) = next_mode(old(self)@);
                final(self)@ == n && r == (Started { landed, next })
                    && final(self).signal_elapsed == old(self).signal_elapsed
            }),
    {
        let landed = self.mode == PetMode::Fly;
        self.mode_elapsed = Duration::zero();
        let kind = next_random(&mut self.rng) % 100;
        if kind < 35 {
            let d = next_random(&mut self.rng) % 5;
            self.mode_duration = Duration::from_secs(2 + d);
            self.mode = PetMode::Rest;
            Started { landed, next: NextMode::Rest }
        } else if kind < 70 {
            let d = next_random(&mut self.rng) % 5;
            self.mode_duration = Duration::from_secs(3 + d);
            let target_draw = next_random(&mut self.rng);
            self.mode = PetMode::Walk;
            Started { landed, next: NextMode::Walk { target_draw } }
        } else {
            let d = next_random(&mut self.rng) % 4;
            self.mode_duration = Duration::from_secs(2 + d);
            let target_draw = next_random(&mut self.rng);
            let arc_draw = next_random(&mut self.rng);
            self.mode = PetMode::Fly;
            Started { landed, next: NextMode::Fly { target_draw, arc_draw } }
        }
    }

    /// One frame of behaviour after `elapsed`; `arrived` says whether the owl is
    /// within a pixel of its walk target.
    pub fn tick(&mut self, elapsed: Duration, arrived: bool) -> (d: PetDecision)
        requires
            step_in_range(old(self)@, elapsed@),
        ensures
            ({
                let (m, expected) = step(old(self)@, elapsed@, arrived);
                &&& final(self)@ == m
                &&& final(self).signal_elapsed == old(self).signal_elapsed
                &&& d.dance_ended == expected.dance_ended
                &&& d.started == expected.started
                &&& d.pose == expected.pose
            }),
    {
        if self.music_playing {
            self.music_elapsed = self.music_elapsed.plus(elapsed);
        } else {
            self.music_elapsed = Duration::zero();
        }
        if self.locked || self.idle {
            return PetDecision {
                dance_ended: false,
                started: None,
                pose: PetPose::Cornered(SpriteLoop::Sleep),
            };
        }
        if self.paused || self.quiet || self.fullscreen {
            return PetDecision {
                dance_ended: false,
                started: None,
                pose: PetPose::Grounded(SpriteLoop::Perch),
            };
        }
        if let Some((animation, remaining)) = self.reaction {
            let left = remaining.saturating_sub(elapsed);
            self.reaction = if left.is_zero() {
                None
            } else {
                Some((animation, left))
            };
            return PetDecision {
                dance_ended: false,
                started: None,
                pose: PetPose::Grounded(animation),
            };
        }
        self.warning_for = self.warning_for.saturating_sub(elapsed);
        if !self.warning_for.is_zero() && self.mode == PetMode::Rest {
            return PetDecision { dance_ended: false, started: None, pose: PetPose::Warning };
        }
        if self.music_playing && self.music_elapsed.as_millis() % MUSIC_DANCE_CYCLE_MILLIS
            < MUSIC_DANCE_MILLIS {
            self.mode = PetMode::Dance;
            self.mode_elapsed = self.mode_elapsed.plus(elapsed);
            proof {
                self.mode_elapsed.lemma_of_view();
            }
            return PetDecision {
                dance_ended: false,
                started: None,
                pose: PetPose::Dance { beat: self.mode_elapsed },
            };
        }
        let dance_ended = self.mode == PetMode::Dance;
        if dance_ended {
            self.mode = PetMode::Rest;
            self.mode_elapsed = Duration::zero();
        }
        self.mode_elapsed = self.mode_elapsed.plus(elapsed);
        if self.focus == Some(FocusContext::Coding) && self.mode == PetMode::Rest {
            self.mode_duration = Duration::from_secs(30);
        }
        let walking = self.mode == PetMode::Walk;
        let started = if self.mode_elapsed.at_least(&self.mode_duration) || (walking && arrived) {
            Some(self.start_next_mode())
        } else {
            None
        };
        proof {
            self.mode_elapsed.lemma_of_view();
            self.mode_duration.lemma_of_view();
        }
        let pose = match self.mode {
            PetMode::Rest => {
                let animation = if self.charging {
                    SpriteLoop::Charging
                } else {
                    match self.focus {
                        Some(FocusContext::Coding) => SpriteLoop::Working,
                        Some(FocusContext::Browsing) => SpriteLoop::Thinking,
                        _ => SpriteLoop::Idle,
                    }
                };
                PetPose::Rest(animation)
            },
            PetMode::Walk => PetPose::Walk,
            PetMode::Fly => PetPose::Fly { elapsed: self.mode_elapsed, duration: self.mode_duration },
            PetMode::Dance => PetPose::Rest(SpriteLoop::Perch),
        };
        PetDecision { dance_ended, started, pose }
    }

    /// Counts `elapsed` toward the next music check; returns whether the check is
    /// due (every two seconds), restarting the count when it is.
    pub fn music_check_due(&mut self, elapsed: Duration) -> (due: bool)
        requires
            old(self).signal_elapsed@ + elapsed@ <= u128::MAX,
        ensures
            due == (old(self).signal_elapsed@ + elapsed@ >= secs(SIGNAL_POLL_SECS as nat)),
            final(self).signal_elapsed@ == if due {
                0
            } else {
                old(self).signal_elapsed@ + elapsed@
            },
            final(self)@ == old(self)@,
    {
        self.signal_elapsed = self.signal_elapsed.plus(elapsed);
        if self.signal_elapsed.at_least(&Duration::from_secs(SIGNAL_POLL_SECS)) {
            self.signal_elapsed = Duration::zero();
            true
        } else {
            false
        }
    }

    pub fn set_music_playing(&mut self, playing: bool)
        ensures
            final(self)@ == (PetModel { music_playing: playing, ..old(self)@ }),
            final(self).signal_elapsed == old(self).signal_elapsed,
    {
        self.music_playing = playing;
    }

    pub fn set_status(&mut self, focus: Option<FocusContext>, charging: bool)
        ensures
            final(self)@ == (PetModel { focus, charging, ..old(self)@ }),
            final(self).signal_elapsed == old(self).signal_elapsed,
    {
        self.focus = focus;
        self.charging = charging;
    }

    pub fn set_locked(&mut self, locked: bool)
        ensures
            final(self)@ == (PetModel { locked, ..old(self)@ }),
            final(self).signal_elapsed == old(self).signal_elapsed,
    {
        self.locked = locked;
    }

    pub fn set_idle(&mut self, idle: bool)
        ensures
            final(self)@ == (PetModel { idle, ..old(self)@ }),
            final(self).signal_elapsed == old(self).signal_elapsed,
    {
        self.idle = idle;
    }

    pub fn set_fullscreen(&mut self, fullscreen: bool)
        ensures
            final(self)@ == (PetModel { fullscreen, ..old(self)@ }),
            final(self).signal_elapsed == old(self).signal_elapsed,
    {
        self.fullscreen = fullscreen;
    }

    pub fn set_preferences(&mut self, paused: bool, quiet: bool)
        ensures
            final(self)@ == (PetModel { paused, quiet, ..old(self)@ }),
            final(self).signal_elapsed == old(self).signal_elapsed,
    {
        self.paused = paused;
        self.quiet = quiet;
    }

    /// Shows the warning loop for the next four seconds of rest.
    pub fn trigger_warning(&mut self)
        ensures
            final(self)@ == (PetModel { warning_for: secs(4), ..old(self)@ }),
            final(self).signal_elapsed == old(self).signal_elapsed,
    {
        self.warning_for = Duration::from_secs(4);
    }

    /// Shows `animation` for the next three seconds.
    pub fn trigger_reaction(&mut self, animation: SpriteLoop)
        ensures
            final(self)@ == (PetModel { reaction: Some((animation, secs(3))), ..old(self)@ }),
            final(self).signal_elapsed == old(self).signal_elapsed,
    {
        self.reaction = Some((animation, Duration::from_secs(3)));
    }
}

// ---------------------------------------------------------------------------
// Laws
// ---------------------------------------------------------------------------
/// Sleep comes first: while the session is locked or idle the owl goes back to
/// the nearest bottom corner, sleeps there and starts nothing.
pub proof fn law_sleep_while_locked_or_idle(m: PetModel, elapsed: nat, arrived: bool)
    requires
        m.locked || m.idle,
    ensures
        step(m, elapsed, arrived).1 == (PetDecision {
            dance_ended: false,
            started: None,
            pose: PetPose::Cornered(SpriteLoop::Sleep),
        }),
        step(m, elapsed, arrived).0.mode == m.mode,
{
}

/// While paused, in quiet hours or under a fullscreen window (and awake), the
/// owl perches and starts nothing.
pub proof fn law_perch_while_held_back(m: PetModel, elapsed: nat, arrived: bool)
    requires
        !m.locked && !m.idle,
        m.paused || m.quiet || m.fullscreen,
    ensures
        step(m, elapsed, arrived).1.pose == PetPose::Grounded(SpriteLoop::Perch),
        step(m, elapsed, arrived).1.started is None,
{
}

/// A flight always finishes on the ground before a new behaviour begins.
pub proof fn law_flight_lands_before_next_behavior(m: PetModel, elapsed: nat, arrived: bool)
    requires
        m.mode == PetMode::Fly,
        step(m, elapsed, arrived).1.started is Some,
    ensures
        step(m, elapsed, arrived).1.started.unwrap().landed,
{
}

/// New behaviours last between two and six seconds of rest, three and seven of
/// walking, or two and five of flight.
pub proof fn law_behavior_durations(m: PetModel)
    ensures
        ({
            let (n, _, next) = next_mode(m);
            &&& next == NextMode::Rest ==> secs(2) <= n.mode_duration <= secs(6)
            &&& next is Walk ==> secs(3) <= n.mode_duration <= secs(7)
            &&& next is Fly ==> secs(2) <= n.mode_duration <= secs(5)
            &&& n.mode_elapsed == 0
        }),
{
}

/// The music dance is an accent: it happens only in the first five seconds of
/// each ninety-second cycle of playing music.
pub proof fn law_music_dance_is_an_accent(m: PetModel, elapsed: nat, arrived: bool)
    requires
        step(m, elapsed, arrived).1.pose is Dance,
    ensures
        m.music_playing,
        dancing_at(m.music_elapsed + elapsed),
{
}

/// A reaction is shown for the time it was triggered with and then ends.
pub proof fn law_reaction_runs_out(m: PetModel, elapsed: nat, arrived: bool, animation: SpriteLoop, remaining: nat)
    requires
        !m.locked && !m.idle && !m.paused && !m.quiet && !m.fullscreen,
        m.reaction == Some((animation, remaining)),
    ensures
        step(m, elapsed, arrived).1.pose == PetPose::Grounded(animation),
        elapsed >= remaining ==> step(m, elapsed, arrived).0.reaction is None,
        elapsed < remaining ==> step(m, elapsed, arrived).0.reaction == Some(
            (animation, (remaining - elapsed) as nat),
        ),
{
}

/// The resting loop: while the owl rests and the laptop is charging it shows
/// the charging loop, whatever the focus; otherwise working while coding,
/// thinking while browsing, and idle for anything else.
pub proof fn law_resting_loop(m: PetModel, elapsed: nat, arrived: bool)
    ensures
        ({
            let pose = step(m, elapsed, arrived).1.pose;
            &&& pose is Rest && m.charging ==> pose == PetPose::Rest(SpriteLoop::Charging)
            &&& pose is Rest && !m.charging && m.focus == Some(FocusContext::Coding) ==> pose
                == PetPose::Rest(SpriteLoop::Working)
            &&& pose is Rest && !m.charging && m.focus == Some(FocusContext::Browsing) ==> pose
                == PetPose::Rest(SpriteLoop::Thinking)
            &&& pose is Rest && !m.charging && m.focus != Some(FocusContext::Coding) && m.focus
                != Some(FocusContext::Browsing) ==> pose == PetPose::Rest(SpriteLoop::Idle)
        }),
{
}

/// A resting owl with nothing else to do rests: awake, not held back, with no
/// reaction, warning or music, and with time left in its rest, the pose is its
/// resting loop.
pub proof fn law_rest_continues(m: PetModel, elapsed: nat, arrived: bool)
    requires
        !m.locked && !m.idle && !m.paused && !m.quiet && !m.fullscreen,
        m.reaction is None,
        m.warning_for <= elapsed,
        !m.music_playing,
        m.mode == PetMode::Rest,
        m.focus != Some(FocusContext::Coding),
        m.mode_elapsed + elapsed < m.mode_duration,
    ensures
        step(m, elapsed, arrived).1.pose == PetPose::Rest(
            if m.charging {
                SpriteLoop::Charging
            } else if m.focus == Some(FocusContext::Browsing) {
                SpriteLoop::Thinking
            } else {
                SpriteLoop::Idle
            },
        ),
        step(m, elapsed, arrived).1.started is None,
{
}

} // verus!
