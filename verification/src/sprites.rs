//! Where each sprite frame lives, and how an animation chosen by the overlay is
//! applied to the companion.
//!
//! The active art pack is `assets/sprites/clockwork-owl`. Its animation
//! manifest (the pack's JSON file) is the asset contract: it lists, for each
//! loop, the files of its frames in order, relative to the pack's directory.
//! Frame names are never inferred.
use vstd::prelude::*;

use crate::companion::{Activity, Companion, CompanionModel, Perch, SpriteLoop, restarted};
use crate::text::str_eq;

verus! {

/// The active art pack, relative to the project directory.
pub open spec fn pack_root() -> Seq<char> {
    "assets/sprites/clockwork-owl"@
}

/// The name under which the manifest lists the frames of `animation`.
pub open spec fn manifest_key(animation: SpriteLoop) -> Seq<char> {
    match animation {
        SpriteLoop::Perch => "perch"@,
        SpriteLoop::Blink => "blink"@,
        SpriteLoop::Sleep => "sleep"@,
        SpriteLoop::WalkLeft => "walk_left"@,
        SpriteLoop::WalkRight => "walk_right"@,
        SpriteLoop::Fly => "fly"@,
        SpriteLoop::Alert => "alert"@,
        SpriteLoop::Flinch => "flinch"@,
        SpriteLoop::Idle => "idle"@,
        SpriteLoop::Party => "party"@,
        SpriteLoop::Working => "working"@,
        SpriteLoop::Thinking => "thinking"@,
        SpriteLoop::Warning => "warning"@,
        SpriteLoop::Charging => "charging"@,
        SpriteLoop::Presence => "presence"@,
        SpriteLoop::Success => "success"@,
        SpriteLoop::Notification => "notification"@,
        SpriteLoop::Silly => "silly"@,
        SpriteLoop::Emotion => "emotion"@,
        SpriteLoop::SleepWake => "sleep_wake"@,
        SpriteLoop::Compile => "compile"@,
    }
}

pub fn manifest_name(animation: SpriteLoop) -> (r: &'static str)
    ensures
        r@ == manifest_key(animation),
{
    let r = match animation {
        SpriteLoop::Perch => "perch",
        SpriteLoop::Blink => "blink",
        SpriteLoop::Sleep => "sleep",
        SpriteLoop::WalkLeft => "walk_left",
        SpriteLoop::WalkRight => "walk_right",
        SpriteLoop::Fly => "fly",
        SpriteLoop::Alert => "alert",
        SpriteLoop::Flinch => "flinch",
        SpriteLoop::Idle => "idle",
        SpriteLoop::Party => "party",
        SpriteLoop::Working => "working",
        SpriteLoop::Thinking => "thinking",
        SpriteLoop::Warning => "warning",
        SpriteLoop::Charging => "charging",
        SpriteLoop::Presence => "presence",
        SpriteLoop::Success => "success",
        SpriteLoop::Notification => "notification",
        SpriteLoop::Silly => "silly",
        SpriteLoop::Emotion => "emotion",
        SpriteLoop::SleepWake => "sleep_wake",
        SpriteLoop::Compile => "compile",
    };
    proof {
        reveal_strlit("perch");
        reveal_strlit("blink");
        reveal_strlit("sleep");
        reveal_strlit("walk_left");
        reveal_strlit("walk_right");
        reveal_strlit("fly");
        reveal_strlit("alert");
        reveal_strlit("flinch");
        reveal_strlit("idle");
        reveal_strlit("party");
        reveal_strlit("working");
        reveal_strlit("thinking");
        reveal_strlit("warning");
        reveal_strlit("charging");
        reveal_strlit("presence");
        reveal_strlit("success");
        reveal_strlit("notification");
        reveal_strlit("silly");
        reveal_strlit("emotion");
        reveal_strlit("sleep_wake");
        reveal_strlit("compile");
    }
    r
}

/// The frame files that the manifest lists under `key`: those of the first
/// entry with that name.
pub open spec fn manifest_frames(entries: Seq<(Seq<char>, Seq<Seq<char>>)>, key: Seq<char>) -> Option<
    Seq<Seq<char>>,
>
    decreases entries.len(),
{
    if entries.len() == 0 {
        None
    } else if entries[0].0 == key {
        Some(entries[0].1)
    } else {
        manifest_frames(entries.drop_first(), key)
    }
}

/// The art pack's manifest: each loop's name with the files of its frames, in
/// order, relative to the pack's directory.
pub struct SpriteManifest {
    animations: Vec<(String, Vec<String>)>,
}

pub open spec fn entry_view(e: (String, Vec<String>)) -> (Seq<char>, Seq<Seq<char>>) {
    (e.0@, e.1@.map_values(|f: String| f@))
}

impl View for SpriteManifest {
    type V = Seq<(Seq<char>, Seq<Seq<char>>)>;

    closed spec fn view(&self) -> Seq<(Seq<char>, Seq<Seq<char>>)> {
        self.animations@.map_values(|e: (String, Vec<String>)| entry_view(e))
    }
}

impl SpriteManifest {
    pub fn new(animations: Vec<(String, Vec<String>)>) -> (m: SpriteManifest)
        ensures
            m@ == animations@.map_values(|e: (String, Vec<String>)| entry_view(e)),
    {
        SpriteManifest { animations }
    }

    /// The frame files listed for `animation`, if the manifest lists it.
    pub fn frames(&self, animation: SpriteLoop) -> (r: Option<&Vec<String>>)
        ensures
            match r {
                Some(files) => manifest_frames(self@, manifest_key(animation)) == Some(
                    files@.map_values(|f: String| f@),
                ),
                None => manifest_frames(self@, manifest_key(animation)) is None,
            },
    {
        let key = manifest_name(animation);
        let mut i: usize = 0;
        assert(self@.skip(0) =~= self@);
        while i < self.animations.len()
            invariant
                i <= self@.len(),
                self@.len() == self.animations@.len(),
                key@ == manifest_key(animation),
                manifest_frames(self@, key@) == manifest_frames(self@.skip(i as int), key@),
            decreases self.animations@.len() - i,
        {
            assert(self@.skip(i as int)[0] == entry_view(self.animations@[i as int]));
            assert(self@.skip(i as int).drop_first() =~= self@.skip(i + 1));
            if str_eq(self.animations[i].0.as_str(), key) {
                return Some(&self.animations[i].1);
            }
            i = i + 1;
        }
        None
    }
}

/// `Path::join` of a relative path onto `base`.
pub open spec fn join_path(base: Seq<char>, rest: Seq<char>) -> Seq<char> {
    if base.len() == 0 {
        rest
    } else if base.last() == '/' {
        base + rest
    } else {
        base + "/"@ + rest
    }
}

fn push_join(out: &mut String, part: &str)
    ensures
        final(out)@ == join_path(old(out)@, part@),
{
    let v = crate::text::chars_of(out.as_str());
    if v.len() == 0 {
        out.append(part);
    } else if v[v.len() - 1] == '/' {
        out.append(part);
    } else {
        out.append("/");
        out.append(part);
        assert(final(out)@ =~= join_path(old(out)@, part@));
    }
}

/// The image file of `frame` of `animation` under the project directory `base`:
/// the file that the manifest lists for it, inside the art pack's directory, or
/// `None` when the manifest lists no such frame.
pub fn frame_path(base: &str, manifest: &SpriteManifest, animation: SpriteLoop, frame: u8) -> (r:
    Option<String>)
    ensures
        match manifest_frames(manifest@, manifest_key(animation)) {
            Some(files) => if (frame as int) < files.len() {
                r is Some && r->0@ == join_path(join_path(base@, pack_root()), files[frame as int])
            } else {
                r is None
            },
            None => r is None,
        },
{
    let files = match manifest.frames(animation) {
        Some(f) => f,
        None => return None,
    };
    if frame as usize >= files.len() {
        return None;
    }
    let mut path = base.to_owned();
    push_join(&mut path, "assets/sprites/clockwork-owl");
    proof {
        reveal_strlit("assets/sprites/clockwork-owl");
    }
    push_join(&mut path, files[frame as usize].as_str());
    Some(path)
}

/// The companion state that showing `animation` leads to: walking and flying
/// loops start those activities, the perch-like loops perch bottom-right, and the
/// rest only change the visual loop.
pub open spec fn applied(m: CompanionModel, animation: SpriteLoop) -> CompanionModel {
    match animation {
        SpriteLoop::WalkLeft => restarted(m, Activity::Walking, SpriteLoop::WalkLeft),
        SpriteLoop::WalkRight => restarted(m, Activity::Walking, SpriteLoop::WalkRight),
        SpriteLoop::Fly => restarted(m, Activity::Flying, SpriteLoop::Fly),
        SpriteLoop::Perch | SpriteLoop::Blink | SpriteLoop::Sleep => restarted(
            m,
            Activity::Perched(Perch::BottomRight),
            SpriteLoop::Perch,
        ),
        _ => restarted(m, m.activity, animation),
    }
}

pub fn apply_animation(companion: &mut Companion, animation: SpriteLoop)
    ensures
        final(companion)@ == applied(old(companion)@, animation),
        old(companion).wf() ==> final(companion).wf(),
{
    match animation {
        SpriteLoop::WalkLeft => companion.begin_walking(false),
        SpriteLoop::WalkRight => companion.begin_walking(true),
        SpriteLoop::Fly => companion.begin_roaming(true),
        SpriteLoop::Perch | SpriteLoop::Blink | SpriteLoop::Sleep => companion.perch(
            Perch::BottomRight,
        ),
        SpriteLoop::Alert | SpriteLoop::Flinch | SpriteLoop::Idle | SpriteLoop::Party
        | SpriteLoop::Working | SpriteLoop::Thinking | SpriteLoop::Warning | SpriteLoop::Charging
        | SpriteLoop::Presence | SpriteLoop::Success | SpriteLoop::Notification | SpriteLoop::Silly
        | SpriteLoop::Emotion | SpriteLoop::SleepWake | SpriteLoop::Compile => {
            companion.set_visual_animation(animation)
        },
    }
}

} // verus!
