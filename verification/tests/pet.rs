use ikaros_virtual::companion::SpriteLoop;
use ikaros_virtual::context::FocusContext;
use ikaros_virtual::duration::Duration;
use ikaros_virtual::pet::{NextMode, PetBehavior, PetMode, PetPose, Started};

#[test]
fn a_completed_flight_lands_before_the_next_behavior() {
    let mut life = PetBehavior::new(1);
    life.mode = PetMode::Fly;
    life.mode_elapsed = Duration::zero();
    life.mode_duration = Duration::from_secs(2);
    life.signal_elapsed = Duration::zero();

    let decision = life.tick(Duration::from_secs(2), false);
    let started = decision.started.expect("the flight's time is up");
    assert!(started.landed);
}

#[test]
fn music_dance_is_an_accent_not_a_permanent_override() {
    let mut life = PetBehavior::new(1);
    life.music_playing = true;
    life.music_elapsed = Duration::from_secs(6);
    let decision = life.tick(Duration::zero(), false);
    assert!(!matches!(decision.pose, PetPose::Dance { .. }));
    assert_eq!(decision.pose, PetPose::Rest(SpriteLoop::Idle));
}

#[test]
fn music_dance_starts_each_cycle() {
    let mut life = PetBehavior::new(1);
    life.music_playing = true;
    life.music_elapsed = Duration::from_secs(90);
    let decision = life.tick(Duration::from_millis(500), false);
    assert_eq!(
        decision.pose,
        PetPose::Dance {
            beat: Duration::from_millis(500)
        }
    );
    assert_eq!(life.mode, PetMode::Dance);

    life.music_elapsed = Duration::from_secs(95);
    let decision = life.tick(Duration::zero(), false);
    assert!(decision.dance_ended);
    assert_eq!(life.mode, PetMode::Rest);
}

#[test]
fn next_behavior_follows_the_xorshift_draws() {
    let mut life = PetBehavior::new(1);
    let decision = life.tick(Duration::from_secs(3), false);
    assert_eq!(
        decision.started,
        Some(Started {
            landed: false,
            next: NextMode::Walk {
                target_draw: 11177516664432764457
            },
        })
    );
    assert_eq!(decision.pose, PetPose::Walk);
    assert_eq!(life.mode, PetMode::Walk);
    assert_eq!(life.mode_duration, Duration::from_secs(3));
    assert_eq!(life.rng, 11177516664432764457);
}

#[test]
fn an_arrived_walk_starts_the_next_behavior() {
    let mut life = PetBehavior::new(1);
    life.mode = PetMode::Walk;
    life.mode_duration = Duration::from_secs(10);
    assert!(life.tick(Duration::from_millis(16), false).started.is_none());
    assert!(life.tick(Duration::from_millis(16), true).started.is_some());
}

#[test]
fn sleep_and_perch_take_priority() {
    let mut life = PetBehavior::new(1);
    life.trigger_reaction(SpriteLoop::Success);
    life.set_locked(true);
    assert_eq!(
        life.tick(Duration::from_secs(1), false).pose,
        PetPose::Cornered(SpriteLoop::Sleep)
    );
    life.set_locked(false);
    life.set_preferences(false, true);
    assert_eq!(
        life.tick(Duration::from_secs(1), false).pose,
        PetPose::Grounded(SpriteLoop::Perch)
    );
    life.set_preferences(false, false);
    life.set_fullscreen(true);
    assert_eq!(
        life.tick(Duration::from_secs(1), false).pose,
        PetPose::Grounded(SpriteLoop::Perch)
    );
    life.set_fullscreen(false);
    assert_eq!(
        life.tick(Duration::from_secs(1), false).pose,
        PetPose::Grounded(SpriteLoop::Success)
    );
}

#[test]
fn reactions_last_three_seconds() {
    let mut life = PetBehavior::new(1);
    life.trigger_reaction(SpriteLoop::Success);
    assert_eq!(
        life.tick(Duration::from_secs(2), false).pose,
        PetPose::Grounded(SpriteLoop::Success)
    );
    assert!(life.reaction.is_some());
    assert_eq!(
        life.tick(Duration::from_secs(1), false).pose,
        PetPose::Grounded(SpriteLoop::Success)
    );
    assert!(life.reaction.is_none());
}

#[test]
fn warnings_show_while_resting() {
    let mut life = PetBehavior::new(1);
    life.trigger_warning();
    assert_eq!(life.tick(Duration::from_secs(1), false).pose, PetPose::Warning);
    assert_eq!(life.warning_for, Duration::from_secs(3));
}

#[test]
fn coding_rests_stretch_to_thirty_seconds() {
    let mut life = PetBehavior::new(1);
    life.set_status(Some(FocusContext::Coding), false);
    let decision = life.tick(Duration::from_secs(5), false);
    assert!(decision.started.is_none());
    assert_eq!(decision.pose, PetPose::Rest(SpriteLoop::Working));
    assert_eq!(life.mode_duration, Duration::from_secs(30));
}

#[test]
fn music_is_checked_every_two_seconds() {
    let mut life = PetBehavior::new(1);
    assert!(life.music_check_due(Duration::zero()));
    assert!(!life.music_check_due(Duration::from_secs(1)));
    assert!(life.music_check_due(Duration::from_secs(1)));
}
