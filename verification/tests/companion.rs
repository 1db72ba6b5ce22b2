use ikaros_virtual::companion::{
    meminfo_value, ActionProposal, Activity, ApprovalError, Capability, Companion, PetEvent,
    Perch, Permissions, SpriteLoop, SystemSnapshot,
};
use ikaros_virtual::duration::Duration;
use ikaros_virtual::sprites::{apply_animation, frame_path, manifest_name, SpriteManifest};

fn snapshot(available_kib: u64) -> SystemSnapshot {
    SystemSnapshot {
        memory_total_kib: 1000,
        memory_available_kib: available_kib,
    }
}

#[test]
fn parses_memory_values() {
    let meminfo = "MemTotal:       1000 kB\nMemAvailable:    250 kB\n";
    assert_eq!(meminfo_value(meminfo, "MemTotal:"), 1000);
    assert_eq!(meminfo_value(meminfo, "MemAvailable:"), 250);
}

#[test]
fn memory_pressure_alerts_once_per_cooldown() {
    let mut owl = Companion::new();
    assert_eq!(
        owl.observe(snapshot(50), Duration::zero()),
        Some(PetEvent::MemoryPressure)
    );
    assert_eq!(owl.observe(snapshot(50), Duration::from_secs(60)), None);
    assert_eq!(
        owl.observe(snapshot(50), Duration::from_secs(15 * 60)),
        Some(PetEvent::MemoryPressure)
    );
}

#[test]
fn roaming_selects_the_matching_sprite_loop() {
    let mut owl = Companion::new();
    owl.begin_roaming(true);
    assert_eq!(owl.activity(), Activity::Flying);
    assert_eq!(owl.animation(), SpriteLoop::Fly);
    owl.perch(Perch::BottomLeft);
    assert_eq!(owl.position(), Perch::BottomLeft);
}

#[test]
fn animation_advances_and_wraps() {
    let mut owl = Companion::new();
    owl.begin_roaming(true);
    owl.tick(Duration::from_millis(4 * 80));
    assert_eq!(owl.frame(), 0);
    owl.tick(Duration::from_millis(80));
    assert_eq!(owl.frame(), 1);
}

#[test]
fn sprite_loop_lengths_match_the_active_art_pack() {
    assert_eq!(SpriteLoop::WalkLeft.frame_count(), 8);
    assert_eq!(SpriteLoop::WalkRight.frame_count(), 4);
    assert_eq!(SpriteLoop::Fly.frame_count(), 4);
    assert_eq!(SpriteLoop::Alert.frame_count(), 3);
}

#[test]
fn commands_require_a_separate_permission_and_approval() {
    let mut owl = Companion::new();
    let proposal = ActionProposal::open_system_monitor();
    assert_eq!(
        owl.approve_action(proposal.clone()),
        Err(ApprovalError::CommandPermissionNotGranted)
    );
    owl.permissions_mut().grant(Capability::RunApprovedCommand);
    assert_eq!(
        owl.approve_action(proposal).unwrap().proposal().id,
        "open-system-monitor"
    );
}

#[test]
fn memory_alert_raises_the_alert_animation() {
    let mut owl = Companion::new();
    owl.observe(snapshot(50), Duration::zero());
    assert_eq!(owl.activity(), Activity::Alert);
    assert_eq!(owl.animation(), SpriteLoop::Alert);
    assert_eq!(owl.position(), Perch::BottomRight);
}

#[test]
fn low_memory_use_raises_no_alert_but_is_recorded() {
    let mut owl = Companion::new();
    assert_eq!(owl.status_line(), "No system telemetry has been collected.");
    assert_eq!(owl.observe(snapshot(900), Duration::zero()), None);
    assert_eq!(owl.status_line(), "Memory use: 10%.");
    assert_eq!(owl.activity(), Activity::Perched(Perch::BottomRight));
}

#[test]
fn memory_alert_threshold_is_ninety_percent() {
    let mut owl = Companion::new();
    assert_eq!(owl.observe(snapshot(101), Duration::zero()), None);
    assert_eq!(
        owl.observe(snapshot(100), Duration::zero()),
        Some(PetEvent::MemoryPressure)
    );
}

#[test]
fn revoked_telemetry_stops_observation() {
    let mut owl = Companion::new();
    owl.permissions_mut().revoke(Capability::ReadSystemTelemetry);
    assert_eq!(owl.observe(snapshot(0), Duration::zero()), None);
    assert_eq!(owl.status_line(), "No system telemetry has been collected.");
}

#[test]
fn permissions_grant_revoke_and_allow() {
    let mut permissions = Permissions::default();
    assert!(!permissions.allows(Capability::BrowserSummary));
    permissions.grant(Capability::BrowserSummary);
    permissions.grant(Capability::BrowserSummary);
    assert!(permissions.allows(Capability::BrowserSummary));
    permissions.grant(Capability::ReadSelectedFiles);
    permissions.revoke(Capability::BrowserSummary);
    assert!(!permissions.allows(Capability::BrowserSummary));
    assert!(permissions.allows(Capability::ReadSelectedFiles));
}

#[test]
fn default_companion_grants_only_telemetry_and_notifications() {
    let owl = Companion::default();
    let proposal = ActionProposal::open_system_monitor();
    assert_eq!(
        owl.approve_action(proposal),
        Err(ApprovalError::CommandPermissionNotGranted)
    );
    assert_eq!(owl.frame(), 0);
    assert_eq!(owl.animation(), SpriteLoop::Perch);
}

#[test]
fn memory_percentages_round_down_and_handle_unknown_totals() {
    assert_eq!(snapshot(333).memory_used_percent(), 66);
    let unknown = SystemSnapshot {
        memory_total_kib: 0,
        memory_available_kib: 5,
    };
    assert_eq!(unknown.memory_used_percent(), 0);
    let overfull = SystemSnapshot {
        memory_total_kib: 10,
        memory_available_kib: 50,
    };
    assert_eq!(overfull.memory_used_percent(), 0);
}

#[test]
fn pet_event_message_names_the_memory_use() {
    assert_eq!(
        PetEvent::MemoryPressure.message(&snapshot(50)),
        "Memory use is 95%. Would you like to open System Monitor?"
    );
}

#[test]
fn meminfo_value_defaults_to_zero() {
    let meminfo = "MemTotal: lots kB\nSwapTotal: 5 kB\r\n";
    assert_eq!(meminfo_value(meminfo, "MemTotal:"), 0);
    assert_eq!(meminfo_value(meminfo, "MemFree:"), 0);
    assert_eq!(meminfo_value(meminfo, "SwapTotal:"), 5);
    assert_eq!(meminfo_value("MemTotal:+7", "MemTotal:"), 7);
    assert_eq!(
        meminfo_value("MemTotal: 99999999999999999999 kB", "MemTotal:"),
        0
    );
}

#[test]
fn snapshot_parses_meminfo_text() {
    let parsed = SystemSnapshot::parse("MemTotal: 2000 kB\nMemFree: 1 kB\nMemAvailable: 500 kB\n");
    assert_eq!(parsed.memory_total_kib, 2000);
    assert_eq!(parsed.memory_available_kib, 500);
    assert_eq!(parsed.memory_used_percent(), 75);
}

#[test]
fn frame_durations_follow_the_loop() {
    assert_eq!(SpriteLoop::Fly.frame_duration(), Duration::from_millis(80));
    assert_eq!(SpriteLoop::WalkLeft.frame_duration(), Duration::from_millis(140));
    assert_eq!(SpriteLoop::Party.frame_duration(), Duration::from_millis(167));
    assert_eq!(SpriteLoop::Perch.frame_duration(), Duration::from_millis(450));
    assert_eq!(SpriteLoop::Compile.frame_duration(), Duration::from_millis(200));
}

#[test]
fn tick_carries_the_remainder_into_the_next_frame() {
    let mut owl = Companion::new();
    owl.begin_walking(true);
    assert_eq!(owl.animation(), SpriteLoop::WalkRight);
    owl.tick(Duration::from_millis(139));
    assert_eq!(owl.frame(), 0);
    owl.tick(Duration::from_millis(1));
    assert_eq!(owl.frame(), 1);
    owl.tick(Duration::from_millis(3 * 140));
    assert_eq!(owl.frame(), 0);
}

#[test]
fn perch_labels_name_the_corner() {
    assert_eq!(Perch::BottomLeft.label(), "the bottom-left corner");
    assert_eq!(Perch::BottomRight.label(), "the bottom-right corner");
}

#[test]
fn applying_loops_sets_the_matching_activity() {
    let mut owl = Companion::new();
    apply_animation(&mut owl, SpriteLoop::WalkLeft);
    assert_eq!(owl.activity(), Activity::Walking);
    apply_animation(&mut owl, SpriteLoop::Success);
    assert_eq!(owl.activity(), Activity::Walking);
    assert_eq!(owl.animation(), SpriteLoop::Success);
    apply_animation(&mut owl, SpriteLoop::Sleep);
    assert_eq!(owl.activity(), Activity::Perched(Perch::BottomRight));
    assert_eq!(owl.animation(), SpriteLoop::Perch);
}

fn manifest() -> SpriteManifest {
    let files = |names: &[&str]| names.iter().map(|n| n.to_string()).collect::<Vec<_>>();
    SpriteManifest::new(vec![
        (
            "perch".to_owned(),
            files(&["perch/perch_00.png", "perch/perch_01.png", "perch/perch_02.png"]),
        ),
        ("walk_right".to_owned(), files(&["walk_left/walk_left_04.png"])),
        ("perch".to_owned(), files(&["ignored.png"])),
    ])
}

#[test]
fn frame_paths_follow_the_art_pack_manifest() {
    let manifest = manifest();
    assert_eq!(
        frame_path("/owl", &manifest, SpriteLoop::Perch, 2).as_deref(),
        Some("/owl/assets/sprites/clockwork-owl/perch/perch_02.png")
    );
    assert_eq!(
        frame_path("/owl/", &manifest, SpriteLoop::WalkRight, 0).as_deref(),
        Some("/owl/assets/sprites/clockwork-owl/walk_left/walk_left_04.png")
    );
    assert_eq!(
        frame_path("", &manifest, SpriteLoop::Perch, 0).as_deref(),
        Some("assets/sprites/clockwork-owl/perch/perch_00.png")
    );
    assert_eq!(frame_path("/owl", &manifest, SpriteLoop::Perch, 3), None);
    assert_eq!(frame_path("/owl", &manifest, SpriteLoop::Compile, 0), None);
    assert_eq!(manifest_name(SpriteLoop::SleepWake), "sleep_wake");
}
