use ikaros_virtual::context::{context_of_window, parse_window_class, FocusContext};
use ikaros_virtual::duration::Duration;
use ikaros_virtual::status::{
    find_battery_device, format_status, notification_body, parse_battery_status,
    parse_disk_available_gib, parse_load_average, parse_network_state, AlertEngine, AlertKind,
    BatteryStatus, SystemStatus,
};

#[test]
fn parses_battery_state() {
    let details = "  state: discharging\n  percentage: 14%\n";
    assert_eq!(
        parse_battery_status(details),
        Some(BatteryStatus {
            percentage: 14,
            charging: false
        })
    );
}

#[test]
fn only_alerts_when_network_transitions_offline() {
    let mut engine = AlertEngine::default();
    let connected = SystemStatus {
        memory_used_percent: 10,
        load_average: None,
        disk_available_gib: Some(100),
        battery: None,
        network_connected: true,
        focus: None,
    };
    let offline = SystemStatus {
        network_connected: false,
        ..connected.clone()
    };
    assert!(engine.evaluate(&connected, Duration::zero()).is_empty());
    assert_eq!(
        engine.evaluate(&offline, Duration::from_secs(1)),
        vec![AlertKind::NetworkOffline]
    );
}

#[test]
fn parses_only_the_active_window_class() {
    let json = "{\n  \"class\": \"code\",\n  \"title\": \"private file\"\n}";
    assert_eq!(parse_window_class(json), Some("code"));
}

fn quiet_status() -> SystemStatus {
    SystemStatus {
        memory_used_percent: 10,
        load_average: None,
        disk_available_gib: Some(100),
        battery: None,
        network_connected: true,
        focus: None,
    }
}

#[test]
fn alerts_need_a_crossing_and_their_cooldown() {
    let mut engine = AlertEngine::default();
    let stressed = SystemStatus {
        memory_used_percent: 95,
        disk_available_gib: Some(3),
        battery: Some(BatteryStatus {
            percentage: 15,
            charging: false,
        }),
        ..quiet_status()
    };
    assert_eq!(
        engine.evaluate(&stressed, Duration::zero()),
        vec![AlertKind::LowBattery, AlertKind::MemoryPressure, AlertKind::LowDisk]
    );
    assert!(engine.evaluate(&stressed, Duration::from_secs(100)).is_empty());
    let calm = quiet_status();
    assert!(engine.evaluate(&calm, Duration::from_secs(200)).is_empty());
    // A new crossing within the cooldown of the last alert is held back ...
    assert!(engine.evaluate(&stressed, Duration::from_secs(300)).is_empty());
    assert!(engine.evaluate(&calm, Duration::from_secs(400)).is_empty());
    // ... and one after it is raised.
    assert_eq!(
        engine.evaluate(&stressed, Duration::from_secs(1000)),
        vec![AlertKind::LowBattery, AlertKind::MemoryPressure, AlertKind::LowDisk]
    );
    // A condition that keeps holding is not raised again, whatever the cooldown.
    assert!(engine.evaluate(&stressed, Duration::from_secs(5000)).is_empty());
    let charging = SystemStatus {
        battery: Some(BatteryStatus {
            percentage: 5,
            charging: true,
        }),
        ..quiet_status()
    };
    assert!(engine.evaluate(&charging, Duration::from_secs(9000)).is_empty());
}

#[test]
fn network_alert_needs_a_previous_connection() {
    let mut engine = AlertEngine::default();
    let offline = SystemStatus {
        network_connected: false,
        ..quiet_status()
    };
    assert!(engine.evaluate(&offline, Duration::zero()).is_empty());
    assert!(engine.evaluate(&offline, Duration::from_secs(1000)).is_empty());
}

#[test]
fn status_text_lists_every_signal() {
    let status = SystemStatus {
        memory_used_percent: 42,
        load_average: Some("0.57".to_owned()),
        disk_available_gib: Some(120),
        battery: Some(BatteryStatus {
            percentage: 80,
            charging: true,
        }),
        network_connected: true,
        focus: Some(FocusContext::Coding),
    };
    assert_eq!(
        format_status(&status),
        "Memory: 42%\nLoad average: 0.57\nDisk free: 120 GiB\nBattery: 80% (charging)\nNetwork: connected\nFocus: coding"
    );
    let unknown = SystemStatus {
        memory_used_percent: 0,
        load_average: None,
        disk_available_gib: None,
        battery: None,
        network_connected: false,
        focus: None,
    };
    assert_eq!(
        format_status(&unknown),
        "Memory: 0%\nLoad average: unavailable\nDisk: unavailable\nBattery: unavailable\nNetwork: offline\nFocus: disabled"
    );
}

#[test]
fn notification_bodies_describe_the_alert() {
    let status = SystemStatus {
        memory_used_percent: 93,
        battery: Some(BatteryStatus {
            percentage: 9,
            charging: false,
        }),
        disk_available_gib: Some(4),
        ..quiet_status()
    };
    assert_eq!(notification_body(AlertKind::LowBattery, &status), "Battery is at 9%.");
    assert_eq!(notification_body(AlertKind::MemoryPressure, &status), "Memory use is 93%.");
    assert_eq!(
        notification_body(AlertKind::LowDisk, &status),
        "Only 4 GiB remain on the root filesystem."
    );
    assert_eq!(
        notification_body(AlertKind::LowBattery, &quiet_status()),
        "Battery is low."
    );
    assert_eq!(
        notification_body(AlertKind::NetworkOffline, &status),
        "The active NetworkManager connection was lost."
    );
    assert_eq!(AlertKind::LowDisk.summary(), "Ikaros: low disk space");
}

#[test]
fn command_outputs_are_parsed() {
    let df = "Filesystem     1024-blocks      Used Available Capacity Mounted on\n/dev/nvme0n1p2  490691512 100000000 314572800      25% /\n";
    assert_eq!(parse_disk_available_gib(df), Some(300));
    assert_eq!(parse_disk_available_gib("header only\n"), None);
    assert_eq!(parse_disk_available_gib("h\n/dev/x 1 2\n"), None);
    assert_eq!(parse_load_average("0.52 0.58 0.59 1/123 4567\n"), Some("0.52".to_owned()));
    assert_eq!(parse_load_average("  \n"), None);
    assert!(parse_network_state("connected\n"));
    assert!(!parse_network_state("disconnected"));
    assert_eq!(
        find_battery_device("/org/freedesktop/UPower/devices/line_power_AC\n/org/freedesktop/UPower/devices/battery_BAT0\n"),
        Some("/org/freedesktop/UPower/devices/battery_BAT0")
    );
    assert_eq!(find_battery_device("/org/freedesktop/UPower/devices/line_power_AC\n"), None);
}

#[test]
fn battery_details_need_a_percentage() {
    assert_eq!(parse_battery_status("  state: charging\n"), None);
    assert_eq!(
        parse_battery_status("state:   charging \npercentage: 100%"),
        Some(BatteryStatus {
            percentage: 100,
            charging: true
        })
    );
    assert_eq!(parse_battery_status("percentage: 300%"), None);
    assert_eq!(parse_battery_status("percentage: 30"), None);
}

#[test]
fn window_classes_map_to_focus_contexts() {
    assert_eq!(
        context_of_window("{\n  \"class\": \"Code\",\n}"),
        Some(FocusContext::Coding)
    );
    assert_eq!(
        context_of_window("{\n  \"class\": \"firefox\",\n}"),
        Some(FocusContext::Browsing)
    );
    assert_eq!(
        context_of_window("{\n  \"class\": \"org.gnome.Nautilus\",\n}"),
        Some(FocusContext::Other)
    );
    assert_eq!(context_of_window("{}"), None);
    assert_eq!(parse_window_class("  \"class\"\n"), None);
    assert_eq!(FocusContext::Other.label(), "another application");
}
