use ikaros_virtual::settings::{
    break_minutes_of, parse_routines, routines_text, watched_units_of, QuietHours, Routine,
    Settings,
};

#[test]
fn expired_pause_is_not_active() {
    let settings = Settings {
        paused_until_unix_secs: Some(1),
        ..Settings::default()
    };
    assert!(!settings.reactions_paused());
}

#[test]
fn parses_routines_from_settings_text() {
    assert_eq!(
        parse_routines("Wrap up@17:30\nBreak@09:05").unwrap(),
        vec![
            Routine {
                name: "Wrap up".to_owned(),
                hour: 17,
                minute: 30,
            },
            Routine {
                name: "Break".to_owned(),
                hour: 9,
                minute: 5,
            },
        ]
    );
}

#[test]
fn routine_errors_name_the_problem() {
    assert_eq!(parse_routines("Lunch 12:00"), Err("Routines must use Name@HH:MM".to_owned()));
    assert_eq!(parse_routines("Lunch@1200"), Err("Routine times must use HH:MM".to_owned()));
    assert_eq!(parse_routines("Lunch@xx:00"), Err("Routine hour must be 0-23".to_owned()));
    assert_eq!(parse_routines("Lunch@12:-1"), Err("Routine minute must be 0-59".to_owned()));
    assert_eq!(parse_routines("Lunch@24:00"), Err("Routine name or time is invalid".to_owned()));
    assert_eq!(parse_routines(" @12:00"), Err("Routine name or time is invalid".to_owned()));
    assert_eq!(parse_routines("\n  \n"), Ok(vec![]));
    assert_eq!(
        parse_routines(" Tea @ 16 : 05 \r\n"),
        Ok(vec![Routine {
            name: "Tea".to_owned(),
            hour: 16,
            minute: 5
        }])
    );
}

#[test]
fn routines_are_written_back_as_text() {
    let routines = vec![
        Routine {
            name: "Wrap up".to_owned(),
            hour: 17,
            minute: 30,
        },
        Routine {
            name: "Break".to_owned(),
            hour: 9,
            minute: 5,
        },
    ];
    let text = routines_text(&routines);
    assert_eq!(text, "Wrap up@17:30\nBreak@09:05");
    assert_eq!(parse_routines(&text), Ok(routines));
}

#[test]
fn pausing_lasts_one_hour() {
    let mut settings = Settings::default();
    assert!(!settings.reactions_paused_at(0));
    settings.pause_for_one_hour_at(1000);
    assert_eq!(settings.paused_until_unix_secs, Some(4600));
    assert!(settings.reactions_paused_at(4599));
    assert!(!settings.reactions_paused_at(4600));
    settings.pause_for_one_hour();
    assert!(settings.reactions_paused());
    settings.pause_for_one_hour_at(u64::MAX - 1);
    assert_eq!(settings.paused_until_unix_secs, Some(u64::MAX));
}

#[test]
fn quiet_hours_may_wrap_past_midnight() {
    let night = QuietHours {
        start_hour: 22,
        end_hour: 7,
    };
    assert!(night.contains_hour(23));
    assert!(night.contains_hour(3));
    assert!(!night.contains_hour(7));
    assert!(!night.contains_hour(12));
    let lunch = QuietHours {
        start_hour: 12,
        end_hour: 13,
    };
    assert!(lunch.contains_hour(12));
    assert!(!lunch.contains_hour(13));
    let settings = Settings {
        quiet_hours: Some(night),
        ..Settings::default()
    };
    assert!(settings.in_quiet_hours(0));
    assert!(!Settings::default().in_quiet_hours(0));
}

#[test]
fn watched_units_are_the_non_blank_lines_trimmed() {
    assert_eq!(
        watched_units_of("  backup.service \n\n\t\nsync.timer\r\n"),
        vec!["backup.service".to_owned(), "sync.timer".to_owned()]
    );
    assert!(watched_units_of("").is_empty());
}

#[test]
fn zero_break_minutes_disable_the_reminder() {
    assert_eq!(break_minutes_of(0), None);
    assert_eq!(break_minutes_of(-5), None);
    assert_eq!(break_minutes_of(25), Some(25));
}
