use eve_reporting::config::{
    default_try_forever, default_try_spacing, Character, Config, ConfigError, ReportMethod,
};
use eve_reporting::region::Region;
use eve_reporting::reminder::ReminderRegions;

fn voice() -> ReportMethod {
    ReportMethod::Voice {
        warn_voice_path: "C:\\warn_voice.mp3".to_string(),
        reminder_voice_path: "C:\\reminder_voice.mp3".to_string(),
    }
}

fn point_region() -> Region {
    Region { start: [1, 1], end: [1, 1], rgb: vec![[1, 1, 1]] }
}

fn character(title: &str) -> Character {
    Character {
        title: title.to_string(),
        warn_region: point_region(),
        reminder_regions: ReminderRegions {
            reminder_now_region: point_region(),
            reminder_enemy_region: point_region(),
        },
    }
}

fn config(report_methods: Vec<ReportMethod>) -> Config {
    Config { report_methods, characters: vec![character("EVE - CHAR1")] }
}

#[test]
fn example_config() {
    let data = Config {
        report_methods: vec![
            voice(),
            ReportMethod::Notification,
            ReportMethod::Sse { host: [127, 0, 0, 1], port: 8080 },
            ReportMethod::ReverseWebsocket {
                url: "wss://example.com".to_string(),
                try_forever: true,
                try_spacing: 5000,
            },
        ],
        characters: vec![character("EVE - CHAR1"), character("EVE - CHAR2")],
    };
    let data = data.validate().unwrap();
    assert_eq!(data.report_methods.len(), 4);
    assert_eq!(data.character_titles(), vec!["EVE - CHAR1".to_string(), "EVE - CHAR2".to_string()]);
}

#[test]
fn two_voice_entries_are_rejected() {
    let c = config(vec![voice(), voice()]);
    assert!(!c.check_report_methods());
    assert!(matches!(c.validate(), Err(ConfigError::DuplicateReportMethods)));
}

#[test]
fn one_voice_and_one_notification_are_accepted() {
    let c = config(vec![voice(), ReportMethod::Notification]);
    assert!(c.check_report_methods());
    assert!(c.validate().is_ok());
}

#[test]
fn two_notification_entries_are_rejected() {
    let c = config(vec![
        ReportMethod::Notification,
        ReportMethod::Sse { host: [0, 0, 0, 0], port: 1 },
        ReportMethod::Notification,
    ]);
    assert!(!c.check_report_methods());
}

#[test]
fn other_methods_may_repeat() {
    let sse = ReportMethod::Sse { host: [127, 0, 0, 1], port: 8080 };
    let c = config(vec![sse.clone(), sse, ReportMethod::Notification, voice()]);
    assert!(c.check_report_methods());
    assert!(config(Vec::new()).check_report_methods());
}

#[test]
fn method_kinds() {
    assert!(voice().is_voice());
    assert!(!voice().is_notification());
    assert!(ReportMethod::Notification.is_notification());
    assert!(!ReportMethod::Notification.is_voice());
}

#[test]
fn relay_defaults() {
    assert!(!default_try_forever());
    assert_eq!(default_try_spacing(), 5000);
}
