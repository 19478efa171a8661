use schrottbar::audio::{is_muted, parse_active_port, sink_port, volume_field};
use schrottbar::config::config_file_path;
use schrottbar::error::BarError;
use schrottbar::items::{no_weather_text, socket_path, weather_texts, HSpace, NiriCompositor, TestDisplay, Time, WeatherIcons, THIN_SPACE};
use schrottbar::layout::ShapeKind;
use schrottbar::paymo::{cached_credentials, keeps_refreshing, paymo_data, paymo_text, read_api_key, PaymoData};
use schrottbar::system::{cpu_temp_component, format_bytes, memory_in_use, system_tick, SPINNER_TICK_MS};
use schrottbar::updates::{
    aur_outcome, check_aur_updates, count_newlines, format_age, last_upgrade_stamp, last_upgrade_time, plan_counts, repo_update_count,
    updates_text, CountsPlan,
};
use schrottbar::weather::WeatherData;

const SINKS: &str = "Sink #0\n\tName: alsa_output.hdmi\n\tActive Port: hdmi-output-0\nSink #1\n\tName: alsa_output.analog\n\tPorts:\n\tActive Port: analog-output-headphones\n";

#[test]
fn active_port_of_the_default_sink() {
    assert_eq!(parse_active_port(SINKS, "analog"), Some("analog-output-headphones".to_string()));
    assert_eq!(parse_active_port(SINKS, "alsa_output.hdmi"), Some("hdmi-output-0".to_string()));
    assert_eq!(parse_active_port(SINKS, "usb"), None);
    assert_eq!(sink_port(SINKS, "alsa_output.analog\n"), "analog-output-headphones");
    assert_eq!(sink_port(SINKS, "usb\n"), "unknown");
}

#[test]
fn mute_and_volume_fields() {
    assert!(is_muted("Mute: yes\n"));
    assert!(!is_muted("Mute: no\n"));
    assert_eq!(volume_field("Volume: front-left: 42256 /  64% / -11.52 dB"), Some("64".to_string()));
    assert_eq!(volume_field("Volume: nothing"), None);
    assert_eq!(volume_field("a / 64 / b"), None);
}

#[test]
fn byte_counts_in_decimal_units() {
    assert_eq!(format_bytes(999), "999B");
    assert_eq!(format_bytes(1_000), "1kB");
    assert_eq!(format_bytes(1_999_999), "1MB");
    assert_eq!(format_bytes(16_000_000_000), "16GB");
    assert_eq!(format_bytes(2_500_000_000_000), "2TB");
    assert_eq!(memory_in_use(16_000_000_000, 4_000_000_000), (12_000_000_000, "12GB".to_string(), "16GB".to_string()));
}

#[test]
fn cpu_sensor_and_ticks() {
    let labels = vec!["nvme Composite".to_string(), "k10temp Tctl".to_string(), "k10temp Tctl".to_string()];
    assert_eq!(cpu_temp_component(&labels), Some(1));
    assert_eq!(cpu_temp_component(&vec!["acpitz".to_string()]), None);
    assert_eq!(system_tick(true, false), (true, SPINNER_TICK_MS));
    assert_eq!(system_tick(false, true), (true, 5000));
    assert_eq!(system_tick(false, false), (false, 5000));
}

#[test]
fn update_counts_from_checkers() {
    assert_eq!(count_newlines(b"a\nb\nc\n"), 3);
    assert_eq!(repo_update_count(Some(0), b"a 1 -> 2\nb 1 -> 2\n"), 2);
    assert_eq!(repo_update_count(Some(2), b""), 0);
    assert_eq!(repo_update_count(None, b"x\n"), 0);
    assert_eq!(aur_outcome(Some(0), b"x\n"), Some(1));
    assert_eq!(aur_outcome(Some(1), b"x\n"), Some(0));
    assert_eq!(aur_outcome(Some(127), b""), None);
    assert_eq!(aur_outcome(None, b""), None);
    assert_eq!(check_aur_updates(None, Some(3)), 3);
    assert_eq!(check_aur_updates(Some(2), Some(3)), 2);
    assert_eq!(check_aur_updates(None, None), 0);
}

const LOG: &str = "[2024-05-01T10:00:00+0200] [PACMAN] Running 'pacman -Syu'\n\
[2024-05-01T10:00:05+0200] [ALPM] upgraded linux (6.8 -> 6.9)\n\
[2024-05-02T09:00:00+0200] [PACMAN] Running 'pacman -S vim'\n\
[2024-05-02T09:00:02+0200] [ALPM] installed vim (9.1)\n";

#[test]
fn last_upgrade_in_the_pacman_log() {
    assert_eq!(last_upgrade_stamp(LOG), Some("2024-05-01T10:00:00+0200".to_string()));
    assert_eq!(last_upgrade_stamp("[x] [ALPM] upgraded a\n"), None);
    assert_eq!(last_upgrade_time(LOG), Some(1714550400));
    assert_eq!(last_upgrade_time("[garbage] [PACMAN] x\n[y] [ALPM] upgraded z\n"), None);
}

#[test]
fn ages_in_minutes_hours_days() {
    assert_eq!(format_age(-5), "0m");
    assert_eq!(format_age(3599), "59m");
    assert_eq!(format_age(3600), "1h");
    assert_eq!(format_age(86399), "23h");
    assert_eq!(format_age(172800), "2d");
}

#[test]
fn update_checks_rerun_on_change() {
    assert_eq!(plan_counts(Some(5), Some(4), false, Some((1, 2))), CountsPlan::Recheck);
    assert_eq!(plan_counts(Some(5), Some(5), true, Some((1, 2))), CountsPlan::Recheck);
    assert_eq!(plan_counts(Some(5), Some(5), false, Some((1, 2))), CountsPlan::Keep(1, 2));
    assert_eq!(plan_counts(None, None, false, None), CountsPlan::Keep(0, 0));
}

#[test]
fn updates_section_text() {
    assert_eq!(updates_text(0, 0, Some("3d".to_string()), true), None);
    assert_eq!(updates_text(3, 1, Some("2h".to_string()), false), Some("\u{f03d4} 4 2h".to_string()));
    assert_eq!(updates_text(3, 1, None, false), Some("\u{f03d4} 4".to_string()));
    assert_eq!(updates_text(3, 1, None, true), Some("\u{f03d4} 4 (3 repo, 1 aur) ? ago".to_string()));
}

#[test]
fn paymo_key_and_text() {
    assert_eq!(read_api_key("abc\n"), "abc");
    assert_eq!(read_api_key("abc"), "abc");
    assert_eq!(read_api_key("abc\n\n"), "abc\n");
    assert_eq!(paymo_text("Review", 3 * 3600 + 5 * 60 + 59), "\u{f10eb} Review: 03:05");
    assert_eq!(paymo_text("Late", -61), "\u{f10eb} Late: 00:-1");
    assert!(keeps_refreshing(false, false));
    assert!(!keeps_refreshing(true, false));
}

#[test]
fn paymo_running_task() {
    let d = paymo_data("k".to_string(), 7, Some(("Task".to_string(), "2024-05-01T10:00:00Z".to_string()))).ok().unwrap();
    assert_eq!(d.user_id, Some(7));
    let (name, (secs, nanos)) = d.running_task.unwrap();
    assert_eq!((name.as_str(), secs, nanos), ("Task", 1714557600, 0));
    let none = paymo_data("k".to_string(), 7, None).ok().unwrap();
    assert!(none.running_task.is_none());
    match paymo_data("k".to_string(), 7, Some(("T".to_string(), "yesterday".to_string()))) {
        Err(BarError::ChronoParse(_)) => {}
        _ => panic!("an unreadable start time is an error"),
    }
    let old = Some(PaymoData { api_key: Some("k".to_string()), user_id: Some(7), running_task: None });
    assert_eq!(cached_credentials(&old), (Some("k".to_string()), Some(7)));
    assert_eq!(cached_credentials(&None), (None, None));
}

#[test]
fn simple_items() {
    let h = HSpace::new(20);
    assert_eq!(h.0, 20);
    assert!(matches!(h.content(), ((0, 0, 0, 0), (0, 0, 0, 0), ShapeKind::HSpace(20))));
    assert_eq!(TestDisplay::new().text(), " Loading");
    let t = Time::new();
    assert_eq!(t.format(), "%a %d.%m %R");
    assert_eq!(t.text("Mon 01.05 10:00"), format!("\u{f0954} Mon 01.05 10:00{THIN_SPACE}"));
    let texts = WeatherIcons::new().texts();
    assert_eq!(texts.len(), 19);
    assert_eq!(texts[0], " \u{f0599}");
    assert_eq!(texts[18], " ");
}

#[test]
fn niri_socket_must_be_set() {
    match NiriCompositor::new(None) {
        Err(e) => assert_eq!(e.message(), "NIRI_SOCKET not set"),
        Ok(_) => panic!("no socket"),
    }
    let c = NiriCompositor::new(Some("/run/niri.sock".to_string())).ok().unwrap();
    assert_eq!(c.socket_path(), "/run/niri.sock");
    assert!(c.get_workspaces().is_empty());
    assert_eq!(socket_path(Some("/s".to_string())).ok(), Some("/s".to_string()));
    assert!(socket_path(None).is_err());
}

#[test]
fn config_paths() {
    assert_eq!(config_file_path(Some("/home/u/.config"), "paymo").ok(), Some("/home/u/.config/schrottbar/paymo".to_string()));
    match config_file_path(None, "paymo") {
        Err(e) => assert_eq!(e.message(), "Config directory unknown"),
        Ok(_) => panic!("no directory"),
    }
}

#[test]
fn io_errors_are_described_with_a_heading() {
    let e = BarError::from(std::io::Error::new(std::io::ErrorKind::NotFound, "gone"));
    assert!(e.message().starts_with("Io Error\n"));
    assert!(e.message().len() > "Io Error\n".len());
    assert_eq!(BarError::Local("x".to_string()).message(), "x");
}

#[test]
fn weather_section_texts() {
    let d = WeatherData {
        temp: -3,
        wmo_code: 0,
        condition: "Clear".to_string(),
        midnight_to_sunrise: 6 * 3600,
        midnight_to_sunset: 18 * 3600,
    };
    let (a, b) = weather_texts(&d, 12 * 3600);
    assert_eq!(a, format!("\u{f0599} Clear -3\u{b0}C{THIN_SPACE}"));
    assert_eq!(b, format!("\u{f059b} in 06:00{THIN_SPACE}"));
    let (a, b) = weather_texts(&d, 20 * 3600 + 30 * 60);
    assert_eq!(a, format!("\u{f0594} Clear -3\u{b0}C{THIN_SPACE}"));
    assert_eq!(b, format!("\u{f059c} in 09:30{THIN_SPACE}"));
    assert_eq!(no_weather_text(), format!("\u{f0164}{THIN_SPACE}"));
}
