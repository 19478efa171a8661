use schrottbar::num::{parse_i32, parse_i64, parse_u32};
use schrottbar::text::{next_word_exec, split_lines, text_lt_exec, trim_chars};
use schrottbar::weather::{
    am_pm_to_duration_since_midnight, choose_weather, iso_time_to_duration, next_event, split_duration, weather_from_openmeteo,
    weather_from_wttrin, weather_icon, wmo_condition, wwo_to_wmo, WeatherData,
};

fn chars(s: &str) -> Vec<char> {
    s.chars().collect()
}

fn data(code: u32) -> WeatherData {
    WeatherData { temp: 20, wmo_code: code, condition: String::new(), midnight_to_sunrise: 6 * 3600, midnight_to_sunset: 20 * 3600 }
}

#[test]
fn wmo_conditions() {
    assert_eq!(wmo_condition(0), "Clear");
    assert_eq!(wmo_condition(48), "Fog");
    assert_eq!(wmo_condition(81), "Rain Showers");
    assert_eq!(wmo_condition(99), "Thunderstorm w/ Hail");
    assert_eq!(wmo_condition(4), "Unknown");
}

#[test]
fn wwo_codes_map_to_wmo() {
    assert_eq!(wwo_to_wmo(113), 0);
    assert_eq!(wwo_to_wmo(116), 2);
    assert_eq!(wwo_to_wmo(389), 95);
    assert_eq!(wwo_to_wmo(395), 96);
    assert_eq!(wwo_to_wmo(999), 3);
    for wwo in 0..1000u32 {
        assert_ne!(wmo_condition(wwo_to_wmo(wwo)), "Unknown");
        assert_ne!(weather_icon(&data(wwo_to_wmo(wwo)), 0), '?');
    }
}

#[test]
fn clear_sky_icon_depends_on_daylight() {
    assert_eq!(weather_icon(&data(0), 12 * 3600), '\u{f0599}');
    assert_eq!(weather_icon(&data(1), 6 * 3600), '\u{f0594}');
    assert_eq!(weather_icon(&data(1), 21 * 3600), '\u{f0594}');
    assert_eq!(weather_icon(&data(3), 12 * 3600), '\u{f0163}');
    assert_eq!(weather_icon(&data(4), 12 * 3600), '?');
}

#[test]
fn next_sun_event() {
    let d = data(0);
    assert_eq!(next_event(&d, 5 * 3600), ('\u{f059c}', 3600));
    assert_eq!(next_event(&d, 12 * 3600), ('\u{f059b}', 8 * 3600));
    assert_eq!(next_event(&d, 22 * 3600), ('\u{f059c}', 8 * 3600));
}

#[test]
fn durations_split_into_hours_and_minutes() {
    assert_eq!(split_duration(3 * 3600 + 7 * 60 + 30), (3, 7));
    assert_eq!(split_duration(59), (0, 0));
    assert_eq!(split_duration(-3661), (-1, -1));
    let (h, m) = split_duration(12345);
    let rest = 12345 - h * 3600 - m * 60;
    assert!((0..60).contains(&rest));
}

#[test]
fn iso_and_am_pm_times() {
    assert_eq!(iso_time_to_duration("2026-03-20T06:30"), 23400);
    assert_eq!(iso_time_to_duration("2026-03-20"), 43200);
    assert_eq!(iso_time_to_duration("2026-03-20Tx:15"), 44100);
    assert_eq!(am_pm_to_duration_since_midnight("06:30 AM"), 23400);
    assert_eq!(am_pm_to_duration_since_midnight("06:30 PM"), 66600);
}

#[test]
fn weather_from_providers() {
    let w = weather_from_openmeteo(12, 61, "2026-03-20T06:30", "2026-03-20T18:45");
    assert_eq!((w.temp, w.wmo_code, w.condition.as_str()), (12, 61, "Rain"));
    assert_eq!((w.midnight_to_sunrise, w.midnight_to_sunset), (23400, 67500));
    let w = weather_from_wttrin("-4", "113", "Sunny".to_string(), "07:05 AM", "05:10 PM");
    assert_eq!((w.temp, w.wmo_code, w.condition.as_str()), (-4, 0, "Sunny"));
    assert_eq!((w.midnight_to_sunrise, w.midnight_to_sunset), (25500, 61800));
    let w = weather_from_wttrin("warm", "x", String::new(), "07:05 AM", "05:10 PM");
    assert_eq!((w.temp, w.wmo_code), (0, 3));
}

#[test]
fn open_meteo_is_preferred() {
    let a = choose_weather(Some(data(1)), Some(data(2))).unwrap();
    assert_eq!(a.wmo_code, 2);
    let b = choose_weather(Some(data(1)), None).unwrap();
    assert_eq!(b.wmo_code, 1);
    assert!(choose_weather(None, None).is_none());
}

#[test]
fn integers_parse_as_rust_reads_them() {
    assert_eq!(parse_i32(&chars("-52")), Some(-52));
    assert_eq!(parse_i32(&chars("+7")), Some(7));
    assert_eq!(parse_i32(&chars("2147483648")), None);
    assert_eq!(parse_i32(&chars("-")), None);
    assert_eq!(parse_i32(&chars("")), None);
    assert_eq!(parse_i32(&chars(" 1")), None);
    assert_eq!(parse_u32(&chars("-1")), None);
    assert_eq!(parse_u32(&chars("4294967295")), Some(4294967295));
    assert_eq!(parse_i64(&chars("-9223372036854775808")), Some(i64::MIN));
}

#[test]
fn text_helpers() {
    let (w, rest) = next_word_exec(&chars("  eth0\t0000 x")).unwrap();
    assert_eq!(w, chars("eth0"));
    assert_eq!(rest, chars("\t0000 x"));
    assert!(next_word_exec(&chars(" \t ")).is_none());
    assert_eq!(split_lines(&chars("a\r\nb\n\nc")), vec![chars("a"), chars("b"), chars(""), chars("c")]);
    assert_eq!(trim_chars(&chars("\u{a0} x \n")), chars("x"));
    assert!(text_lt_exec(&chars("ab"), &chars("b")));
    assert!(text_lt_exec(&chars("a"), &chars("ab")));
    assert!(!text_lt_exec(&chars("ab"), &chars("ab")));
}
