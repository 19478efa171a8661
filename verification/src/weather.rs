//! Weather: condition names and icons for WMO weather codes, the mapping
//! from the codes of World Weather Online, sunrise and sunset times, and
//! the time left until the next of them.
use vstd::prelude::*;
use vstd::string::StringSliceAdditionalSpecFns;
use crate::num::{parse_bounded, parse_i32, parse_i64, parse_u32};
use crate::text::{chars_of, first_piece, second_piece, first_piece_exec, second_piece_exec};

verus! {

/// Integer division rounding toward zero, as Rust divides.
pub open spec fn div_trunc(a: int, b: int) -> int {
    if a >= 0 { a / b } else { -((-a) / b) }
}

/// Whole hours and remaining whole minutes of a duration of `secs`
/// seconds, both rounded toward zero.
pub open spec fn split_duration_spec(secs: int) -> (int, int) {
    let h = div_trunc(secs, 3600);
    (h, div_trunc(secs - h * 3600, 60))
}

/// Whole hours and remaining whole minutes of a duration given in whole
/// seconds (as `TimeDelta::num_hours` and `num_minutes` count them).
pub fn split_duration(secs: i64) -> (r: (i64, i64))
    ensures
        (r.0 as int, r.1 as int) == split_duration_spec(secs as int),
{
    let hours = secs / 3600;
    let minutes = (secs - hours * 3600) / 60;
    (hours, minutes)
}

} // verus!

verus! {

/// Largest whole number of seconds that a `chrono::TimeDelta` holds.
pub open spec fn delta_max_secs() -> int {
    9223372036854775
}

/// Splitting a duration into hours and minutes loses less than a minute:
/// the parts add back up to it, up to the leftover seconds.
pub proof fn law_split_duration_adds_up(secs: int)
    ensures
        ({
            let (h, m) = split_duration_spec(secs);
            let rest = secs - h * 3600 - m * 60;
            &&& -60 < rest < 60
            &&& (secs >= 0 ==> 0 <= rest && 0 <= m < 60)
            &&& (secs < 0 ==> rest <= 0 && -60 < m <= 0)
        }),
{
    let (h, m) = split_duration_spec(secs);
    if secs >= 0 {
        assert(0 <= secs - h * 3600 < 3600);
    } else {
        assert(-3600 < secs - h * 3600 <= 0);
    }
}

/// Condition named for a WMO weather code.
pub open spec fn wmo_condition_spec(code: u32) -> Seq<char> {
    if code == 0 { "Clear"@ }
    else if code == 1 { "Mostly Clear"@ }
    else if code == 2 { "Partly Cloudy"@ }
    else if code == 3 { "Overcast"@ }
    else if code == 45 || code == 48 { "Fog"@ }
    else if code == 51 || code == 53 || code == 55 { "Drizzle"@ }
    else if code == 56 || code == 57 { "Freezing Drizzle"@ }
    else if code == 61 || code == 63 || code == 65 { "Rain"@ }
    else if code == 66 || code == 67 { "Freezing Rain"@ }
    else if code == 71 || code == 73 || code == 75 { "Snow"@ }
    else if code == 77 { "Snow Grains"@ }
    else if 80 <= code && code <= 82 { "Rain Showers"@ }
    else if code == 85 || code == 86 { "Snow Showers"@ }
    else if code == 95 { "Thunderstorm"@ }
    else if code == 96 || code == 99 { "Thunderstorm w/ Hail"@ }
    else { "Unknown"@ }
}

/// The WMO codes that have a condition name of their own.
pub open spec fn wmo_named(code: u32) -> bool {
    code <= 3 || code == 45 || code == 48 || (51 <= code && code <= 57 && code % 2 == 1)
        || code == 61 || code == 63 || code == 65 || code == 66 || code == 67 || code == 71
        || code == 73 || code == 75 || code == 77 || (80 <= code && code <= 82) || code == 85
        || code == 86 || code == 95 || code == 96 || code == 99
}

/// Human-readable condition of a WMO weather code.
pub fn wmo_condition(code: u32) -> (r: &'static str)
    ensures
        r@ == wmo_condition_spec(code),
{
    match code {
        0 => "Clear",
        1 => "Mostly Clear",
        2 => "Partly Cloudy",
        3 => "Overcast",
        45 | 48 => "Fog",
        51 | 53 | 55 => "Drizzle",
        56 | 57 => "Freezing Drizzle",
        61 | 63 | 65 => "Rain",
        66 | 67 => "Freezing Rain",
        71 | 73 | 75 => "Snow",
        77 => "Snow Grains",
        80..=82 => "Rain Showers",
        85 | 86 => "Snow Showers",
        95 => "Thunderstorm",
        96 | 99 => "Thunderstorm w/ Hail",
        _ => "Unknown",
    }
}

/// WMO code for a World Weather Online condition code.
pub open spec fn wwo_to_wmo_spec(wwo: u32) -> u32 {
    if wwo == 113 { 0 }
    else if wwo == 116 { 2 }
    else if wwo == 119 || wwo == 122 { 3 }
    else if wwo == 143 { 45 }
    else if wwo == 176 || wwo == 263 || wwo == 266 { 51 }
    else if wwo == 179 || wwo == 323 || wwo == 326 { 71 }
    else if wwo == 182 || wwo == 185 { 66 }
    else if wwo == 200 || wwo == 386 || wwo == 389 { 95 }
    else if wwo == 248 || wwo == 260 { 45 }
    else if wwo == 293 || wwo == 296 || wwo == 353 { 61 }
    else if wwo == 299 || wwo == 302 || wwo == 356 { 63 }
    else if wwo == 305 || wwo == 308 || wwo == 359 { 65 }
    else if wwo == 311 || wwo == 314 { 67 }
    else if wwo == 317 || wwo == 320 { 66 }
    else if wwo == 329 || wwo == 332 { 73 }
    else if wwo == 335 || wwo == 338 { 75 }
    else if wwo == 227 || wwo == 230 { 75 }
    else if wwo == 350 || wwo == 362 || wwo == 365 || wwo == 374 || wwo == 377 { 77 }
    else if wwo == 368 || wwo == 371 { 85 }
    else if wwo == 392 || wwo == 395 { 96 }
    else if wwo == 281 || wwo == 284 { 67 }
    else { 3 }
}

/// Converts a World Weather Online condition code to a WMO code (overcast
/// for unknown codes).
pub fn wwo_to_wmo(wwo: u32) -> (r: u32)
    ensures
        r == wwo_to_wmo_spec(wwo),
{
    match wwo {
        113 => 0,
        116 => 2,
        119 => 3,
        122 => 3,
        143 => 45,
        176 | 263 | 266 => 51,
        179 | 323 | 326 => 71,
        182 | 185 => 66,
        200 | 386 | 389 => 95,
        248 | 260 => 45,
        293 | 296 | 353 => 61,
        299 | 302 | 356 => 63,
        305 | 308 | 359 => 65,
        311 | 314 => 67,
        317 | 320 => 66,
        329 | 332 => 73,
        335 | 338 => 75,
        227 | 230 => 75,
        350 | 362 | 365 | 374 | 377 => 77,
        368 | 371 => 85,
        392 | 395 => 96,
        281 | 284 => 67,
        _ => 3,
    }
}

/// Current weather, from whichever provider answered.
pub struct WeatherData {
    pub temp: i32,
    /// WMO weather interpretation code (0-99).
    pub wmo_code: u32,
    pub condition: String,
    /// Time from midnight to sunrise, in seconds.
    pub midnight_to_sunrise: i64,
    /// Time from midnight to sunset, in seconds.
    pub midnight_to_sunset: i64,
}

/// Icon for a WMO code at `since` seconds after midnight (the sun or the
/// moon for clear skies, depending on the time of day).
pub open spec fn weather_icon_spec(code: u32, sunrise: int, sunset: int, since: int) -> char {
    if code == 0 || code == 1 {
        if since > sunrise && since < sunset { '\u{f0599}' } else { '\u{f0594}' }
    } else if code == 2 { '\u{f0595}' }
    else if code == 3 { '\u{f0163}' }
    else if code == 45 || code == 48 { '\u{f0591}' }
    else if code == 51 || code == 53 || code == 55 || code == 56 || code == 57 { '\u{f0597}' }
    else if code == 61 || code == 63 || code == 80 || code == 81 { '\u{f0597}' }
    else if code == 65 || code == 82 { '\u{f0596}' }
    else if code == 66 || code == 67 { '\u{f0592}' }
    else if code == 71 || code == 77 || code == 85 { '\u{f0598}' }
    else if code == 73 || code == 75 || code == 86 { '\u{f059a}' }
    else if code == 95 || code == 96 || code == 99 { '\u{f059e}' }
    else { '?' }
}

/// Icon for the weather `data` at `since_midnight` seconds after midnight.
pub fn weather_icon(data: &WeatherData, since_midnight: i64) -> (r: char)
    ensures
        r == weather_icon_spec(data.wmo_code, data.midnight_to_sunrise as int,
            data.midnight_to_sunset as int, since_midnight as int),
{
    match data.wmo_code {
        0 | 1 => {
            let is_day = since_midnight > data.midnight_to_sunrise
                && since_midnight < data.midnight_to_sunset;
            if is_day { '\u{f0599}' } else { '\u{f0594}' }
        },
        2 => '\u{f0595}',
        3 => '\u{f0163}',
        45 | 48 => '\u{f0591}',
        51 | 53 | 55 | 56 | 57 => '\u{f0597}',
        61 | 63 | 80 | 81 => '\u{f0597}',
        65 | 82 => '\u{f0596}',
        66 | 67 => '\u{f0592}',
        71 | 77 | 85 => '\u{f0598}',
        73 | 75 | 86 => '\u{f059a}',
        95 | 96 | 99 => '\u{f059e}',
        _ => '?',
    }
}

/// The length and first letter of each condition name, which tell them
/// apart.
proof fn lemma_condition_name_shapes()
    ensures
        "Clear"@.len() == 5 && "Clear"@[0] == 'C',
        "Mostly Clear"@.len() == 12 && "Mostly Clear"@[0] == 'M',
        "Partly Cloudy"@.len() == 13 && "Partly Cloudy"@[0] == 'P',
        "Overcast"@.len() == 8 && "Overcast"@[0] == 'O',
        "Fog"@.len() == 3 && "Fog"@[0] == 'F',
        "Drizzle"@.len() == 7 && "Drizzle"@[0] == 'D',
        "Freezing Drizzle"@.len() == 16 && "Freezing Drizzle"@[0] == 'F',
        "Rain"@.len() == 4 && "Rain"@[0] == 'R',
        "Freezing Rain"@.len() == 13 && "Freezing Rain"@[0] == 'F',
        "Snow"@.len() == 4 && "Snow"@[0] == 'S',
        "Snow Grains"@.len() == 11 && "Snow Grains"@[0] == 'S',
        "Rain Showers"@.len() == 12 && "Rain Showers"@[0] == 'R',
        "Snow Showers"@.len() == 12 && "Snow Showers"@[0] == 'S',
        "Thunderstorm"@.len() == 12 && "Thunderstorm"@[0] == 'T',
        "Thunderstorm w/ Hail"@.len() == 20 && "Thunderstorm w/ Hail"@[0] == 'T',
        "Unknown"@.len() == 7 && "Unknown"@[0] == 'U',
{
    reveal_strlit("Clear");
    reveal_strlit("Mostly Clear");
    reveal_strlit("Partly Cloudy");
    reveal_strlit("Overcast");
    reveal_strlit("Fog");
    reveal_strlit("Drizzle");
    reveal_strlit("Freezing Drizzle");
    reveal_strlit("Rain");
    reveal_strlit("Freezing Rain");
    reveal_strlit("Snow");
    reveal_strlit("Snow Grains");
    reveal_strlit("Rain Showers");
    reveal_strlit("Snow Showers");
    reveal_strlit("Thunderstorm");
    reveal_strlit("Thunderstorm w/ Hail");
    reveal_strlit("Unknown");
}

/// The icon of a code agrees with its condition name: rain (light or heavy,
/// showers too) gets a rain icon, snow of every kind a snow icon, and so on
/// for each kind of weather; a rain icon goes only to rain and drizzle, a
/// snow icon only to snow. Clear skies show the sun between sunrise and
/// sunset and the moon otherwise.
pub proof fn law_icon_matches_condition(code: u32, sunrise: int, sunset: int, since: int)
    ensures
        ({
            let name = wmo_condition_spec(code);
            let icon = weather_icon_spec(code, sunrise, sunset, since);
            &&& (name == "Clear"@ || name == "Mostly Clear"@) ==>
                icon == (if sunrise < since < sunset { '\u{f0599}' } else { '\u{f0594}' })
            &&& name == "Partly Cloudy"@ ==> icon == '\u{f0595}'
            &&& name == "Overcast"@ ==> icon == '\u{f0163}'
            &&& name == "Fog"@ ==> icon == '\u{f0591}'
            &&& (name == "Drizzle"@ || name == "Freezing Drizzle"@) ==> icon == '\u{f0597}'
            &&& (name == "Rain"@ || name == "Rain Showers"@) ==>
                (icon == '\u{f0597}' || icon == '\u{f0596}')
            &&& name == "Freezing Rain"@ ==> icon == '\u{f0592}'
            &&& (name == "Snow"@ || name == "Snow Grains"@ || name == "Snow Showers"@) ==>
                (icon == '\u{f0598}' || icon == '\u{f059a}')
            &&& (name == "Thunderstorm"@ || name == "Thunderstorm w/ Hail"@) ==> icon == '\u{f059e}'
            &&& name == "Unknown"@ ==> icon == '?'
            &&& icon == '\u{f0596}' ==> (name == "Rain"@ || name == "Rain Showers"@)
            &&& icon == '\u{f0597}' ==>
                (name == "Rain"@ || name == "Rain Showers"@ || name == "Drizzle"@ || name == "Freezing Drizzle"@)
            &&& (icon == '\u{f0598}' || icon == '\u{f059a}') ==>
                (name == "Snow"@ || name == "Snow Grains"@ || name == "Snow Showers"@)
        }),
{
    lemma_condition_name_shapes();
}

/// Every World Weather Online code becomes a WMO code that has a condition
/// name and an icon of its own.
pub proof fn law_wwo_codes_are_known(wwo: u32, sunrise: int, sunset: int, since: int)
    ensures
        wmo_named(wwo_to_wmo_spec(wwo)),
        weather_icon_spec(wwo_to_wmo_spec(wwo), sunrise, sunset, since) != '?',
{
}

/// The next sun event after `since` seconds past midnight: the sunrise
/// icon and the time until sunrise (tomorrow's, after sunset), or the
/// sunset icon and the time until sunset.
pub open spec fn next_event_spec(sunrise: int, sunset: int, since: int) -> (char, int) {
    if since < sunrise {
        ('\u{f059c}', sunrise - since)
    } else if since < sunset {
        ('\u{f059b}', sunset - since)
    } else {
        ('\u{f059c}', sunrise - (since - 86400))
    }
}

/// The next sun event and the time left until it, in seconds.
pub fn next_event(data: &WeatherData, since_midnight: i64) -> (r: (char, i64))
    requires
        -delta_max_secs() <= data.midnight_to_sunrise <= delta_max_secs(),
        -delta_max_secs() <= data.midnight_to_sunset <= delta_max_secs(),
        -delta_max_secs() + 86400 <= since_midnight <= delta_max_secs(),
        -delta_max_secs() <= data.midnight_to_sunrise - since_midnight + 86400 <= delta_max_secs(),
    ensures
        (r.0, r.1 as int) == next_event_spec(data.midnight_to_sunrise as int,
            data.midnight_to_sunset as int, since_midnight as int),
{
    if since_midnight < data.midnight_to_sunrise {
        ('\u{f059c}', data.midnight_to_sunrise - since_midnight)
    } else if since_midnight < data.midnight_to_sunset {
        ('\u{f059b}', data.midnight_to_sunset - since_midnight)
    } else {
        let since = since_midnight - 86400;
        ('\u{f059c}', data.midnight_to_sunrise - since)
    }
}

/// Within a day whose sunrise comes no later than its sunset, the next sun
/// event is always ahead, and at most a day away.
pub proof fn law_next_event_within_a_day(sunrise: int, sunset: int, since: int)
    requires
        0 <= since < 86400,
        0 <= sunrise <= sunset <= 86400,
    ensures
        0 < next_event_spec(sunrise, sunset, since).1 <= 86400,
{
}

/// Minutes after midnight of an ISO 8601 date and time such as
/// `2026-03-20T06:30`; hours default to 12 and minutes to 0 where the text
/// gives none that can be read.
pub open spec fn iso_minutes(iso: Seq<char>) -> int {
    let tp = match second_piece(iso, 'T') {
        Some(x) => x,
        None => "12:00"@,
    };
    let hours = match parse_bounded(first_piece(tp, ':'), true, i64::MIN as int, i64::MAX as int) {
        Some(v) => v,
        None => 12,
    };
    let mstr = match second_piece(tp, ':') {
        Some(x) => x,
        None => "0"@,
    };
    let minutes = match parse_bounded(mstr, true, i64::MIN as int, i64::MAX as int) {
        Some(v) => v,
        None => 0,
    };
    hours * 60 + minutes
}

/// Hours part read from the time of an ISO date and time (12 by default).
pub open spec fn iso_hours(iso: Seq<char>) -> int {
    let tp = match second_piece(iso, 'T') {
        Some(x) => x,
        None => "12:00"@,
    };
    match parse_bounded(first_piece(tp, ':'), true, i64::MIN as int, i64::MAX as int) {
        Some(v) => v,
        None => 12,
    }
}

/// Duration from midnight, in seconds, of an ISO 8601 date and time such as
/// `2026-03-20T06:30`.
pub fn iso_time_to_duration(iso: &str) -> (r: i64)
    requires
        i64::MIN <= iso_hours(iso@) * 60 <= i64::MAX,
        i64::MIN <= iso_minutes(iso@) <= i64::MAX,
        -delta_max_secs() <= iso_minutes(iso@) * 60 <= delta_max_secs(),
    ensures
        r == iso_minutes(iso@) * 60,
{
    let s = chars_of(iso);
    let tp = match second_piece_exec(s.as_slice(), 'T') {
        Some(x) => x,
        None => chars_of("12:00"),
    };
    let hstr = first_piece_exec(tp.as_slice(), ':');
    let hours: i64 = match parse_i64(hstr.as_slice()) {
        Some(v) => v,
        None => 12,
    };
    let mstr = match second_piece_exec(tp.as_slice(), ':') {
        Some(x) => x,
        None => chars_of("0"),
    };
    let minutes: i64 = match parse_i64(mstr.as_slice()) {
        Some(v) => v,
        None => 0,
    };
    (hours * 60 + minutes) * 60
}

/// Seconds after midnight of a 12-hour time such as `06:30 AM`, read byte
/// by byte: two digits of hours, two of minutes, and 12 hours more when the
/// seventh byte is `P`.
pub open spec fn am_pm_secs(b: Seq<u8>) -> int {
    let hours = 10 * (b[0] - 48) + (b[1] - 48) + if b[6] == 80 { 12int } else { 0int };
    let minutes = 10 * (b[3] - 48) + (b[4] - 48);
    (hours * 60 + minutes) * 60
}

/// Duration from midnight, in seconds, of a time such as `06:30 AM`.
pub fn am_pm_to_duration_since_midnight(text: &str) -> (r: i64)
    requires
        text.spec_bytes().len() >= 7,
    ensures
        r == am_pm_secs(text.spec_bytes()),
{
    let bytes = text.as_bytes();
    let mut hours: i64 = 10 * (bytes[0] as i64 - 48) + (bytes[1] as i64 - 48);
    let minutes: i64 = 10 * (bytes[3] as i64 - 48) + (bytes[4] as i64 - 48);
    if bytes[6] == 80u8 {
        hours += 12;
    }
    (hours * 60 + minutes) * 60
}

/// Weather as the open-meteo service reports it: the rounded temperature,
/// the WMO code, and sunrise and sunset as ISO 8601 dates and times.
pub fn weather_from_openmeteo(temp: i32, code: u32, sunrise: &str, sunset: &str) -> (w: WeatherData)
    requires
        i64::MIN <= iso_hours(sunrise@) * 60 <= i64::MAX,
        i64::MIN <= iso_minutes(sunrise@) <= i64::MAX,
        -delta_max_secs() <= iso_minutes(sunrise@) * 60 <= delta_max_secs(),
        i64::MIN <= iso_hours(sunset@) * 60 <= i64::MAX,
        i64::MIN <= iso_minutes(sunset@) <= i64::MAX,
        -delta_max_secs() <= iso_minutes(sunset@) * 60 <= delta_max_secs(),
    ensures
        w.temp == temp,
        w.wmo_code == code,
        w.condition@ == wmo_condition_spec(code),
        w.midnight_to_sunrise == iso_minutes(sunrise@) * 60,
        w.midnight_to_sunset == iso_minutes(sunset@) * 60,
{
    let condition = wmo_condition(code).to_owned();
    WeatherData {
        temp,
        wmo_code: code,
        condition,
        midnight_to_sunrise: iso_time_to_duration(sunrise),
        midnight_to_sunset: iso_time_to_duration(sunset),
    }
}

/// Weather as wttr.in reports it: temperature and condition code as text
/// (0 where they cannot be read), the condition's description, and
/// sunrise and sunset as 12-hour times.
pub fn weather_from_wttrin(temp_c: &str, code: &str, condition: String, sunrise: &str, sunset: &str) -> (w: WeatherData)
    requires
        sunrise.spec_bytes().len() >= 7,
        sunset.spec_bytes().len() >= 7,
    ensures
        w.temp as int == match parse_bounded(temp_c@, true, i32::MIN as int, i32::MAX as int) {
            Some(v) => v,
            None => 0,
        },
        w.wmo_code == wwo_to_wmo_spec(match parse_bounded(code@, false, 0, u32::MAX as int) {
            Some(v) => v as u32,
            None => 0,
        }),
        w.condition == condition,
        w.midnight_to_sunrise == am_pm_secs(sunrise.spec_bytes()),
        w.midnight_to_sunset == am_pm_secs(sunset.spec_bytes()),
{
    let t = chars_of(temp_c);
    let temp: i32 = match parse_i32(t.as_slice()) {
        Some(v) => v,
        None => 0,
    };
    let c = chars_of(code);
    let wwo: u32 = match parse_u32(c.as_slice()) {
        Some(v) => v,
        None => 0,
    };
    WeatherData {
        temp,
        wmo_code: wwo_to_wmo(wwo),
        condition,
        midnight_to_sunrise: am_pm_to_duration_since_midnight(sunrise),
        midnight_to_sunset: am_pm_to_duration_since_midnight(sunset),
    }
}

/// The weather to show from the two providers: open-meteo when it
/// answered, wttr.in otherwise.
pub fn choose_weather(wttrin: Option<WeatherData>, openmeteo: Option<WeatherData>) -> (r: Option<WeatherData>)
    ensures
        r == if openmeteo is Some { openmeteo } else { wttrin },
{
    if openmeteo.is_some() {
        openmeteo
    } else if wttrin.is_some() {
        wttrin
    } else {
        None
    }
}

} // verus!
