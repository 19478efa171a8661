//! The bar's simpler items and the texts that its items write: horizontal
//! space, the clock, the test display, the weather icon sampler, the niri
//! compositor handle, and the weather section.
use vstd::prelude::*;
use crate::error::BarError;
use crate::layout::ShapeKind;
use crate::paymo::{pad2, push_pad2};
use crate::text::{push_char, push_str, push_signed_decimal, signed_decimal};
use crate::tray::texts;
use crate::types::RGBA;
use crate::weather::{
    WeatherData, weather_icon, weather_icon_spec, next_event, next_event_spec, delta_max_secs,
    split_duration, split_duration_spec,
};

verus! {

/// The thin space (U+2009) that ends the clock's and the weather's texts.
pub const THIN_SPACE: char = '\u{2009}';

/// An empty stretch of the bar, as many pixels wide as its field says.
pub struct HSpace(pub u32);

impl HSpace {
    /// An empty stretch `width` pixels wide.
    pub fn new(width: u32) -> (r: HSpace)
        ensures
            r.0 == width,
    {
        HSpace(width)
    }

    /// What the stretch puts on the bar: transparent colors and its width.
    pub fn content(&self) -> (r: (RGBA, RGBA, ShapeKind))
        ensures
            r == ((0u8, 0u8, 0u8, 0u8), (0u8, 0u8, 0u8, 0u8), ShapeKind::HSpace(self.0)),
    {
        ((0, 0, 0, 0), (0, 0, 0, 0), ShapeKind::HSpace(self.0))
    }
}

/// A demonstration item: a spinner and a loading text.
pub struct TestDisplay;

impl TestDisplay {
    /// The demonstration item.
    pub fn new() -> (r: TestDisplay) {
        TestDisplay
    }

    /// The text written after the spinner.
    pub fn text(&self) -> (r: String)
        ensures
            r@ == " Loading"@,
    {
        " Loading".to_owned()
    }
}

/// The clock, with its `strftime` format.
pub struct Time {
    format: String,
}

impl Time {
    /// The clock: weekday, day, month, hours and minutes.
    pub fn new() -> (r: Time)
        ensures
            r.format_text() == "%a %d.%m %R"@,
    {
        Time { format: "%a %d.%m %R".to_owned() }
    }

    /// The clock's format.
    pub closed spec fn format_text(&self) -> Seq<char> {
        self.format@
    }

    /// The clock's format.
    pub fn format(&self) -> (r: &str)
        ensures
            r@ == self.format_text(),
    {
        self.format.as_str()
    }

    /// The clock's text for the current time `now` (as formatted with
    /// the clock's format): a clock icon, the time and a thin space.
    pub fn text(&self, now: &str) -> (r: String)
        ensures
            r@ == seq!['\u{f0954}', ' '] + now@ + seq![THIN_SPACE],
    {
        let mut r = String::new();
        push_char(&mut r, '\u{f0954}');
        push_char(&mut r, ' ');
        push_str(&mut r, now);
        push_char(&mut r, THIN_SPACE);
        assert(r@ =~= seq!['\u{f0954}', ' '] + now@ + seq![THIN_SPACE]);
        r
    }
}

/// A sampler of the weather icons of the Material Design set.
pub struct WeatherIcons;

/// The weather icons of the Material Design set, in the sampler's order.
pub open spec fn md_weather_icons() -> Seq<char> {
    seq![
        '\u{f0599}', '\u{f0594}', '\u{f0163}', '\u{f0591}', '\u{f0597}', '\u{f0596}',
        '\u{f059e}', '\u{f0598}', '\u{f059a}', '\u{f0592}', '\u{f059d}', '\u{f0595}',
        '\u{f0f31}', '\u{f059c}', '\u{f059b}', '\u{f050f}', '\u{f0f2f}', '\u{f0164}',
    ]
}

impl WeatherIcons {
    /// The sampler.
    pub fn new() -> (r: WeatherIcons) {
        WeatherIcons
    }

    /// The texts that the sampler writes: each icon after a space, then a
    /// space.
    pub fn texts(&self) -> (r: Vec<String>)
        ensures
            texts(r@).len() == md_weather_icons().len() + 1,
            forall|k: int| 0 <= k < md_weather_icons().len() ==>
                #[trigger] texts(r@)[k] == seq![' ', md_weather_icons()[k]],
            texts(r@)[md_weather_icons().len() as int] == seq![' '],
    {
        let icons: [char; 18] = [
            '\u{f0599}', '\u{f0594}', '\u{f0163}', '\u{f0591}', '\u{f0597}', '\u{f0596}',
            '\u{f059e}', '\u{f0598}', '\u{f059a}', '\u{f0592}', '\u{f059d}', '\u{f0595}',
            '\u{f0f31}', '\u{f059c}', '\u{f059b}', '\u{f050f}', '\u{f0f2f}', '\u{f0164}',
        ];
        assert(icons@ =~= md_weather_icons());
        let mut r: Vec<String> = Vec::new();
        let mut i: usize = 0;
        while i < 18
            invariant
                icons@ == md_weather_icons(),
                i <= 18,
                texts(r@).len() == i,
                forall|k: int| 0 <= k < i ==> #[trigger] texts(r@)[k] == seq![' ', md_weather_icons()[k]],
            decreases 18 - i,
        {
            let mut s = String::new();
            push_char(&mut s, ' ');
            push_char(&mut s, icons[i]);
            assert(s@ =~= seq![' ', md_weather_icons()[i as int]]);
            let ghost before = texts(r@);
            r.push(s);
            assert(texts(r@) =~= before.push(s@));
            i += 1;
        }
        let mut s = String::new();
        push_char(&mut s, ' ');
        assert(s@ =~= seq![' ']);
        let ghost before = texts(r@);
        r.push(s);
        assert(texts(r@) =~= before.push(s@));
        r
    }
}

/// The compositor module for niri: the path of niri's socket.
pub struct NiriCompositor {
    socket_path: String,
}

impl NiriCompositor {
    /// The module for the socket named by the `NIRI_SOCKET` environment
    /// variable (`socket_env` is its value, where it is set).
    pub fn new(socket_env: Option<String>) -> (r: Result<NiriCompositor, BarError>)
        ensures
            match socket_env {
                Some(p) => r matches Ok(c) && c.socket() == p@,
                None => r matches Err(e) && (e matches BarError::Local(m) && m@ == "NIRI_SOCKET not set"@),
            },
    {
        match socket_env {
            Some(p) => Ok(NiriCompositor { socket_path: p }),
            None => Err(BarError::Local("NIRI_SOCKET not set".to_owned())),
        }
    }

    /// The path of niri's socket.
    pub closed spec fn socket(&self) -> Seq<char> {
        self.socket_path@
    }

    /// The path of niri's socket.
    pub fn socket_path(&self) -> (r: &str)
        ensures
            r@ == self.socket(),
    {
        self.socket_path.as_str()
    }

    /// The workspaces that the module reports: none (the module does not
    /// query niri yet).
    pub fn get_workspaces(&self) -> (r: Vec<crate::types::WorkspaceInfo>)
        ensures
            r@.len() == 0,
    {
        Vec::new()
    }
}

/// The path of niri's socket, from the value of `NIRI_SOCKET` (where it is
/// set).
pub fn socket_path(socket_env: Option<String>) -> (r: Result<String, BarError>)
    ensures
        match socket_env {
            Some(p) => r == Ok::<String, BarError>(p),
            None => r matches Err(e) && (e matches BarError::Local(m) && m@ == "NIRI_SOCKET not set"@),
        },
{
    match socket_env {
        Some(p) => Ok(p),
        None => Err(BarError::Local("NIRI_SOCKET not set".to_owned())),
    }
}

/// The weather section's first text: the condition's icon and name and the
/// temperature in degrees Celsius, then a thin space.
pub open spec fn weather_now_spec(data: WeatherData, since: int) -> Seq<char> {
    seq![weather_icon_spec(data.wmo_code, data.midnight_to_sunrise as int, data.midnight_to_sunset as int, since), ' ']
        + data.condition@ + seq![' '] + signed_decimal(data.temp as int) + seq!['\u{b0}', 'C', THIN_SPACE]
}

/// The weather section's second text: the next sun event's icon and the
/// time until it in hours and minutes, then a thin space.
pub open spec fn weather_next_spec(data: WeatherData, since: int) -> Seq<char> {
    let (icon, left) = next_event_spec(data.midnight_to_sunrise as int, data.midnight_to_sunset as int, since);
    let (h, m) = split_duration_spec(left);
    seq![icon] + " in "@ + pad2(h) + seq![':'] + pad2(m) + seq![THIN_SPACE]
}

/// The two texts of the weather section for `data` at `since_midnight`
/// seconds after midnight.
pub fn weather_texts(data: &WeatherData, since_midnight: i64) -> (r: (String, String))
    requires
        -delta_max_secs() <= data.midnight_to_sunrise <= delta_max_secs(),
        -delta_max_secs() <= data.midnight_to_sunset <= delta_max_secs(),
        -delta_max_secs() + 86400 <= since_midnight <= delta_max_secs(),
        -delta_max_secs() <= data.midnight_to_sunrise - since_midnight + 86400 <= delta_max_secs(),
    ensures
        r.0@ == weather_now_spec(*data, since_midnight as int),
        r.1@ == weather_next_spec(*data, since_midnight as int),
{
    let icon = weather_icon(data, since_midnight);
    let mut a = String::new();
    push_char(&mut a, icon);
    push_char(&mut a, ' ');
    push_str(&mut a, data.condition.as_str());
    push_char(&mut a, ' ');
    push_signed_decimal(&mut a, data.temp as i64);
    push_char(&mut a, '\u{b0}');
    push_char(&mut a, 'C');
    push_char(&mut a, THIN_SPACE);
    assert(a@ =~= weather_now_spec(*data, since_midnight as int));
    let (icon2, left) = next_event(data, since_midnight);
    let (h, m) = split_duration(left);
    let mut b = String::new();
    push_char(&mut b, icon2);
    push_str(&mut b, " in ");
    push_pad2(&mut b, h);
    push_char(&mut b, ':');
    push_pad2(&mut b, m);
    push_char(&mut b, THIN_SPACE);
    assert(b@ =~= weather_next_spec(*data, since_midnight as int));
    (a, b)
}

/// The weather section's text while no provider has answered.
pub fn no_weather_text() -> (r: String)
    ensures
        r@ == seq!['\u{f0164}', THIN_SPACE],
{
    let mut r = String::new();
    push_char(&mut r, '\u{f0164}');
    push_char(&mut r, THIN_SPACE);
    assert(r@ =~= seq!['\u{f0164}', THIN_SPACE]);
    r
}

} // verus!
