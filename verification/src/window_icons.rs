//! Icons for windows: chosen from a window's application id, or, for
//! browsers, editors and terminals, from its title.
use vstd::prelude::*;
use crate::text::{
    chars_of, contains_str, ends_with_str, has_prefix, has_sub, has_suffix, lowercase, push_char,
    starts_with_str, to_lowercase,
};

verus! {

/// The application id, lower-cased, names a browser.
pub open spec fn browser_id(id: Seq<char>) -> bool {
    has_sub(id, "firefox"@) || has_sub(id, "chrom"@) || has_sub(id, "brave"@)
}

/// Icon chosen by a lower-cased application id alone.
pub open spec fn app_icon_spec(id: Seq<char>) -> Option<char> {
    if has_sub(id, "firefox"@) { Some('\u{f269}') }
    else if has_sub(id, "chrom"@) { Some('\u{f268}') }
    else if has_sub(id, "brave"@) { Some('\u{f268}') }
    else if has_sub(id, "discord"@) { Some('\u{f066f}') }
    else if has_sub(id, "telegram"@) { Some('\u{e217}') }
    else if has_sub(id, "slack"@) { Some('\u{f198}') }
    else if has_sub(id, "mumble"@) { Some('\u{f130}') }
    else if has_sub(id, "irssi"@) { Some('\u{f292}') }
    else if has_sub(id, "spotify"@) { Some('\u{f1bc}') }
    else if has_sub(id, "steam"@) { Some('\u{ed29}') }
    else if has_sub(id, "vlc"@) || has_sub(id, "mpv"@) || has_sub(id, "celluloid"@) { Some('\u{f057c}') }
    else if has_sub(id, "gimp"@) { Some('\u{e67f}') }
    else if has_sub(id, "nautilus"@) || has_sub(id, "thunar"@) || has_sub(id, "nemo"@)
        || has_sub(id, "dolphin"@) { Some('\u{f07c}') }
    else if has_sub(id, "evince"@) || has_sub(id, "zathura"@) || has_sub(id, "okular"@) { Some('\u{f1c1}') }
    else if has_sub(id, "obs"@) { Some('\u{f03d}') }
    else if has_sub(id, "pavucontrol"@) { Some('\u{f028}') }
    else if has_sub(id, "code"@) && has_sub(id, "visual"@) { Some('\u{e70c}') }
    else if has_sub(id, "neovide"@) { Some('\u{e62b}') }
    else { None }
}

/// Browsers get browser icons and nothing else does: the Firefox icon goes
/// exactly to ids that name Firefox, every other browser (Chrome, Chromium,
/// Brave) gets the Chromium icon, and an id that names no browser gets
/// neither.
pub proof fn law_browser_icons(id: Seq<char>)
    ensures
        (app_icon_spec(id) == Some('\u{f269}')) <==> has_sub(id, "firefox"@),
        browser_id(id) && !has_sub(id, "firefox"@) ==> app_icon_spec(id) == Some('\u{f268}'),
        has_sub(id, "chrom"@) && !has_sub(id, "firefox"@) ==> app_icon_spec(id) == Some('\u{f268}'),
        !browser_id(id) ==> app_icon_spec(id) != Some('\u{f269}') && app_icon_spec(id) != Some('\u{f268}'),
{
}

/// Icon of the web site that a lower-cased browser title shows.
pub open spec fn website_icon_spec(t: Seq<char>) -> Option<char> {
    if has_sub(t, "telegram"@) { Some('\u{e217}') }
    else if has_sub(t, "slack"@) { Some('\u{f198}') }
    else if has_sub(t, "discord"@) { Some('\u{f066f}') }
    else if has_sub(t, "whatsapp"@) { Some('\u{f232}') }
    else if has_sub(t, "signal"@) { Some('\u{f0553}') }
    else if has_sub(t, "github"@) { Some('\u{f408}') }
    else if has_sub(t, "gitlab"@) { Some('\u{f296}') }
    else if has_sub(t, "bitbucket"@) { Some('\u{f171}') }
    else if has_sub(t, "stack overflow"@) { Some('\u{f16c}') }
    else if has_sub(t, "jira"@) { Some('\u{f0303}') }
    else if has_sub(t, "trello"@) { Some('\u{f181}') }
    else if has_sub(t, "hacker news"@) { Some('\u{f1d4}') }
    else if has_sub(t, "crates.io"@) { Some('\u{e68b}') }
    else if has_sub(t, "docs.rs"@) { Some('\u{e68b}') }
    else if has_sub(t, "npmjs"@) { Some('\u{e71e}') }
    else if has_sub(t, "docker hub"@) { Some('\u{f308}') }
    else if has_sub(t, "youtube"@) { Some('\u{f16a}') }
    else if has_sub(t, "twitch"@) { Some('\u{f1e8}') }
    else if has_sub(t, "spotify"@) { Some('\u{f1bc}') }
    else if has_sub(t, "netflix"@) { Some('\u{f008}') }
    else if has_sub(t, "reddit"@) { Some('\u{f281}') }
    else if has_sub(t, "mastodon"@) { Some('\u{f0ad1}') }
    else if has_sub(t, "linkedin"@) { Some('\u{f0e1}') }
    else if has_sub(t, "facebook"@) || has_sub(t, "meta"@) { Some('\u{f09a}') }
    else if has_sub(t, "instagram"@) { Some('\u{f16d}') }
    else if has_sub(t, "twitter"@) || has_sub(t, "/ x"@) { Some('\u{f099}') }
    else if has_sub(t, "pinterest"@) { Some('\u{f0d2}') }
    else if has_sub(t, "medium"@) { Some('\u{f23a}') }
    else if has_sub(t, "notion"@) { Some('\u{e6b1}') }
    else if has_sub(t, "figma"@) { Some('\u{e6b0}') }
    else if has_sub(t, "dropbox"@) { Some('\u{f16b}') }
    else if has_sub(t, "google docs"@) || has_sub(t, "google sheets"@) { Some('\u{f0219}') }
    else if has_sub(t, "google drive"@) { Some('\u{f0e43}') }
    else if has_sub(t, "google maps"@) { Some('\u{f05f5}') }
    else if has_sub(t, "google calendar"@) || has_sub(t, "calendar"@) { Some('\u{f073}') }
    else if has_sub(t, "google translate"@) { Some('\u{f0f14}') }
    else if has_sub(t, "gmail"@) { Some('\u{f02ab}') }
    else if has_sub(t, "proton"@) { Some('\u{f023}') }
    else if has_sub(t, "paypal"@) { Some('\u{f1ed}') }
    else if has_sub(t, "amazon"@) { Some('\u{f270}') }
    else if has_sub(t, "wikipedia"@) { Some('\u{f266}') }
    else if has_sub(t, "azure"@) { Some('\u{ebd8}') }
    else if has_sub(t, "aws"@) { Some('\u{f270}') }
    else if has_sub(t, "google"@) { Some('\u{f1a0}') }
    else { None }
}

/// Icon of the programming language of the file named in a lower-cased title.
pub open spec fn lang_icon_spec(t: Seq<char>) -> Option<char> {
    if has_sub(t, ".rs"@) { Some('\u{e68b}') }
    else if has_sub(t, ".py"@) { Some('\u{e235}') }
    else if has_sub(t, ".ts"@) || has_sub(t, ".tsx"@) { Some('\u{f06e6}') }
    else if has_sub(t, ".js"@) || has_sub(t, ".jsx"@) { Some('\u{e74e}') }
    else if has_sub(t, ".lua"@) { Some('\u{f08b1}') }
    else if has_sub(t, ".html"@) { Some('\u{f13b}') }
    else if has_sub(t, ".hpp"@) || has_sub(t, ".cpp"@) || has_sub(t, ".cc"@) { Some('\u{e646}') }
    else if has_sub(t, ".h"@) || has_sub(t, ".c "@) || has_suffix(t, ".c"@) { Some('\u{f0671}') }
    else if has_sub(t, ".go"@) { Some('\u{e627}') }
    else if has_sub(t, ".json"@) { Some('\u{e60b}') }
    else if has_sub(t, ".sh"@) || has_sub(t, ".zsh"@) { Some('\u{e691}') }
    else if has_sub(t, ".nix"@) { Some('\u{f1105}') }
    else if has_sub(t, "dockerfile"@) { Some('\u{f308}') }
    else { None }
}

/// The application id, lower-cased, names a terminal emulator.
pub open spec fn terminal_id(id: Seq<char>) -> bool {
    has_sub(id, "kitty"@) || has_sub(id, "alacritty"@) || has_sub(id, "foot"@)
        || has_sub(id, "wezterm"@) || has_sub(id, "ghostty"@) || has_sub(id, "terminator"@)
        || has_sub(id, "gnome-terminal"@) || has_sub(id, "konsole"@) || has_sub(id, "xterm"@)
        || has_sub(id, "urxvt"@) || has_sub(id, "st"@)
}

/// A lower-cased title shows vim or neovim.
pub open spec fn vim_title(t: Seq<char>) -> bool {
    has_prefix(t, "nvim"@) || has_sub(t, " - nvim"@) || has_sub(t, "[nvim]"@)
        || has_prefix(t, "vim"@) || has_sub(t, " - vim"@)
}

/// Icon of a program named in a lower-cased title; `terminal` tells whether
/// the window's application is a terminal emulator.
pub open spec fn program_icon_spec(t: Seq<char>, terminal: bool) -> char {
    if has_sub(t, "volume control"@) { '\u{f028}' }
    else if has_sub(t, "htop"@) { '\u{f0e4}' }
    else if has_sub(t, "cargo"@) { '\u{e68b}' }
    else if has_sub(t, "make"@) { '\u{f423}' }
    else if has_sub(t, "docker"@) { '\u{f308}' }
    else if has_sub(t, "kube"@) { '\u{f10fe}' }
    else if has_sub(t, "npm"@) { '\u{e71e}' }
    else if has_sub(t, "node"@) { '\u{f0399}' }
    else if has_sub(t, "psql"@) { '\u{e76e}' }
    else if has_sub(t, "man "@) || has_prefix(t, "man"@) { '\u{f15c}' }
    else if has_sub(t, "gdb"@) { '\u{f423}' }
    else if terminal { '\u{f120}' }
    else { '\u{f2d0}' }
}

/// Icon text chosen from a lower-cased title.
pub open spec fn title_icon_spec(t: Seq<char>, terminal: bool) -> Seq<char> {
    if vim_title(t) {
        match lang_icon_spec(t) {
            Some(l) => seq!['\u{e62b}', l],
            None => seq!['\u{e62b}'],
        }
    } else {
        seq![program_icon_spec(t, terminal)]
    }
}

/// A lower-cased optional application id names a terminal emulator.
pub open spec fn terminal_opt(id: Option<Seq<char>>) -> bool {
    match id {
        Some(i) => terminal_id(i),
        None => false,
    }
}

/// Label of a window, from its lower-cased application id and title.
pub open spec fn window_label_spec(id: Option<Seq<char>>, t: Seq<char>) -> Seq<char> {
    let app = match id {
        Some(i) => app_icon_spec(i),
        None => None,
    };
    match app {
        Some(icon) => {
            if browser_id(id->0) {
                match website_icon_spec(t) {
                    Some(site) => seq![icon, site],
                    None => seq![icon],
                }
            } else {
                seq![icon]
            }
        },
        None => title_icon_spec(t, terminal_opt(id)),
    }
}

/// Lower-cased view of an optional application id.
pub open spec fn lower_opt(id: Option<&str>) -> Option<Seq<char>> {
    match id {
        Some(s) => Some(lowercase(s@)),
        None => None,
    }
}

/// Lower-cases an optional application id, character by character.
fn lower_opt_chars(app_id: Option<&str>) -> (r: Option<Vec<char>>)
    ensures
        match r {
            Some(v) => lower_opt(app_id) == Some(v@),
            None => app_id is None,
        },
{
    match app_id {
        Some(s) => {
            let l = to_lowercase(s);
            Some(chars_of(l.as_str()))
        },
        None => None,
    }
}

/// Whether a lower-cased application id names a browser.
pub fn is_browser_lowered(id: &[char]) -> (r: bool)
    ensures
        r == browser_id(id@),
{
    contains_str(id, "firefox") || contains_str(id, "chrom") || contains_str(id, "brave")
}

/// Whether an application id names a browser.
pub fn is_browser(app_id: Option<&str>) -> (r: bool)
    ensures
        r == match lower_opt(app_id) {
            Some(i) => browser_id(i),
            None => false,
        },
{
    match lower_opt_chars(app_id) {
        Some(v) => is_browser_lowered(v.as_slice()),
        None => false,
    }
}

/// Icon of a lower-cased application id.
pub fn app_icon_lowered(id: &[char]) -> (r: Option<char>)
    ensures
        r == app_icon_spec(id@),
{
    if contains_str(id, "firefox") { Some('\u{f269}') }
    else if contains_str(id, "chrom") { Some('\u{f268}') }
    else if contains_str(id, "brave") { Some('\u{f268}') }
    else if contains_str(id, "discord") { Some('\u{f066f}') }
    else if contains_str(id, "telegram") { Some('\u{e217}') }
    else if contains_str(id, "slack") { Some('\u{f198}') }
    else if contains_str(id, "mumble") { Some('\u{f130}') }
    else if contains_str(id, "irssi") { Some('\u{f292}') }
    else if contains_str(id, "spotify") { Some('\u{f1bc}') }
    else if contains_str(id, "steam") { Some('\u{ed29}') }
    else if contains_str(id, "vlc") || contains_str(id, "mpv") || contains_str(id, "celluloid") { Some('\u{f057c}') }
    else if contains_str(id, "gimp") { Some('\u{e67f}') }
    else if contains_str(id, "nautilus") || contains_str(id, "thunar") || contains_str(id, "nemo")
        || contains_str(id, "dolphin") { Some('\u{f07c}') }
    else if contains_str(id, "evince") || contains_str(id, "zathura") || contains_str(id, "okular") { Some('\u{f1c1}') }
    else if contains_str(id, "obs") { Some('\u{f03d}') }
    else if contains_str(id, "pavucontrol") { Some('\u{f028}') }
    else if contains_str(id, "code") && contains_str(id, "visual") { Some('\u{e70c}') }
    else if contains_str(id, "neovide") { Some('\u{e62b}') }
    else { None }
}

/// Icon of an application id; `None` for unknown applications and terminals.
pub fn app_icon(app_id: Option<&str>) -> (r: Option<char>)
    ensures
        r == match lower_opt(app_id) {
            Some(i) => app_icon_spec(i),
            None => None,
        },
{
    match lower_opt_chars(app_id) {
        Some(v) => app_icon_lowered(v.as_slice()),
        None => None,
    }
}

/// Icon of the web site shown in a lower-cased browser title.
pub fn website_icon(t: &[char]) -> (r: Option<char>)
    ensures
        r == website_icon_spec(t@),
{
    if contains_str(t, "telegram") { Some('\u{e217}') }
    else if contains_str(t, "slack") { Some('\u{f198}') }
    else if contains_str(t, "discord") { Some('\u{f066f}') }
    else if contains_str(t, "whatsapp") { Some('\u{f232}') }
    else if contains_str(t, "signal") { Some('\u{f0553}') }
    else if contains_str(t, "github") { Some('\u{f408}') }
    else if contains_str(t, "gitlab") { Some('\u{f296}') }
    else if contains_str(t, "bitbucket") { Some('\u{f171}') }
    else if contains_str(t, "stack overflow") { Some('\u{f16c}') }
    else if contains_str(t, "jira") { Some('\u{f0303}') }
    else if contains_str(t, "trello") { Some('\u{f181}') }
    else if contains_str(t, "hacker news") { Some('\u{f1d4}') }
    else if contains_str(t, "crates.io") { Some('\u{e68b}') }
    else if contains_str(t, "docs.rs") { Some('\u{e68b}') }
    else if contains_str(t, "npmjs") { Some('\u{e71e}') }
    else if contains_str(t, "docker hub") { Some('\u{f308}') }
    else if contains_str(t, "youtube") { Some('\u{f16a}') }
    else if contains_str(t, "twitch") { Some('\u{f1e8}') }
    else if contains_str(t, "spotify") { Some('\u{f1bc}') }
    else if contains_str(t, "netflix") { Some('\u{f008}') }
    else if contains_str(t, "reddit") { Some('\u{f281}') }
    else if contains_str(t, "mastodon") { Some('\u{f0ad1}') }
    else if contains_str(t, "linkedin") { Some('\u{f0e1}') }
    else if contains_str(t, "facebook") || contains_str(t, "meta") { Some('\u{f09a}') }
    else if contains_str(t, "instagram") { Some('\u{f16d}') }
    else if contains_str(t, "twitter") || contains_str(t, "/ x") { Some('\u{f099}') }
    else if contains_str(t, "pinterest") { Some('\u{f0d2}') }
    else if contains_str(t, "medium") { Some('\u{f23a}') }
    else if contains_str(t, "notion") { Some('\u{e6b1}') }
    else if contains_str(t, "figma") { Some('\u{e6b0}') }
    else if contains_str(t, "dropbox") { Some('\u{f16b}') }
    else if contains_str(t, "google docs") || contains_str(t, "google sheets") { Some('\u{f0219}') }
    else if contains_str(t, "google drive") { Some('\u{f0e43}') }
    else if contains_str(t, "google maps") { Some('\u{f05f5}') }
    else if contains_str(t, "google calendar") || contains_str(t, "calendar") { Some('\u{f073}') }
    else if contains_str(t, "google translate") { Some('\u{f0f14}') }
    else if contains_str(t, "gmail") { Some('\u{f02ab}') }
    else if contains_str(t, "proton") { Some('\u{f023}') }
    else if contains_str(t, "paypal") { Some('\u{f1ed}') }
    else if contains_str(t, "amazon") { Some('\u{f270}') }
    else if contains_str(t, "wikipedia") { Some('\u{f266}') }
    else if contains_str(t, "azure") { Some('\u{ebd8}') }
    else if contains_str(t, "aws") { Some('\u{f270}') }
    else if contains_str(t, "google") { Some('\u{f1a0}') }
    else { None }
}

/// Icon of the programming language of a file named in a lower-cased title.
pub fn lang_icon(t: &[char]) -> (r: Option<char>)
    ensures
        r == lang_icon_spec(t@),
{
    if contains_str(t, ".rs") { Some('\u{e68b}') }
    else if contains_str(t, ".py") { Some('\u{e235}') }
    else if contains_str(t, ".ts") || contains_str(t, ".tsx") { Some('\u{f06e6}') }
    else if contains_str(t, ".js") || contains_str(t, ".jsx") { Some('\u{e74e}') }
    else if contains_str(t, ".lua") { Some('\u{f08b1}') }
    else if contains_str(t, ".html") { Some('\u{f13b}') }
    else if contains_str(t, ".hpp") || contains_str(t, ".cpp") || contains_str(t, ".cc") { Some('\u{e646}') }
    else if contains_str(t, ".h") || contains_str(t, ".c ") || ends_with_str(t, ".c") { Some('\u{f0671}') }
    else if contains_str(t, ".go") { Some('\u{e627}') }
    else if contains_str(t, ".json") { Some('\u{e60b}') }
    else if contains_str(t, ".sh") || contains_str(t, ".zsh") { Some('\u{e691}') }
    else if contains_str(t, ".nix") { Some('\u{f1105}') }
    else if contains_str(t, "dockerfile") { Some('\u{f308}') }
    else { None }
}

/// Whether a lower-cased application id names a terminal emulator.
pub fn is_terminal_lowered(id: &[char]) -> (r: bool)
    ensures
        r == terminal_id(id@),
{
    contains_str(id, "kitty") || contains_str(id, "alacritty") || contains_str(id, "foot")
        || contains_str(id, "wezterm") || contains_str(id, "ghostty") || contains_str(id, "terminator")
        || contains_str(id, "gnome-terminal") || contains_str(id, "konsole") || contains_str(id, "xterm")
        || contains_str(id, "urxvt") || contains_str(id, "st")
}

/// Whether an application id names a terminal emulator.
pub fn is_terminal(app_id: Option<&str>) -> (r: bool)
    ensures
        r == terminal_opt(lower_opt(app_id)),
{
    match lower_opt_chars(app_id) {
        Some(v) => is_terminal_lowered(v.as_slice()),
        None => false,
    }
}

/// Icon text chosen from a lower-cased title, for a window whose application
/// is (`terminal`) or is not a terminal emulator.
pub fn title_icon_lowered(t: &[char], terminal: bool) -> (r: String)
    ensures
        r@ == title_icon_spec(t@, terminal),
{
    let mut out = String::new();
    if starts_with_str(t, "nvim") || contains_str(t, " - nvim") || contains_str(t, "[nvim]")
        || starts_with_str(t, "vim") || contains_str(t, " - vim")
    {
        push_char(&mut out, '\u{e62b}');
        if let Some(l) = lang_icon(t) {
            push_char(&mut out, l);
        }
        return out;
    }
    let icon = if contains_str(t, "volume control") { '\u{f028}' }
        else if contains_str(t, "htop") { '\u{f0e4}' }
        else if contains_str(t, "cargo") { '\u{e68b}' }
        else if contains_str(t, "make") { '\u{f423}' }
        else if contains_str(t, "docker") { '\u{f308}' }
        else if contains_str(t, "kube") { '\u{f10fe}' }
        else if contains_str(t, "npm") { '\u{e71e}' }
        else if contains_str(t, "node") { '\u{f0399}' }
        else if contains_str(t, "psql") { '\u{e76e}' }
        else if contains_str(t, "man ") || starts_with_str(t, "man") { '\u{f15c}' }
        else if contains_str(t, "gdb") { '\u{f423}' }
        else if terminal { '\u{f120}' }
        else { '\u{f2d0}' };
    push_char(&mut out, icon);
    out
}

/// Icon text chosen from a window's title, for terminals and applications
/// without an icon of their own.
pub fn title_icon(app_id: Option<&str>, title: &str) -> (r: String)
    ensures
        r@ == title_icon_spec(lowercase(title@), terminal_opt(lower_opt(app_id))),
{
    let lower = to_lowercase(title);
    let t = chars_of(lower.as_str());
    let terminal = is_terminal(app_id);
    title_icon_lowered(t.as_slice(), terminal)
}

/// Label of a window from its lower-cased application id and title.
pub fn window_label_lowered(id: Option<&[char]>, t: &[char]) -> (r: String)
    ensures
        r@ == window_label_spec(
            match id {
                Some(i) => Some(i@),
                None => None,
            },
            t@,
        ),
{
    let app = match id {
        Some(i) => app_icon_lowered(i),
        None => None,
    };
    match app {
        Some(icon) => {
            let mut out = String::new();
            push_char(&mut out, icon);
            if is_browser_lowered(id.unwrap()) {
                if let Some(site) = website_icon(t) {
                    push_char(&mut out, site);
                }
            }
            out
        },
        None => {
            let terminal = match id {
                Some(i) => is_terminal_lowered(i),
                None => false,
            };
            title_icon_lowered(t, terminal)
        },
    }
}

/// Label of a window: its application's icon (with the site's icon for
/// browsers), or an icon chosen from its title.
pub fn window_label(app_id: Option<&str>, title: &str) -> (r: String)
    ensures
        r@ == window_label_spec(lower_opt(app_id), lowercase(title@)),
{
    let id = lower_opt_chars(app_id);
    let lower = to_lowercase(title);
    let t = chars_of(lower.as_str());
    match &id {
        Some(v) => window_label_lowered(Some(v.as_slice()), t.as_slice()),
        None => window_label_lowered(None, t.as_slice()),
    }
}

} // verus!
