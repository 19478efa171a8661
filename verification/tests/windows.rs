use schrottbar::columns::{window_columns, workspace_labels, FrameColor};
use schrottbar::niri_state::{find_window, handle_workspace_event, NiriEvent, NiriState, Window, Workspace};
use schrottbar::window_icons::{app_icon, is_browser, is_terminal, lang_icon, title_icon, website_icon, window_label};
use schrottbar::window_title::Shortener;

fn chars(s: &str) -> Vec<char> {
    s.chars().collect()
}

fn win(id: u64, title: &str, app: &str, ws: u64, pos: Option<(usize, usize)>) -> Window {
    Window {
        id,
        title: Some(title.to_string()),
        app_id: Some(app.to_string()),
        workspace_id: Some(ws),
        is_focused: false,
        pos_in_scrolling_layout: pos,
    }
}

fn ws(id: u64, idx: u8, output: &str, active: bool, focused: bool, active_window: Option<u64>) -> Workspace {
    Workspace {
        id,
        idx,
        output: Some(output.to_string()),
        is_active: active,
        is_focused: focused,
        active_window_id: active_window,
    }
}

#[test]
fn browser_ids_are_compared_lower_cased() {
    assert!(is_browser(Some("Firefox")));
    assert!(is_browser(Some("CHROMIUM-browser")));
    assert!(!is_browser(Some("kitty")));
    assert!(!is_browser(None));
}

#[test]
fn app_icons_by_app_id() {
    assert_eq!(app_icon(Some("org.telegram.desktop")), Some('\u{e217}'));
    assert_eq!(app_icon(Some("Spotify")), Some('\u{f1bc}'));
    assert_eq!(app_icon(Some("kitty")), None);
    assert_eq!(app_icon(Some("unknown-app")), None);
    assert_eq!(app_icon(None), None);
}

#[test]
fn website_icons_by_title() {
    assert_eq!(website_icon(&chars("pull requests · github")), Some('\u{f408}'));
    assert_eq!(website_icon(&chars("my google doc")), Some('\u{f1a0}'));
    assert_eq!(website_icon(&chars("new tab")), None);
}

#[test]
fn language_icons_by_extension() {
    assert_eq!(lang_icon(&chars("main.rs - nvim")), Some('\u{e68b}'));
    assert_eq!(lang_icon(&chars("widget.hpp")), Some('\u{e646}'));
    assert_eq!(lang_icon(&chars("main.c")), Some('\u{f0671}'));
    assert_eq!(lang_icon(&chars("notes.md")), None);
}

#[test]
fn terminals_are_recognized() {
    assert!(is_terminal(Some("Alacritty")));
    assert!(is_terminal(Some("org.wezfurlong.wezterm")));
    assert!(!is_terminal(Some("firefox")));
    assert!(!is_terminal(None));
}

#[test]
fn title_icons_for_terminal_programs() {
    assert_eq!(title_icon(Some("kitty"), "nvim main.rs"), "\u{e62b}\u{e68b}");
    assert_eq!(title_icon(Some("kitty"), "vim notes.md"), "\u{e62b}");
    assert_eq!(title_icon(Some("kitty"), "htop"), "\u{f0e4}");
    assert_eq!(title_icon(Some("kitty"), "zsh"), "\u{f120}");
    assert_eq!(title_icon(None, "something"), "\u{f2d0}");
}

#[test]
fn window_labels_combine_browser_and_site() {
    assert_eq!(window_label(Some("firefox"), "GitHub - Mozilla Firefox"), "\u{f269}\u{f408}");
    assert_eq!(window_label(Some("firefox"), "New Tab"), "\u{f269}");
    assert_eq!(window_label(Some("Spotify"), "Song"), "\u{f1bc}");
    assert_eq!(window_label(Some("foot"), "htop"), "\u{f0e4}");
}

#[test]
fn config_lists_are_read_line_by_line() {
    let v = Shortener::load_list("firefox = F\nchrome   =  C").ok().unwrap();
    assert_eq!(v, vec![("firefox".to_string(), "F".to_string()), ("chrome".to_string(), "C".to_string())]);
    let empty = Shortener::load_list("").ok().unwrap();
    assert!(empty.is_empty());
}

#[test]
fn config_line_without_equals_is_an_error() {
    match Shortener::load_list("firefox = F\nbad line\nx = y") {
        Err(e) => assert_eq!(e.message(), "Line \"bad line\" does not match expected format"),
        Ok(_) => panic!("the list should be refused"),
    }
}

fn shortener() -> Shortener {
    let p = |a: &str, b: &str| (a.to_string(), b.to_string());
    Shortener::new(
        vec![p("firefox", "F")],
        vec![p("github", "G")],
        vec![p("nvim", "N")],
        vec![p("rs", "R")],
        vec![p("htop", "H")],
    )
}

#[test]
fn shortener_uses_browser_and_site() {
    let s = shortener();
    assert!(s.patterns_compile());
    assert_eq!(s.try_shorten("GitHub - Mozilla Firefox"), Some("FG".to_string()));
    assert_eq!(s.try_shorten("Mozilla Firefox"), Some("F".to_string()));
}

#[test]
fn shortener_uses_editor_and_language() {
    let s = shortener();
    assert_eq!(s.try_shorten("main.rs - NVIM"), Some("NR".to_string()));
    assert_eq!(s.try_shorten("NVIM"), Some("N".to_string()));
    assert_eq!(s.shorten("htop"), "H");
}

#[test]
fn shortener_cuts_long_titles() {
    let s = shortener();
    assert_eq!(s.shorten("A very long window title indeed"), "a very long window");
    assert_eq!(s.shorten("Short"), "short");
}

#[test]
fn window_closed_event_removes_the_window() {
    let mut st = NiriState { windows: vec![win(1, "a", "kitty", 10, Some((1, 1))), win(2, "b", "kitty", 10, Some((2, 1)))], workspaces: vec![] };
    assert!(st.handle_event(NiriEvent::WindowClosed { id: 1 }));
    assert_eq!(st.windows.len(), 1);
    assert_eq!(find_window(&st.windows, 1), None);
    assert_eq!(find_window(&st.windows, 2), Some(0));
}

#[test]
fn focus_change_focuses_one_window() {
    let mut st = NiriState { windows: vec![win(1, "a", "kitty", 10, None), win(2, "b", "kitty", 10, None)], workspaces: vec![] };
    st.handle_event(NiriEvent::WindowFocusChanged { id: Some(2) });
    assert!(!st.windows[0].is_focused);
    assert!(st.windows[1].is_focused);
    st.handle_event(NiriEvent::WindowFocusChanged { id: None });
    assert!(!st.windows[1].is_focused);
}

#[test]
fn opened_window_is_added_then_replaced() {
    let mut st = NiriState { windows: vec![], workspaces: vec![] };
    st.handle_event(NiriEvent::WindowOpenedOrChanged { window: win(7, "one", "kitty", 1, None) });
    st.handle_event(NiriEvent::WindowOpenedOrChanged { window: win(7, "two", "kitty", 1, None) });
    assert_eq!(st.windows.len(), 1);
    assert_eq!(st.windows[0].title.as_deref(), Some("two"));
}

#[test]
fn workspace_activation_is_per_output() {
    let mut wss = vec![
        ws(1, 1, "DP-1", true, true, None),
        ws(2, 2, "DP-1", false, false, None),
        ws(3, 1, "HDMI-1", true, false, None),
    ];
    assert!(handle_workspace_event(&mut wss, NiriEvent::WorkspaceActivated { id: 2, focused: true }));
    assert!(!wss[0].is_active && wss[1].is_active && wss[2].is_active);
    assert!(!wss[0].is_focused && wss[1].is_focused && !wss[2].is_focused);
    assert!(!handle_workspace_event(&mut wss, NiriEvent::Other));
}

#[test]
fn workspace_labels_are_sorted_by_index() {
    let wss = vec![
        ws(1, 2, "DP-1", false, false, None),
        ws(2, 1, "DP-1", true, true, None),
        ws(3, 1, "HDMI-1", true, false, None),
    ];
    let labels = workspace_labels(&wss, "DP-1");
    assert_eq!(labels, vec![(true, " 1 ".to_string()), (false, " 2 ".to_string())]);
}

#[test]
fn window_columns_group_tiles() {
    let st = NiriState {
        windows: vec![
            win(1, "htop", "kitty", 10, Some((1, 1))),
            win(2, "zsh", "kitty", 10, Some((1, 2))),
            win(3, "Spotify", "spotify", 10, Some((2, 1))),
        ],
        workspaces: vec![ws(10, 1, "DP-1", true, true, Some(2))],
    };
    let cols = window_columns(&st, "DP-1");
    assert_eq!(cols.len(), 2);
    assert_eq!(cols[0].content, "\u{f0328}2\u{f120}");
    assert_eq!(cols[0].frame, Some(FrameColor::Accent));
    assert_eq!(cols[1].content, "\u{f1bc}");
    assert_eq!(cols[1].frame, None);
}
