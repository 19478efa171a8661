use schrottbar::tray::{
    best_pixmap_index, click_action, convert_icon, decode_png_icon, find_icon_in_theme_path, full_service, icon_candidates,
    menu_target, parse_sni_service, png_to_rgba, wants_theme_icon, MenuEntry, Tray, TrayClick, TrayItem, TrayList, Watcher,
    BTN_RIGHT,
};
use schrottbar::types::IconData;

fn item(service: &str, status: &str, icon: bool) -> TrayItem {
    TrayItem {
        service: service.to_string(),
        icon: if icon { Some(IconData { width: 1, height: 1, pixels: vec![1, 2, 3, 4] }) } else { None },
        status: status.to_string(),
    }
}

#[test]
fn service_strings_split_into_bus_and_path() {
    assert_eq!(parse_sni_service(":1.23/org/ayatana/NotificationItem/x"), (":1.23".to_string(), "/org/ayatana/NotificationItem/x".to_string()));
    assert_eq!(parse_sni_service("org.kde.StatusNotifierItem-1-1"), ("org.kde.StatusNotifierItem-1-1".to_string(), "/StatusNotifierItem".to_string()));
    assert_eq!(parse_sni_service("name/"), ("name".to_string(), "/".to_string()));
}

#[test]
fn object_paths_get_the_sender_bus_name() {
    assert_eq!(full_service("/StatusNotifierItem", Some(":1.5")), ":1.5/StatusNotifierItem");
    assert_eq!(full_service("/StatusNotifierItem", None), "/StatusNotifierItem");
    assert_eq!(full_service("org.app", Some(":1.5")), "org.app");
}

#[test]
fn items_register_once() {
    let mut w = Watcher::new();
    assert!(w.register_item("a".to_string()));
    assert!(w.register_item("b".to_string()));
    assert!(!w.register_item("a".to_string()));
    assert_eq!(w.registered_status_notifier_items(), vec!["a".to_string(), "b".to_string()]);
    assert!(!w.is_status_notifier_host_registered());
    w.register_host("h".to_string());
    w.register_host("h".to_string());
    assert!(w.is_status_notifier_host_registered());
    assert_eq!(w.protocol_version(), 0);
}

#[test]
fn lost_bus_names_drop_their_items() {
    let mut w = Watcher::new();
    w.register_item(":1.5/A".to_string());
    w.register_item(":1.6/B".to_string());
    w.register_item(":1.5".to_string());
    assert!(!w.name_owner_changed(":1.5", ":1.9"));
    assert_eq!(w.registered_status_notifier_items().len(), 3);
    assert!(w.name_owner_changed(":1.5", ""));
    assert_eq!(w.registered_status_notifier_items(), vec![":1.6/B".to_string()]);
    assert!(!w.name_owner_changed(":1.5", ""));
}

#[test]
fn tray_list_follows_watcher_events() {
    let mut t = TrayList::new();
    assert!(t.registered(Some(item("a/x", "Active", true))));
    assert!(!t.registered(None));
    assert!(t.registered(Some(item("b/x", "Passive", true))));
    assert!(t.changed("a/x", Some(item("a/x", "NeedsAttention", false))));
    assert_eq!(t.items[0].status, "NeedsAttention");
    assert!(!t.changed("a/x", None));
    assert!(t.unregistered("b/x"));
    assert_eq!(t.items.len(), 1);
    t.name_lost("a");
    assert!(t.items.is_empty());
}

#[test]
fn tray_shows_nothing_without_a_visible_icon() {
    let mut t = TrayList::new();
    t.registered(Some(item("a", "Passive", true)));
    t.registered(Some(item("b", "Active", false)));
    assert_eq!(t.entries(), None);
    t.registered(Some(item("c", "Active", true)));
    assert_eq!(t.entries(), Some(vec![1, 2]));
    let tray = Tray::new(25);
    assert_eq!(tray.icon_height, 25);
    assert!(tray.list.items.is_empty());
}

#[test]
fn pixmap_closest_in_height_is_chosen() {
    let p = vec![(16, 16, vec![]), (32, 32, vec![]), (24, 24, vec![]), (22, 22, vec![])];
    assert_eq!(best_pixmap_index(&p, 24), 2);
    assert_eq!(best_pixmap_index(&p, 30), 1);
    assert_eq!(best_pixmap_index(&p, 40), 1);
}

#[test]
fn argb_pixmaps_become_rgba() {
    let p = vec![(2, 1, vec![10, 1, 2, 3, 20, 4, 5, 6])];
    let icon = convert_icon(&p, 1).unwrap();
    assert_eq!((icon.width, icon.height), (2, 1));
    assert_eq!(icon.pixels, vec![1, 2, 3, 10, 4, 5, 6, 20]);
    assert!(convert_icon(&vec![], 1).is_none());
    assert!(convert_icon(&vec![(2, 2, vec![0; 8])], 2).is_none());
    assert!(convert_icon(&vec![(0, 2, vec![0; 8])], 2).is_none());
}

#[test]
fn png_frames_become_rgba() {
    let rgb = png_to_rgba(2, 1, 1, vec![9, 8, 7]).unwrap();
    assert_eq!(rgb.pixels, vec![9, 8, 7, 255]);
    let ga = png_to_rgba(4, 1, 1, vec![5, 6]).unwrap();
    assert_eq!(ga.pixels, vec![5, 5, 5, 6]);
    let g = png_to_rgba(0, 2, 1, vec![5, 6]).unwrap();
    assert_eq!(g.pixels, vec![5, 5, 5, 255, 6, 6, 6, 255]);
    let rgba = png_to_rgba(6, 1, 1, vec![1, 2, 3, 4]).unwrap();
    assert_eq!(rgba.pixels, vec![1, 2, 3, 4]);
    assert!(png_to_rgba(3, 1, 1, vec![0]).is_none());
    assert!(png_to_rgba(2, 2, 1, vec![9, 8, 7]).is_none());
}

#[test]
fn png_files_are_decoded() {
    let mut bytes: Vec<u8> = Vec::new();
    {
        let mut enc = png::Encoder::new(&mut bytes, 2, 1);
        enc.set_color(png::ColorType::Rgb);
        enc.set_depth(png::BitDepth::Eight);
        let mut w = enc.write_header().unwrap();
        w.write_image_data(&[1, 2, 3, 4, 5, 6]).unwrap();
    }
    let icon = decode_png_icon(&bytes).unwrap();
    assert_eq!((icon.width, icon.height), (2, 1));
    assert_eq!(icon.pixels, vec![1, 2, 3, 255, 4, 5, 6, 255]);
    assert!(decode_png_icon(&[1, 2, 3]).is_none());
}

#[test]
fn menu_click_target_skips_recent_items() {
    let e = |id, s, l| MenuEntry { id, is_separator: s, has_label: l };
    assert_eq!(menu_target(&vec![e(1, false, true), e(2, true, false), e(3, false, false), e(4, false, true)]), Some(4));
    assert_eq!(menu_target(&vec![e(1, false, false), e(2, false, true)]), Some(2));
    assert_eq!(menu_target(&vec![e(1, false, true), e(2, true, false)]), None);
    assert_eq!(menu_target(&vec![]), None);
}

#[test]
fn right_clicks_ask_for_the_secondary_action() {
    assert_eq!(click_action(BTN_RIGHT), TrayClick::SecondaryActivate);
    assert_eq!(click_action(0x110), TrayClick::ActivateOrMenu);
}

#[test]
fn theme_icons_are_looked_up_by_extension() {
    assert_eq!(
        icon_candidates("/usr/share/icons", "app"),
        vec!["/usr/share/icons/app.png".to_string(), "/usr/share/icons/app.svg".to_string(), "/usr/share/icons/app.xpm".to_string()]
    );
    assert_eq!(icon_candidates("/icons/", "app")[0], "/icons/app.png");
    assert_eq!(icon_candidates("/icons", "/abs/app")[1], "/abs/app.svg");
    assert_eq!(find_icon_in_theme_path("/d", "x", &vec![false, true, true]), Some("/d/x.svg".to_string()));
    assert_eq!(find_icon_in_theme_path("/d", "x", &vec![false, false, false]), None);
    assert!(wants_theme_icon(false, "app", "/d"));
    assert!(!wants_theme_icon(true, "app", "/d"));
    assert!(!wants_theme_icon(false, "", "/d"));
}

#[test]
fn unregistering_undoes_registering() {
    let mut t = TrayList::new();
    t.registered(Some(item(":1.2/a", "Active", true)));
    t.registered(Some(item(":1.3/b", "Active", true)));
    t.unregistered(":1.3/b");
    assert_eq!(t.items.len(), 1);
    assert_eq!(t.items[0].service, ":1.2/a");
    t.registered(Some(item(":1.3/c", "Active", true)));
    t.name_lost(":1.3");
    assert!(t.items.iter().all(|i| !i.service.starts_with(":1.3")));
    assert_eq!(t.items.len(), 1);
}
