use schrottbar::network::{
    default_interface, gather_network_data, is_listed_name, is_up, list_interfaces, network_blocks, parse_ipv4, parse_wifi_info,
    wifi_icon, InterfaceKind, InterfaceProbe, NetColor, NetworkData,
};

const ROUTES: &str = "Iface\tDestination\tGateway \tFlags\n\
wlan0\t0010A8C0\t00000000\t0001\n\
enp5s0\t00000000\t0101A8C0\t0003\n";

#[test]
fn default_route_interface() {
    assert_eq!(default_interface(ROUTES), Some("enp5s0".to_string()));
    assert_eq!(default_interface("Iface\tDestination\n"), None);
    assert_eq!(default_interface(""), None);
    assert_eq!(default_interface("Iface\nlonely\neth0 00000000\n"), None);
}

#[test]
fn operstate_up() {
    assert!(is_up(Some("up\n")));
    assert!(!is_up(Some("down\n")));
    assert!(!is_up(None));
}

#[test]
fn ipv4_from_ip_output() {
    let out = "2: enp5s0    inet 192.168.1.100/24 brd 192.168.1.255 scope global\n";
    assert_eq!(parse_ipv4(out), Some("192.168.1.100".to_string()));
    assert_eq!(parse_ipv4("nothing here\n"), None);
    assert_eq!(parse_ipv4("x inet \n"), None);
}

#[test]
fn wifi_link_from_iw_output() {
    let out = "Connected to 00:11:22:33:44:55 (on wlan0)\n\tSSID: Home Net\n\tfreq: 5180\n\tsignal: -52 dBm\n";
    assert_eq!(parse_wifi_info(out), (Some("Home Net".to_string()), Some(-52)));
    assert_eq!(parse_wifi_info("Not connected.\n"), (None, None));
    assert_eq!(parse_wifi_info("\tsignal: strong\n"), (None, None));
}

#[test]
fn interfaces_are_filtered_and_sorted() {
    assert!(!is_listed_name("lo"));
    assert!(!is_listed_name("veth12"));
    assert!(!is_listed_name("docker0"));
    assert!(is_listed_name("wlan0"));
    let names = vec!["wlan0", "lo", "enp5s0", "br-1", "eth1", "virt"].into_iter().map(String::from).collect();
    let r = list_interfaces(names, vec![true, true, true, true, true, false]);
    assert_eq!(r, vec!["enp5s0".to_string(), "eth1".to_string(), "wlan0".to_string()]);
}

fn probe(name: &str, up: bool, wireless: bool) -> InterfaceProbe {
    InterfaceProbe {
        name: name.to_string(),
        up,
        wireless,
        ip: Some("10.0.0.2".to_string()),
        ssid: Some("Net".to_string()),
        signal_dbm: Some(-65),
    }
}

#[test]
fn default_interface_comes_first_then_up_ones() {
    let d = gather_network_data(
        Some("wlan0".to_string()),
        vec![probe("eth0", false, false), probe("eth1", true, false), probe("wlan0", true, true)],
        true,
    );
    let names: Vec<&str> = d.interfaces.iter().map(|i| i.name.as_str()).collect();
    assert_eq!(names, vec!["wlan0", "eth1", "eth0"]);
    assert!(d.connectivity);
    assert!(d.interfaces[2].ip.is_none());
    match &d.interfaces[0].kind {
        InterfaceKind::Wifi { ssid, signal_dbm } => {
            assert_eq!(ssid.as_deref(), Some("Net"));
            assert_eq!(*signal_dbm, Some(-65));
        }
        InterfaceKind::Ethernet => panic!("wlan0 is wireless"),
    }
}

#[test]
fn wifi_icons_by_signal() {
    assert_eq!(wifi_icon(Some(-50)), '\u{f0928}');
    assert_eq!(wifi_icon(Some(-51)), '\u{f0925}');
    assert_eq!(wifi_icon(Some(-70)), '\u{f0922}');
    assert_eq!(wifi_icon(Some(-80)), '\u{f091f}');
    assert_eq!(wifi_icon(Some(-81)), '\u{f092f}');
    assert_eq!(wifi_icon(None), '\u{f092e}');
}

#[test]
fn network_section_blocks() {
    let b = network_blocks(&None, false);
    assert_eq!(b.len(), 1);
    assert_eq!(b[0].color, NetColor::Gray);
    assert!(b[0].spinner);
    let none = NetworkData { interfaces: vec![], connectivity: true };
    let b = network_blocks(&Some(none), false);
    assert_eq!(b[0].parts, vec!["\u{f0c9b} no interfaces".to_string()]);
    let down = gather_network_data(None, vec![probe("eth0", false, false)], true);
    let b = network_blocks(&Some(down), true);
    assert_eq!(b[0].parts, vec!["\u{f0c9b} disconnected".to_string()]);
    let d = gather_network_data(None, vec![probe("eth0", true, false), probe("wlan0", true, true)], false);
    let b = network_blocks(&Some(d), true);
    assert_eq!(b.len(), 3);
    assert_eq!(b[0].color, NetColor::DarkGreen);
    assert_eq!(b[0].parts, vec!["\u{f0200} eth0".to_string(), "10.0.0.2".to_string()]);
    assert_eq!(b[1].color, NetColor::Signal(Some(-65)));
    assert_eq!(b[1].parts, vec!["\u{f0922} Net".to_string(), "10.0.0.2".to_string()]);
    assert_eq!(b[2].color, NetColor::Red);
    assert_eq!(b[2].parts, vec!["\u{f015b}".to_string()]);
    let d = gather_network_data(None, vec![probe("eth0", true, false)], true);
    let b = network_blocks(&Some(d), false);
    assert_eq!(b.len(), 1);
    assert_eq!(b[0].parts, vec!["\u{f0200}".to_string()]);
}
