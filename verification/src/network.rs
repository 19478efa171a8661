//! Network: the default route, the IPv4 address and the Wi-Fi link that
//! the system tools report, the interfaces that the bar lists and the order
//! in which it shows them, and the contents of its network section.
use vstd::prelude::*;
use crate::num::{parse_bounded, parse_i32};
use crate::sort::{Key, stable_order, stable_order_spec, is_stable_order};
use crate::text::{
    chars_of, string_of, sub_vec, split_lines, lines, trim, trim_chars, has_prefix, has_sub,
    starts_with_str, contains_str, next_word, next_word_exec, find_sub, find_sub_exec, first_piece,
    first_piece_exec, eq_str, text_lt, text_lt_exec, lemma_text_lt_order, push_str, push_char,
};
use crate::tray::{texts, lemma_texts_push, strings1, strings2};
use crate::niri_state::{clone_opt_string, opt_view};

verus! {

/// The lines of `s`, each as its characters.
spec fn line_texts(ls: Seq<Vec<char>>) -> Seq<Seq<char>> {
    ls.map_values(|v: Vec<char>| v@)
}

/// Scans the rows of the routing table for the default route: the first
/// row whose destination (second column) is `00000000` names the
/// interface (first column). A row with fewer than two columns ends the
/// scan without a result.
pub open spec fn route_scan(ls: Seq<Seq<char>>) -> Option<Seq<char>>
    decreases ls.len(),
{
    if ls.len() == 0 {
        None
    } else {
        match next_word(ls[0]) {
            None => None,
            Some(first) => match next_word(first.1) {
                None => None,
                Some(second) => if second.0 == "00000000"@ {
                    Some(first.0)
                } else {
                    route_scan(ls.drop_first())
                },
            },
        }
    }
}

/// The interface of the default route in the kernel's routing table (the
/// contents of `/proc/net/route`, whose first line is a header).
pub open spec fn default_route_spec(table: Seq<char>) -> Option<Seq<char>> {
    let ls = lines(table);
    if ls.len() == 0 { None } else { route_scan(ls.drop_first()) }
}

/// The interface of the default route, read from the contents of
/// `/proc/net/route`.
pub fn default_interface(route_table: &str) -> (r: Option<String>)
    ensures
        match r {
            Some(s) => default_route_spec(route_table@) == Some(s@),
            None => default_route_spec(route_table@) is None,
        },
{
    let c = chars_of(route_table);
    let ls = split_lines(c.as_slice());
    let ghost lv = line_texts(ls@);
    assert(lv == lines(route_table@));
    if ls.len() == 0 {
        return None;
    }
    let mut i: usize = 1;
    assert(lv.skip(1) =~= lv.drop_first());
    while i < ls.len()
        invariant
            lv == line_texts(ls@),
            lv == lines(route_table@),
            lv.len() == ls@.len(),
            1 <= i <= ls@.len(),
            route_scan(lv.drop_first()) == route_scan(lv.skip(i as int)),
        decreases ls@.len() - i,
    {
        let ghost cur = lv.skip(i as int);
        assert(cur[0] == ls@[i as int]@);
        assert(cur.drop_first() =~= lv.skip(i + 1));
        match next_word_exec(ls[i].as_slice()) {
            None => {
                assert(route_scan(cur) is None);
                return None;
            },
            Some((iface, rest)) => match next_word_exec(rest.as_slice()) {
                None => {
                    assert(route_scan(cur) is None);
                    return None;
                },
                Some((dest, _after)) => {
                    if eq_str(dest.as_slice(), "00000000") {
                        assert(route_scan(cur) == Some(iface@));
                        return Some(string_of(iface.as_slice()));
                    }
                    assert(route_scan(cur) == route_scan(cur.drop_first()));
                },
            },
        }
        i += 1;
    }
    assert(lv.skip(i as int).len() == 0);
    None
}

/// The file `leaf` of the interface `iface` in `/sys/class/net` (its
/// `wireless` directory marks a wireless interface, its `operstate` file
/// tells whether it is up).
pub fn sys_net_path(iface: &str, leaf: &str) -> (r: String)
    ensures
        r@ == "/sys/class/net/"@ + iface@ + seq!['/'] + leaf@,
{
    let mut r = "/sys/class/net/".to_owned();
    push_str(&mut r, iface);
    push_char(&mut r, '/');
    push_str(&mut r, leaf);
    r
}

/// Whether an interface is up, from the contents of its `operstate` file
/// (`None` where it cannot be read).
pub fn is_up(operstate: Option<&str>) -> (r: bool)
    ensures
        r == match operstate {
            Some(s) => trim(s@) == "up"@,
            None => false,
        },
{
    match operstate {
        Some(s) => {
            let c = chars_of(s);
            let t = trim_chars(c.as_slice());
            eq_str(t.as_slice(), "up")
        },
        None => false,
    }
}

/// Scans the lines of `ip -4 -o addr show` for the first IPv4 address: the
/// first word after the first `inet `, without its prefix length. A line
/// with nothing after its `inet ` ends the scan without a result.
pub open spec fn ipv4_scan(ls: Seq<Seq<char>>) -> Option<Seq<char>>
    decreases ls.len(),
{
    if ls.len() == 0 {
        None
    } else {
        match find_sub(ls[0], "inet "@) {
            Some(p) => match next_word(ls[0].skip(p + 5)) {
                Some(w) => Some(first_piece(w.0, '/')),
                None => None,
            },
            None => ipv4_scan(ls.drop_first()),
        }
    }
}

/// The first IPv4 address in the output of `ip -4 -o addr show <iface>`.
pub fn parse_ipv4(ip_output: &str) -> (r: Option<String>)
    ensures
        match r {
            Some(s) => ipv4_scan(lines(ip_output@)) == Some(s@),
            None => ipv4_scan(lines(ip_output@)) is None,
        },
{
    let c = chars_of(ip_output);
    let ls = split_lines(c.as_slice());
    let ghost lv = line_texts(ls@);
    let pat = chars_of("inet ");
    proof {
        reveal_strlit("inet ");
    }
    let mut i: usize = 0;
    assert(lv.skip(0) =~= lv);
    while i < ls.len()
        invariant
            lv == line_texts(ls@),
            lv == lines(ip_output@),
            lv.len() == ls@.len(),
            pat@ == "inet "@,
            pat@.len() == 5,
            i <= ls@.len(),
            ipv4_scan(lv) == ipv4_scan(lv.skip(i as int)),
        decreases ls@.len() - i,
    {
        let ghost cur = lv.skip(i as int);
        assert(cur[0] == ls@[i as int]@);
        assert(cur.drop_first() =~= lv.skip(i + 1));
        let line = ls[i].as_slice();
        let pats = pat.as_slice();
        assert(pats@.len() == 5);
        match find_sub_exec(line, pats) {
            Some(p) => {
                assert(p + 5 <= line@.len());
                let rest = sub_vec(ls[i].as_slice(), p + 5, ls[i].len());
                assert(rest@ =~= ls@[i as int]@.skip(p + 5));
                match next_word_exec(rest.as_slice()) {
                    Some((w, _after)) => {
                        let a = first_piece_exec(w.as_slice(), '/');
                        return Some(string_of(a.as_slice()));
                    },
                    None => return None,
                }
            },
            None => {},
        }
        i += 1;
    }
    assert(lv.skip(i as int).len() == 0);
    None
}

/// Scans the trimmed lines of `iw dev <iface> link` for the network name
/// (`SSID: `) and the signal strength (`signal: `, in dBm); later lines
/// override earlier ones.
pub open spec fn wifi_scan(ls: Seq<Seq<char>>, ssid: Option<Seq<char>>, signal: Option<int>) -> (Option<Seq<char>>, Option<int>)
    decreases ls.len(),
{
    if ls.len() == 0 {
        (ssid, signal)
    } else {
        let l = trim(ls[0]);
        if has_prefix(l, "SSID: "@) {
            wifi_scan(ls.drop_first(), Some(l.skip(6)), signal)
        } else if has_prefix(l, "signal: "@) {
            let v = match next_word(l.skip(8)) {
                Some(w) => parse_bounded(w.0, true, i32::MIN as int, i32::MAX as int),
                None => None,
            };
            wifi_scan(ls.drop_first(), ssid, v)
        } else {
            wifi_scan(ls.drop_first(), ssid, signal)
        }
    }
}

/// Network name and signal strength of a Wi-Fi link, from the output of
/// `iw dev <iface> link`: neither where it says `Not connected`.
pub open spec fn wifi_info_spec(out: Seq<char>) -> (Option<Seq<char>>, Option<int>) {
    if has_sub(out, "Not connected"@) {
        (None, None)
    } else {
        wifi_scan(lines(out), None, None)
    }
}

/// Network name and signal strength (dBm) of a Wi-Fi link, from the
/// output of `iw dev <iface> link`.
pub fn parse_wifi_info(iw_output: &str) -> (r: (Option<String>, Option<i32>))
    ensures
        ({
            let (ssid, signal) = wifi_info_spec(iw_output@);
            &&& match r.0 {
                Some(s) => ssid == Some(s@),
                None => ssid is None,
            }
            &&& match r.1 {
                Some(v) => signal == Some(v as int),
                None => signal is None,
            }
        }),
{
    let c = chars_of(iw_output);
    if contains_str(c.as_slice(), "Not connected") {
        return (None, None);
    }
    let ls = split_lines(c.as_slice());
    let ghost lv = line_texts(ls@);
    proof {
        reveal_strlit("SSID: ");
        reveal_strlit("signal: ");
    }
    let mut ssid: Option<Vec<char>> = None;
    let mut signal: Option<i32> = None;
    let mut i: usize = 0;
    assert(lv.skip(0) =~= lv);
    while i < ls.len()
        invariant
            lv == line_texts(ls@),
            lv == lines(iw_output@),
            lv.len() == ls@.len(),
            i <= ls@.len(),
            wifi_scan(lv, None, None) == wifi_scan(lv.skip(i as int),
                match ssid { Some(v) => Some(v@), None => None },
                match signal { Some(v) => Some(v as int), None => None }),
        decreases ls@.len() - i,
    {
        let ghost cur = lv.skip(i as int);
        assert(cur[0] == ls@[i as int]@);
        assert(cur.drop_first() =~= lv.skip(i + 1));
        proof {
            reveal_strlit("SSID: ");
            reveal_strlit("signal: ");
        }
        let l = trim_chars(ls[i].as_slice());
        if starts_with_str(l.as_slice(), "SSID: ") {
            let rest = sub_vec(l.as_slice(), 6, l.len());
            assert(rest@ =~= l@.skip(6));
            ssid = Some(rest);
        } else if starts_with_str(l.as_slice(), "signal: ") {
            let rest = sub_vec(l.as_slice(), 8, l.len());
            assert(rest@ =~= l@.skip(8));
            signal = match next_word_exec(rest.as_slice()) {
                Some((w, _after)) => parse_i32(w.as_slice()),
                None => None,
            };
        }
        i += 1;
    }
    assert(lv.skip(i as int).len() == 0);
    let s = match ssid {
        Some(v) => Some(string_of(v.as_slice())),
        None => None,
    };
    (s, signal)
}

/// An interface that the bar considers by its name: not the loopback and
/// not a virtual one (`veth*`, `br-*`, `docker*`).
pub open spec fn listed_name(n: Seq<char>) -> bool {
    !(n == "lo"@ || has_prefix(n, "veth"@) || has_prefix(n, "br-"@) || has_prefix(n, "docker"@))
}

/// The names of `names[..n]` that the bar lists: considered by name, and
/// backed by a device (or wireless), in their order.
pub open spec fn selected_names(names: Seq<Seq<char>>, backed: Seq<bool>, n: int) -> Seq<Seq<char>>
    decreases n,
{
    if n <= 0 {
        Seq::empty()
    } else {
        let rest = selected_names(names, backed, n - 1);
        if listed_name(names[n - 1]) && backed[n - 1] { rest.push(names[n - 1]) } else { rest }
    }
}

/// `v` is in ascending order of strings.
pub open spec fn texts_sorted(v: Seq<Seq<char>>) -> bool {
    forall|i: int, j: int| 0 <= i < j < v.len() ==> !text_lt(#[trigger] v[j], #[trigger] v[i])
}

/// Whether the interface named `name` is considered by name.
pub fn is_listed_name(name: &str) -> (r: bool)
    ensures
        r == listed_name(name@),
{
    let c = chars_of(name);
    !(eq_str(c.as_slice(), "lo") || starts_with_str(c.as_slice(), "veth")
        || starts_with_str(c.as_slice(), "br-") || starts_with_str(c.as_slice(), "docker"))
}

/// Inserts `x` into the sorted list `r`, after the texts equal to it.
fn insert_sorted(r: &mut Vec<String>, x: String)
    requires
        texts_sorted(texts(old(r)@)),
    ensures
        texts_sorted(texts(final(r)@)),
        texts(final(r)@).to_multiset() == texts(old(r)@).to_multiset().insert(x@),
{
    let xc = chars_of(x.as_str());
    let mut k: usize = 0;
    let mut found = false;
    while k < r.len() && !found
        invariant
            xc@ == x@,
            k <= r@.len(),
            texts_sorted(texts(r@)),
            forall|j: int| 0 <= j < k ==> !text_lt(x@, #[trigger] texts(r@)[j]),
            found ==> k < r@.len() && text_lt(x@, texts(r@)[k as int]),
        decreases r@.len() - k + if found { 0int } else { 1int },
    {
        let rc = chars_of(r[k].as_str());
        if text_lt_exec(xc.as_slice(), rc.as_slice()) {
            found = true;
        } else {
            k += 1;
        }
    }
    let ghost old_t = texts(r@);
    proof {
        assert forall|j: int| k <= j < old_t.len() implies !text_lt(#[trigger] old_t[j], x@) by {
            assert(text_lt(x@, old_t[k as int]));
            if j > k {
                assert(!text_lt(old_t[j], old_t[k as int]));
            }
            lemma_text_lt_order(old_t[j], x@, old_t[k as int]);
            lemma_text_lt_order(x@, old_t[k as int], old_t[j]);
            lemma_text_lt_order(old_t[k as int], old_t[j], x@);
        }
    }
    r.insert(k, x);
    proof {
        let nt = texts(r@);
        assert(nt =~= old_t.insert(k as int, x@));
        vstd::seq_lib::to_multiset_insert(old_t, k as int, x@);
        assert forall|i: int, j: int| 0 <= i < j < nt.len() implies !text_lt(#[trigger] nt[j], #[trigger] nt[i]) by {
            if j < k {
                assert(nt[i] == old_t[i] && nt[j] == old_t[j]);
            } else if j == k {
                assert(nt[i] == old_t[i]);
                lemma_text_lt_order(x@, old_t[i], x@);
            } else if i == k {
                assert(nt[j] == old_t[j - 1]);
            } else if i < k {
                assert(nt[i] == old_t[i] && nt[j] == old_t[j - 1]);
            } else {
                assert(nt[i] == old_t[i - 1] && nt[j] == old_t[j - 1]);
            }
        }
    }
}

/// The interfaces that the bar lists, sorted by name: of the names in
/// `/sys/class/net`, those considered by name whose entry is backed by a
/// device or is wireless (`backed[k]` tells it of `names[k]`).
pub fn list_interfaces(names: Vec<String>, backed: Vec<bool>) -> (r: Vec<String>)
    requires
        names@.len() == backed@.len(),
    ensures
        texts_sorted(texts(r@)),
        texts(r@).to_multiset() == selected_names(texts(names@), backed@, names@.len() as int).to_multiset(),
{
    let mut r: Vec<String> = Vec::new();
    let mut i: usize = 0;
    proof {
        assert(texts(r@) =~= Seq::<Seq<char>>::empty());
        assert(selected_names(texts(names@), backed@, 0) =~= Seq::<Seq<char>>::empty());
    }
    while i < names.len()
        invariant
            names@.len() == backed@.len(),
            i <= names@.len(),
            texts_sorted(texts(r@)),
            texts(r@).to_multiset() == selected_names(texts(names@), backed@, i as int).to_multiset(),
        decreases names@.len() - i,
    {
        if is_listed_name(names[i].as_str()) && backed[i] {
            let ghost before = selected_names(texts(names@), backed@, i as int);
            insert_sorted(&mut r, names[i].clone());
            proof {
                assert(texts(names@)[i as int] == names@[i as int]@);
                vstd::seq_lib::to_multiset_build(before, names@[i as int]@);
            }
        }
        i += 1;
    }
    r
}

/// What kind of link an interface is: Wi-Fi, with the network's name and
/// signal strength where they are known, or wired.
pub enum InterfaceKind {
    Wifi { ssid: Option<String>, signal_dbm: Option<i32> },
    Ethernet,
}

/// What the bar knows of one interface.
pub struct InterfaceInfo {
    pub name: String,
    pub kind: InterfaceKind,
    pub ip: Option<String>,
    pub up: bool,
}

/// What was read of one interface: whether it is up and wireless, and, for
/// an interface that is up, its address and Wi-Fi link.
pub struct InterfaceProbe {
    pub name: String,
    pub up: bool,
    pub wireless: bool,
    pub ip: Option<String>,
    pub ssid: Option<String>,
    pub signal_dbm: Option<i32>,
}

/// The state of the network as the bar shows it.
pub struct NetworkData {
    pub interfaces: Vec<InterfaceInfo>,
    pub connectivity: bool,
}

/// What the bar keeps of a probe: address and Wi-Fi link only for an
/// interface that is up.
pub open spec fn probe_info(p: InterfaceProbe) -> InterfaceInfo {
    InterfaceInfo {
        name: p.name,
        kind: if p.wireless {
            InterfaceKind::Wifi {
                ssid: if p.up { p.ssid } else { None },
                signal_dbm: if p.up { p.signal_dbm } else { None },
            }
        } else {
            InterfaceKind::Ethernet
        },
        ip: if p.up { p.ip } else { None },
        up: p.up,
    }
}

/// Sort key of an interface: the default route's interface first, then
/// those that are up.
pub open spec fn iface_key(default: Option<Seq<char>>, p: InterfaceProbe) -> Key {
    (if default == Some(p.name@) { 0 } else { 1 }, if p.up { 0 } else { 1 }, 0)
}

/// The sort keys of a list of probes.
pub open spec fn iface_keys(default: Option<Seq<char>>, ps: Seq<InterfaceProbe>) -> Seq<Key> {
    ps.map_values(|p: InterfaceProbe| iface_key(default, p))
}

fn probe_to_info(p: &InterfaceProbe) -> (r: InterfaceInfo)
    ensures
        r == probe_info(*p),
{
    let kind = if p.wireless {
        if p.up {
            InterfaceKind::Wifi { ssid: clone_opt_string(&p.ssid), signal_dbm: p.signal_dbm }
        } else {
            InterfaceKind::Wifi { ssid: None, signal_dbm: None }
        }
    } else {
        InterfaceKind::Ethernet
    };
    InterfaceInfo {
        name: p.name.clone(),
        kind,
        ip: if p.up { clone_opt_string(&p.ip) } else { None },
        up: p.up,
    }
}

/// The state of the network from what was read of it: the interfaces in
/// the stable order of the default route's interface first, then those
/// that are up, and whether the internet could be reached.
pub fn gather_network_data(default_iface: Option<String>, probes: Vec<InterfaceProbe>, connectivity: bool) -> (r: NetworkData)
    ensures
        r.connectivity == connectivity,
        r.interfaces@ == stable_order_spec(iface_keys(opt_view(default_iface), probes@))
            .map_values(|j: usize| probe_info(probes@[j as int])),
{
    let ghost d = opt_view(default_iface);
    let mut keys: Vec<Key> = Vec::new();
    let mut i: usize = 0;
    while i < probes.len()
        invariant
            i <= probes@.len(),
            d == opt_view(default_iface),
            keys@ == iface_keys(d, probes@).take(i as int),
        decreases probes@.len() - i,
    {
        let is_default = match &default_iface {
            Some(x) => x.eq(&probes[i].name),
            None => false,
        };
        let k: Key = (if is_default { 0 } else { 1 }, if probes[i].up { 0 } else { 1 }, 0);
        keys.push(k);
        assert(keys@ =~= iface_keys(d, probes@).take(i + 1));
        i += 1;
    }
    assert(keys@ =~= iface_keys(d, probes@));
    let order = stable_order(&keys);
    let mut out: Vec<InterfaceInfo> = Vec::new();
    let mut k: usize = 0;
    while k < order.len()
        invariant
            is_stable_order(keys@, order@),
            order@ == stable_order_spec(keys@),
            keys@.len() == probes@.len(),
            k <= order@.len(),
            out@ == order@.take(k as int).map_values(|j: usize| probe_info(probes@[j as int])),
        decreases order@.len() - k,
    {
        let j = order[k];
        out.push(probe_to_info(&probes[j]));
        assert(order@.take(k + 1) =~= order@.take(k as int).push(j));
        assert(out@ =~= order@.take(k + 1).map_values(|j: usize| probe_info(probes@[j as int])));
        k += 1;
    }
    assert(order@.take(order@.len() as int) =~= order@);
    NetworkData { interfaces: out, connectivity }
}

/// The interface of the default route is listed first (`o` is the order of
/// `gather_network_data`, see `law_stable_order_unique`): every interface
/// listed before one that carries the default route carries it too, and
/// among the rest every interface that is up comes before every one that
/// is down.
pub proof fn law_default_interface_first(default: Option<Seq<char>>, ps: Seq<InterfaceProbe>, o: Seq<usize>, i: int, j: int)
    requires
        is_stable_order(iface_keys(default, ps), o),
        0 <= i < j < ps.len(),
    ensures
        ({
            let a = ps[o[i] as int];
            let b = ps[o[j] as int];
            &&& default == Some(b.name@) ==> default == Some(a.name@)
            &&& (default == Some(a.name@)) == (default == Some(b.name@)) && !a.up ==> !b.up
        }),
{
    let keys = iface_keys(default, ps);
    assert(crate::sort::sorts_before(keys, o[i] as int, o[j] as int));
    assert(keys[o[i] as int] == iface_key(default, ps[o[i] as int]));
    assert(keys[o[j] as int] == iface_key(default, ps[o[j] as int]));
}

/// Icon of a Wi-Fi link for its signal strength in dBm (a crossed-out one
/// where it is not known).
pub open spec fn wifi_icon_spec(signal_dbm: Option<i32>) -> char {
    match signal_dbm {
        Some(s) => if s >= -50 {
            '\u{f0928}'
        } else if s >= -60 {
            '\u{f0925}'
        } else if s >= -70 {
            '\u{f0922}'
        } else if s >= -80 {
            '\u{f091f}'
        } else {
            '\u{f092f}'
        },
        None => '\u{f092e}',
    }
}

/// Icon of a Wi-Fi link for its signal strength in dBm.
pub fn wifi_icon(signal_dbm: Option<i32>) -> (r: char)
    ensures
        r == wifi_icon_spec(signal_dbm),
{
    match signal_dbm {
        Some(s) => if s >= -50 {
            '\u{f0928}'
        } else if s >= -60 {
            '\u{f0925}'
        } else if s >= -70 {
            '\u{f0922}'
        } else if s >= -80 {
            '\u{f091f}'
        } else {
            '\u{f092f}'
        },
        None => '\u{f092e}',
    }
}

/// The background of a block of the network section: gray, red, dark
/// green, or the color of a Wi-Fi signal strength (between red and green).
#[derive(Debug, Clone, Copy, PartialEq, Eq, Structural)]
pub enum NetColor {
    Gray,
    Red,
    DarkGreen,
    Signal(Option<i32>),
}

/// A block of the network section: its background, its texts (split into
/// separate cells) and whether a spinner follows them.
pub struct NetBlock {
    pub color: NetColor,
    pub parts: Vec<String>,
    pub spinner: bool,
}

/// A block as colors and texts.
pub open spec fn block_view(b: NetBlock) -> (NetColor, Seq<Seq<char>>, bool) {
    (b.color, texts(b.parts@), b.spinner)
}

/// The address of an interface as a cell of its own, where it has one.
pub open spec fn ip_cells(ip: Option<String>) -> Seq<Seq<char>> {
    match ip {
        Some(a) => seq![a@],
        None => seq![],
    }
}

/// The block of an interface that is up: its icon, and when the pointer is
/// over the section also the network's name (Wi-Fi) or the interface's
/// name (wired) and its address.
pub open spec fn iface_block(i: InterfaceInfo, hovered: bool) -> (NetColor, Seq<Seq<char>>, bool) {
    match i.kind {
        InterfaceKind::Wifi { ssid, signal_dbm } => {
            let icon = seq![wifi_icon_spec(signal_dbm)];
            let parts = if hovered {
                seq![match ssid {
                    Some(s) => icon + seq![' '] + s@,
                    None => icon,
                }] + ip_cells(i.ip)
            } else {
                seq![icon]
            };
            (NetColor::Signal(signal_dbm), parts, false)
        },
        InterfaceKind::Ethernet => {
            let parts = if hovered {
                seq![seq!['\u{f0200}', ' '] + i.name@] + ip_cells(i.ip)
            } else {
                seq![seq!['\u{f0200}']]
            };
            (NetColor::DarkGreen, parts, false)
        },
    }
}

/// The blocks of the interfaces of `v[..n]` that are up, in order.
pub open spec fn up_blocks(v: Seq<InterfaceInfo>, hovered: bool, n: int) -> Seq<(NetColor, Seq<Seq<char>>, bool)>
    decreases n,
{
    if n <= 0 {
        Seq::empty()
    } else {
        let rest = up_blocks(v, hovered, n - 1);
        if v[n - 1].up { rest.push(iface_block(v[n - 1], hovered)) } else { rest }
    }
}

/// The network section: a spinner until the first reading, a red warning
/// without interfaces or without any that is up, else a block per
/// interface that is up, and a red mark where the internet is out of
/// reach.
pub open spec fn network_blocks_spec(data: Option<NetworkData>, hovered: bool) -> Seq<(NetColor, Seq<Seq<char>>, bool)> {
    match data {
        None => seq![(NetColor::Gray, seq![seq!['\u{f06f3}']], true)],
        Some(d) => {
            let ups = up_blocks(d.interfaces@, hovered, d.interfaces@.len() as int);
            if d.interfaces@.len() == 0 {
                seq![(NetColor::Red, seq![seq!['\u{f0c9b}'] + " no interfaces"@], false)]
            } else if ups.len() == 0 {
                seq![(NetColor::Red, seq![seq!['\u{f0c9b}'] + " disconnected"@], false)]
            } else if !d.connectivity {
                ups.push((NetColor::Red, seq![seq!['\u{f015b}']], false))
            } else {
                ups
            }
        },
    }
}

/// A text of one character.
fn one_char(c: char) -> (r: String)
    ensures
        r@ == seq![c],
{
    let mut s = String::new();
    push_char(&mut s, c);
    assert(s@ =~= seq![c]);
    s
}

fn clone_strings(v: &Vec<String>) -> (r: Vec<String>)
    ensures
        texts(r@) == texts(v@),
{
    let mut r: Vec<String> = Vec::new();
    let mut i: usize = 0;
    while i < v.len()
        invariant
            i <= v@.len(),
            texts(r@) == texts(v@).take(i as int),
        decreases v@.len() - i,
    {
        let c = v[i].clone();
        proof {
            lemma_texts_push(r@, c);
        }
        r.push(c);
        assert(texts(r@) =~= texts(v@).take(i + 1));
        i += 1;
    }
    assert(texts(v@).take(v@.len() as int) =~= texts(v@));
    r
}

fn iface_block_exec(i: &InterfaceInfo, hovered: bool) -> (r: NetBlock)
    ensures
        block_view(r) == iface_block(*i, hovered),
{
    match &i.kind {
        InterfaceKind::Wifi { ssid, signal_dbm } => {
            let icon = wifi_icon(*signal_dbm);
            let parts = if hovered {
                let mut first = one_char(icon);
                match ssid {
                    Some(s) => {
                        push_char(&mut first, ' ');
                        push_str(&mut first, s.as_str());
                        assert(first@ =~= seq![icon] + seq![' '] + s@);
                    },
                    None => {},
                }
                match &i.ip {
                    Some(a) => strings2(first, a.clone()),
                    None => strings1(first),
                }
            } else {
                strings1(one_char(icon))
            };
            let r = NetBlock { color: NetColor::Signal(*signal_dbm), parts, spinner: false };
            assert(block_view(r).1 =~= iface_block(*i, hovered).1);
            r
        },
        InterfaceKind::Ethernet => {
            let parts = if hovered {
                let mut first = one_char('\u{f0200}');
                push_char(&mut first, ' ');
                push_str(&mut first, i.name.as_str());
                assert(first@ =~= seq!['\u{f0200}', ' '] + i.name@);
                match &i.ip {
                    Some(a) => strings2(first, a.clone()),
                    None => strings1(first),
                }
            } else {
                strings1(one_char('\u{f0200}'))
            };
            let r = NetBlock { color: NetColor::DarkGreen, parts, spinner: false };
            assert(block_view(r).1 =~= iface_block(*i, hovered).1);
            r
        },
    }
}

/// The blocks of the network section, for the last reading `data` (none
/// yet: `None`) and whether the pointer is over the section.
pub fn network_blocks(data: &Option<NetworkData>, hovered: bool) -> (r: Vec<NetBlock>)
    ensures
        r@.map_values(|b: NetBlock| block_view(b)) == network_blocks_spec(*data, hovered),
{
    match data {
        None => {
            let parts = strings1(one_char('\u{f06f3}'));
            let mut r: Vec<NetBlock> = Vec::new();
            r.push(NetBlock { color: NetColor::Gray, parts, spinner: true });
            assert(r@.map_values(|b: NetBlock| block_view(b)) =~= network_blocks_spec(*data, hovered));
            r
        },
        Some(d) => {
            let n = d.interfaces.len();
            if n == 0 {
                let mut t = one_char('\u{f0c9b}');
                push_str(&mut t, " no interfaces");
                let parts = strings1(t);
                let mut r: Vec<NetBlock> = Vec::new();
                r.push(NetBlock { color: NetColor::Red, parts, spinner: false });
                assert(r@.map_values(|b: NetBlock| block_view(b)) =~= network_blocks_spec(*data, hovered));
                return r;
            }
            let mut r: Vec<NetBlock> = Vec::new();
            let mut i: usize = 0;
            while i < n
                invariant
                    n == d.interfaces@.len(),
                    i <= n,
                    r@.map_values(|b: NetBlock| block_view(b)) == up_blocks(d.interfaces@, hovered, i as int),
                decreases n - i,
            {
                if d.interfaces[i].up {
                    let b = iface_block_exec(&d.interfaces[i], hovered);
                    let ghost before = r@.map_values(|b: NetBlock| block_view(b));
                    r.push(b);
                    assert(r@.map_values(|b: NetBlock| block_view(b)) =~= before.push(block_view(b)));
                }
                i += 1;
            }
            if r.len() == 0 {
                let mut t = one_char('\u{f0c9b}');
                push_str(&mut t, " disconnected");
                let parts = strings1(t);
                let mut r2: Vec<NetBlock> = Vec::new();
                r2.push(NetBlock { color: NetColor::Red, parts, spinner: false });
                assert(r2@.map_values(|b: NetBlock| block_view(b)) =~= network_blocks_spec(*data, hovered));
                return r2;
            }
            if !d.connectivity {
                let parts = strings1(one_char('\u{f015b}'));
                let ghost before = r@.map_values(|b: NetBlock| block_view(b));
                let b = NetBlock { color: NetColor::Red, parts, spinner: false };
                assert(block_view(b).1 =~= seq![seq!['\u{f015b}']]);
                r.push(b);
                assert(r@.map_values(|b: NetBlock| block_view(b)) =~= before.push(block_view(b)));
            }
            r
        },
    }
}

} // verus!
