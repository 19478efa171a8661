//! System tray: the StatusNotifierWatcher's registry of items and hosts,
//! the tray's own list of items and what each watcher event does to it,
//! the choice of icon pixmap and its conversion to RGBA, and the choice of
//! the menu entry that a click falls back to.
use vstd::prelude::*;
use crate::text::{chars_of, string_of, find_char, find_char_exec, sub_vec, push_str};
use crate::types::IconData;

verus! {

/// Bus name and object path of a tray item's service string, which is
/// `bus_name`, `bus_name/path` or `:1.23/path/to/item`.
pub open spec fn sni_service_spec(s: Seq<char>) -> (Seq<char>, Seq<char>) {
    match find_char(s, '/') {
        Some(i) => (s.take(i), s.skip(i)),
        None => (s, "/StatusNotifierItem"@),
    }
}

/// The bus name of a tray item's service string.
pub open spec fn bus_of(s: Seq<char>) -> Seq<char> {
    sni_service_spec(s).0
}

/// Splits a tray item's service string into its bus name and object path
/// (`/StatusNotifierItem` where it names none).
pub fn parse_sni_service(service: &str) -> (r: (String, String))
    ensures
        (r.0@, r.1@) == sni_service_spec(service@),
{
    let s = chars_of(service);
    match find_char_exec(s.as_slice(), '/') {
        Some(i) => {
            let name = sub_vec(s.as_slice(), 0, i);
            let path = sub_vec(s.as_slice(), i, s.len());
            assert(name@ =~= s@.take(i as int));
            assert(path@ =~= s@.skip(i as int));
            (string_of(name.as_slice()), string_of(path.as_slice()))
        },
        None => (service.to_owned(), "/StatusNotifierItem".to_owned()),
    }
}

/// The service under which an item registers: an object path alone is
/// completed with the bus name of the sender of the registration.
pub open spec fn full_service_spec(service: Seq<char>, sender: Option<Seq<char>>) -> Seq<char> {
    if service.len() > 0 && service[0] == '/' {
        match sender {
            Some(b) => b + service,
            None => service,
        }
    } else {
        service
    }
}

/// The service under which an item registers.
pub fn full_service(service: &str, sender: Option<&str>) -> (r: String)
    ensures
        r@ == full_service_spec(service@, match sender {
            Some(b) => Some(b@),
            None => None,
        }),
{
    let s = chars_of(service);
    if s.len() > 0 && s[0] == '/' {
        match sender {
            Some(b) => {
                let mut r = b.to_owned();
                push_str(&mut r, service);
                r
            },
            None => service.to_owned(),
        }
    } else {
        service.to_owned()
    }
}

/// The texts of a list of strings.
pub open spec fn texts(v: Seq<String>) -> Seq<Seq<char>> {
    v.map_values(|s: String| s@)
}

/// No text occurs twice in `v`.
pub open spec fn no_duplicates(v: Seq<Seq<char>>) -> bool {
    forall|i: int, j: int| 0 <= i < j < v.len() ==> #[trigger] v[i] != #[trigger] v[j]
}

/// Index of the first string of `v` whose text is `s`.
pub fn find_string(v: &Vec<String>, s: &String) -> (r: Option<usize>)
    ensures
        match r {
            Some(i) => i < v@.len() && v@[i as int]@ == s@
                && forall|j: int| 0 <= j < i ==> (#[trigger] v@[j])@ != s@,
            None => !texts(v@).contains(s@),
        },
{
    let mut i: usize = 0;
    while i < v.len()
        invariant
            i <= v@.len(),
            forall|j: int| 0 <= j < i ==> (#[trigger] v@[j])@ != s@,
        decreases v@.len() - i,
    {
        if v[i].eq(s) {
            return Some(i);
        }
        i += 1;
    }
    proof {
        if texts(v@).contains(s@) {
            let k = choose|k: int| 0 <= k < texts(v@).len() && texts(v@)[k] == s@;
            assert(v@[k]@ == s@);
        }
    }
    None
}

/// The items of `v` whose bus name is not `name`, in their order.
pub open spec fn keep_other_buses(v: Seq<Seq<char>>, name: Seq<char>) -> Seq<Seq<char>>
    decreases v.len(),
{
    if v.len() == 0 {
        v
    } else {
        let rest = keep_other_buses(v.drop_last(), name);
        if bus_of(v.last()) != name { rest.push(v.last()) } else { rest }
    }
}

/// Dropping the items of a bus keeps the others in their order: the
/// result is no longer, lists nothing new, and lists nothing twice where
/// `v` does not.
pub proof fn lemma_keep_other_buses(v: Seq<Seq<char>>, name: Seq<char>)
    ensures
        keep_other_buses(v, name).len() <= v.len(),
        forall|x: Seq<char>| keep_other_buses(v, name).contains(x) ==> v.contains(x),
        no_duplicates(v) ==> no_duplicates(keep_other_buses(v, name)),
    decreases v.len(),
{
    if v.len() > 0 {
        let rest = keep_other_buses(v.drop_last(), name);
        lemma_keep_other_buses(v.drop_last(), name);
        assert forall|x: Seq<char>| v.drop_last().contains(x) implies v.contains(x) by {
            let k = choose|k: int| 0 <= k < v.drop_last().len() && v.drop_last()[k] == x;
            assert(v[k] == x);
        }
        assert(v.contains(v.last()));
        if bus_of(v.last()) != name {
            let r = rest.push(v.last());
            assert forall|x: Seq<char>| r.contains(x) implies v.contains(x) by {
                let k = choose|k: int| 0 <= k < r.len() && r[k] == x;
                if k < rest.len() {
                    assert(rest[k] == x);
                    assert(rest.contains(x));
                }
            }
            if no_duplicates(v) {
                assert(no_duplicates(v.drop_last())) by {
                    assert forall|i: int, j: int| 0 <= i < j < v.drop_last().len() implies
                        #[trigger] v.drop_last()[i] != #[trigger] v.drop_last()[j] by {
                        assert(v[i] != v[j]);
                    }
                }
                assert forall|i: int, j: int| 0 <= i < j < r.len() implies #[trigger] r[i] != #[trigger] r[j] by {
                    if j == rest.len() {
                        assert(r[i] == rest[i]);
                        assert(rest.contains(rest[i]));
                        assert(v.drop_last().contains(rest[i]));
                        let k = choose|k: int| 0 <= k < v.drop_last().len() && v.drop_last()[k] == rest[i];
                        assert(v[k] != v[v.len() - 1]);
                    } else {
                        assert(r[i] == rest[i] && r[j] == rest[j]);
                    }
                }
            }
        } else {
            if no_duplicates(v) {
                assert(no_duplicates(v.drop_last())) by {
                    assert forall|i: int, j: int| 0 <= i < j < v.drop_last().len() implies
                        #[trigger] v.drop_last()[i] != #[trigger] v.drop_last()[j] by {
                        assert(v[i] != v[j]);
                    }
                }
            }
        }
    }
}

/// Registering a service adds it at the end, unless it is registered
/// already.
pub open spec fn register_spec(items: Seq<Seq<char>>, s: Seq<char>) -> Seq<Seq<char>> {
    if items.contains(s) { items } else { items.push(s) }
}

/// The registry of the StatusNotifierWatcher that the bar runs: the
/// services of the registered items, in order of registration, and the
/// registered hosts.
pub struct Watcher {
    items: Vec<String>,
    hosts: Vec<String>,
}

impl View for Watcher {
    type V = (Seq<Seq<char>>, Seq<Seq<char>>);

    closed spec fn view(&self) -> (Seq<Seq<char>>, Seq<Seq<char>>) {
        (texts(self.items@), texts(self.hosts@))
    }
}

/// The texts of a list with one more string are those of the list and the
/// text of that string.
pub proof fn lemma_texts_push(v: Seq<String>, s: String)
    ensures
        texts(v.push(s)) == texts(v).push(s@),
{
    assert(texts(v.push(s)) =~= texts(v).push(s@));
}

/// A list of one string.
pub fn strings1(a: String) -> (r: Vec<String>)
    ensures
        texts(r@) == seq![a@],
{
    let mut r: Vec<String> = Vec::new();
    r.push(a);
    assert(texts(r@) =~= seq![a@]);
    r
}

/// A list of two strings.
pub fn strings2(a: String, b: String) -> (r: Vec<String>)
    ensures
        texts(r@) == seq![a@, b@],
{
    let mut r: Vec<String> = Vec::new();
    r.push(a);
    r.push(b);
    assert(texts(r@) =~= seq![a@, b@]);
    r
}

impl Watcher {
    /// Registered items are never listed twice.
    pub open spec fn wf(&self) -> bool {
        no_duplicates(self@.0)
    }

    /// A registry with no item and no host.
    pub fn new() -> (w: Watcher)
        ensures
            w.wf(),
            w@.0 == Seq::<Seq<char>>::empty(),
            w@.1 == Seq::<Seq<char>>::empty(),
    {
        let w = Watcher { items: Vec::new(), hosts: Vec::new() };
        assert(w@.0 =~= Seq::<Seq<char>>::empty());
        assert(w@.1 =~= Seq::<Seq<char>>::empty());
        w
    }

    /// Registers an item's service; returns whether it was new (and so is
    /// announced to the tray).
    pub fn register_item(&mut self, service: String) -> (new: bool)
        requires
            old(self).wf(),
        ensures
            final(self).wf(),
            new == !old(self)@.0.contains(service@),
            final(self)@.0 == register_spec(old(self)@.0, service@),
            final(self)@.1 == old(self)@.1,
    {
        match find_string(&self.items, &service) {
            Some(i) => {
                proof {
                    assert(texts(self.items@)[i as int] == service@);
                }
                false
            },
            None => {
                proof {
                    lemma_texts_push(self.items@, service);
                }
                self.items.push(service);
                true
            },
        }
    }

    /// Registers a host, unless it is registered already.
    pub fn register_host(&mut self, service: String)
        ensures
            final(self)@.1 == register_spec(old(self)@.1, service@),
            final(self)@.0 == old(self)@.0,
            old(self).wf() ==> final(self).wf(),
    {
        match find_string(&self.hosts, &service) {
            Some(i) => {
                proof {
                    assert(texts(self.hosts@)[i as int] == service@);
                }
            },
            None => {
                proof {
                    lemma_texts_push(self.hosts@, service);
                }
                self.hosts.push(service);
            },
        }
    }

    /// Adds the bar's own host name, as it is.
    pub fn add_own_host(&mut self, name: String)
        ensures
            final(self)@.1 == old(self)@.1.push(name@),
            final(self)@.0 == old(self)@.0,
            old(self).wf() ==> final(self).wf(),
    {
        proof {
            lemma_texts_push(self.hosts@, name);
        }
        self.hosts.push(name);
    }

    /// The services of the registered items.
    pub fn registered_status_notifier_items(&self) -> (r: Vec<String>)
        ensures
            texts(r@) == self@.0,
    {
        self.items.clone()
    }

    /// Whether any host is registered.
    pub fn is_status_notifier_host_registered(&self) -> (r: bool)
        ensures
            r == (self@.1.len() > 0),
    {
        self.hosts.len() > 0
    }

    /// The protocol version that the watcher reports.
    pub fn protocol_version(&self) -> (r: i32)
        ensures
            r == 0,
    {
        0
    }

    /// The owner of the bus name `name` changed to `new_owner`: where the
    /// name was lost (no new owner), every item on that bus is dropped.
    /// Returns whether any was.
    pub fn name_owner_changed(&mut self, name: &str, new_owner: &str) -> (removed: bool)
        requires
            old(self).wf(),
        ensures
            final(self).wf(),
            final(self)@.1 == old(self)@.1,
            final(self)@.0 == if new_owner@.len() == 0 {
                keep_other_buses(old(self)@.0, name@)
            } else {
                old(self)@.0
            },
            removed == (final(self)@.0.len() < old(self)@.0.len()),
    {
        if new_owner.is_empty() {
            let ghost old_items = self@.0;
            let name_s = name.to_owned();
            let n = self.items.len();
            let mut kept: Vec<String> = Vec::new();
            let mut i: usize = 0;
            while i < n
                invariant
                    n == self.items@.len(),
                    i <= n,
                    old_items == texts(self.items@),
                    name_s@ == name@,
                    texts(kept@) == keep_other_buses(old_items.take(i as int), name@),
                decreases n - i,
            {
                let (bus, _path) = parse_sni_service(self.items[i].as_str());
                assert(old_items.take(i + 1).drop_last() =~= old_items.take(i as int));
                assert(old_items[i as int] == self.items@[i as int]@);
                if !bus.eq(&name_s) {
                    let c = self.items[i].clone();
                    proof {
                        lemma_texts_push(kept@, c);
                    }
                    kept.push(c);
                }
                i += 1;
            }
            assert(old_items.take(n as int) =~= old_items);
            let removed = kept.len() < n;
            self.items = kept;
            proof {
                lemma_keep_other_buses(old_items, name@);
            }
            removed
        } else {
            false
        }
    }
}

/// Registering a service twice registers it once: afterwards it is listed,
/// exactly once, and no service is listed twice.
pub proof fn law_register_is_idempotent(items: Seq<Seq<char>>, s: Seq<char>)
    requires
        no_duplicates(items),
    ensures
        register_spec(items, s).contains(s),
        no_duplicates(register_spec(items, s)),
        register_spec(register_spec(items, s), s) == register_spec(items, s),
{
    if !items.contains(s) {
        let r = items.push(s);
        assert(r[items.len() as int] == s);
        assert forall|i: int, j: int| 0 <= i < j < r.len() implies #[trigger] r[i] != #[trigger] r[j] by {
            if j == items.len() {
                assert(items[i] == r[i]);
                if r[i] == r[j] {
                    assert(items.contains(s));
                }
            }
        }
    }
}

/// Once a bus name is lost, no item on that bus is left, and every item on
/// another bus stays.
pub proof fn law_name_lost_drops_its_items(items: Seq<Seq<char>>, name: Seq<char>, s: Seq<char>)
    ensures
        keep_other_buses(items, name).contains(s) <==> (items.contains(s) && bus_of(s) != name),
    decreases items.len(),
{
    if items.len() > 0 {
        law_name_lost_drops_its_items(items.drop_last(), name, s);
        let rest = keep_other_buses(items.drop_last(), name);
        assert(items =~= items.drop_last().push(items.last()));
        if bus_of(items.last()) != name {
            assert(rest.push(items.last())[rest.len() as int] == items.last());
            if rest.contains(s) {
                let k = choose|k: int| 0 <= k < rest.len() && rest[k] == s;
                assert(rest.push(items.last())[k] == s);
            }
            if rest.push(items.last()).contains(s) && s != items.last() {
                let k = choose|k: int| 0 <= k < rest.push(items.last()).len() && rest.push(items.last())[k] == s;
                assert(rest[k] == s);
            }
        }
        if items.contains(s) && !items.drop_last().contains(s) {
            let k = choose|k: int| 0 <= k < items.len() && items[k] == s;
            if k < items.len() - 1 {
                assert(items.drop_last()[k] == s);
            }
        }
        if items.drop_last().contains(s) {
            let k = choose|k: int| 0 <= k < items.drop_last().len() && items.drop_last()[k] == s;
            assert(items[k] == s);
        }
    }
}

/// An item shown in the tray: its service, its icon (if one could be
/// loaded) and its status (`Active`, `Passive` or `NeedsAttention`).
pub struct TrayItem {
    pub service: String,
    pub icon: Option<IconData>,
    pub status: String,
}

/// Whether the item `t` stays when the items keyed `key` are dropped:
/// by bus name when `by_bus`, else by the whole service.
pub open spec fn stays(t: TrayItem, key: Seq<char>, by_bus: bool) -> bool {
    if by_bus { bus_of(t.service@) != key } else { t.service@ != key }
}

/// The items of `v` that stay, in their order.
pub open spec fn kept_items(v: Seq<TrayItem>, key: Seq<char>, by_bus: bool) -> Seq<TrayItem>
    decreases v.len(),
{
    if v.len() == 0 {
        v
    } else {
        let rest = kept_items(v.drop_last(), key, by_bus);
        if stays(v.last(), key, by_bus) { rest.push(v.last()) } else { rest }
    }
}

/// `i` is the first item of `v` with the service `svc`.
pub open spec fn is_first_service(v: Seq<TrayItem>, svc: Seq<char>, i: int) -> bool {
    0 <= i < v.len() && v[i].service@ == svc
        && forall|j: int| 0 <= j < i ==> (#[trigger] v[j]).service@ != svc
}

/// The first item of `v` with the service `svc`, if any.
pub open spec fn first_service(v: Seq<TrayItem>, svc: Seq<char>) -> Option<int> {
    if exists|i: int| is_first_service(v, svc, i) {
        Some(choose|i: int| is_first_service(v, svc, i))
    } else {
        None
    }
}

proof fn lemma_first_service_unique(v: Seq<TrayItem>, svc: Seq<char>, i: int)
    requires
        is_first_service(v, svc, i),
    ensures
        first_service(v, svc) == Some(i),
{
    let k = choose|k: int| is_first_service(v, svc, k);
    assert(is_first_service(v, svc, k));
    if k < i {
        assert(v[k].service@ != svc);
    }
    if i < k {
        assert(v[i].service@ != svc);
    }
}

/// Unregistering a service undoes its registration: the tray then holds
/// what it held before, less any earlier item of that service.
pub proof fn law_unregister_undoes_register(v: Seq<TrayItem>, t: TrayItem)
    ensures
        kept_items(v.push(t), t.service@, false) == kept_items(v, t.service@, false),
{
    assert(v.push(t).drop_last() =~= v);
}

/// After its bus name is lost, no item of that bus is left in the tray.
pub proof fn law_lost_bus_leaves_no_item(v: Seq<TrayItem>, name: Seq<char>, k: int)
    requires
        0 <= k < kept_items(v, name, true).len(),
    ensures
        bus_of(kept_items(v, name, true)[k].service@) != name,
    decreases v.len(),
{
    if v.len() > 0 {
        let rest = kept_items(v.drop_last(), name, true);
        if stays(v.last(), name, true) && k == rest.len() {
        } else {
            law_lost_bus_leaves_no_item(v.drop_last(), name, k);
        }
    }
}

/// An item is shown when its status is not `Passive`.
pub open spec fn shown(t: TrayItem) -> bool {
    t.status@ != "Passive"@
}

/// The tray draws anything only when some shown item has an icon.
pub open spec fn has_visible(v: Seq<TrayItem>) -> bool {
    exists|i: int| 0 <= i < v.len() && shown(#[trigger] v[i]) && v[i].icon is Some
}

/// Indices of the shown items of `v[..n]`, in order.
pub open spec fn shown_indices(v: Seq<TrayItem>, n: int) -> Seq<usize>
    decreases n,
{
    if n <= 0 {
        Seq::empty()
    } else {
        let rest = shown_indices(v, n - 1);
        if shown(v[n - 1]) { rest.push((n - 1) as usize) } else { rest }
    }
}

/// The shown indices of `v[..n]` are exactly the indices below `n` of
/// items that are not passive, in increasing order.
proof fn lemma_shown_indices(v: Seq<TrayItem>, n: int)
    requires
        0 <= n <= v.len(),
        v.len() <= usize::MAX,
    ensures
        forall|k: int| 0 <= k < shown_indices(v, n).len() ==>
            (#[trigger] shown_indices(v, n)[k] as int) < n && shown(v[shown_indices(v, n)[k] as int]),
        forall|i: int| 0 <= i < n && shown(#[trigger] v[i]) ==> shown_indices(v, n).contains(i as usize),
        forall|a: int, b: int| 0 <= a < b < shown_indices(v, n).len() ==>
            (#[trigger] shown_indices(v, n)[a]) < (#[trigger] shown_indices(v, n)[b]),
    decreases n,
{
    if n > 0 {
        lemma_shown_indices(v, n - 1);
        let rest = shown_indices(v, n - 1);
        let s = shown_indices(v, n);
        if shown(v[n - 1]) {
            assert(s == rest.push((n - 1) as usize));
            assert(((n - 1) as usize) as int == n - 1);
            assert(s[rest.len() as int] as int == n - 1);
            assert forall|i: int| 0 <= i < n && shown(#[trigger] v[i]) implies s.contains(i as usize) by {
                if i < n - 1 {
                    let k = choose|k: int| 0 <= k < rest.len() && rest[k] == i as usize;
                    assert(s[k] == i as usize);
                } else {
                    assert(s[rest.len() as int] == i as usize);
                }
            }
        } else {
            assert(s == rest);
        }
    }
}

/// The items that the tray shows, in the order in which they came.
pub struct TrayList {
    pub items: Vec<TrayItem>,
}

impl TrayList {
    /// An empty tray.
    pub fn new() -> (t: TrayList)
        ensures
            t.items@.len() == 0,
    {
        TrayList { items: Vec::new() }
    }

    /// Drops the items that do not stay (see `stays`).
    fn drop_items(&mut self, key: &str, by_bus: bool)
        ensures
            final(self).items@ == kept_items(old(self).items@, key@, by_bus),
    {
        let ghost v0 = self.items@;
        let key_s = key.to_owned();
        let mut i: usize = 0;
        let ghost mut j: int = 0;
        while i < self.items.len()
            invariant
                key_s@ == key@,
                0 <= j <= v0.len(),
                self.items@ == kept_items(v0.take(j), key@, by_bus) + v0.skip(j),
                i == kept_items(v0.take(j), key@, by_bus).len(),
            decreases v0.len() - j,
        {
            proof {
                assert(v0.take(j + 1).drop_last() =~= v0.take(j));
                assert(v0.take(j + 1).last() == v0[j]);
                assert(self.items@[i as int] == v0[j]);
            }
            let keep = if by_bus {
                let (bus, _path) = parse_sni_service(self.items[i].service.as_str());
                !bus.eq(&key_s)
            } else {
                !self.items[i].service.eq(&key_s)
            };
            if keep {
                proof {
                    assert(kept_items(v0.take(j + 1), key@, by_bus) + v0.skip(j + 1)
                        =~= kept_items(v0.take(j), key@, by_bus) + v0.skip(j));
                }
                i += 1;
            } else {
                let _gone = self.items.remove(i);
                proof {
                    assert(kept_items(v0.take(j + 1), key@, by_bus) + v0.skip(j + 1)
                        =~= (kept_items(v0.take(j), key@, by_bus) + v0.skip(j)).remove(i as int));
                }
            }
            proof {
                j = j + 1;
            }
        }
        proof {
            assert(v0.skip(j).len() == 0);
            assert(j == v0.len());
            assert(v0.take(j) =~= v0);
            assert(self.items@ =~= kept_items(v0, key@, by_bus));
        }
    }

    /// A new item registered; `fetched` is what could be read of it.
    /// Returns whether the bar is to be redrawn.
    pub fn registered(&mut self, fetched: Option<TrayItem>) -> (redraw: bool)
        ensures
            match fetched {
                Some(t) => final(self).items@ == old(self).items@.push(t) && redraw,
                None => final(self).items@ == old(self).items@ && !redraw,
            },
    {
        match fetched {
            Some(t) => {
                self.items.push(t);
                true
            },
            None => false,
        }
    }

    /// An item unregistered: every item with its service is dropped.
    /// Returns whether the bar is to be redrawn (always).
    pub fn unregistered(&mut self, service: &str) -> (redraw: bool)
        ensures
            final(self).items@ == kept_items(old(self).items@, service@, false),
            redraw,
    {
        self.drop_items(service, false);
        true
    }

    /// The bus name `name` was lost: every item on that bus is dropped.
    pub fn name_lost(&mut self, name: &str)
        ensures
            final(self).items@ == kept_items(old(self).items@, name@, true),
    {
        self.drop_items(name, true);
    }

    /// An item announced a new icon or status; `fetched` is what could be
    /// read of it anew. It takes the place of the first item with that
    /// service. Returns whether the bar is to be redrawn.
    pub fn changed(&mut self, service: &str, fetched: Option<TrayItem>) -> (redraw: bool)
        ensures
            match fetched {
                Some(t) => redraw && final(self).items@ == match first_service(old(self).items@, service@) {
                    Some(i) => old(self).items@.update(i, t),
                    None => old(self).items@,
                },
                None => !redraw && final(self).items@ == old(self).items@,
            },
    {
        match fetched {
            Some(t) => {
                let key_s = service.to_owned();
                let mut i: usize = 0;
                while i < self.items.len()
                    invariant
                        key_s@ == service@,
                        fetched == Some(t),
                        self.items@ == old(self).items@,
                        forall|j: int| 0 <= j < i ==> (#[trigger] self.items@[j]).service@ != service@,
                    decreases self.items@.len() - i,
                {
                    if self.items[i].service.eq(&key_s) {
                        proof {
                            lemma_first_service_unique(self.items@, service@, i as int);
                        }
                        self.items[i] = t;
                        assert(self.items@ =~= old(self).items@.update(i as int, t));
                        return true;
                    }
                    i += 1;
                }
                proof {
                    assert(!exists|k: int| is_first_service(old(self).items@, service@, k));
                }
                true
            },
            None => false,
        }
    }

    /// What the tray draws: nothing (`None`) unless some shown item has an
    /// icon, else the indices of the shown items, in order (each gets a
    /// click handler, and its icon where it has one).
    pub fn entries(&self) -> (r: Option<Vec<usize>>)
        ensures
            match r {
                Some(v) => has_visible(self.items@) && v@ == shown_indices(self.items@, self.items@.len() as int),
                None => !has_visible(self.items@),
            },
            // Drawn exactly when not passive, listed in increasing order.
            r is Some <==> exists|i: int| 0 <= i < self.items@.len()
                && (#[trigger] self.items@[i]).status@ != "Passive"@ && self.items@[i].icon is Some,
            r matches Some(v) ==> {
                &&& forall|k: int| 0 <= k < v@.len() ==> (#[trigger] v@[k] as int) < self.items@.len()
                &&& forall|i: int| 0 <= i < self.items@.len() ==>
                    (v@.contains(i as usize) <==> (#[trigger] self.items@[i]).status@ != "Passive"@)
                &&& forall|a: int, b: int| 0 <= a < b < v@.len() ==> (#[trigger] v@[a]) < (#[trigger] v@[b])
            },
    {
        let passive = "Passive".to_owned();
        let mut out: Vec<usize> = Vec::new();
        let mut any = false;
        let mut i: usize = 0;
        while i < self.items.len()
            invariant
                passive@ == "Passive"@,
                i <= self.items@.len(),
                out@ == shown_indices(self.items@, i as int),
                any == exists|k: int| 0 <= k < i && shown(#[trigger] self.items@[k]) && self.items@[k].icon is Some,
            decreases self.items@.len() - i,
        {
            if !self.items[i].status.eq(&passive) {
                out.push(i);
                if self.items[i].icon.is_some() {
                    any = true;
                }
            }
            proof {
                if any {
                    if !(exists|k: int| 0 <= k < i && shown(#[trigger] self.items@[k]) && self.items@[k].icon is Some) {
                        assert(shown(self.items@[i as int]) && self.items@[i as int].icon is Some);
                    }
                }
            }
            i += 1;
        }
        proof {
            lemma_shown_indices(self.items@, self.items@.len() as int);
        }
        if any { Some(out) } else { None }
    }
}

/// A D-Bus `i32` read as the `u32` it is cast to (`as u32`).
pub open spec fn as_u32(x: i32) -> u32 {
    if x >= 0 { x as u32 } else { (x + 0x1_0000_0000) as u32 }
}

/// An `i32` as the `u32` it is cast to.
pub fn cast_u32(x: i32) -> (r: u32)
    ensures
        r == as_u32(x),
{
    if x >= 0 { x as u32 } else { (x as i64 + 0x1_0000_0000i64) as u32 }
}


/// How far a pixmap `h` pixels high is from the wanted height `target`;
/// smaller pixmaps are penalized, so that larger ones are preferred.
pub open spec fn size_distance(h: i32, target: u32) -> int {
    let hu = as_u32(h);
    if hu >= target { hu - target } else { target - hu + 1000 }
}

/// `i` is the first of the pixmaps `p` whose height is closest to `target`.
pub open spec fn is_best_pixmap(p: Seq<(i32, i32, Vec<u8>)>, target: u32, i: int) -> bool {
    &&& 0 <= i < p.len()
    &&& forall|j: int| 0 <= j < p.len() ==> size_distance(p[i].1, target) <= size_distance(#[trigger] p[j].1, target)
    &&& forall|j: int| 0 <= j < i ==> size_distance(p[i].1, target) < size_distance(#[trigger] p[j].1, target)
}

/// The pixmap chosen among `p` for an icon `target` pixels high.
pub open spec fn best_pixmap(p: Seq<(i32, i32, Vec<u8>)>, target: u32) -> int {
    choose|i: int| is_best_pixmap(p, target, i)
}

proof fn lemma_best_unique(p: Seq<(i32, i32, Vec<u8>)>, target: u32, i: int)
    requires
        is_best_pixmap(p, target, i),
    ensures
        best_pixmap(p, target) == i,
{
    let k = best_pixmap(p, target);
    assert(is_best_pixmap(p, target, k));
    if k < i {
        assert(size_distance(p[i].1, target) < size_distance(p[k].1, target));
    }
    if i < k {
        assert(size_distance(p[k].1, target) < size_distance(p[i].1, target));
    }
}

/// Index of the pixmap to use for an icon `target` pixels high: the
/// first one of the smallest distance.
pub fn best_pixmap_index(p: &Vec<(i32, i32, Vec<u8>)>, target: u32) -> (r: usize)
    requires
        p@.len() > 0,
        target <= u32::MAX - 1000,
    ensures
        r == best_pixmap(p@, target),
        is_best_pixmap(p@, target, r as int),
{
    let mut best: usize = 0;
    let h0 = cast_u32(p[0].1);
    let mut best_key: u32 = if h0 >= target { h0 - target } else { (target - h0) + 1000 };
    let mut i: usize = 1;
    while i < p.len()
        invariant
            1 <= i <= p@.len(),
            target <= u32::MAX - 1000,
            best < i,
            best_key == size_distance(p@[best as int].1, target),
            forall|j: int| 0 <= j < i ==> best_key <= size_distance(#[trigger] p@[j].1, target),
            forall|j: int| 0 <= j < best ==> best_key < size_distance(#[trigger] p@[j].1, target),
        decreases p@.len() - i,
    {
        let h = cast_u32(p[i].1);
        let key: u32 = if h >= target { h - target } else { (target - h) + 1000 };
        if key < best_key {
            best = i;
            best_key = key;
        }
        i += 1;
    }
    proof {
        lemma_best_unique(p@, target, best as int);
    }
    best
}

/// The chosen pixmap is the closest in height, preferring larger ones: no
/// pixmap is closer, and where some pixmap is at least as high as wanted
/// (by less than the penalty of 1000 pixels that smaller ones carry), the
/// chosen one is at least as high as wanted too.
pub proof fn law_best_pixmap_prefers_larger(p: Seq<(i32, i32, Vec<u8>)>, target: u32, i: int, k: int)
    requires
        is_best_pixmap(p, target, i),
        0 <= k < p.len(),
    ensures
        size_distance(p[i].1, target) <= size_distance(p[k].1, target),
        target <= as_u32(p[k].1) < target + 1000 ==> as_u32(p[i].1) >= target,
{
    assert(size_distance(p[i].1, target) <= size_distance(p[k].1, target));
}

/// The chosen pixmap can be used: it has a size and holds enough bytes.
pub open spec fn pixmap_ok(b: (i32, i32, Vec<u8>)) -> bool {
    as_u32(b.0) != 0 && as_u32(b.1) != 0 && b.2@.len() >= as_u32(b.0) * as_u32(b.1) * 4
}

/// `out` holds the first `n` pixels of the big-endian ARGB data `src`,
/// each turned into RGBA.
pub open spec fn argb_as_rgba(src: Seq<u8>, n: int, out: Seq<u8>) -> bool {
    &&& out.len() == 4 * n
    &&& forall|i: int| 0 <= i < n ==> {
        &&& #[trigger] out[4 * i] == src[4 * i + 1]
        &&& out[4 * i + 1] == src[4 * i + 2]
        &&& out[4 * i + 2] == src[4 * i + 3]
        &&& out[4 * i + 3] == src[4 * i]
    }
}

/// The icon that a tray item's pixmaps (width, height, big-endian ARGB
/// bytes) give for a bar `target_height` pixels high, before it is scaled
/// to that height: the pixmap of the closest height (a larger one where
/// none is as high), turned into RGBA. `None` without pixmaps, or where
/// the chosen one is empty or short of bytes.
pub fn convert_icon(pixmaps: &Vec<(i32, i32, Vec<u8>)>, target_height: u32) -> (r: Option<IconData>)
    requires
        target_height <= u32::MAX - 1000,
        pixmaps@.len() > 0 ==> ({
            let b = pixmaps@[best_pixmap(pixmaps@, target_height)];
            as_u32(b.0) * as_u32(b.1) * 4 <= u32::MAX
        }),
    ensures
        pixmaps@.len() == 0 ==> r is None,
        pixmaps@.len() > 0 ==> ({
            let b = pixmaps@[best_pixmap(pixmaps@, target_height)];
            match r {
                Some(icon) => pixmap_ok(b) && icon.width == as_u32(b.0) && icon.height == as_u32(b.1)
                    && argb_as_rgba(b.2@, icon.width * icon.height, icon.pixels@),
                None => !pixmap_ok(b),
            }
        }),
{
    if pixmaps.len() == 0 {
        return None;
    }
    let k = best_pixmap_index(pixmaps, target_height);
    let sw = cast_u32(pixmaps[k].0);
    let sh = cast_u32(pixmaps[k].1);
    if sw == 0 || sh == 0 {
        return None;
    }
    let total: u32 = sw * sh * 4;
    let data = &pixmaps[k].2;
    if data.len() < total as usize {
        return None;
    }
    let n: usize = (sw * sh) as usize;
    let dl: usize = data.len();
    let mut rgba: Vec<u8> = Vec::new();
    let mut i: usize = 0;
    while i < n
        invariant
            n as int == sw * sh,
            4 * n <= data@.len(),
            dl == data@.len(),
            i <= n,
            argb_as_rgba(data@, i as int, rgba@),
        decreases n - i,
    {
        let ghost old_rgba = rgba@;
        assert(i * 4 < 4 * n);
        let src = i * 4;
        let a = data[src];
        let r = data[src + 1];
        let g = data[src + 2];
        let b = data[src + 3];
        rgba.push(r);
        rgba.push(g);
        rgba.push(b);
        rgba.push(a);
        proof {
            let ghost k = i as int;
            assert forall|m: int| 0 <= m < k + 1 implies {
                &&& #[trigger] rgba@[4 * m] == data@[4 * m + 1]
                &&& rgba@[4 * m + 1] == data@[4 * m + 2]
                &&& rgba@[4 * m + 2] == data@[4 * m + 3]
                &&& rgba@[4 * m + 3] == data@[4 * m]
            } by {
                if m < k {
                    assert(rgba@[4 * m] == old_rgba[4 * m]);
                    assert(rgba@[4 * m + 1] == old_rgba[4 * m + 1]);
                    assert(rgba@[4 * m + 2] == old_rgba[4 * m + 2]);
                    assert(rgba@[4 * m + 3] == old_rgba[4 * m + 3]);
                }
            }
            assert(rgba@.len() == 4 * (k + 1));
            assert(argb_as_rgba(data@, k + 1, rgba@));
        }
        i += 1;
    }
    Some(IconData { width: sw, height: sh, pixels: rgba })
}

/// An entry of a tray item's menu: its id, whether it is a separator, and
/// whether it has a label that is not empty.
#[derive(Debug, Clone, Copy, PartialEq, Eq, Structural)]
pub struct MenuEntry {
    pub id: i32,
    pub is_separator: bool,
    pub has_label: bool,
}

/// An entry that a click can activate: a labelled one that is not a
/// separator.
pub open spec fn activatable(e: MenuEntry) -> bool {
    !e.is_separator && e.has_label
}

/// The first separator of `v` from index `k` on.
pub open spec fn first_separator_from(v: Seq<MenuEntry>, k: int) -> Option<int>
    decreases v.len() - k,
{
    if k < 0 || k >= v.len() {
        None
    } else if v[k].is_separator {
        Some(k)
    } else {
        first_separator_from(v, k + 1)
    }
}

/// The first activatable entry of `v` from index `k` on.
pub open spec fn first_activatable_from(v: Seq<MenuEntry>, k: int) -> Option<int>
    decreases v.len() - k,
{
    if k < 0 || k >= v.len() {
        None
    } else if activatable(v[k]) {
        Some(k)
    } else {
        first_activatable_from(v, k + 1)
    }
}

/// The menu entry that a click on a tray item falls back to: the first
/// activatable entry after the first separator (which skips sections of
/// recent items), or the first activatable entry where there is no
/// separator.
pub open spec fn menu_target_spec(v: Seq<MenuEntry>) -> Option<i32> {
    let from = match first_separator_from(v, 0) {
        Some(s) => s + 1,
        None => 0,
    };
    match first_activatable_from(v, from) {
        Some(j) => Some(v[j].id),
        None => None,
    }
}

proof fn lemma_first_activatable(v: Seq<MenuEntry>, k: int)
    requires
        0 <= k,
    ensures
        first_activatable_from(v, k) matches Some(j) ==> k <= j < v.len() && activatable(v[j]),
    decreases v.len() - k,
{
    if k < v.len() && !activatable(v[k]) {
        lemma_first_activatable(v, k + 1);
    }
}

proof fn lemma_first_separator(v: Seq<MenuEntry>, k: int)
    requires
        0 <= k,
    ensures
        first_separator_from(v, k) matches Some(j) ==> k <= j < v.len() && v[j].is_separator,
    decreases v.len() - k,
{
    if k < v.len() && !v[k].is_separator {
        lemma_first_separator(v, k + 1);
    }
}

/// A click falls back to an entry that can be activated: a labelled entry
/// that is no separator, and one after the first separator where the menu
/// has one.
pub proof fn law_menu_target_is_activatable(v: Seq<MenuEntry>)
    ensures
        menu_target_spec(v) matches Some(id) ==> exists|j: int| 0 <= j < v.len() && #[trigger] v[j].id == id
            && activatable(v[j])
            && (first_separator_from(v, 0) matches Some(s) ==> s < j),
{
    lemma_first_separator(v, 0);
    let from = match first_separator_from(v, 0) {
        Some(s) => s + 1,
        None => 0,
    };
    lemma_first_activatable(v, from);
    if let Some(j) = first_activatable_from(v, from) {
        assert(v[j].id == v[j].id);
    }
}

/// Id of the menu entry that a click falls back to, if any.
pub fn menu_target(entries: &Vec<MenuEntry>) -> (r: Option<i32>)
    ensures
        r == menu_target_spec(entries@),
{
    let n = entries.len();
    let mut k: usize = 0;
    while k < n && !entries[k].is_separator
        invariant
            n == entries@.len(),
            k <= n,
            first_separator_from(entries@, 0) == first_separator_from(entries@, k as int),
        decreases n - k,
    {
        k += 1;
    }
    let mut j: usize = if k < n { k + 1 } else { 0 };
    let ghost from = j as int;
    assert(from == match first_separator_from(entries@, 0) {
        Some(s) => s + 1,
        None => 0int,
    });
    while j < n && !(!entries[j].is_separator && entries[j].has_label)
        invariant
            n == entries@.len(),
            j <= n + 1,
            first_activatable_from(entries@, from) == first_activatable_from(entries@, j as int),
        decreases n + 1 - j,
    {
        j += 1;
    }
    if j < n { Some(entries[j].id) } else { None }
}

/// The evdev code of the right mouse button (`BTN_RIGHT` of Linux's input
/// event codes, as `smithay_client_toolkit::seat::pointer` defines it).
pub const BTN_RIGHT: u32 = 0x111;

/// What a click on a tray item asks of it.
#[derive(Debug, Clone, Copy, PartialEq, Eq, Structural)]
pub enum TrayClick {
    /// The secondary action (right button).
    SecondaryActivate,
    /// The primary action, and the item's menu where it has none.
    ActivateOrMenu,
}

/// What a click with `button` asks of a tray item.
pub fn click_action(button: u32) -> (r: TrayClick)
    ensures
        r == if button == BTN_RIGHT { TrayClick::SecondaryActivate } else { TrayClick::ActivateOrMenu },
{
    if button == BTN_RIGHT { TrayClick::SecondaryActivate } else { TrayClick::ActivateOrMenu }
}

/// `dir` joined with `name` as `Path::join` joins them: an absolute
/// `name` replaces `dir`, and a separator goes between them where `dir`
/// does not end with one.
pub open spec fn join_path(dir: Seq<char>, name: Seq<char>) -> Seq<char> {
    if name.len() > 0 && name[0] == '/' {
        name
    } else if dir.len() == 0 || dir.last() == '/' {
        dir + name
    } else {
        dir + seq!['/'] + name
    }
}

/// The files that may hold the icon `name` in the theme directory `dir`:
/// with the extensions `png`, `svg` and `xpm`, in that order.
pub open spec fn icon_candidates_spec(dir: Seq<char>, name: Seq<char>) -> Seq<Seq<char>> {
    seq![
        join_path(dir, name + "."@ + "png"@),
        join_path(dir, name + "."@ + "svg"@),
        join_path(dir, name + "."@ + "xpm"@),
    ]
}

/// `dir` joined with `name` (see `join_path`).
pub fn join_exec(dir: &str, name: &String) -> (r: String)
    ensures
        r@ == join_path(dir@, name@),
{
    let n = chars_of(name.as_str());
    let d = chars_of(dir);
    if n.len() > 0 && n[0] == '/' {
        name.clone()
    } else if d.len() == 0 || d[d.len() - 1] == '/' {
        let mut r = dir.to_owned();
        push_str(&mut r, name.as_str());
        r
    } else {
        let mut r = dir.to_owned();
        push_str(&mut r, "/");
        push_str(&mut r, name.as_str());
        proof {
            reveal_strlit("/");
        }
        assert(r@ =~= dir@ + seq!['/'] + name@);
        r
    }
}

/// The files that may hold the icon `icon_name` in `theme_path`.
pub fn icon_candidates(theme_path: &str, icon_name: &str) -> (r: Vec<String>)
    ensures
        texts(r@) == icon_candidates_spec(theme_path@, icon_name@),
{
    let mut r: Vec<String> = Vec::new();
    let mut png_name = icon_name.to_owned();
    push_str(&mut png_name, ".");
    push_str(&mut png_name, "png");
    let mut svg_name = icon_name.to_owned();
    push_str(&mut svg_name, ".");
    push_str(&mut svg_name, "svg");
    let mut xpm_name = icon_name.to_owned();
    push_str(&mut xpm_name, ".");
    push_str(&mut xpm_name, "xpm");
    r.push(join_exec(theme_path, &png_name));
    r.push(join_exec(theme_path, &svg_name));
    r.push(join_exec(theme_path, &xpm_name));
    assert(texts(r@) =~= icon_candidates_spec(theme_path@, icon_name@));
    r
}

/// The icon file of `icon_name` in `theme_path`: the first candidate (see
/// `icon_candidates`) that exists, where `exists[k]` tells whether the
/// `k`-th does.
pub fn find_icon_in_theme_path(theme_path: &str, icon_name: &str, exists: &Vec<bool>) -> (r: Option<String>)
    requires
        exists@.len() == 3,
    ensures
        ({
            let c = icon_candidates_spec(theme_path@, icon_name@);
            match r {
                Some(p) => exists|k: int| 0 <= k < 3 && exists@[k] && p@ == c[k]
                    && forall|j: int| 0 <= j < k ==> !exists@[j],
                None => !exists@[0] && !exists@[1] && !exists@[2],
            }
        }),
{
    let c = icon_candidates(theme_path, icon_name);
    assert(texts(c@).len() == 3);
    assert(c@.len() == 3);
    assert(texts(c@)[0] == c@[0]@);
    assert(texts(c@)[1] == c@[1]@);
    assert(texts(c@)[2] == c@[2]@);
    if exists[0] {
        Some(c[0].clone())
    } else if exists[1] {
        Some(c[1].clone())
    } else if exists[2] {
        Some(c[2].clone())
    } else {
        None
    }
}

/// Whether a tray item's icon is to be looked up by name in its theme
/// directory: where its pixmaps gave none, and it names both.
pub fn wants_theme_icon(have_icon: bool, icon_name: &str, theme_path: &str) -> (r: bool)
    ensures
        r == (!have_icon && icon_name@.len() > 0 && theme_path@.len() > 0),
{
    !have_icon && !icon_name.is_empty() && !theme_path.is_empty()
}

/// The first frame of the PNG image `bytes`, as `png::Decoder` (default
/// limits, no transformation) decodes it: width, height, color type (as
/// the PNG format numbers it) and the decoded bytes. `None` where it
/// cannot be decoded.
pub uninterp spec fn png_frame(bytes: Seq<u8>) -> Option<(u32, u32, u8, Seq<u8>)>;

/// Decodes the first frame of the PNG image `bytes` with `png::Decoder`:
/// `Decoder::new`, `read_info`, `next_frame` into a buffer of
/// `output_buffer_size` bytes, cut to the frame's `buffer_size`. The
/// contract names the result and claims nothing else of it.
#[verifier::external_body]
fn decode_png(bytes: &[u8]) -> (r: Option<(u32, u32, u8, Vec<u8>)>)
    ensures
        match r {
            Some(f) => png_frame(bytes@) == Some((f.0, f.1, f.2, f.3@)),
            None => png_frame(bytes@) is None,
        },
{
    let mut reader = png::Decoder::new(bytes).read_info().ok()?;
    let mut buf = vec![0u8; reader.output_buffer_size()];
    let info = reader.next_frame(&mut buf).ok()?;
    buf.truncate(info.buffer_size());
    let color = match info.color_type {
        png::ColorType::Grayscale => 0u8,
        png::ColorType::Rgb => 2u8,
        png::ColorType::Indexed => 3u8,
        png::ColorType::GrayscaleAlpha => 4u8,
        png::ColorType::Rgba => 6u8,
    };
    Some((info.width, info.height, color, buf))
}

/// The PNG color types that the tray turns into RGBA: grayscale (0), RGB
/// (2), grayscale with alpha (4) and RGBA (6).
pub open spec fn png_color_supported(c: u8) -> bool {
    c == 0 || c == 2 || c == 4 || c == 6
}

/// `out` is the RGBA form of the decoded bytes `buf` of color type `c`:
/// RGBA as it is, RGB and grayscale made opaque, grayscale spread over the
/// three colors (incomplete pixels at the end are dropped).
pub open spec fn expanded_to_rgba(c: u8, buf: Seq<u8>, out: Seq<u8>) -> bool {
    if c == 6 {
        out == buf
    } else if c == 2 {
        &&& out.len() == 4 * (buf.len() / 3)
        &&& forall|i: int| 0 <= i < buf.len() / 3 ==> {
            &&& #[trigger] out[4 * i] == buf[3 * i]
            &&& out[4 * i + 1] == buf[3 * i + 1]
            &&& out[4 * i + 2] == buf[3 * i + 2]
            &&& out[4 * i + 3] == 255
        }
    } else if c == 4 {
        &&& out.len() == 4 * (buf.len() / 2)
        &&& forall|i: int| 0 <= i < buf.len() / 2 ==> {
            &&& #[trigger] out[4 * i] == buf[2 * i]
            &&& out[4 * i + 1] == buf[2 * i]
            &&& out[4 * i + 2] == buf[2 * i]
            &&& out[4 * i + 3] == buf[2 * i + 1]
        }
    } else if c == 0 {
        &&& out.len() == 4 * buf.len()
        &&& forall|i: int| 0 <= i < buf.len() ==> {
            &&& #[trigger] out[4 * i] == buf[i]
            &&& out[4 * i + 1] == buf[i]
            &&& out[4 * i + 2] == buf[i]
            &&& out[4 * i + 3] == 255
        }
    } else {
        false
    }
}

/// Length of the RGBA form of `n` decoded bytes of color type `c`.
pub open spec fn expanded_len(c: u8, n: int) -> int {
    if c == 6 { n } else if c == 2 { 4 * (n / 3) } else if c == 4 { 4 * (n / 2) } else { 4 * n }
}

/// The RGBA icon of a decoded PNG frame (`width` x `height`, color type
/// `color`, bytes `buf`), before it is scaled to the bar's height. `None`
/// for other color types, or where the frame holds fewer bytes than its
/// size asks for.
pub fn png_to_rgba(color: u8, width: u32, height: u32, buf: Vec<u8>) -> (r: Option<IconData>)
    requires
        png_color_supported(color) ==> width * height * 4 <= u32::MAX,
    ensures
        match r {
            Some(icon) => png_color_supported(color) && icon.width == width && icon.height == height
                && expanded_to_rgba(color, buf@, icon.pixels@)
                && expanded_len(color, buf@.len() as int) >= width * height * 4,
            None => !png_color_supported(color) || expanded_len(color, buf@.len() as int) < width * height * 4,
        },
{
    let n = buf.len();
    let rgba: Vec<u8> = if color == 6 {
        buf
    } else if color == 2 {
        let m = n / 3;
        let mut out: Vec<u8> = Vec::new();
        let mut i: usize = 0;
        while i < m
            invariant
                m == buf@.len() / 3,
                n == buf@.len(),
                i <= m,
                out@.len() == 4 * i,
                forall|k: int| 0 <= k < i ==> {
                    &&& #[trigger] out@[4 * k] == buf@[3 * k]
                    &&& out@[4 * k + 1] == buf@[3 * k + 1]
                    &&& out@[4 * k + 2] == buf@[3 * k + 2]
                    &&& out@[4 * k + 3] == 255
                },
            decreases m - i,
        {
            let ghost before = out@;
            assert(3 * i + 2 < n);
            out.push(buf[3 * i]);
            out.push(buf[3 * i + 1]);
            out.push(buf[3 * i + 2]);
            out.push(255u8);
            proof {
                assert forall|k: int| 0 <= k < i + 1 implies {
                    &&& #[trigger] out@[4 * k] == buf@[3 * k]
                    &&& out@[4 * k + 1] == buf@[3 * k + 1]
                    &&& out@[4 * k + 2] == buf@[3 * k + 2]
                    &&& out@[4 * k + 3] == 255
                } by {
                    if k < i {
                        assert(out@[4 * k] == before[4 * k]);
                        assert(out@[4 * k + 1] == before[4 * k + 1]);
                        assert(out@[4 * k + 2] == before[4 * k + 2]);
                        assert(out@[4 * k + 3] == before[4 * k + 3]);
                    }
                }
            }
            i += 1;
        }
        out
    } else if color == 4 {
        let m = n / 2;
        let mut out: Vec<u8> = Vec::new();
        let mut i: usize = 0;
        while i < m
            invariant
                m == buf@.len() / 2,
                n == buf@.len(),
                i <= m,
                out@.len() == 4 * i,
                forall|k: int| 0 <= k < i ==> {
                    &&& #[trigger] out@[4 * k] == buf@[2 * k]
                    &&& out@[4 * k + 1] == buf@[2 * k]
                    &&& out@[4 * k + 2] == buf@[2 * k]
                    &&& out@[4 * k + 3] == buf@[2 * k + 1]
                },
            decreases m - i,
        {
            let ghost before = out@;
            assert(2 * i + 1 < n);
            let g = buf[2 * i];
            out.push(g);
            out.push(g);
            out.push(g);
            out.push(buf[2 * i + 1]);
            proof {
                assert forall|k: int| 0 <= k < i + 1 implies {
                    &&& #[trigger] out@[4 * k] == buf@[2 * k]
                    &&& out@[4 * k + 1] == buf@[2 * k]
                    &&& out@[4 * k + 2] == buf@[2 * k]
                    &&& out@[4 * k + 3] == buf@[2 * k + 1]
                } by {
                    if k < i {
                        assert(out@[4 * k] == before[4 * k]);
                        assert(out@[4 * k + 1] == before[4 * k + 1]);
                        assert(out@[4 * k + 2] == before[4 * k + 2]);
                        assert(out@[4 * k + 3] == before[4 * k + 3]);
                    }
                }
            }
            i += 1;
        }
        out
    } else if color == 0 {
        let mut out: Vec<u8> = Vec::new();
        let mut i: usize = 0;
        while i < n
            invariant
                n == buf@.len(),
                i <= n,
                out@.len() == 4 * i,
                forall|k: int| 0 <= k < i ==> {
                    &&& #[trigger] out@[4 * k] == buf@[k]
                    &&& out@[4 * k + 1] == buf@[k]
                    &&& out@[4 * k + 2] == buf@[k]
                    &&& out@[4 * k + 3] == 255
                },
            decreases n - i,
        {
            let ghost before = out@;
            let g = buf[i];
            out.push(g);
            out.push(g);
            out.push(g);
            out.push(255u8);
            proof {
                assert forall|k: int| 0 <= k < i + 1 implies {
                    &&& #[trigger] out@[4 * k] == buf@[k]
                    &&& out@[4 * k + 1] == buf@[k]
                    &&& out@[4 * k + 2] == buf@[k]
                    &&& out@[4 * k + 3] == 255
                } by {
                    if k < i {
                        assert(out@[4 * k] == before[4 * k]);
                        assert(out@[4 * k + 1] == before[4 * k + 1]);
                        assert(out@[4 * k + 2] == before[4 * k + 2]);
                        assert(out@[4 * k + 3] == before[4 * k + 3]);
                    }
                }
            }
            i += 1;
        }
        out
    } else {
        return None;
    };
    let need: u32 = width * height * 4;
    if rgba.len() < need as usize {
        return None;
    }
    Some(IconData { width, height, pixels: rgba })
}

/// The RGBA icon held in the PNG file contents `bytes`, before it is
/// scaled to the bar's height; `None` where the file cannot be decoded, is
/// not of a color type that the tray reads, holds too few bytes, or is so
/// large that its byte count does not fit in a `u32`.
pub fn decode_png_icon(bytes: &[u8]) -> (r: Option<IconData>)
    ensures
        match png_frame(bytes@) {
            None => r is None,
            Some(f) => {
                let (w, h, c, buf) = f;
                if png_color_supported(c) && w * h * 4 > u32::MAX {
                    r is None
                } else {
                    match r {
                        Some(icon) => png_color_supported(c) && icon.width == w && icon.height == h
                            && expanded_to_rgba(c, buf, icon.pixels@)
                            && expanded_len(c, buf.len() as int) >= w * h * 4,
                        None => !png_color_supported(c) || expanded_len(c, buf.len() as int) < w * h * 4,
                    }
                }
            },
        },
{
    let (w, h, c, buf) = match decode_png(bytes) {
        Some(f) => f,
        None => return None,
    };
    let (w64, h64) = (w as u64, h as u64);
    assert(w64 * h64 <= 0xffff_ffffu64 * 0xffff_ffffu64) by (nonlinear_arith)
        requires
            w64 <= 0xffff_ffffu64,
            h64 <= 0xffff_ffffu64,
    ;
    if (c == 0 || c == 2 || c == 4 || c == 6) && w64 * h64 > 0x3fff_ffffu64 {
        return None;
    }
    png_to_rgba(c, w, h, buf)
}

/// The tray item: its list of items and the height of its icons.
pub struct Tray {
    pub list: TrayList,
    pub icon_height: u32,
}

impl Tray {
    /// An empty tray whose icons are as high as the bar.
    pub fn new(bar_height: u32) -> (t: Tray)
        ensures
            t.list.items@.len() == 0,
            t.icon_height == bar_height,
    {
        Tray { list: TrayList::new(), icon_height: bar_height }
    }
}

} // verus!
