//! System: byte counts as the bar writes them, the memory in use, the
//! sensor that gives the CPU's temperature, and how often the system item
//! wakes up.
use vstd::prelude::*;
use crate::text::{decimal, push_decimal, push_str};
use crate::tray::texts;

verus! {

/// A byte count in the largest decimal unit (B, kB, MB, GB, TB) in which
/// it is at least 1, rounded down.
pub open spec fn format_bytes_spec(a: u64) -> Seq<char> {
    if a < 1_000 {
        decimal(a as nat) + "B"@
    } else if a < 1_000_000 {
        decimal((a / 1_000) as nat) + "kB"@
    } else if a < 1_000_000_000 {
        decimal((a / 1_000_000) as nat) + "MB"@
    } else if a < 1_000_000_000_000 {
        decimal((a / 1_000_000_000) as nat) + "GB"@
    } else {
        decimal((a / 1_000_000_000_000) as nat) + "TB"@
    }
}

/// A byte count as the bar writes it.
pub fn format_bytes(a: u64) -> (r: String)
    ensures
        r@ == format_bytes_spec(a),
{
    let mut r = String::new();
    if a < 1_000 {
        push_decimal(&mut r, a);
        push_str(&mut r, "B");
    } else if a < 1_000_000 {
        push_decimal(&mut r, a / 1_000);
        push_str(&mut r, "kB");
    } else if a < 1_000_000_000 {
        push_decimal(&mut r, a / 1_000_000);
        push_str(&mut r, "MB");
    } else if a < 1_000_000_000_000 {
        push_decimal(&mut r, a / 1_000_000_000);
        push_str(&mut r, "GB");
    } else {
        push_decimal(&mut r, a / 1_000_000_000_000);
        push_str(&mut r, "TB");
    }
    r
}

/// The memory in use, from the total and the available memory (in bytes),
/// and both written as the bar writes byte counts.
pub fn memory_in_use(total: u64, available: u64) -> (r: (u64, String, String))
    requires
        available <= total,
    ensures
        r.0 == total - available,
        r.1@ == format_bytes_spec((total - available) as u64),
        r.2@ == format_bytes_spec(total),
{
    let used = total - available;
    (used, format_bytes(used), format_bytes(total))
}

/// Index of the sensor that gives the CPU's temperature: the first whose
/// label is `k10temp Tctl` (no other CPU is supported).
pub fn cpu_temp_component(labels: &Vec<String>) -> (r: Option<usize>)
    ensures
        match r {
            Some(i) => i < labels@.len() && texts(labels@)[i as int] == "k10temp Tctl"@
                && forall|j: int| 0 <= j < i ==> (#[trigger] texts(labels@)[j]) != "k10temp Tctl"@,
            None => forall|j: int| 0 <= j < labels@.len() ==> (#[trigger] texts(labels@)[j]) != "k10temp Tctl"@,
        },
{
    let want = "k10temp Tctl".to_owned();
    let mut i: usize = 0;
    while i < labels.len()
        invariant
            want@ == "k10temp Tctl"@,
            i <= labels@.len(),
            forall|j: int| 0 <= j < i ==> (#[trigger] texts(labels@)[j]) != "k10temp Tctl"@,
        decreases labels@.len() - i,
    {
        assert(texts(labels@)[i as int] == labels@[i as int]@);
        if labels[i].eq(&want) {
            return Some(i);
        }
        i += 1;
    }
    None
}

/// Interval of the spinner's animation, in milliseconds.
pub const SPINNER_TICK_MS: u64 = 250;

/// What the system item does after an update: whether the bar is to be
/// redrawn (the readings changed, or the spinner turns while loading), and
/// how long to sleep (the spinner's interval while loading, else five
/// seconds).
pub fn system_tick(loading: bool, updated: bool) -> (r: (bool, u64))
    ensures
        r == ((loading || updated), if loading { SPINNER_TICK_MS } else { 5000u64 }),
{
    (loading || updated, if loading { SPINNER_TICK_MS } else { 5000 })
}

} // verus!
