//! Audio: what the bar reads from the output of `pactl`: the volume field,
//! whether the default sink is muted, and the active port of the default
//! sink.
use vstd::prelude::*;
use crate::text::{
    chars_of, string_of, sub_vec, split_lines, lines, trim, trim_chars, has_prefix, has_suffix,
    has_sub, starts_with_str, ends_with_str, contains_str, second_piece, second_piece_exec,
    eq_str,
};

verus! {

/// Scans the trimmed lines of `pactl list sinks` for the active port of the
/// sink named `sink`: a `Name:` line starts the description of a sink (the
/// default sink's when it ends with `sink`), and the first `Active Port:`
/// line within the default sink's description gives the port.
pub open spec fn port_scan(ls: Seq<Seq<char>>, sink: Seq<char>, in_default: bool) -> Option<Seq<char>>
    decreases ls.len(),
{
    if ls.len() == 0 {
        None
    } else {
        let t = trim(ls[0]);
        let d = if has_prefix(t, "Name:"@) { has_suffix(t, sink) } else { in_default };
        if d && has_prefix(t, "Active Port:"@) {
            Some(trim(t.skip(12)))
        } else {
            port_scan(ls.drop_first(), sink, d)
        }
    }
}

/// The active port of the sink named `default_sink`, from the output of
/// `pactl list sinks`.
pub fn parse_active_port(sinks_output: &str, default_sink: &str) -> (r: Option<String>)
    ensures
        match r {
            Some(p) => port_scan(lines(sinks_output@), default_sink@, false) == Some(p@),
            None => port_scan(lines(sinks_output@), default_sink@, false) is None,
        },
{
    let c = chars_of(sinks_output);
    let ls = split_lines(c.as_slice());
    let ghost lv = ls@.map_values(|v: Vec<char>| v@);
    let mut in_default = false;
    let mut i: usize = 0;
    assert(lv.skip(0) =~= lv);
    while i < ls.len()
        invariant
            lv == ls@.map_values(|v: Vec<char>| v@),
            lv == lines(sinks_output@),
            lv.len() == ls@.len(),
            i <= ls@.len(),
            port_scan(lv, default_sink@, false) == port_scan(lv.skip(i as int), default_sink@, in_default),
        decreases ls@.len() - i,
    {
        proof {
            reveal_strlit("Active Port:");
        }
        let ghost cur = lv.skip(i as int);
        assert(cur[0] == ls@[i as int]@);
        assert(cur.drop_first() =~= lv.skip(i + 1));
        let t = trim_chars(ls[i].as_slice());
        if starts_with_str(t.as_slice(), "Name:") {
            in_default = ends_with_str(t.as_slice(), default_sink);
        }
        if in_default && starts_with_str(t.as_slice(), "Active Port:") {
            let rest = sub_vec(t.as_slice(), 12, t.len());
            assert(rest@ =~= t@.skip(12));
            let p = trim_chars(rest.as_slice());
            return Some(string_of(p.as_slice()));
        }
        i += 1;
    }
    assert(lv.skip(i as int).len() == 0);
    None
}

/// The port shown for the default sink: its active port, or `unknown`.
/// `default_sink` is the output of `pactl get-default-sink` (trimmed here).
pub fn sink_port(sinks_output: &str, default_sink: &str) -> (r: String)
    ensures
        r@ == match port_scan(lines(sinks_output@), trim(default_sink@), false) {
            Some(p) => p,
            None => "unknown"@,
        },
{
    let d = chars_of(default_sink);
    let t = trim_chars(d.as_slice());
    let name = string_of(t.as_slice());
    match parse_active_port(sinks_output, name.as_str()) {
        Some(p) => p,
        None => "unknown".to_owned(),
    }
}

/// Whether the default sink is muted, from the output of
/// `pactl get-sink-mute`: it says `yes` somewhere.
pub fn is_muted(mute_output: &str) -> (r: bool)
    ensures
        r == has_sub(mute_output@, "yes"@),
{
    let c = chars_of(mute_output);
    contains_str(c.as_slice(), "yes")
}

/// The volume field of the output of `pactl get-sink-volume`, such as
/// `64` in `Volume: front-left: 42256 /  64% / ...`: the second piece
/// between slashes, trimmed, without its percent sign. `None` where there
/// is no such piece or it does not end with `%`.
pub open spec fn volume_field_spec(out: Seq<char>) -> Option<Seq<char>> {
    match second_piece(out, '/') {
        Some(p) => {
            let t = trim(p);
            if t.len() > 0 && t.last() == '%' { Some(t.drop_last()) } else { None }
        },
        None => None,
    }
}

/// The volume field (a number of percent, as text) of the output of
/// `pactl get-sink-volume`.
pub fn volume_field(volume_output: &str) -> (r: Option<String>)
    ensures
        match r {
            Some(v) => volume_field_spec(volume_output@) == Some(v@),
            None => volume_field_spec(volume_output@) is None,
        },
{
    let c = chars_of(volume_output);
    match second_piece_exec(c.as_slice(), '/') {
        Some(p) => {
            let t = trim_chars(p.as_slice());
            if t.len() > 0 && t[t.len() - 1] == '%' {
                let v = sub_vec(t.as_slice(), 0, t.len() - 1);
                assert(v@ =~= t@.drop_last());
                Some(string_of(v.as_slice()))
            } else {
                None
            }
        },
        None => None,
    }
}

} // verus!
