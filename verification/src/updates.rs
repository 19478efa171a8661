//! Package updates: the counts that the update checkers report, the time
//! of the last upgrade found in pacman's log, how old it is, when the
//! checkers run again, and the text of the updates section.
use vstd::prelude::*;
use crate::text::{
    chars_of, string_of, sub_vec, split_lines, lines, has_sub, contains_str, find_char,
    find_char_exec, decimal, push_decimal, push_str, push_char,
};

verus! {

/// Number of newline bytes in `b`.
pub open spec fn newline_count(b: Seq<u8>) -> nat
    decreases b.len(),
{
    if b.len() == 0 {
        0
    } else {
        newline_count(b.drop_last()) + if b.last() == 10 { 1nat } else { 0nat }
    }
}

/// Number of lines that a checker printed: its newline bytes.
pub fn count_newlines(b: &[u8]) -> (r: usize)
    ensures
        r == newline_count(b@),
{
    let mut n: usize = 0;
    let mut i: usize = 0;
    while i < b.len()
        invariant
            i <= b@.len(),
            n == newline_count(b@.take(i as int)),
            n <= i,
        decreases b@.len() - i,
    {
        assert(b@.take(i + 1).drop_last() =~= b@.take(i as int));
        if b[i] == 10u8 {
            n += 1;
        }
        i += 1;
    }
    assert(b@.take(b@.len() as int) =~= b@);
    n
}

/// Number of repository updates from a run of `checkupdates`: its exit code
/// (`None` where it did not run or was killed) and what it printed. Only a
/// run that exits with 0 lists updates (2 means none).
pub fn repo_update_count(exit_code: Option<i32>, stdout: &[u8]) -> (r: usize)
    ensures
        r == if exit_code == Some(0i32) { newline_count(stdout@) } else { 0 },
{
    match exit_code {
        Some(0) => count_newlines(stdout),
        _ => 0,
    }
}

/// What a run of an AUR helper (`yay -Qua`, `paru -Qua`) tells: the number
/// of updates where it succeeded, none where it exited with 1, and nothing
/// (`None`: ask the next helper) otherwise.
pub fn aur_outcome(exit_code: Option<i32>, stdout: &[u8]) -> (r: Option<usize>)
    ensures
        r == if exit_code == Some(0i32) {
            Some(newline_count(stdout@) as usize)
        } else if exit_code == Some(1i32) {
            Some(0usize)
        } else {
            None::<usize>
        },
{
    match exit_code {
        Some(0) => Some(count_newlines(stdout)),
        Some(1) => Some(0),
        _ => None,
    }
}

/// Number of AUR updates: what `yay` told, else what `paru` told, else 0.
pub fn check_aur_updates(yay: Option<usize>, paru: Option<usize>) -> (r: usize)
    ensures
        r == match yay {
            Some(n) => n,
            None => match paru {
                Some(n) => n,
                None => 0,
            },
        },
{
    match yay {
        Some(n) => n,
        None => match paru {
            Some(n) => n,
            None => 0,
        },
    }
}

/// The time stamp of a line of pacman's log such as
/// `[2024-05-01T10:00:00+0200] [PACMAN] ...`: the text between the leading
/// `[` and the first `]` after it.
pub open spec fn stamp_of(l: Seq<char>) -> Option<Seq<char>> {
    if l.len() > 0 && l[0] == '[' {
        match find_char(l.skip(1), ']') {
            Some(e) => Some(l.skip(1).take(e)),
            None => None,
        }
    } else {
        None
    }
}

/// Scans pacman's log for the last transaction that upgraded packages:
/// each `[PACMAN]` line starts a transaction (noting its time stamp), and a
/// transaction counts once an `[ALPM] upgraded ` line follows it.
pub open spec fn upgrade_scan(ls: Seq<Seq<char>>, last: Option<Seq<char>>, cand: Option<Seq<char>>, saw: bool) -> Option<Seq<char>>
    decreases ls.len(),
{
    if ls.len() == 0 {
        if cand is Some && saw { cand } else { last }
    } else {
        let l = ls[0];
        if has_sub(l, "[PACMAN]"@) {
            let last2 = if cand is Some && saw { cand } else { last };
            upgrade_scan(ls.drop_first(), last2, stamp_of(l), false)
        } else if cand is Some && has_sub(l, "[ALPM] upgraded "@) {
            upgrade_scan(ls.drop_first(), last, cand, true)
        } else {
            upgrade_scan(ls.drop_first(), last, cand, saw)
        }
    }
}

/// The time stamp of the last transaction in pacman's log (its contents)
/// that upgraded packages.
pub open spec fn last_upgrade_stamp_spec(log: Seq<char>) -> Option<Seq<char>> {
    upgrade_scan(lines(log), None, None, false)
}

/// A line that starts a transaction in pacman's log.
pub open spec fn pacman_line(l: Seq<char>) -> bool {
    has_sub(l, "[PACMAN]"@)
}

/// A line of pacman's log that records an upgraded package.
pub open spec fn upgraded_line(l: Seq<char>) -> bool {
    has_sub(l, "[ALPM] upgraded "@)
}

/// Line `i` of `ls` starts a transaction that upgraded packages: it is a
/// `[PACMAN]` line with a time stamp, and an upgrade line follows it before
/// the next `[PACMAN]` line.
pub open spec fn upgrading_at(ls: Seq<Seq<char>>, i: int) -> bool {
    &&& 0 <= i < ls.len()
    &&& pacman_line(ls[i])
    &&& stamp_of(ls[i]) is Some
    &&& exists|j: int| i < j < ls.len() && upgraded_line(#[trigger] ls[j])
        && forall|k: int| i < k <= j ==> !pacman_line(#[trigger] ls[k])
}

/// The transaction that starts at line `p`, followed by no `[PACMAN]` line
/// before line `i` (a `[PACMAN]` line or the end), upgraded packages exactly
/// when it has a time stamp and an upgrade line comes before line `i`.
proof fn lemma_upgrading_at_open(ls: Seq<Seq<char>>, p: int, i: int)
    requires
        0 <= p < i <= ls.len(),
        pacman_line(ls[p]),
        forall|k: int| p < k < i ==> !pacman_line(#[trigger] ls[k]),
        i == ls.len() || pacman_line(ls[i]),
    ensures
        upgrading_at(ls, p) <==> (stamp_of(ls[p]) is Some
            && exists|j: int| p < j < i && upgraded_line(#[trigger] ls[j])),
        forall|q: int| p < q < i ==> !upgrading_at(ls, q),
{
    if upgrading_at(ls, p) {
        let j = choose|j: int| p < j < ls.len() && upgraded_line(#[trigger] ls[j])
            && forall|k: int| p < k <= j ==> !pacman_line(#[trigger] ls[k]);
        if j >= i {
            assert(!pacman_line(ls[i]));
        }
        assert(p < j < i && upgraded_line(ls[j]));
    }
    if stamp_of(ls[p]) is Some && exists|j: int| p < j < i && upgraded_line(#[trigger] ls[j]) {
        let j = choose|j: int| p < j < i && upgraded_line(#[trigger] ls[j]);
        assert(forall|k: int| p < k <= j ==> !pacman_line(#[trigger] ls[k]));
    }
    assert forall|q: int| p < q < i implies !upgrading_at(ls, q) by {
        assert(!pacman_line(ls[q]));
    }
}

fn stamp_exec(l: &[char]) -> (r: Option<Vec<char>>)
    ensures
        match r {
            Some(v) => stamp_of(l@) == Some(v@),
            None => stamp_of(l@) is None,
        },
{
    if l.len() > 0 && l[0] == '[' {
        let rest = sub_vec(l, 1, l.len());
        assert(rest@ =~= l@.skip(1));
        match find_char_exec(rest.as_slice(), ']') {
            Some(e) => {
                let v = sub_vec(rest.as_slice(), 0, e);
                assert(v@ =~= rest@.take(e as int));
                Some(v)
            },
            None => None,
        }
    } else {
        None
    }
}

spec fn opt_chars(o: Option<Vec<char>>) -> Option<Seq<char>> {
    match o {
        Some(v) => Some(v@),
        None => None,
    }
}

/// The time stamp of the last transaction in pacman's log (its contents)
/// that upgraded packages.
pub fn last_upgrade_stamp(log: &str) -> (r: Option<String>)
    ensures
        match r {
            Some(s) => last_upgrade_stamp_spec(log@) == Some(s@),
            None => last_upgrade_stamp_spec(log@) is None,
        },
        // A stamp comes back exactly when some transaction upgraded
        // packages, and it is that of the last such transaction.
        r is Some <==> exists|i: int| upgrading_at(lines(log@), i),
        r matches Some(s) ==> exists|i: int| {
            &&& upgrading_at(lines(log@), i)
            &&& stamp_of(lines(log@)[i]) == Some(s@)
            &&& forall|i2: int| i < i2 ==> !upgrading_at(lines(log@), i2)
        },
{
    let c = chars_of(log);
    let ls = split_lines(c.as_slice());
    let ghost lv = ls@.map_values(|v: Vec<char>| v@);
    let mut last: Option<Vec<char>> = None;
    let mut cand: Option<Vec<char>> = None;
    let mut saw = false;
    let mut i: usize = 0;
    let ghost mut p: int = -1;
    assert(lv.skip(0) =~= lv);
    while i < ls.len()
        invariant
            lv == ls@.map_values(|v: Vec<char>| v@),
            lv == lines(log@),
            lv.len() == ls@.len(),
            i <= ls@.len(),
            upgrade_scan(lv, None, None, false)
                == upgrade_scan(lv.skip(i as int), opt_chars(last), opt_chars(cand), saw),
            // `p` is the last `[PACMAN]` line so far (-1: none yet).
            -1 <= p < i,
            p >= 0 ==> pacman_line(lv[p]),
            forall|k: int| p < k < i ==> !pacman_line(#[trigger] lv[k]),
            opt_chars(cand) == (if p >= 0 { stamp_of(lv[p]) } else { None }),
            saw == (cand is Some && exists|j: int| p < j < i && upgraded_line(#[trigger] lv[j])),
            last is None <==> forall|q: int| 0 <= q < p ==> !upgrading_at(lv, q),
            last matches Some(v) ==> exists|q: int| {
                &&& 0 <= q < p
                &&& upgrading_at(lv, q)
                &&& stamp_of(lv[q]) == Some(v@)
                &&& forall|q2: int| q < q2 < p ==> !upgrading_at(lv, q2)
            },
        decreases ls@.len() - i,
    {
        let ghost cur = lv.skip(i as int);
        assert(cur[0] == ls@[i as int]@);
        assert(cur.drop_first() =~= lv.skip(i + 1));
        let l = ls[i].as_slice();
        if contains_str(l, "[PACMAN]") {
            proof {
                if p >= 0 {
                    lemma_upgrading_at_open(lv, p, i as int);
                    assert(upgrading_at(lv, p) <==> (cand is Some && saw));
                }
            }
            if cand.is_some() && saw {
                last = cand;
                proof {
                    assert forall|q2: int| p < q2 < i implies !upgrading_at(lv, q2) by {
                        assert(!pacman_line(lv[q2]));
                    }
                }
            } else {
                proof {
                    assert forall|q: int| p <= q < i implies !upgrading_at(lv, q) by {
                        if q > p {
                            assert(!pacman_line(lv[q]));
                        }
                    }
                    if let Some(v) = opt_chars(last) {
                        let q = choose|q: int| {
                            &&& 0 <= q < p
                            &&& upgrading_at(lv, q)
                            &&& stamp_of(lv[q]) == Some(v)
                            &&& forall|q2: int| q < q2 < p ==> !upgrading_at(lv, q2)
                        };
                        assert(forall|q2: int| q < q2 < i ==> !upgrading_at(lv, q2));
                    }
                }
            }
            cand = stamp_exec(l);
            saw = false;
            proof {
                p = i as int;
            }
        } else if cand.is_some() && contains_str(l, "[ALPM] upgraded ") {
            saw = true;
            assert(p < i && upgraded_line(lv[i as int]));
        } else {
            proof {
                if cand is Some && exists|j: int| p < j < i + 1 && upgraded_line(#[trigger] lv[j]) {
                    let j = choose|j: int| p < j < i + 1 && upgraded_line(#[trigger] lv[j]);
                    assert(j < i);
                }
            }
        }
        i += 1;
    }
    assert(lv.skip(i as int).len() == 0);
    proof {
        if p >= 0 {
            lemma_upgrading_at_open(lv, p, i as int);
            assert(upgrading_at(lv, p) <==> (cand is Some && saw));
        }
        assert forall|q: int| p < q < lv.len() implies !upgrading_at(lv, q) by {
            assert(!pacman_line(lv[q]));
        }
        if let Some(v) = opt_chars(last) {
            let q = choose|q: int| {
                &&& 0 <= q < p
                &&& upgrading_at(lv, q)
                &&& stamp_of(lv[q]) == Some(v)
                &&& forall|q2: int| q < q2 < p ==> !upgrading_at(lv, q2)
            };
            if !(cand is Some && saw) {
                assert(forall|q2: int| q < q2 ==> !upgrading_at(lv, q2));
            }
        }
    }
    let fin = if cand.is_some() && saw { cand } else { last };
    match fin {
        Some(v) => Some(string_of(v.as_slice())),
        None => None,
    }
}

/// The instant that a time stamp of pacman's log names, in whole seconds
/// since the Unix epoch, as `chrono::DateTime::parse_from_str` reads it
/// with the format `%Y-%m-%dT%H:%M:%S%z` (`None` where it cannot).
pub uninterp spec fn pacman_time(stamp: Seq<char>) -> Option<int>;

/// Reads a time stamp of pacman's log with
/// `chrono::DateTime::parse_from_str(stamp, "%Y-%m-%dT%H:%M:%S%z")` and
/// takes its `timestamp()`. The contract names the result and claims
/// nothing else of it.
#[verifier::external_body]
fn parse_pacman_time(stamp: &str, format: &str) -> (r: Option<i64>)
    requires
        format@ == "%Y-%m-%dT%H:%M:%S%z"@,
    ensures
        match r {
            Some(t) => pacman_time(stamp@) == Some(t as int),
            None => pacman_time(stamp@) is None,
        },
{
    chrono::DateTime::parse_from_str(stamp, format).ok().map(|d| d.timestamp())
}

/// The instant (Unix seconds) of the last upgrade recorded in pacman's log
/// (its contents).
pub fn last_upgrade_time(log: &str) -> (r: Option<i64>)
    ensures
        match last_upgrade_stamp_spec(log@) {
            Some(s) => match r {
                Some(t) => pacman_time(s) == Some(t as int),
                None => pacman_time(s) is None,
            },
            None => r is None,
        },
{
    match last_upgrade_stamp(log) {
        Some(s) => parse_pacman_time(s.as_str(), "%Y-%m-%dT%H:%M:%S%z"),
        None => None,
    }
}

/// How long ago something happened, `elapsed` seconds ago (a time in the
/// future counts as now): whole minutes under an hour, whole hours under a
/// day, else whole days.
pub open spec fn format_age_spec(elapsed: int) -> Seq<char> {
    let secs = if elapsed > 0 { elapsed } else { 0 };
    if secs < 3600 {
        decimal((secs / 60) as nat) + "m"@
    } else if secs < 86400 {
        decimal((secs / 3600) as nat) + "h"@
    } else {
        decimal((secs / 86400) as nat) + "d"@
    }
}

/// How long ago something happened, `elapsed` seconds ago.
pub fn format_age(elapsed: i64) -> (r: String)
    ensures
        r@ == format_age_spec(elapsed as int),
{
    let secs: u64 = if elapsed > 0 { elapsed as u64 } else { 0 };
    let mut r = String::new();
    if secs < 3600 {
        push_decimal(&mut r, secs / 60);
        push_str(&mut r, "m");
    } else if secs < 86400 {
        push_decimal(&mut r, secs / 3600);
        push_str(&mut r, "h");
    } else {
        push_decimal(&mut r, secs / 86400);
        push_str(&mut r, "d");
    }
    r
}

/// What the update checker does after reading pacman's log: check again
/// when the last upgrade changed or an hour passed, else keep the counts
/// it has (none at first).
#[derive(Debug, Clone, Copy, PartialEq, Eq, Structural)]
pub enum CountsPlan {
    Recheck,
    Keep(usize, usize),
}

/// What the update checker does after reading pacman's log.
pub fn plan_counts(last_upgrade: Option<i64>, previous_upgrade: Option<i64>, hour_elapsed: bool, counts: Option<(usize, usize)>) -> (r: CountsPlan)
    ensures
        r == if last_upgrade != previous_upgrade || hour_elapsed {
            CountsPlan::Recheck
        } else {
            match counts {
                Some(c) => CountsPlan::Keep(c.0, c.1),
                None => CountsPlan::Keep(0, 0),
            }
        },
{
    let changed = match (last_upgrade, previous_upgrade) {
        (Some(a), Some(b)) => a != b,
        (None, None) => false,
        _ => true,
    };
    if changed || hour_elapsed {
        CountsPlan::Recheck
    } else {
        match counts {
            Some(c) => CountsPlan::Keep(c.0, c.1),
            None => CountsPlan::Keep(0, 0),
        }
    }
}

/// The text of the updates section: nothing without updates; else the
/// total, and either the counts per source and the age of the last upgrade
/// (when the pointer is over it) or only the age.
pub open spec fn updates_text_spec(repo: usize, aur: usize, age: Option<Seq<char>>, hovered: bool) -> Option<Seq<char>> {
    let total = repo + aur;
    if total == 0 {
        None
    } else if hovered {
        Some(seq!['\u{f03d4}', ' '] + decimal(total as nat) + " ("@ + decimal(repo as nat) + " repo, "@
            + decimal(aur as nat) + " aur) "@ + match age {
                Some(a) => a,
                None => "?"@,
            } + " ago"@)
    } else {
        Some(seq!['\u{f03d4}', ' '] + decimal(total as nat) + match age {
            Some(a) => seq![' '] + a,
            None => Seq::empty(),
        })
    }
}

/// The text of the updates section.
pub fn updates_text(repo: usize, aur: usize, age: Option<String>, hovered: bool) -> (r: Option<String>)
    requires
        repo + aur <= usize::MAX,
    ensures
        match r {
            Some(t) => updates_text_spec(repo, aur, match age {
                Some(a) => Some(a@),
                None => None,
            }, hovered) == Some(t@),
            None => updates_text_spec(repo, aur, match age {
                Some(a) => Some(a@),
                None => None,
            }, hovered) is None,
        },
{
    let total = repo + aur;
    if total == 0 {
        return None;
    }
    let mut r = String::new();
    push_char(&mut r, '\u{f03d4}');
    push_char(&mut r, ' ');
    push_decimal(&mut r, total as u64);
    if hovered {
        push_str(&mut r, " (");
        push_decimal(&mut r, repo as u64);
        push_str(&mut r, " repo, ");
        push_decimal(&mut r, aur as u64);
        push_str(&mut r, " aur) ");
        match &age {
            Some(a) => push_str(&mut r, a.as_str()),
            None => push_str(&mut r, "?"),
        }
        push_str(&mut r, " ago");
    } else {
        match &age {
            Some(a) => {
                push_char(&mut r, ' ');
                push_str(&mut r, a.as_str());
            },
            None => {},
        }
    }
    proof {
        assert(r@ =~= updates_text_spec(repo, aur, match age {
            Some(a) => Some(a@),
            None => None,
        }, hovered).unwrap());
    }
    Some(r)
}

} // verus!
