//! Paymo time tracking: the API key read from the configuration, what a
//! refresh keeps from the previous one, the running task as the bar keeps
//! it, and the text of the Paymo section.
use vstd::prelude::*;
use crate::error::BarError;
use crate::text::{chars_of, string_of, sub_vec, has_suffix, ends_with_str, signed_decimal, push_signed_decimal, push_str, push_char};
use crate::weather::{split_duration, split_duration_spec};

verus! {

/// The API key in the contents of the `paymo` configuration file: the
/// contents without one trailing newline.
pub open spec fn api_key_spec(contents: Seq<char>) -> Seq<char> {
    if contents.len() > 0 && contents.last() == '\n' { contents.drop_last() } else { contents }
}

/// The API key in the contents of the `paymo` configuration file.
pub fn read_api_key(contents: &str) -> (r: String)
    ensures
        r@ == api_key_spec(contents@),
{
    let c = chars_of(contents);
    if c.len() > 0 && c[c.len() - 1] == '\n' {
        let v = sub_vec(c.as_slice(), 0, c.len() - 1);
        assert(v@ =~= c@.drop_last());
        string_of(v.as_slice())
    } else {
        contents.to_owned()
    }
}

/// What the bar knows of the user's Paymo account: the API key, the user's
/// id, and the running task's name and start (Unix seconds and
/// nanoseconds), where a timer runs.
pub struct PaymoData {
    pub api_key: Option<String>,
    pub user_id: Option<i64>,
    pub running_task: Option<(String, (i64, u32))>,
}

/// The API key and user id that a refresh reuses from the previous data
/// (where a field is missing, the refresh reads the key from the
/// configuration or asks the server for the user).
pub fn cached_credentials(old: &Option<PaymoData>) -> (r: (Option<String>, Option<i64>))
    ensures
        r.0 == match old {
            Some(d) => d.api_key,
            None => None::<String>,
        },
        r.1 == match old {
            Some(d) => d.user_id,
            None => None::<i64>,
        },
{
    match old {
        Some(d) => {
            let k = match &d.api_key {
                Some(k) => Some(k.clone()),
                None => None,
            };
            (k, d.user_id)
        },
        None => (None, None),
    }
}

/// The instant that an RFC 3339 date and time names, as
/// `chrono::DateTime::parse_from_rfc3339` reads it: Unix seconds and
/// nanoseconds (`None` where it cannot).
pub uninterp spec fn rfc3339_instant(text: Seq<char>) -> Option<(int, int)>;

/// Reads an RFC 3339 date and time with
/// `chrono::DateTime::parse_from_rfc3339`, and takes the instant's Unix
/// seconds and nanoseconds. The contract names the result and claims
/// nothing else of it.
#[verifier::external_body]
fn parse_rfc3339(text: &str) -> (r: Result<(i64, u32), chrono::ParseError>)
    ensures
        match r {
            Ok(t) => rfc3339_instant(text@) == Some((t.0 as int, t.1 as int)),
            Err(_) => rfc3339_instant(text@) is None,
        },
{
    chrono::DateTime::parse_from_rfc3339(text).map(|d| (d.timestamp(), d.timestamp_subsec_nanos()))
}

/// The data of a refresh that got the API key `api_key`, the user id
/// `user_id` and, where a timer runs, its task's name and start time (as
/// the server writes it). Fails where the start time cannot be read.
pub fn paymo_data(api_key: String, user_id: i64, running: Option<(String, String)>) -> (r: Result<PaymoData, BarError>)
    ensures
        match running {
            None => r matches Ok(d) && d.api_key == Some(api_key) && d.user_id == Some(user_id)
                && d.running_task is None,
            Some(t) => match rfc3339_instant(t.1@) {
                Some(inst) => r matches Ok(d) && d.api_key == Some(api_key) && d.user_id == Some(user_id)
                    && (d.running_task matches Some(rt) && rt.0 == t.0
                    && rt.1.0 as int == inst.0 && rt.1.1 as int == inst.1),
                None => r matches Err(e) && e is ChronoParse,
            },
        },
{
    match running {
        None => Ok(PaymoData { api_key: Some(api_key), user_id: Some(user_id), running_task: None }),
        Some((name, start)) => match parse_rfc3339(start.as_str()) {
            Ok(inst) => Ok(PaymoData {
                api_key: Some(api_key),
                user_id: Some(user_id),
                running_task: Some((name, inst)),
            }),
            Err(e) => Err(BarError::ChronoParse(e)),
        },
    }
}

/// Whether the Paymo item keeps refreshing after a query: not where its
/// first query failed (Paymo is not set up), else as long as it runs.
pub fn keeps_refreshing(first_query: bool, got_data: bool) -> (r: bool)
    ensures
        r == (!first_query || got_data),
{
    !first_query || got_data
}

/// The decimal notation of `n`, padded on the left with `0` to two
/// characters (as `{n:0>2}` writes it).
pub open spec fn pad2(n: int) -> Seq<char> {
    let d = signed_decimal(n);
    if d.len() < 2 { seq!['0'] + d } else { d }
}

/// Appends the decimal notation of `n`, padded on the left with `0` to two
/// characters.
pub fn push_pad2(s: &mut String, n: i64)
    ensures
        final(s)@ == old(s)@ + pad2(n as int),
{
    if n >= 0 && n < 10 {
        push_char(s, '0');
    }
    push_signed_decimal(s, n);
    proof {
        if !(n >= 0 && n < 10) {
            lemma_wide_decimal(n as int);
        } else {
            lemma_narrow_decimal(n as int);
        }
        assert(final(s)@ =~= old(s)@ + pad2(n as int));
    }
}

proof fn lemma_narrow_decimal(n: int)
    requires
        0 <= n < 10,
    ensures
        signed_decimal(n).len() == 1,
{
    reveal_with_fuel(crate::text::decimal, 2);
}

proof fn lemma_wide_decimal(n: int)
    requires
        !(0 <= n < 10),
    ensures
        signed_decimal(n).len() >= 2,
{
    if n >= 10 {
        crate::text::lemma_decimal_len_ge2(n as nat);
    } else {
        crate::text::lemma_decimal_len_ge1((-n) as nat);
    }
}

/// The text of the Paymo section for the running task `name`, started
/// `elapsed` seconds ago: its name and the time in hours and minutes.
pub open spec fn paymo_text_spec(name: Seq<char>, elapsed: int) -> Seq<char> {
    let (h, m) = split_duration_spec(elapsed);
    seq!['\u{f10eb}', ' '] + name + seq![':', ' '] + pad2(h) + seq![':'] + pad2(m)
}

/// The text of the Paymo section for the running task `name`, started
/// `elapsed` seconds ago.
pub fn paymo_text(name: &str, elapsed: i64) -> (r: String)
    ensures
        r@ == paymo_text_spec(name@, elapsed as int),
{
    let (h, m) = split_duration(elapsed);
    let mut r = String::new();
    push_char(&mut r, '\u{f10eb}');
    push_char(&mut r, ' ');
    push_str(&mut r, name);
    push_char(&mut r, ':');
    push_char(&mut r, ' ');
    push_pad2(&mut r, h);
    push_char(&mut r, ':');
    push_pad2(&mut r, m);
    assert(r@ =~= paymo_text_spec(name@, elapsed as int));
    r
}

} // verus!
