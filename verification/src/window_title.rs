//! Short window titles: icons for known browsers, web sites, editors,
//! programming languages and programs, read from configuration lists of
//! `name = icon` lines; otherwise the title itself, cut short.
use vstd::prelude::*;
use crate::error::BarError;
use crate::text::{
    chars_of, find_char, find_char_exec, has_sub, contains_chars, lines, lowercase, push_str,
    split_lines, string_of, sub_vec, to_lowercase, trim_end, trim_end_chars, trim_start,
    trim_start_chars, utf8_len, utf8_len_exceeds,
};

verus! {

/// `regex::Regex`, held compiled.
#[verifier::external_type_specification]
#[verifier::external_body]
pub struct ExRegex(regex::Regex);

/// Whether `regex::Regex::new` accepts the pattern.
pub uninterp spec fn regex_valid(pattern: Seq<char>) -> bool;

/// What `regex::Regex::is_match` answers for a regular expression compiled
/// from `pattern` and the text `text`.
pub uninterp spec fn regex_match(pattern: Seq<char>, text: Seq<char>) -> bool;

/// A compiled regular expression, with the pattern it was compiled from.
pub struct Pattern {
    re: regex::Regex,
    pub source: Ghost<Seq<char>>,
}

/// Compiles a pattern with `regex::Regex::new`; `None` when the crate
/// rejects the pattern, which `regex_valid` names.
#[verifier::external_body]
fn compile_pattern(pattern: &str) -> (r: Option<Pattern>)
    ensures
        r is Some == regex_valid(pattern@),
        r matches Some(p) ==> p.source@ == pattern@,
{
    match regex::Regex::new(pattern) {
        Ok(re) => Some(Pattern { re, source: Ghost(pattern@) }),
        Err(_) => None,
    }
}

/// Whether the compiled expression matches somewhere in `text`
/// (`regex::Regex::is_match`), which `regex_match` names.
#[verifier::external_body]
fn pattern_matches(p: &Pattern, text: &str) -> (r: bool)
    ensures
        r == regex_match(p.source@, text@),
{
    p.re.is_match(text)
}

/// A list of `name = icon` entries.
pub type Entries = Seq<(Seq<char>, Seq<char>)>;

/// The entry of a configuration line `name = icon`: the text before the
/// first `=` without trailing white space, and the text after it without
/// leading white space; `None` when the line has no `=`.
pub open spec fn config_entry(l: Seq<char>) -> Option<(Seq<char>, Seq<char>)> {
    match find_char(l, '=') {
        Some(e) => Some((trim_end(l.take(e)), trim_start(l.skip(e + 1)))),
        None => None,
    }
}

/// The entries of configuration lines, or the first line that is no entry.
pub open spec fn parse_entries(ls: Seq<Seq<char>>) -> Result<Entries, Seq<char>>
    decreases ls.len(),
{
    if ls.len() == 0 {
        Ok(seq![])
    } else {
        match config_entry(ls[0]) {
            None => Err(ls[0]),
            Some(e) => match parse_entries(ls.drop_first()) {
                Ok(r) => Ok(seq![e] + r),
                Err(b) => Err(b),
            },
        }
    }
}

/// Message for a configuration line that is no entry.
pub open spec fn bad_line_message(l: Seq<char>) -> Seq<char> {
    "Line \""@ + l + "\" does not match expected format"@
}

/// Text of a list of string pairs.
pub open spec fn entries_view(v: Seq<(String, String)>) -> Entries {
    v.map_values(|e: (String, String)| (e.0@, e.1@))
}

/// Reads one configuration line.
pub fn parse_config_line(l: &[char]) -> (r: Option<(String, String)>)
    ensures
        match r {
            Some(e) => config_entry(l@) == Some((e.0@, e.1@)),
            None => config_entry(l@) is None,
        },
{
    let n = l.len();
    match find_char_exec(l, '=') {
        Some(e) => {
            let name = sub_vec(l, 0, e);
            let icon = sub_vec(l, e + 1, n);
            assert(name@ =~= l@.take(e as int));
            assert(icon@ =~= l@.skip(e + 1));
            let n = trim_end_chars(name.as_slice());
            let i = trim_start_chars(icon.as_slice());
            Some((string_of(n.as_slice()), string_of(i.as_slice())))
        },
        None => None,
    }
}

/// The shortener's lists: browsers, web sites, editors, languages, programs.
pub type ShortenerView = (Entries, Entries, Entries, Entries, Entries);

/// Icons for window titles.
pub struct Shortener {
    browsers: Vec<(String, String)>,
    websites: Vec<(String, String)>,
    editors: Vec<(String, String)>,
    languages: Vec<(String, String)>,
    programs: Vec<(String, String)>,
}

impl View for Shortener {
    type V = ShortenerView;

    closed spec fn view(&self) -> ShortenerView {
        (
            entries_view(self.browsers@),
            entries_view(self.websites@),
            entries_view(self.editors@),
            entries_view(self.languages@),
            entries_view(self.programs@),
        )
    }
}

/// First entry from position `i` on whose name occurs in `t`.
pub open spec fn first_with(list: Entries, t: Seq<char>, i: int) -> Option<int>
    decreases list.len() - i,
{
    if i < 0 || i >= list.len() {
        None
    } else if has_sub(t, list[i].0) {
        Some(i)
    } else {
        first_with(list, t, i + 1)
    }
}

/// Pattern that finds a language name followed by white space, `$` or a
/// character that is not a word character.
pub open spec fn lang_pattern(name: Seq<char>) -> Seq<char> {
    name + "[\\s$\\W]"@
}

/// First language from position `i` on whose pattern matches `t`.
pub open spec fn first_lang(langs: Entries, t: Seq<char>, i: int) -> Option<int>
    decreases langs.len() - i,
{
    if i < 0 || i >= langs.len() {
        None
    } else if regex_match(lang_pattern(langs[i].0), t) {
        Some(i)
    } else {
        first_lang(langs, t, i + 1)
    }
}

/// Every language pattern tried on `t`, from position `i` up to the first
/// that matches, compiles.
pub open spec fn langs_compile(langs: Entries, t: Seq<char>, i: int) -> bool
    decreases langs.len() - i,
{
    if i < 0 || i >= langs.len() {
        true
    } else {
        regex_valid(lang_pattern(langs[i].0)) && (regex_match(lang_pattern(langs[i].0), t)
            || langs_compile(langs, t, i + 1))
    }
}

/// The languages are tried on the lower-cased title `t` (no browser and
/// some editor is named in it), and every pattern tried compiles.
pub open spec fn shorten_ok(v: ShortenerView, t: Seq<char>) -> bool {
    (first_with(v.0, t, 0) is None && first_with(v.2, t, 0) is Some) ==> langs_compile(v.3, t, 0)
}

/// Short form of the lower-cased title `t`.
pub open spec fn shorten_spec(v: ShortenerView, t: Seq<char>) -> Seq<char> {
    match first_with(v.0, t, 0) {
        Some(b) => match first_with(v.1, t, 0) {
            Some(w) => v.0[b].1 + v.1[w].1,
            None => v.0[b].1,
        },
        None => match first_with(v.2, t, 0) {
            Some(e) => match first_lang(v.3, t, 0) {
                Some(l) => v.2[e].1 + v.3[l].1,
                None => v.2[e].1,
            },
            None => match first_with(v.4, t, 0) {
                Some(p) => v.4[p].1,
                None => if utf8_len(t) > 20 {
                    t.take(if t.len() < 18 { t.len() as int } else { 18 })
                } else {
                    t
                },
            },
        },
    }
}

/// First entry of `list` whose name occurs in `t`.
fn find_entry(list: &Vec<(String, String)>, t: &[char]) -> (r: Option<usize>)
    ensures
        r matches Some(i) ==> i < list@.len(),
        match r {
            Some(i) => first_with(entries_view(list@), t@, 0) == Some(i as int),
            None => first_with(entries_view(list@), t@, 0) is None,
        },
{
    let ghost l = entries_view(list@);
    let mut i: usize = 0;
    while i < list.len()
        invariant
            i <= list@.len(),
            l == entries_view(list@),
            first_with(l, t@, 0) == first_with(l, t@, i as int),
        decreases list@.len() - i,
    {
        let name = chars_of(list[i].0.as_str());
        assert(l[i as int].0 == name@);
        if contains_chars(t, name.as_slice()) {
            return Some(i);
        }
        i += 1;
    }
    None
}

impl Shortener {
    /// Reads a configuration list: one `name = icon` entry per line; an
    /// error names the first line that is no entry.
    pub fn load_list(content: &str) -> (r: Result<Vec<(String, String)>, BarError>)
        ensures
            match r {
                Ok(v) => parse_entries(lines(content@)) == Ok::<Entries, Seq<char>>(entries_view(v@)),
                Err(e) => parse_entries(lines(content@)) matches Err(b)
                    && e matches BarError::Local(m) && m@ == bad_line_message(b),
            },
    {
        let c = chars_of(content);
        let ls = split_lines(c.as_slice());
        let ghost all = ls@.map_values(|v: Vec<char>| v@);
        let mut out: Vec<(String, String)> = Vec::new();
        let mut i: usize = 0;
        assert(all.skip(0) =~= all);
        assert forall|r: Entries| true implies entries_view(out@) + r == r by {
            assert(entries_view(out@) + r =~= r);
        }
        while i < ls.len()
            invariant
                i <= ls@.len(),
                all == ls@.map_values(|v: Vec<char>| v@),
                all == lines(c@),
                c@ == content@,
                parse_entries(all) == match parse_entries(all.skip(i as int)) {
                    Ok(r) => Ok::<Entries, Seq<char>>(entries_view(out@) + r),
                    Err(b) => Err(b),
                },
            decreases ls@.len() - i,
        {
            assert(all.skip(i as int).drop_first() =~= all.skip(i + 1));
            assert(all.skip(i as int)[0] == ls@[i as int]@);
            match parse_config_line(ls[i].as_slice()) {
                Some(e) => {
                    let ghost prev = entries_view(out@);
                    out.push(e);
                    assert(entries_view(out@) =~= prev.push((e.0@, e.1@)));
                    assert forall|r: Entries| true implies prev + (seq![(e.0@, e.1@)] + r) == entries_view(out@) + r by {
                        assert(prev + (seq![(e.0@, e.1@)] + r) =~= entries_view(out@) + r);
                    }
                },
                None => {
                    let mut msg = String::new();
                    push_str(&mut msg, "Line \"");
                    let line = string_of(ls[i].as_slice());
                    push_str(&mut msg, line.as_str());
                    push_str(&mut msg, "\" does not match expected format");
                    assert(msg@ =~= bad_line_message(ls@[i as int]@));
                    return Err(BarError::Local(msg));
                },
            }
            i += 1;
        }
        assert(all.skip(i as int) =~= seq![]);
        assert(entries_view(out@) + seq![] =~= entries_view(out@));
        Ok(out)
    }

    /// A shortener with the given lists.
    pub fn new(
        browsers: Vec<(String, String)>,
        websites: Vec<(String, String)>,
        editors: Vec<(String, String)>,
        languages: Vec<(String, String)>,
        programs: Vec<(String, String)>,
    ) -> (s: Shortener)
        ensures
            s@ == (
                entries_view(browsers@),
                entries_view(websites@),
                entries_view(editors@),
                entries_view(languages@),
                entries_view(programs@),
            ),
    {
        Shortener { browsers, websites, editors, languages, programs }
    }

    /// Tries the language patterns on the lower-cased title.
    fn find_lang(&self, lower: &str) -> (r: Option<usize>)
        requires
            langs_compile(self@.3, lower@, 0),
        ensures
            r matches Some(i) ==> i < self.languages@.len(),
            match r {
                Some(i) => first_lang(self@.3, lower@, 0) == Some(i as int),
                None => first_lang(self@.3, lower@, 0) is None,
            },
    {
        let ghost l = self@.3;
        let mut i: usize = 0;
        while i < self.languages.len()
            invariant
                i <= self.languages@.len(),
                l == entries_view(self.languages@),
                l == self@.3,
                first_lang(l, lower@, 0) == first_lang(l, lower@, i as int),
                langs_compile(l, lower@, i as int),
            decreases self.languages@.len() - i,
        {
            let mut pattern = String::new();
            push_str(&mut pattern, self.languages[i].0.as_str());
            push_str(&mut pattern, "[\\s$\\W]");
            assert(pattern@ == lang_pattern(l[i as int].0));
            let compiled = compile_pattern(pattern.as_str());
            let p = compiled.unwrap();
            if pattern_matches(&p, lower) {
                return Some(i);
            }
            i += 1;
        }
        None
    }

    /// Short form of a window title: the icon of the browser (and web site)
    /// or editor (and language) or program named in it, else the title
    /// lower-cased, cut to 18 characters when it is longer than 20 bytes.
    pub fn shorten(&self, title: &str) -> (r: String)
        requires
            shorten_ok(self@, lowercase(title@)),
        ensures
            r@ == shorten_spec(self@, lowercase(title@)),
    {
        let lower = to_lowercase(title);
        let t = chars_of(lower.as_str());
        if let Some(b) = find_entry(&self.browsers, t.as_slice()) {
            let mut out = self.browsers[b].1.clone();
            if let Some(w) = find_entry(&self.websites, t.as_slice()) {
                push_str(&mut out, self.websites[w].1.as_str());
            }
            return out;
        }
        if let Some(e) = find_entry(&self.editors, t.as_slice()) {
            let mut out = self.editors[e].1.clone();
            if let Some(l) = self.find_lang(lower.as_str()) {
                push_str(&mut out, self.languages[l].1.as_str());
            }
            return out;
        }
        if let Some(p) = find_entry(&self.programs, t.as_slice()) {
            return self.programs[p].1.clone();
        }
        if utf8_len_exceeds(t.as_slice(), 20) {
            let n = if t.len() < 18 { t.len() } else { 18 };
            let cut = sub_vec(t.as_slice(), 0, n);
            assert(cut@ =~= t@.take(n as int));
            string_of(cut.as_slice())
        } else {
            lower
        }
    }

    /// Whether every language pattern compiles (so that `shorten` can be
    /// used on any title).
    pub fn patterns_compile(&self) -> (r: bool)
        ensures
            r == forall|k: int| 0 <= k < self@.3.len() ==> regex_valid(lang_pattern(#[trigger] self@.3[k].0)),
    {
        let ghost l = self@.3;
        let mut i: usize = 0;
        while i < self.languages.len()
            invariant
                i <= self.languages@.len(),
                l == entries_view(self.languages@),
                l == self@.3,
                forall|k: int| 0 <= k < i ==> regex_valid(lang_pattern(#[trigger] l[k].0)),
            decreases self.languages@.len() - i,
        {
            let mut pattern = String::new();
            push_str(&mut pattern, self.languages[i].0.as_str());
            push_str(&mut pattern, "[\\s$\\W]");
            assert(pattern@ == lang_pattern(l[i as int].0));
            if compile_pattern(pattern.as_str()).is_none() {
                return false;
            }
            i += 1;
        }
        true
    }

    /// Short form of a window title when every language pattern compiles,
    /// `None` when one does not.
    pub fn try_shorten(&self, title: &str) -> (r: Option<String>)
        ensures
            match r {
                Some(s) => s@ == shorten_spec(self@, lowercase(title@)),
                None => !forall|k: int| 0 <= k < self@.3.len() ==> regex_valid(lang_pattern(#[trigger] self@.3[k].0)),
            },
    {
        if !self.patterns_compile() {
            return None;
        }
        proof {
            lemma_all_compile(self@.3, lowercase(title@), 0);
        }
        Some(self.shorten(title))
    }
}

proof fn lemma_all_compile(langs: Entries, t: Seq<char>, i: int)
    requires
        0 <= i,
        forall|k: int| 0 <= k < langs.len() ==> regex_valid(lang_pattern(#[trigger] langs[k].0)),
    ensures
        langs_compile(langs, t, i),
    decreases langs.len() - i,
{
    if i < langs.len() {
        lemma_all_compile(langs, t, i + 1);
    }
}

} // verus!
