//! Languages: supported locales, right-to-left scripts, the
//! Accept-Language header, and the interface translations.

use vstd::prelude::*;
use vstd::string::*;
use crate::engines::{base_code, first_dash};
use crate::plugins::{trim, trim_chars};
use crate::query::{is_number, seconds_to_ms, thousandths, opt_str};
use crate::text::{chars_of, has_prefix, str_eq, string_of, starts_with_lit};

verus! {

/// The supported languages: code and name.
pub open spec fn supported_table() -> Seq<(Seq<char>, Seq<char>)> {
    seq![
        ("all"@, "All languages"@),
        ("en"@, "English"@),
        ("de"@, "Deutsch"@),
        ("fr"@, "Français"@),
        ("es"@, "Español"@),
        ("it"@, "Italiano"@),
        ("pt"@, "Português"@),
        ("nl"@, "Nederlands"@),
        ("pl"@, "Polski"@),
        ("ru"@, "Русский"@),
        ("ja"@, "日本語"@),
        ("zh"@, "中文"@),
        ("ko"@, "한국어"@),
        ("ar"@, "العربية"@)
    ]
}

pub open spec fn lit_pairs(v: Seq<(&'static str, &'static str)>) -> Seq<(Seq<char>, Seq<char>)> {
    v.map_values(|p: (&'static str, &'static str)| (p.0@, p.1@))
}

/// Every supported language, code and name.
pub fn get_supported_languages() -> (r: Vec<(&'static str, &'static str)>)
    ensures
        lit_pairs(r@) == supported_table(),
{
    let mut v: Vec<(&'static str, &'static str)> = Vec::new();
    v.push(("all", "All languages"));
    v.push(("en", "English"));
    v.push(("de", "Deutsch"));
    v.push(("fr", "Français"));
    v.push(("es", "Español"));
    v.push(("it", "Italiano"));
    v.push(("pt", "Português"));
    v.push(("nl", "Nederlands"));
    v.push(("pl", "Polski"));
    v.push(("ru", "Русский"));
    v.push(("ja", "日本語"));
    v.push(("zh", "中文"));
    v.push(("ko", "한국어"));
    v.push(("ar", "العربية"));
    assert(lit_pairs(v@) =~= supported_table());
    v
}

/// The name of a supported language code, looking from index `i`.
pub open spec fn language_name_from(code: Seq<char>, i: int) -> Option<Seq<char>>
    decreases supported_table().len() - i,
{
    if i < 0 || i >= supported_table().len() {
        None
    } else if supported_table()[i].0 == code {
        Some(supported_table()[i].1)
    } else {
        language_name_from(code, i + 1)
    }
}

pub open spec fn language_name(code: Seq<char>) -> Option<Seq<char>> {
    language_name_from(code, 0)
}

fn lookup_language(code: &str) -> (r: Option<&'static str>)
    ensures
        match language_name(code@) {
            Some(n) => r matches Some(x) && x@ == n,
            None => r is None,
        },
{
    let table = get_supported_languages();
    let mut i: usize = 0;
    while i < table.len()
        invariant
            i <= table@.len(),
            lit_pairs(table@) == supported_table(),
            language_name(code@) == language_name_from(code@, i as int),
        decreases table@.len() - i,
    {
        assert(lit_pairs(table@)[i as int] == (table@[i as int].0@, table@[i as int].1@));
        if str_eq(table[i].0, code) {
            return Some(table[i].1);
        }
        i = i + 1;
    }
    None
}

/// The part of a language tag before the first `-`.
pub open spec fn base_of(s: Seq<char>) -> Seq<char> {
    match first_dash(s) {
        Some(k) => s.take(k),
        None => s,
    }
}

/// Arabic, Hebrew, Persian and Urdu.
pub open spec fn rtl_code(c: Seq<char>) -> bool {
    c == "ar"@ || c == "he"@ || c == "fa"@ || c == "ur"@
}

fn is_rtl_code(c: &str) -> (r: bool)
    ensures
        r == rtl_code(c@),
{
    str_eq(c, "ar") || str_eq(c, "he") || str_eq(c, "fa") || str_eq(c, "ur")
}

/// A language with its display names and writing direction.
#[derive(Debug, Clone)]
pub struct Locale {
    pub code: String,
    pub name: String,
    pub native_name: String,
    pub is_rtl: bool,
}

impl Locale {
    pub fn new(code: &str, name: &str, native_name: &str) -> (r: Locale)
        ensures
            r.code@ == code@,
            r.name@ == name@,
            r.native_name@ == native_name@,
            r.is_rtl == rtl_code(code@),
    {
        Locale {
            code: String::from_str(code),
            name: String::from_str(name),
            native_name: String::from_str(native_name),
            is_rtl: is_rtl_code(code),
        }
    }
}

/// The locale of a language tag's base code, when supported.
pub fn get_locale(code: &str) -> (r: Option<Locale>)
    ensures
        match language_name(base_of(code@)) {
            Some(n) => r matches Some(l) && l.code@ == base_of(code@) && l.name@ == n
                && l.native_name@ == n && l.is_rtl == rtl_code(base_of(code@)),
            None => r is None,
        },
{
    let base = string_of(&base_code(code));
    match lookup_language(base.as_str()) {
        Some(n) => Some(Locale::new(base.as_str(), n, n)),
        None => None,
    }
}

/// The language's base code is written right to left.
pub fn is_rtl(lang: &str) -> (r: bool)
    ensures
        r == rtl_code(base_of(lang@)),
{
    let base = string_of(&base_code(lang));
    is_rtl_code(base.as_str())
}

/// Left-to-right scan splitting at `sep`: finished pieces and the current one.
pub open spec fn sep_scan(s: Seq<char>, sep: char, i: nat) -> (Seq<Seq<char>>, Seq<char>)
    decreases i,
{
    if i == 0 || i > s.len() {
        (seq![], seq![])
    } else {
        let (done, cur) = sep_scan(s, sep, (i - 1) as nat);
        if s[i - 1] == sep {
            (done.push(cur), seq![])
        } else {
            (done, cur.push(s[i - 1]))
        }
    }
}

/// The pieces of `s` between separators (as `str::split`).
pub open spec fn split_on(s: Seq<char>, sep: char) -> Seq<Seq<char>> {
    let (done, cur) = sep_scan(s, sep, s.len());
    done.push(cur)
}

pub(crate) fn split_chars(s: &Vec<char>, sep: char) -> (r: Vec<Vec<char>>)
    ensures
        crate::text::views(r@) == split_on(s@, sep),
{
    let mut done: Vec<Vec<char>> = Vec::new();
    let mut cur: Vec<char> = Vec::new();
    let mut i: usize = 0;
    while i < s.len()
        invariant
            i <= s@.len(),
            (crate::text::views(done@), cur@) == sep_scan(s@, sep, i as nat),
        decreases s@.len() - i,
    {
        if s[i] == sep {
            let ghost pre = done@;
            let w = cur;
            done.push(w);
            cur = Vec::new();
            assert(crate::text::views(done@) =~= crate::text::views(pre).push(w@));
        } else {
            cur.push(s[i]);
        }
        i = i + 1;
    }
    let ghost pre = done@;
    let w = cur;
    done.push(w);
    assert(crate::text::views(done@) =~= crate::text::views(pre).push(w@));
    done
}

/// A `q=` weight in thousandths; 1000 when absent or not a decimal number.
pub open spec fn quality_of(x: Seq<char>) -> u64 {
    if has_prefix(x, "q="@) && is_number(x.skip(2)) {
        seconds_to_ms(x.skip(2))
    } else {
        1000
    }
}

/// One comma-separated entry: its language and weight.
pub open spec fn entry_of_part(p: Seq<char>) -> (Seq<char>, u64) {
    let segs = split_on(trim(p), ';');
    (trim(segs[0]), if segs.len() > 1 { quality_of(trim(segs[1])) } else { 1000 })
}

/// The best supported base code among the entries: highest weight, the
/// earliest among equal weights.
pub open spec fn best_language(parts: Seq<Seq<char>>) -> Option<(u64, Seq<char>)>
    decreases parts.len(),
{
    if parts.len() == 0 {
        None
    } else {
        let prev = best_language(parts.drop_last());
        let (lang, q) = entry_of_part(parts.last());
        let base = base_of(lang);
        if language_name(base) is Some && (prev is None || q > prev.unwrap().0) {
            Some((q, base))
        } else {
            prev
        }
    }
}

pub open spec fn accepted_language(header: Seq<char>) -> Option<Seq<char>> {
    match best_language(split_on(header, ',')) {
        Some((_, b)) => Some(b),
        None => None,
    }
}

proof fn lemma_split_nonempty(s: Seq<char>, sep: char)
    ensures
        split_on(s, sep).len() >= 1,
{
}

/// The preferred supported language of an Accept-Language header.
pub fn parse_accept_language(header: &str) -> (r: Option<String>)
    ensures
        opt_str(r) == accepted_language(header@),
{
    let hc = chars_of(header);
    let parts = split_chars(&hc, ',');
    let ghost ps = crate::text::views(parts@);
    let mut best: Option<(u64, String)> = None;
    let mut i: usize = 0;
    while i < parts.len()
        invariant
            i <= parts@.len(),
            ps == crate::text::views(parts@),
            match best_language(ps.take(i as int)) {
                Some((q, b)) => best matches Some(x) && x.0 == q && x.1@ == b,
                None => best is None,
            },
        decreases parts@.len() - i,
    {
        assert(ps.take(i + 1).drop_last() =~= ps.take(i as int));
        assert(ps.take(i + 1).last() == parts@[i as int]@);
        let part = trim_chars(&parts[i]);
        let segs = split_chars(&part, ';');
        proof {
            lemma_split_nonempty(part@, ';');
        }
        let lang = trim_chars(&segs[0]);
        let mut q: u64 = 1000;
        if segs.len() > 1 {
            let x = trim_chars(&segs[1]);
            assert(x@.skip(0) =~= x@);
            if starts_with_lit(&x, 0, "q=") {
                let xl = x.len();
                proof {
                    reveal_strlit("q=");
                }
                assert(x@.subrange(2, xl as int) =~= x@.skip(2));
                match thousandths(&x, 2, xl) {
                    Some(v) => {
                        q = v;
                    },
                    None => {},
                }
            }
        }
        let base = string_of(&base_code(string_of(&lang).as_str()));
        let supported = lookup_language(base.as_str()).is_some();
        let better = match &best {
            Some(b) => q > b.0,
            None => true,
        };
        if supported && better {
            best = Some((q, base));
        }
        i = i + 1;
    }
    assert(ps.take(ps.len() as int) =~= ps);
    match best {
        Some(b) => Some(b.1),
        None => None,
    }
}

/// The Accept-Language header sent to engines for a language.
pub fn accept_language(lang: &str) -> (r: String)
    ensures
        r@ == if lang@ == "all"@ || lang@.len() == 0 {
            "en-US,en;q=0.9"@
        } else {
            lang@ + ",en-US;q=0.9,en;q=0.8"@
        },
{
    if str_eq(lang, "all") || lang.unicode_len() == 0 {
        String::from_str("en-US,en;q=0.9")
    } else {
        let mut r = String::from_str(lang);
        r.append(",en-US;q=0.9,en;q=0.8");
        r
    }
}

/// The Accept header for HTML requests.
pub fn accept_html() -> (r: &'static str)
    ensures
        r@ == "text/html,application/xhtml+xml,application/xml;q=0.9,image/avif,image/webp,*/*;q=0.8"@,
{
    "text/html,application/xhtml+xml,application/xml;q=0.9,image/avif,image/webp,*/*;q=0.8"
}

/// The Accept header for JSON requests.
pub fn accept_json() -> (r: &'static str)
    ensures
        r@ == "application/json,text/javascript,*/*;q=0.01"@,
{
    "application/json,text/javascript,*/*;q=0.01"
}

/// The interface strings of each language.
pub open spec fn translation_table() -> Seq<(Seq<char>, Seq<(Seq<char>, Seq<char>)>)> {
    seq![
        ("en"@, seq![("search"@, "Search"@), ("preferences"@, "Preferences"@), ("about"@, "About"@), ("stats"@, "Statistics"@), ("no_results"@, "No results found"@)]),
        ("de"@, seq![("search"@, "Suchen"@), ("preferences"@, "Einstellungen"@), ("about"@, "Über"@), ("stats"@, "Statistiken"@), ("no_results"@, "Keine Ergebnisse gefunden"@)]),
        ("fr"@, seq![("search"@, "Rechercher"@), ("preferences"@, "Préférences"@), ("about"@, "À propos"@), ("stats"@, "Statistiques"@), ("no_results"@, "Aucun résultat trouvé"@)])
    ]
}

pub open spec fn pairs_view(v: Seq<(String, String)>) -> Seq<(Seq<char>, Seq<char>)> {
    v.map_values(|p: (String, String)| (p.0@, p.1@))
}

/// Value of `key` in the pairs, looking from index `i`.
pub open spec fn pair_lookup(ps: Seq<(Seq<char>, Seq<char>)>, key: Seq<char>, i: int) -> Option<Seq<char>>
    decreases ps.len() - i,
{
    if i < 0 || i >= ps.len() {
        None
    } else if ps[i].0 == key {
        Some(ps[i].1)
    } else {
        pair_lookup(ps, key, i + 1)
    }
}

/// The pairs of `lang` in the table, looking from index `i`.
pub open spec fn lang_lookup(
    t: Seq<(Seq<char>, Seq<(Seq<char>, Seq<char>)>)>,
    lang: Seq<char>,
    i: int,
) -> Option<Seq<(Seq<char>, Seq<char>)>>
    decreases t.len() - i,
{
    if i < 0 || i >= t.len() {
        None
    } else if t[i].0 == lang {
        Some(t[i].1)
    } else {
        lang_lookup(t, lang, i + 1)
    }
}

/// `key` in the language's table, else in English.
pub open spec fn translated(t: Seq<(Seq<char>, Seq<(Seq<char>, Seq<char>)>)>, lang: Seq<char>, key: Seq<char>) -> Option<Seq<char>> {
    let own = match lang_lookup(t, lang, 0) {
        Some(ps) => pair_lookup(ps, key, 0),
        None => None,
    };
    if own is Some {
        own
    } else {
        match lang_lookup(t, "en"@, 0) {
            Some(ps) => pair_lookup(ps, key, 0),
            None => None,
        }
    }
}

/// Interface strings per language.
pub struct Translations {
    pub table: Vec<(String, Vec<(String, String)>)>,
}

impl Translations {
    pub open spec fn view_table(&self) -> Seq<(Seq<char>, Seq<(Seq<char>, Seq<char>)>)> {
        self.table@.map_values(|e: (String, Vec<(String, String)>)| (e.0@, pairs_view(e.1@)))
    }

    /// English, German and French.
    pub fn new() -> (r: Translations)
        ensures
            r.view_table() == translation_table(),
    {
        let mut table: Vec<(String, Vec<(String, String)>)> = Vec::new();
        let mut en: Vec<(String, String)> = Vec::new();
        en.push((String::from_str("search"), String::from_str("Search")));
        en.push((String::from_str("preferences"), String::from_str("Preferences")));
        en.push((String::from_str("about"), String::from_str("About")));
        en.push((String::from_str("stats"), String::from_str("Statistics")));
        en.push((String::from_str("no_results"), String::from_str("No results found")));
        table.push((String::from_str("en"), en));
        let mut de: Vec<(String, String)> = Vec::new();
        de.push((String::from_str("search"), String::from_str("Suchen")));
        de.push((String::from_str("preferences"), String::from_str("Einstellungen")));
        de.push((String::from_str("about"), String::from_str("Über")));
        de.push((String::from_str("stats"), String::from_str("Statistiken")));
        de.push((String::from_str("no_results"), String::from_str("Keine Ergebnisse gefunden")));
        table.push((String::from_str("de"), de));
        let mut fr: Vec<(String, String)> = Vec::new();
        fr.push((String::from_str("search"), String::from_str("Rechercher")));
        fr.push((String::from_str("preferences"), String::from_str("Préférences")));
        fr.push((String::from_str("about"), String::from_str("À propos")));
        fr.push((String::from_str("stats"), String::from_str("Statistiques")));
        fr.push((String::from_str("no_results"), String::from_str("Aucun résultat trouvé")));
        table.push((String::from_str("fr"), fr));
        let r = Translations { table };
        assert(pairs_view(r.table@[0].1@) =~= translation_table()[0].1);
        assert(pairs_view(r.table@[1].1@) =~= translation_table()[1].1);
        assert(pairs_view(r.table@[2].1@) =~= translation_table()[2].1);
        assert(r.view_table() =~= translation_table());
        r
    }

    fn find_lang(&self, lang: &str) -> (r: Option<usize>)
        ensures
            match lang_lookup(self.view_table(), lang@, 0) {
                Some(ps) => r matches Some(i) && i < self.table@.len() && pairs_view(self.table@[i as int].1@) == ps,
                None => r is None,
            },
    {
        let mut i: usize = 0;
        while i < self.table.len()
            invariant
                i <= self.table@.len(),
                lang_lookup(self.view_table(), lang@, 0) == lang_lookup(self.view_table(), lang@, i as int),
            decreases self.table@.len() - i,
        {
            assert(self.view_table()[i as int] == (self.table@[i as int].0@, pairs_view(self.table@[i as int].1@)));
            if str_eq(self.table[i].0.as_str(), lang) {
                return Some(i);
            }
            i = i + 1;
        }
        None
    }

    fn find_key<'a>(ps: &'a Vec<(String, String)>, key: &str) -> (r: Option<&'a str>)
        ensures
            opt_strs(r) == pair_lookup(pairs_view(ps@), key@, 0),
    {
        let mut i: usize = 0;
        while i < ps.len()
            invariant
                i <= ps@.len(),
                pair_lookup(pairs_view(ps@), key@, 0) == pair_lookup(pairs_view(ps@), key@, i as int),
            decreases ps@.len() - i,
        {
            assert(pairs_view(ps@)[i as int] == (ps@[i as int].0@, ps@[i as int].1@));
            if str_eq(ps[i].0.as_str(), key) {
                return Some(ps[i].1.as_str());
            }
            i = i + 1;
        }
        None
    }

    /// The string for `key` in the language's base code, else in English.
    pub fn get(&self, lang: &str, key: &str) -> (r: Option<&str>)
        ensures
            opt_strs(r) == translated(self.view_table(), base_of(lang@), key@),
    {
        let base = string_of(&base_code(lang));
        let own = match self.find_lang(base.as_str()) {
            Some(i) => Self::find_key(&self.table[i].1, key),
            None => None,
        };
        if own.is_some() {
            return own;
        }
        match self.find_lang("en") {
            Some(i) => Self::find_key(&self.table[i].1, key),
            None => None,
        }
    }
}

pub open spec fn opt_strs(o: Option<&str>) -> Option<Seq<char>> {
    match o {
        Some(s) => Some(s@),
        None => None,
    }
}

} // verus!
