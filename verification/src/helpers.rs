//! Source identification, title and chapter normalisation, and ComicInfo.xml
//! generation.

use crate::metadata::aggregate::{lemma_sorted_set_exists, sorted_set};
use crate::models::{source_from_id_spec, source_id_spec, Chapter, Source};
use crate::text::{
    chars_of, comma_free, contains_chars, eq_chars, eq_str, has_sub, join_chars, join_seq, lemma_split_join,
    lemma_split_pieces_comma_free, lemma_trim_trimmed, lowercase, parse_i32,
    insert_sorted, lemma_sorted_unique, remove_all, remove_all_chars, split_chars, split_seq,
    strictly_sorted, trim, trim_chars,
    parse_i32_spec, decimal, lemma_parse_decimal, ascii_chars, ascii_lowered, ascii_lower_char,
    lemma_nat_digits_value, nat_digits, is_digit, all_digits, remove_char, remove_char_chars, string_of, to_lowercase, views,
};
use vstd::prelude::*;

verus! {

// ---------------------------------------------------------------------------
// Regular expressions
// ---------------------------------------------------------------------------

/// What capture group 1 of the first match of the regular expression
/// `pattern` in `text` is, as the `regex` crate finds it (`None` when the
/// pattern does not compile, nothing matches or the group takes no part).
pub uninterp spec fn regex_group1(pattern: Seq<char>, text: Seq<char>) -> Option<Seq<char>>;

/// Calls `regex::Regex::new(pattern)` and `Regex::captures(text)`, and returns
/// the text of capture group 1. The result is named by `regex_group1`; the one
/// further fact stated is that a group's text is a substring of `text`, as
/// `Match::as_str` documents. The matching itself is left unsaid.
#[verifier::external_body]
pub(crate) fn regex_capture_group1(pattern: &str, text: &str) -> (r: Option<String>)
    ensures
        match r {
            Some(m) => regex_group1(pattern@, text@) == Some(m@),
            None => regex_group1(pattern@, text@) is None,
        },
        r matches Some(m) ==> has_sub(text@, m@),
{
    let re = regex::Regex::new(pattern).ok()?;
    re.captures(text).and_then(|c| c.get(1)).map(|m| m.as_str().to_string())
}

// ---------------------------------------------------------------------------
// Sources
// ---------------------------------------------------------------------------

/// The source a lowercase name stands for.
pub open spec fn source_by_name(k: Seq<char>) -> Option<Source> {
    if k == "mangadex"@ {
        Some(Source::MangaDex)
    } else if k == "firescans"@ {
        Some(Source::FireScans)
    } else if k == "rizzcomic"@ {
        Some(Source::RizzComic)
    } else if k == "myanimelist"@ || k == "mal"@ {
        Some(Source::MyAnimeList)
    } else if k == "anilist"@ {
        Some(Source::AniList)
    } else if k == "drakecomic"@ {
        Some(Source::DrakeComic)
    } else if k == "kdtnovels"@ || k == "kdt"@ {
        Some(Source::KDTNovels)
    } else if k == "asmotoon"@ {
        Some(Source::Asmotoon)
    } else if k == "resetscans"@ || k == "reset-scans"@ {
        Some(Source::ResetScans)
    } else if k == "kagane"@ {
        Some(Source::Kagane)
    } else if k == "temple-scan"@ || k == "templescan"@ || k == "templetoons"@ {
        Some(Source::TempleScan)
    } else if k == "thunderscans"@ || k == "thunder-scans"@ {
        Some(Source::ThunderScans)
    } else {
        None
    }
}

/// The source a lowercased name or id stands for: a string that parses as an
/// `i32` is taken as an id, anything else as a name.
pub open spec fn parse_source_lower(k: Seq<char>) -> Option<Source> {
    match parse_i32_spec(k) {
        Some(n) => source_from_id_spec(n),
        None => source_by_name(k),
    }
}

/// A numeric string names the source with that id, never a source by name:
/// the decimal id of each source leads back to it, and a number that is no
/// source's id leads to none.
pub proof fn lemma_parse_source_ids(k: Seq<char>, v: Source)
    ensures
        parse_source_lower(decimal(source_id_spec(v) as int)) == Some(v),
        parse_i32_spec(k) matches Some(n) ==> parse_source_lower(k) == source_from_id_spec(n),
        parse_i32_spec(k) matches Some(n) ==> (source_from_id_spec(n) is None <==> !(1 <= n <= 10 || n
            == 49 || n == 50)),
{
    lemma_parse_decimal(source_id_spec(v));
}

/// On ASCII text, lowering is done once and for all: the lowered text is
/// ASCII and lowering it again changes nothing, so a name and its lowercase
/// name the same source; and the decimal id of a source, which lowering
/// leaves as it is, names that source.
pub proof fn lemma_parse_source_ascii(s: Seq<char>, v: Source)
    ensures
        ascii_chars(s) ==> ascii_chars(ascii_lowered(s)) && ascii_lowered(ascii_lowered(s))
            == ascii_lowered(s),
        ascii_chars(s) ==> parse_source_lower(ascii_lowered(ascii_lowered(s))) == parse_source_lower(
            ascii_lowered(s),
        ),
        ascii_chars(decimal(source_id_spec(v) as int)),
        ascii_lowered(decimal(source_id_spec(v) as int)) == decimal(source_id_spec(v) as int),
        parse_source_lower(ascii_lowered(decimal(source_id_spec(v) as int))) == Some(v),
{
    let l = ascii_lowered(s);
    if ascii_chars(s) {
        assert forall|i: int| 0 <= i < l.len() implies (#[trigger] l[i] as int) < 128 by {
            assert(l[i] == ascii_lower_char(s[i]));
        }
        assert(ascii_lowered(l) =~= l);
    }
    let d = decimal(source_id_spec(v) as int);
    lemma_nat_digits_value(source_id_spec(v) as nat);
    assert(d == nat_digits(source_id_spec(v) as nat));
    assert forall|i: int| 0 <= i < d.len() implies (#[trigger] d[i] as int) < 128 by {
        assert(is_digit(d[i]));
    }
    assert forall|i: int| 0 <= i < d.len() implies ascii_lowered(d)[i] == d[i] by {
        assert(is_digit(d[i]));
    }
    assert(ascii_lowered(d) =~= d);
    lemma_parse_decimal(source_id_spec(v));
}

/// The lowercase name of each source.
pub open spec fn source_name_lower(v: Source) -> Seq<char> {
    match v {
        Source::MangaDex => "mangadex"@,
        Source::FireScans => "firescans"@,
        Source::RizzComic => "rizzcomic"@,
        Source::MyAnimeList => "myanimelist"@,
        Source::AniList => "anilist"@,
        Source::DrakeComic => "drakecomic"@,
        Source::KDTNovels => "kdtnovels"@,
        Source::Asmotoon => "asmotoon"@,
        Source::ResetScans => "resetscans"@,
        Source::Kagane => "kagane"@,
        Source::TempleScan => "templescan"@,
        Source::ThunderScans => "thunderscans"@,
    }
}

/// Every source is found by its lowercase name, which is ASCII and is its
/// own lowercase (so `parse_source` finds it too, in any ASCII case).
pub proof fn lemma_sources_by_name(v: Source)
    ensures
        parse_source_lower(source_name_lower(v)) == Some(v),
        ascii_chars(source_name_lower(v)),
        ascii_lowered(source_name_lower(v)) == source_name_lower(v),
{
    reveal_strlit("mangadex");
    reveal_strlit("firescans");
    reveal_strlit("rizzcomic");
    reveal_strlit("myanimelist");
    reveal_strlit("mal");
    reveal_strlit("anilist");
    reveal_strlit("drakecomic");
    reveal_strlit("kdtnovels");
    reveal_strlit("kdt");
    reveal_strlit("asmotoon");
    reveal_strlit("resetscans");
    reveal_strlit("reset-scans");
    reveal_strlit("kagane");
    reveal_strlit("temple-scan");
    reveal_strlit("templescan");
    reveal_strlit("templetoons");
    reveal_strlit("thunderscans");
    reveal_strlit("thunder-scans");
    let k = source_name_lower(v);
    assert(!is_digit(k[0]) && k[0] != '-' && k[0] != '+');
    assert(!all_digits(k));
    assert(parse_i32_spec(k) is None);
    assert forall|i: int| 0 <= i < k.len() implies (#[trigger] k[i] as int) < 128 && ascii_lowered(k)[i]
        == k[i] by {}
    assert(ascii_lowered(k) =~= k);
}

fn source_by_name_chars(k: &Vec<char>) -> (r: Option<Source>)
    ensures
        r == source_by_name(k@),
{
    if eq_str(k, "mangadex") {
        Some(Source::MangaDex)
    } else if eq_str(k, "firescans") {
        Some(Source::FireScans)
    } else if eq_str(k, "rizzcomic") {
        Some(Source::RizzComic)
    } else if eq_str(k, "myanimelist") || eq_str(k, "mal") {
        Some(Source::MyAnimeList)
    } else if eq_str(k, "anilist") {
        Some(Source::AniList)
    } else if eq_str(k, "drakecomic") {
        Some(Source::DrakeComic)
    } else if eq_str(k, "kdtnovels") || eq_str(k, "kdt") {
        Some(Source::KDTNovels)
    } else if eq_str(k, "asmotoon") {
        Some(Source::Asmotoon)
    } else if eq_str(k, "resetscans") || eq_str(k, "reset-scans") {
        Some(Source::ResetScans)
    } else if eq_str(k, "kagane") {
        Some(Source::Kagane)
    } else if eq_str(k, "temple-scan") || eq_str(k, "templescan") || eq_str(k, "templetoons") {
        Some(Source::TempleScan)
    } else if eq_str(k, "thunderscans") || eq_str(k, "thunder-scans") {
        Some(Source::ThunderScans)
    } else {
        None
    }
}

/// Parses a source name or numeric id, after lowercasing it.
pub fn parse_source(s: &str) -> (r: Option<Source>)
    ensures
        r == parse_source_lower(lowercase(s@)),
        ascii_chars(s@) ==> r == parse_source_lower(ascii_lowered(s@)),
{
    let lower = to_lowercase(s);
    let k = chars_of(lower.as_str());
    match parse_i32(&k) {
        Some(n) => Source::from_id(n),
        None => source_by_name_chars(&k),
    }
}

/// The id and base URL of the WP-Manga based source with this exact name.
pub open spec fn wp_source(name: Seq<char>) -> Option<(i32, Seq<char>)> {
    if name == "asurascans"@ {
        Some((11, "https://asurascans.com"@))
    } else if name == "kenscans"@ {
        Some((25, "https://kenscans.com"@))
    } else if name == "sirenscans"@ || name == "siren-scans"@ {
        Some((43, "https://sirenscans.com"@))
    } else if name == "vortexscans"@ || name == "vortex-scans"@ {
        Some((56, "https://vortexscans.com"@))
    } else if name == "witchscans"@ || name == "witch-scans"@ {
        Some((59, "https://witchscans.com"@))
    } else if name == "qiscans"@ || name == "qi-scans"@ {
        Some((38, "https://qiscans.org"@))
    } else if name == "madarascans"@ {
        Some((30, "https://madarascans.com"@))
    } else if name == "rizzfables"@ {
        Some((39, "https://rizzfables.com"@))
    } else if name == "rokaricomics"@ || name == "rokari-comics"@ {
        Some((40, "https://rokaricomics.com"@))
    } else if name == "stonescape"@ {
        Some((45, "https://stonescape.xyz"@))
    } else if name == "manhuaus"@ {
        Some((31, "https://manhuaus.com"@))
    } else if name == "grimscans"@ {
        Some((19, "https://grimscans.team"@))
    } else if name == "hivetoons"@ {
        Some((20, "https://hivetoons.com"@))
    } else if name == "nyxscans"@ {
        Some((34, "https://nyxscans.com"@))
    } else {
        None
    }
}

/// The id and base URL of a WP-Manga based source, looked up by its exact name.
pub fn wp_manga_source_by_name(name: &str) -> (r: Option<(i32, &'static str)>)
    ensures
        match r {
            Some((id, url)) => wp_source(name@) == Some((id, url@)),
            None => wp_source(name@) is None,
        },
{
    let k = chars_of(name);
    if eq_str(&k, "asurascans") {
        Some((11, "https://asurascans.com"))
    } else if eq_str(&k, "kenscans") {
        Some((25, "https://kenscans.com"))
    } else if eq_str(&k, "sirenscans") || eq_str(&k, "siren-scans") {
        Some((43, "https://sirenscans.com"))
    } else if eq_str(&k, "vortexscans") || eq_str(&k, "vortex-scans") {
        Some((56, "https://vortexscans.com"))
    } else if eq_str(&k, "witchscans") || eq_str(&k, "witch-scans") {
        Some((59, "https://witchscans.com"))
    } else if eq_str(&k, "qiscans") || eq_str(&k, "qi-scans") {
        Some((38, "https://qiscans.org"))
    } else if eq_str(&k, "madarascans") {
        Some((30, "https://madarascans.com"))
    } else if eq_str(&k, "rizzfables") {
        Some((39, "https://rizzfables.com"))
    } else if eq_str(&k, "rokaricomics") || eq_str(&k, "rokari-comics") {
        Some((40, "https://rokaricomics.com"))
    } else if eq_str(&k, "stonescape") {
        Some((45, "https://stonescape.xyz"))
    } else if eq_str(&k, "manhuaus") {
        Some((31, "https://manhuaus.com"))
    } else if eq_str(&k, "grimscans") {
        Some((19, "https://grimscans.team"))
    } else if eq_str(&k, "hivetoons") {
        Some((20, "https://hivetoons.com"))
    } else if eq_str(&k, "nyxscans") {
        Some((34, "https://nyxscans.com"))
    } else {
        None
    }
}

/// A WP-Manga source never has the id of one of the built-in sources, so a
/// name that is resolved by either table resolves to one id only.
pub proof fn lemma_wp_ids_distinct_from_sources(name: Seq<char>, n: i32)
    requires
        wp_source(name) matches Some((id, _)) && id == n,
    ensures
        source_from_id_spec(n) is None,
{
}

/// The source a URL probably belongs to, judged by its lowercased text.
pub open spec fn guess_source_lower(u: Seq<char>) -> Option<i32> {
    if has_sub(u, "mangadex.org"@) {
        Some(1)
    } else if has_sub(u, "firescans"@) {
        Some(2)
    } else if has_sub(u, "rizzcomic"@) {
        Some(3)
    } else {
        None
    }
}

/// Guesses the source id of a URL from the domain names it contains.
pub fn guess_source_id_from_url(u: &str) -> (r: Option<i32>)
    ensures
        r == guess_source_lower(lowercase(u@)),
        ascii_chars(u@) ==> r == guess_source_lower(ascii_lowered(u@)),
{
    let lower = to_lowercase(u);
    let k = chars_of(lower.as_str());
    if contains_chars(&k, &chars_of("mangadex.org")) {
        Some(Source::MangaDex.id())
    } else if contains_chars(&k, &chars_of("firescans")) {
        Some(Source::FireScans.id())
    } else if contains_chars(&k, &chars_of("rizzcomic")) {
        Some(Source::RizzComic.id())
    } else {
        None
    }
}

// ---------------------------------------------------------------------------
// Titles
// ---------------------------------------------------------------------------

/// The key under which titles are compared: lowercased, without spaces and
/// hyphens.
pub open spec fn normalized_title(t: Seq<char>) -> Seq<char> {
    remove_char(remove_char(lowercase(t), ' '), '-')
}

/// Normalizes a manga title for use as a comparison key.
pub fn normalize_title(title: &str) -> (r: String)
    ensures
        r@ == normalized_title(title@),
{
    let lower = to_lowercase(title);
    let k = chars_of(lower.as_str());
    let a = remove_char_chars(&k, ' ');
    let b = remove_char_chars(&a, '-');
    string_of(&b)
}

// ---------------------------------------------------------------------------
// XML
// ---------------------------------------------------------------------------

/// The XML escape of one character.
pub open spec fn escape_char(c: char) -> Seq<char> {
    if c == '&' {
        "&amp;"@
    } else if c == '<' {
        "&lt;"@
    } else if c == '>' {
        "&gt;"@
    } else if c == '"' {
        "&quot;"@
    } else if c == '\'' {
        "&apos;"@
    } else {
        seq![c]
    }
}

/// `s` with `&`, `<`, `>`, `"` and `'` replaced by their XML entities. The
/// original replaces them one kind after another, `&` first; since no entity
/// holds any of the later characters, that equals escaping each character.
pub open spec fn xml_escaped(s: Seq<char>) -> Seq<char>
    decreases s.len(),
{
    if s.len() == 0 {
        s
    } else {
        xml_escaped(s.drop_last()) + escape_char(s.last())
    }
}

fn append_str(v: &mut Vec<char>, s: &str)
    ensures
        final(v)@ == old(v)@ + s@,
{
    let w = chars_of(s);
    let mut i: usize = 0;
    let ghost v0 = v@;
    while i < w.len()
        invariant
            i <= w@.len(),
            w@ == s@,
            v@ == v0 + w@.take(i as int),
        decreases w@.len() - i,
    {
        v.push(w[i]);
        i = i + 1;
        assert(v@ =~= v0 + w@.take(i as int));
    }
    assert(w@.take(w@.len() as int) =~= w@);
}

fn xml_escape_chars(s: &Vec<char>) -> (r: Vec<char>)
    ensures
        r@ == xml_escaped(s@),
{
    let mut r: Vec<char> = Vec::new();
    let mut i: usize = 0;
    while i < s.len()
        invariant
            i <= s@.len(),
            r@ == xml_escaped(s@.take(i as int)),
        decreases s@.len() - i,
    {
        let c = s[i];
        assert(s@.take(i + 1).drop_last() =~= s@.take(i as int));
        assert(s@.take(i + 1).last() == c);
        if c == '&' {
            append_str(&mut r, "&amp;");
        } else if c == '<' {
            append_str(&mut r, "&lt;");
        } else if c == '>' {
            append_str(&mut r, "&gt;");
        } else if c == '"' {
            append_str(&mut r, "&quot;");
        } else if c == '\'' {
            append_str(&mut r, "&apos;");
        } else {
            r.push(c);
        }
        i = i + 1;
    }
    assert(s@.take(s@.len() as int) =~= s@);
    r
}

/// Escapes the XML special characters for ComicInfo.xml.
pub fn xml_escape(s: &str) -> (r: String)
    ensures
        r@ == xml_escaped(s@),
{
    let k = chars_of(s);
    let e = xml_escape_chars(&k);
    string_of(&e)
}

/// One of the five characters XML escaping replaces.
pub open spec fn xml_special(c: char) -> bool {
    c == '&' || c == '<' || c == '>' || c == '"' || c == '\''
}

/// Text with XML's five entities read back, from the left: `&lt;`, `&gt;`,
/// `&quot;`, `&apos;` and `&amp;` each give their character, and every other
/// character stays.
pub open spec fn xml_unescaped(t: Seq<char>) -> Seq<char>
    decreases t.len(),
{
    if t.len() == 0 {
        t
    } else if t.len() >= 4 && t.take(4) == "&lt;"@ {
        seq!['<'] + xml_unescaped(t.skip(4))
    } else if t.len() >= 4 && t.take(4) == "&gt;"@ {
        seq!['>'] + xml_unescaped(t.skip(4))
    } else if t.len() >= 5 && t.take(5) == "&amp;"@ {
        seq!['&'] + xml_unescaped(t.skip(5))
    } else if t.len() >= 6 && t.take(6) == "&quot;"@ {
        seq!['"'] + xml_unescaped(t.skip(6))
    } else if t.len() >= 6 && t.take(6) == "&apos;"@ {
        seq!['\''] + xml_unescaped(t.skip(6))
    } else {
        seq![t[0]] + xml_unescaped(t.skip(1))
    }
}

proof fn lemma_xml_escaped_concat(a: Seq<char>, b: Seq<char>)
    ensures
        xml_escaped(a + b) == xml_escaped(a) + xml_escaped(b),
    decreases b.len(),
{
    if b.len() == 0 {
        assert(a + b =~= a);
        assert(xml_escaped(a) + xml_escaped(b) =~= xml_escaped(a));
    } else {
        lemma_xml_escaped_concat(a, b.drop_last());
        assert((a + b).drop_last() =~= a + b.drop_last());
        assert((a + b).last() == b.last());
        assert(xml_escaped(a + b) =~= xml_escaped(a) + xml_escaped(b));
    }
}

proof fn lemma_unescape_entity(e: Seq<char>, c: char, rest: Seq<char>)
    requires
        e == escape_char(c),
    ensures
        xml_unescaped(e + rest) == seq![c] + xml_unescaped(rest),
{
    reveal_strlit("&amp;");
    reveal_strlit("&lt;");
    reveal_strlit("&gt;");
    reveal_strlit("&quot;");
    reveal_strlit("&apos;");
    let t = e + rest;
    assert(t.len() > 0);
    if c == '<' {
        assert(t.take(4) =~= "&lt;"@);
        assert(t.skip(4) =~= rest);
    } else if c == '>' {
        assert(t.take(4) != "&lt;"@) by { assert(t.take(4)[1] != "&lt;"@[1]); }
        assert(t.take(4) =~= "&gt;"@);
        assert(t.skip(4) =~= rest);
    } else if c == '&' {
        assert(t.take(4) != "&lt;"@) by { assert(t.take(4)[1] != "&lt;"@[1]); }
        assert(t.take(4) != "&gt;"@) by { assert(t.take(4)[1] != "&gt;"@[1]); }
        assert(t.take(5) =~= "&amp;"@);
        assert(t.skip(5) =~= rest);
    } else if c == '"' {
        assert(t[1] == 'q');
        assert(t.take(4) != "&lt;"@) by { assert(t.take(4)[1] != "&lt;"@[1]); }
        assert(t.take(4) != "&gt;"@) by { assert(t.take(4)[1] != "&gt;"@[1]); }
        assert(t.take(5) != "&amp;"@) by { assert(t.take(5)[1] != "&amp;"@[1]); }
        assert(t.take(6) =~= "&quot;"@);
        assert(t.skip(6) =~= rest);
    } else if c == '\'' {
        assert(t[1] == 'a' && t[2] == 'p');
        assert(t.take(4) != "&lt;"@) by { assert(t.take(4)[1] != "&lt;"@[1]); }
        assert(t.take(4) != "&gt;"@) by { assert(t.take(4)[1] != "&gt;"@[1]); }
        assert(t.take(6) != "&quot;"@) by { assert(t.take(6)[1] != "&quot;"@[1]); }
        assert(t.take(5) != "&amp;"@) by { assert(t.take(5)[2] != "&amp;"@[2]); }
        assert(t.take(6) =~= "&apos;"@);
        assert(t.skip(6) =~= rest);
    } else {
        assert(t[0] == c);
        if t.len() >= 4 {
            assert(t.take(4) != "&lt;"@) by { assert(t.take(4)[0] != "&lt;"@[0]); }
            assert(t.take(4) != "&gt;"@) by { assert(t.take(4)[0] != "&gt;"@[0]); }
        }
        if t.len() >= 5 {
            assert(t.take(5) != "&amp;"@) by { assert(t.take(5)[0] != "&amp;"@[0]); }
        }
        if t.len() >= 6 {
            assert(t.take(6) != "&quot;"@) by { assert(t.take(6)[0] != "&quot;"@[0]); }
            assert(t.take(6) != "&apos;"@) by { assert(t.take(6)[0] != "&apos;"@[0]); }
        }
        assert(t.skip(1) =~= rest);
    }
}

/// Escaping can be undone: reading the entities back gives the text.
pub proof fn lemma_xml_escape_round_trip(s: Seq<char>)
    ensures
        xml_unescaped(xml_escaped(s)) == s,
    decreases s.len(),
{
    if s.len() > 0 {
        let c = s[0];
        let rest = s.drop_first();
        assert(seq![c] + rest =~= s);
        lemma_xml_escaped_concat(seq![c], rest);
        assert(seq![c].drop_last() =~= Seq::<char>::empty());
        assert(seq![c].last() == c);
        assert(xml_escaped(Seq::<char>::empty()) =~= Seq::<char>::empty());
        assert(xml_escaped(seq![c]) =~= escape_char(c));
        lemma_unescape_entity(escape_char(c), c, xml_escaped(rest));
        lemma_xml_escape_round_trip(rest);
        assert(seq![c] + rest =~= s);
    }
}

/// Text without any of the five special characters is left as it is.
pub proof fn lemma_xml_escape_plain(s: Seq<char>)
    requires
        forall|i: int| 0 <= i < s.len() ==> !xml_special(#[trigger] s[i]),
    ensures
        xml_escaped(s) == s,
    decreases s.len(),
{
    if s.len() > 0 {
        lemma_xml_escape_plain(s.drop_last());
        assert(!xml_special(s[s.len() - 1]));
        assert(s.drop_last() + seq![s.last()] =~= s);
    }
}

/// The escaped text never holds a raw `<`, `>`, `"` or `'`.
pub proof fn lemma_xml_escaped_has_no_markup(s: Seq<char>)
    ensures
        forall|i: int|
            0 <= i < xml_escaped(s).len() ==> {
                let c = #[trigger] xml_escaped(s)[i];
                c != '<' && c != '>' && c != '"' && c != '\''
            },
    decreases s.len(),
{
    reveal_strlit("&amp;");
    reveal_strlit("&lt;");
    reveal_strlit("&gt;");
    reveal_strlit("&quot;");
    reveal_strlit("&apos;");
    if s.len() > 0 {
        lemma_xml_escaped_has_no_markup(s.drop_last());
        let a = xml_escaped(s.drop_last());
        let b = escape_char(s.last());
        assert forall|i: int| 0 <= i < (a + b).len() implies {
            let c = #[trigger] (a + b)[i];
            c != '<' && c != '>' && c != '"' && c != '\''
        } by {
            if i >= a.len() {
                assert((a + b)[i] == b[i - a.len()]);
            } else {
                assert((a + b)[i] == a[i]);
            }
        }
    }
}

/// The lines of ComicInfo.xml for a chapter.
pub open spec fn comicinfo_lines(
    series: Seq<char>,
    number: Seq<char>,
    summary: Option<Seq<char>>,
    tags: Option<Seq<char>>,
) -> Seq<Seq<char>> {
    let head = seq![
        "<?xml version=\"1.0\"?>"@,
        "<ComicInfo xmlns:xsi=\"http://www.w3.org/2001/XMLSchema-instance\" xmlns:xsd=\"http://www.w3.org/2001/XMLSchema\">"@,
        "  <Series>"@ + xml_escaped(series) + "</Series>"@,
        "  <Number>"@ + xml_escaped(number) + "</Number>"@,
    ];
    let with_summary = match summary {
        Some(s) => head.push("  <Summary>"@ + xml_escaped(s) + "</Summary>"@),
        None => head,
    };
    let with_tags = match tags {
        Some(t) => with_summary.push("  <Tags>"@ + xml_escaped(t) + "</Tags>"@),
        None => with_summary,
    };
    with_tags.push("</ComicInfo>"@)
}

/// The view of an optional string slice.
pub open spec fn opt_str_view(o: Option<&str>) -> Option<Seq<char>> {
    match o {
        Some(s) => Some(s@),
        None => None,
    }
}

/// The view of an optional string.
pub open spec fn opt_string_view(o: Option<String>) -> Option<Seq<char>> {
    match o {
        Some(s) => Some(s@),
        None => None,
    }
}

fn element_line(open: &str, value: &str, close: &str) -> (r: Vec<char>)
    ensures
        r@ == open@ + xml_escaped(value@) + close@,
{
    let mut r: Vec<char> = Vec::new();
    append_str(&mut r, open);
    let e = xml_escape_chars(&chars_of(value));
    let mut i: usize = 0;
    let ghost r0 = r@;
    while i < e.len()
        invariant
            i <= e@.len(),
            r@ == r0 + e@.take(i as int),
        decreases e@.len() - i,
    {
        r.push(e[i]);
        i = i + 1;
        assert(r@ =~= r0 + e@.take(i as int));
    }
    assert(e@.take(e@.len() as int) =~= e@);
    append_str(&mut r, close);
    assert(r@ =~= open@ + xml_escaped(value@) + close@);
    r
}

/// Builds the ComicInfo.xml document for a chapter; it always succeeds.
pub fn build_comicinfo(series: &str, number: &str, summary: Option<&str>, tags: Option<&str>) -> (r:
    Option<String>)
    ensures
        r matches Some(x) && x@ == join_seq(
            comicinfo_lines(series@, number@, opt_str_view(summary), opt_str_view(tags)),
            "\n"@,
        ),
{
    let mut lines: Vec<Vec<char>> = Vec::new();
    lines.push(chars_of("<?xml version=\"1.0\"?>"));
    lines.push(
        chars_of(
            "<ComicInfo xmlns:xsi=\"http://www.w3.org/2001/XMLSchema-instance\" xmlns:xsd=\"http://www.w3.org/2001/XMLSchema\">",
        ),
    );
    lines.push(element_line("  <Series>", series, "</Series>"));
    lines.push(element_line("  <Number>", number, "</Number>"));
    if let Some(s) = summary {
        lines.push(element_line("  <Summary>", s, "</Summary>"));
    }
    if let Some(t) = tags {
        lines.push(element_line("  <Tags>", t, "</Tags>"));
    }
    lines.push(chars_of("</ComicInfo>"));
    assert(views(lines@) =~= comicinfo_lines(
        series@,
        number@,
        opt_str_view(summary),
        opt_str_view(tags),
    ));
    let joined = join_chars(&lines, &chars_of("\n"));
    Some(string_of(&joined))
}

} // verus!

verus! {

// ---------------------------------------------------------------------------
// Chapters
// ---------------------------------------------------------------------------

/// The key under which chapter numbers are compared: lowercased, without
/// spaces, hyphens and underscores, then without "chapter" and then without
/// "ch" (each removed as `str::replace` removes a pattern).
pub open spec fn normalized_chapter(s: Seq<char>) -> Seq<char> {
    remove_all(
        remove_all(remove_char(remove_char(remove_char(lowercase(s), ' '), '-'), '_'), "chapter"@),
        "ch"@,
    )
}

/// Normalizes a chapter string for comparison.
pub fn normalize_chapter_str(s: &str) -> (r: String)
    ensures
        r@ == normalized_chapter(s@),
{
    let v = normalize_chapter_chars(s);
    string_of(&v)
}

fn normalize_chapter_chars(s: &str) -> (r: Vec<char>)
    ensures
        r@ == normalized_chapter(s@),
{
    let lower = to_lowercase(s);
    let k = chars_of(lower.as_str());
    let a = remove_char_chars(&k, ' ');
    let b = remove_char_chars(&a, '-');
    let c = remove_char_chars(&b, '_');
    let d = remove_all_chars(&c, &chars_of("chapter"));
    remove_all_chars(&d, &chars_of("ch"))
}

/// The number (digits with an optional decimal part) that `extract_number`
/// finds first in `s`.
pub open spec fn extracted_number(s: Seq<char>) -> Option<Seq<char>> {
    regex_group1("(\\d+(?:\\.\\d+)?)"@, s)
}

/// Extracts the first number from a chapter string.
pub fn extract_number(s: &str) -> (r: Option<String>)
    ensures
        opt_string_view(r) == extracted_number(s@),
{
    regex_capture_group1("(\\d+(?:\\.\\d+)?)", s)
}

/// What a chapter string is compared by: its normalized form, its lowercased
/// form and the number it holds.
pub struct ChapterKey {
    pub normalized: Vec<char>,
    pub lowered: Vec<char>,
    pub number: Option<Vec<char>>,
}

/// The view of an optional character vector.
pub open spec fn opt_chars_view(o: Option<Vec<char>>) -> Option<Seq<char>> {
    match o {
        Some(v) => Some(v@),
        None => None,
    }
}

impl View for ChapterKey {
    type V = (Seq<char>, Seq<char>, Option<Seq<char>>);

    open spec fn view(&self) -> (Seq<char>, Seq<char>, Option<Seq<char>>) {
        (self.normalized@, self.lowered@, opt_chars_view(self.number))
    }
}

/// The key of a chapter string.
pub open spec fn key_of(s: Seq<char>) -> (Seq<char>, Seq<char>, Option<Seq<char>>) {
    (normalized_chapter(s), lowercase(s), extracted_number(s))
}

/// Computes the comparison key of a chapter string.
pub fn chapter_key(s: &str) -> (k: ChapterKey)
    ensures
        k@ == key_of(s@),
{
    let normalized = normalize_chapter_chars(s);
    let lower = to_lowercase(s);
    let lowered = chars_of(lower.as_str());
    let number = match extract_number(s) {
        Some(n) => Some(chars_of(n.as_str())),
        None => None,
    };
    ChapterKey { normalized, lowered, number }
}

/// The first index in `i..n` that satisfies `p`.
pub open spec fn first_where(n: int, p: spec_fn(int) -> bool, i: int) -> Option<int>
    decreases n - i,
{
    if i >= n {
        None
    } else if p(i) {
        Some(i)
    } else {
        first_where(n, p, i + 1)
    }
}

proof fn lemma_first_where_found(n: int, p: spec_fn(int) -> bool, i: int, k: int)
    requires
        i <= k < n,
        p(k),
        forall|j: int| i <= j < k ==> !#[trigger] p(j),
    ensures
        first_where(n, p, i) == Some(k),
    decreases k - i,
{
    if i < k {
        lemma_first_where_found(n, p, i + 1, k);
    }
}

proof fn lemma_first_where_none(n: int, p: spec_fn(int) -> bool, i: int)
    requires
        forall|j: int| i <= j < n ==> !#[trigger] p(j),
    ensures
        first_where(n, p, i) is None,
    decreases n - i,
{
    if i < n {
        lemma_first_where_none(n, p, i + 1);
    }
}

/// The chapter a query selects among chapters with keys `ks`: the first whose
/// normalized form equals the query's; else, when the query holds a number,
/// the first holding the same number; else the first whose lowercased form
/// contains the query's; else the first whose normalized form contains the
/// query's.
pub open spec fn best_match(
    ks: Seq<(Seq<char>, Seq<char>, Option<Seq<char>>)>,
    q: (Seq<char>, Seq<char>, Option<Seq<char>>),
) -> Option<int> {
    let n = ks.len() as int;
    let exact = first_where(n, |i: int| ks[i].0 == q.0, 0);
    let numeric = match q.2 {
        Some(qn) => first_where(n, |i: int| ks[i].2 == Some(qn), 0),
        None => None,
    };
    let lowered = first_where(n, |i: int| has_sub(ks[i].1, q.1), 0);
    let loose = first_where(n, |i: int| has_sub(ks[i].0, q.0), 0);
    if exact is Some {
        exact
    } else if numeric is Some {
        numeric
    } else if lowered is Some {
        lowered
    } else {
        loose
    }
}

/// The views of a list of chapter keys.
pub open spec fn key_views(ks: Seq<ChapterKey>) -> Seq<(Seq<char>, Seq<char>, Option<Seq<char>>)> {
    ks.map_values(|k: ChapterKey| k@)
}

fn opt_chars_eq(a: &Option<Vec<char>>, b: &Vec<char>) -> (r: bool)
    ensures
        r == (opt_chars_view(*a) == Some(b@)),
{
    match a {
        Some(x) => eq_chars(x, b),
        None => false,
    }
}

/// The index of the chapter that the query key selects among the keys, by
/// the four stages of `best_match`.
pub fn best_match_index(keys: &Vec<ChapterKey>, query: &ChapterKey) -> (r: Option<usize>)
    ensures
        match r {
            Some(i) => best_match(key_views(keys@), query@) == Some(i as int),
            None => best_match(key_views(keys@), query@) is None,
        },
        r matches Some(i) ==> i < keys@.len(),
{
    let ghost ks = key_views(keys@);
    let ghost q = query@;
    let n = keys.len();
    let ghost p1 = |i: int| ks[i].0 == q.0;
    let ghost p3 = |i: int| has_sub(ks[i].1, q.1);
    let ghost p4 = |i: int| has_sub(ks[i].0, q.0);
    let mut i: usize = 0;
    while i < n && !eq_chars(&keys[i].normalized, &query.normalized)
        invariant
            n == keys@.len(),
            ks == key_views(keys@),
            q == query@,
            i <= n,
            forall|j: int| 0 <= j < i ==> !#[trigger] p1(j),
            p1 == (|i: int| ks[i].0 == q.0),
        decreases n - i,
    {
        i = i + 1;
    }
    if i < n {
        proof {
            lemma_first_where_found(n as int, p1, 0, i as int);
        }
        return Some(i);
    }
    proof {
        lemma_first_where_none(n as int, p1, 0);
    }
    if let Some(qn) = &query.number {
        let ghost p2 = |i: int| ks[i].2 == Some(qn@);
        let mut i: usize = 0;
        while i < n && !opt_chars_eq(&keys[i].number, qn)
            invariant
                n == keys@.len(),
                ks == key_views(keys@),
                i <= n,
                forall|j: int| 0 <= j < i ==> !#[trigger] p2(j),
                p2 == (|i: int| ks[i].2 == Some(qn@)),
            decreases n - i,
        {
            i = i + 1;
        }
        if i < n {
            proof {
                lemma_first_where_found(n as int, p2, 0, i as int);
            }
            return Some(i);
        }
        proof {
            lemma_first_where_none(n as int, p2, 0);
        }
    }
    let mut i: usize = 0;
    while i < n && !contains_chars(&keys[i].lowered, &query.lowered)
        invariant
            n == keys@.len(),
            ks == key_views(keys@),
            q == query@,
            i <= n,
            forall|j: int| 0 <= j < i ==> !#[trigger] p3(j),
            p3 == (|i: int| has_sub(ks[i].1, q.1)),
        decreases n - i,
    {
        i = i + 1;
    }
    if i < n {
        proof {
            lemma_first_where_found(n as int, p3, 0, i as int);
        }
        return Some(i);
    }
    proof {
        lemma_first_where_none(n as int, p3, 0);
    }
    let mut i: usize = 0;
    while i < n && !contains_chars(&keys[i].normalized, &query.normalized)
        invariant
            n == keys@.len(),
            ks == key_views(keys@),
            q == query@,
            i <= n,
            forall|j: int| 0 <= j < i ==> !#[trigger] p4(j),
            p4 == (|i: int| has_sub(ks[i].0, q.0)),
        decreases n - i,
    {
        i = i + 1;
    }
    if i < n {
        proof {
            lemma_first_where_found(n as int, p4, 0, i as int);
        }
        return Some(i);
    }
    proof {
        lemma_first_where_none(n as int, p4, 0);
    }
    None
}

/// The stages of a chapter query, in order: a chapter whose normalized
/// number is the query's is chosen first (the first such); where there is
/// none and the query holds a number, the first chapter whose number string
/// holds that same number first is chosen.
pub proof fn lemma_best_match_stages(
    ks: Seq<(Seq<char>, Seq<char>, Option<Seq<char>>)>,
    q: (Seq<char>, Seq<char>, Option<Seq<char>>),
    k: int,
)
    ensures
        (0 <= k < ks.len() && ks[k].0 == q.0 && forall|j: int| 0 <= j < k ==> ks[j].0 != q.0)
            ==> best_match(ks, q) == Some(k),
        ({
            &&& forall|j: int| 0 <= j < ks.len() ==> ks[j].0 != q.0
            &&& q.2 is Some
            &&& 0 <= k < ks.len()
            &&& ks[k].2 == q.2
            &&& forall|j: int| 0 <= j < k ==> ks[j].2 != q.2
        }) ==> best_match(ks, q) == Some(k),
        best_match(ks, q) matches Some(i) ==> 0 <= i < ks.len(),
{
    let n = ks.len() as int;
    let p1 = |i: int| ks[i].0 == q.0;
    if 0 <= k < ks.len() && ks[k].0 == q.0 && forall|j: int| 0 <= j < k ==> ks[j].0 != q.0 {
        assert forall|j: int| 0 <= j < k implies !#[trigger] p1(j) by {}
        lemma_first_where_found(n, p1, 0, k);
    }
    if forall|j: int| 0 <= j < ks.len() ==> ks[j].0 != q.0 {
        assert forall|j: int| 0 <= j < n implies !#[trigger] p1(j) by {}
        lemma_first_where_none(n, p1, 0);
        if q.2 is Some && 0 <= k < ks.len() && ks[k].2 == q.2 && forall|j: int| 0 <= j < k ==> ks[j].2
            != q.2 {
            let qn = q.2.unwrap();
            let p2 = |i: int| ks[i].2 == Some(qn);
            assert forall|j: int| 0 <= j < k implies !#[trigger] p2(j) by {}
            lemma_first_where_found(n, p2, 0, k);
        }
    }
    lemma_first_where_range(n, |i: int| ks[i].0 == q.0, 0);
    lemma_first_where_range(n, |i: int| has_sub(ks[i].1, q.1), 0);
    lemma_first_where_range(n, |i: int| has_sub(ks[i].0, q.0), 0);
    if let Some(qn) = q.2 {
        lemma_first_where_range(n, |i: int| ks[i].2 == Some(qn), 0);
    }
}

proof fn lemma_first_where_range(n: int, p: spec_fn(int) -> bool, i: int)
    requires
        0 <= i,
    ensures
        first_where(n, p, i) matches Some(k) ==> i <= k < n,
    decreases n - i,
{
    if i < n && !p(i) {
        lemma_first_where_range(n, p, i + 1);
    }
}

/// Finding a chapter by a query: where no chapter's normalized number is the
/// query's and the query holds a number that some chapters' number strings
/// also hold as their first number, the first of those chapters is found
/// (as for "Chapter 5" queried by "Ch. 5").
pub proof fn lemma_chapter_found_by_number(cs: Seq<Chapter>, query: Seq<char>, k: int)
    requires
        forall|j: int| 0 <= j < cs.len() ==> normalized_chapter(#[trigger] cs[j].chapter_number@)
            != normalized_chapter(query),
        extracted_number(query) is Some,
        0 <= k < cs.len(),
        extracted_number(cs[k].chapter_number@) == extracted_number(query),
        forall|j: int| 0 <= j < k ==> extracted_number(#[trigger] cs[j].chapter_number@)
            != extracted_number(query),
    ensures
        best_match(chapter_keys(cs), key_of(query)) == Some(k),
{
    let ks = chapter_keys(cs);
    assert forall|j: int| 0 <= j < ks.len() implies ks[j].0 != key_of(query).0 by {
        assert(ks[j] == key_of(cs[j].chapter_number@));
    }
    assert(ks[k] == key_of(cs[k].chapter_number@));
    assert forall|j: int| 0 <= j < k implies ks[j].2 != key_of(query).2 by {
        assert(ks[j] == key_of(cs[j].chapter_number@));
    }
    lemma_best_match_stages(ks, key_of(query), k);
}

/// The keys of the chapter numbers of a list of chapters.
pub open spec fn chapter_keys(cs: Seq<Chapter>) -> Seq<(Seq<char>, Seq<char>, Option<Seq<char>>)> {
    cs.map_values(|c: Chapter| key_of(c.chapter_number@))
}

/// Finds the chapter that best matches a query string, by the stages of
/// `best_match`.
pub fn find_best_chapter_match<'a>(chapters: &'a [Chapter], query: &str) -> (r: Option<
    &'a Chapter,
>)
    ensures
        r is Some <==> best_match(chapter_keys(chapters@), key_of(query@)) is Some,
        r matches Some(c) ==> *c == chapters@[best_match(
            chapter_keys(chapters@),
            key_of(query@),
        ).unwrap()],
{
    let mut keys: Vec<ChapterKey> = Vec::new();
    let mut i: usize = 0;
    while i < chapters.len()
        invariant
            i <= chapters@.len(),
            keys@.len() == i,
            forall|j: int| 0 <= j < i ==> (#[trigger] keys@[j])@ == key_of(chapters@[j].chapter_number@),
        decreases chapters@.len() - i,
    {
        keys.push(chapter_key(chapters[i].chapter_number.as_str()));
        i = i + 1;
    }
    assert(key_views(keys@) =~= chapter_keys(chapters@));
    let q = chapter_key(query);
    match best_match_index(&keys, &q) {
        Some(k) => Some(&chapters[k]),
        None => None,
    }
}

} // verus!

verus! {

// ---------------------------------------------------------------------------
// Alternative titles
// ---------------------------------------------------------------------------

/// `t` is one of the titles listed in `s`: a piece of `s` between ", "
/// separators, trimmed, and not empty.
pub open spec fn lists_title(s: Seq<char>, t: Seq<char>) -> bool {
    &&& t.len() > 0
    &&& exists|i: int|
        0 <= i < split_seq(s, ", "@).len() && trim(#[trigger] split_seq(s, ", "@)[i]) == t
}

/// `t` is listed in the existing titles (if any) or in the new ones.
pub open spec fn merged_title(existing: Option<Seq<char>>, new: Seq<char>, t: Seq<char>) -> bool {
    (existing matches Some(e) && lists_title(e, t)) || lists_title(new, t)
}

/// `r` is the merge of the existing and the new titles: `None` when neither
/// lists a title, else every listed title once, in ascending order, joined
/// by ", ".
pub open spec fn is_title_merge(
    existing: Option<Seq<char>>,
    new: Seq<char>,
    r: Option<Seq<char>>,
) -> bool {
    match r {
        None => forall|t: Seq<char>| !merged_title(existing, new, t),
        Some(x) => exists|l: Seq<Seq<char>>|
            {
                &&& l.len() > 0
                &&& strictly_sorted(l)
                &&& (forall|t: Seq<char>| l.contains(t) <==> merged_title(existing, new, t))
                &&& x == join_seq(l, ", "@)
            },
    }
}

/// The merge of the existing and the new titles: the one value that
/// `is_title_merge` admits.
pub open spec fn title_merge(existing: Option<Seq<char>>, new: Seq<char>) -> Option<Seq<char>> {
    choose|r: Option<Seq<char>>| is_title_merge(existing, new, r)
}

/// At most one value is the merge of given titles.
pub proof fn lemma_title_merge_unique(
    existing: Option<Seq<char>>,
    new: Seq<char>,
    r1: Option<Seq<char>>,
    r2: Option<Seq<char>>,
)
    requires
        is_title_merge(existing, new, r1),
        is_title_merge(existing, new, r2),
    ensures
        r1 == r2,
{
    match (r1, r2) {
        (Some(x1), Some(x2)) => {
            let l1 = choose|l: Seq<Seq<char>>|
                {
                    &&& l.len() > 0
                    &&& strictly_sorted(l)
                    &&& (forall|t: Seq<char>| l.contains(t) <==> merged_title(existing, new, t))
                    &&& x1 == join_seq(l, ", "@)
                };
            let l2 = choose|l: Seq<Seq<char>>|
                {
                    &&& l.len() > 0
                    &&& strictly_sorted(l)
                    &&& (forall|t: Seq<char>| l.contains(t) <==> merged_title(existing, new, t))
                    &&& x2 == join_seq(l, ", "@)
                };
            lemma_sorted_unique(l1, l2);
        },
        (Some(x1), None) => {
            let l1 = choose|l: Seq<Seq<char>>|
                {
                    &&& l.len() > 0
                    &&& strictly_sorted(l)
                    &&& (forall|t: Seq<char>| l.contains(t) <==> merged_title(existing, new, t))
                    &&& x1 == join_seq(l, ", "@)
                };
            assert(l1.contains(l1[0]));
        },
        (None, Some(x2)) => {
            let l2 = choose|l: Seq<Seq<char>>|
                {
                    &&& l.len() > 0
                    &&& strictly_sorted(l)
                    &&& (forall|t: Seq<char>| l.contains(t) <==> merged_title(existing, new, t))
                    &&& x2 == join_seq(l, ", "@)
                };
            assert(l2.contains(l2[0]));
        },
        (None, None) => {},
    }
}

/// `t` is a non-empty trimmed piece among the first `i` pieces `ps`.
spec fn titled_within(ps: Seq<Seq<char>>, i: int, t: Seq<char>) -> bool {
    t.len() > 0 && exists|j: int| 0 <= j < i && trim(#[trigger] ps[j]) == t
}

proof fn lemma_titled_within_step(ps: Seq<Seq<char>>, i: int, t: Seq<char>)
    requires
        0 <= i < ps.len(),
    ensures
        titled_within(ps, i + 1, t) <==> (titled_within(ps, i, t) || (t.len() > 0 && trim(ps[i])
            == t)),
{
    if titled_within(ps, i + 1, t) {
        let j = choose|j: int| 0 <= j < i + 1 && trim(#[trigger] ps[j]) == t;
        if j < i {
            assert(titled_within(ps, i, t));
        }
    }
    if titled_within(ps, i, t) {
        let j = choose|j: int| 0 <= j < i && trim(#[trigger] ps[j]) == t;
        assert(0 <= j < i + 1 && trim(ps[j]) == t);
    }
    if t.len() > 0 && trim(ps[i]) == t {
        assert(0 <= i < i + 1 && trim(ps[i]) == t);
    }
}

fn add_titles(list: &mut Vec<Vec<char>>, s: &Vec<char>, sep: &Vec<char>)
    requires
        sep@ == ", "@,
        strictly_sorted(views(old(list)@)),
    ensures
        strictly_sorted(views(final(list)@)),
        forall|t: Seq<char>|
            #[trigger] views(final(list)@).contains(t) <==> (views(old(list)@).contains(t) || lists_title(
                s@,
                t,
            )),
{
    proof {
        reveal_strlit(", ");
    }
    let pieces = split_chars(s, sep);
    let ghost ps = split_seq(s@, sep@);
    let ghost l0 = views(list@);
    let mut i: usize = 0;
    while i < pieces.len()
        invariant
            views(pieces@) == ps,
            ps == split_seq(s@, ", "@),
            l0 == views(old(list)@),
            i <= pieces@.len(),
            strictly_sorted(views(list@)),
            forall|t: Seq<char>|
                #[trigger] views(list@).contains(t) <==> (l0.contains(t) || titled_within(
                    ps,
                    i as int,
                    t,
                )),
        decreases pieces@.len() - i,
    {
        let t = trim_chars(&pieces[i]);
        let ghost tv = t@;
        assert(ps[i as int] == pieces@[i as int]@);
        let ghost before = views(list@);
        assert(forall|u: Seq<char>|
            #[trigger] before.contains(u) <==> (l0.contains(u) || titled_within(ps, i as int, u)));
        if t.len() > 0 {
            insert_sorted(list, t);
        }
        assert forall|u: Seq<char>|
            #[trigger] views(list@).contains(u) <==> (l0.contains(u) || titled_within(
                ps,
                i + 1,
                u,
            )) by {
            lemma_titled_within_step(ps, i as int, u);
            assert(before.contains(u) <==> (l0.contains(u) || titled_within(ps, i as int, u)));
        }
        i = i + 1;
    }
    assert forall|t: Seq<char>|
        #[trigger] views(list@).contains(t) <==> (l0.contains(t) || lists_title(s@, t)) by {
        assert(titled_within(ps, ps.len() as int, t) == lists_title(s@, t));
    }
}

/// Merges the titles of `new_titles` into `existing`: every title listed in
/// either (pieces between ", ", trimmed, not empty) once, sorted, joined by
/// ", "; `None` when there is none.
pub fn merge_alt_titles(existing: &mut Option<String>, new_titles: &str)
    ensures
        is_title_merge(
            opt_string_view(*old(existing)),
            new_titles@,
            opt_string_view(*final(existing)),
        ),
        opt_string_view(*final(existing)) == title_merge(opt_string_view(*old(existing)), new_titles@),
{
    let sep = chars_of(", ");
    let mut list: Vec<Vec<char>> = Vec::new();
    assert(views(list@) =~= Seq::<Seq<char>>::empty());
    let ghost ex = opt_string_view(*existing);
    match existing {
        Some(e) => {
            add_titles(&mut list, &chars_of(e.as_str()), &sep);
        },
        None => {},
    }
    let ghost after_existing = views(list@);
    assert forall|t: Seq<char>|
        #[trigger] after_existing.contains(t) <==> (ex matches Some(e) && lists_title(e, t)) by {}
    add_titles(&mut list, &chars_of(new_titles), &sep);
    let ghost l = views(list@);
    assert forall|t: Seq<char>| #[trigger] l.contains(t) <==> merged_title(ex, new_titles@, t) by {
        assert(after_existing.contains(t) <==> (ex matches Some(e) && lists_title(e, t)));
    }
    if list.len() == 0 {
        assert forall|t: Seq<char>| !merged_title(ex, new_titles@, t) by {
            assert(!l.contains(t));
        }
        *existing = None;
    } else {
        let joined = join_chars(&list, &sep);
        *existing = Some(string_of(&joined));
    }
    proof {
        let r = opt_string_view(*existing);
        lemma_title_merge_unique(ex, new_titles@, r, title_merge(ex, new_titles@));
    }
}

/// The non-empty trimmed pieces of `ps`, in order.
pub open spec fn nonempty_trims(ps: Seq<Seq<char>>) -> Seq<Seq<char>>
    decreases ps.len(),
{
    if ps.len() == 0 {
        Seq::empty()
    } else {
        let r = nonempty_trims(ps.drop_last());
        if trim(ps.last()).len() > 0 {
            r.push(trim(ps.last()))
        } else {
            r
        }
    }
}

proof fn lemma_nonempty_trims(ps: Seq<Seq<char>>, t: Seq<char>)
    ensures
        nonempty_trims(ps).contains(t) <==> (t.len() > 0 && exists|i: int|
            0 <= i < ps.len() && trim(#[trigger] ps[i]) == t),
    decreases ps.len(),
{
    if ps.len() > 0 {
        let d = ps.drop_last();
        lemma_nonempty_trims(d, t);
        let r = nonempty_trims(d);
        if nonempty_trims(ps).contains(t) {
            let k = choose|k: int| 0 <= k < nonempty_trims(ps).len() && nonempty_trims(ps)[k] == t;
            if k < r.len() {
                assert(r[k] == t);
                let i = choose|i: int| 0 <= i < d.len() && trim(#[trigger] d[i]) == t;
                assert(ps[i] == d[i]);
            } else {
                assert(trim(ps[ps.len() - 1]) == t);
            }
        }
        if t.len() > 0 && exists|i: int| 0 <= i < ps.len() && trim(#[trigger] ps[i]) == t {
            let i = choose|i: int| 0 <= i < ps.len() && trim(#[trigger] ps[i]) == t;
            if i < ps.len() - 1 {
                assert(d[i] == ps[i]);
                assert(r.contains(t));
                let k = choose|k: int| 0 <= k < r.len() && r[k] == t;
                assert(nonempty_trims(ps)[k] == t);
            } else {
                assert(nonempty_trims(ps)[r.len() as int] == t);
            }
        }
    }
}

/// The titles listed in `s`, in order (with repeats).
pub open spec fn listed_titles(s: Seq<char>) -> Seq<Seq<char>> {
    nonempty_trims(split_seq(s, ", "@))
}

proof fn lemma_listed_titles(s: Seq<char>, t: Seq<char>)
    ensures
        listed_titles(s).contains(t) <==> lists_title(s, t),
        listed_titles(s).contains(t) ==> trim(t) == t && comma_free(t),
{
    lemma_nonempty_trims(split_seq(s, ", "@), t);
    if listed_titles(s).contains(t) {
        let ps = split_seq(s, ", "@);
        let i = choose|i: int| 0 <= i < ps.len() && trim(#[trigger] ps[i]) == t;
        lemma_split_pieces_comma_free(s, 0);
        assert(comma_free(ps[i]));
        lemma_trim_trimmed(ps[i]);
    }
}

/// Merging the same titles again changes nothing.
pub proof fn lemma_title_merge_idempotent(existing: Option<Seq<char>>, new: Seq<char>)
    ensures
        title_merge(title_merge(existing, new), new) == title_merge(existing, new),
{
    let a = match existing {
        Some(e) => listed_titles(e),
        None => Seq::<Seq<char>>::empty(),
    };
    let all = a + listed_titles(new);
    assert forall|t: Seq<char>| all.contains(t) <==> merged_title(existing, new, t) by {
        lemma_listed_titles(new, t);
        if let Some(e) = existing {
            lemma_listed_titles(e, t);
        }
        if all.contains(t) {
            let k = choose|k: int| 0 <= k < all.len() && all[k] == t;
            if k < a.len() {
                assert(a[k] == t);
            } else {
                assert(listed_titles(new)[k - a.len()] == t);
            }
        }
        if a.contains(t) {
            let k = choose|k: int| 0 <= k < a.len() && a[k] == t;
            assert(all[k] == t);
        }
        if listed_titles(new).contains(t) {
            let k = choose|k: int| 0 <= k < listed_titles(new).len() && listed_titles(new)[k] == t;
            assert(all[a.len() + k] == t);
        }
    }
    lemma_sorted_set_exists(all);
    let l = sorted_set(all);
    assert forall|t: Seq<char>| l.contains(t) <==> merged_title(existing, new, t) by {
        assert(l.contains(t) <==> all.contains(t));
    }
    let r0: Option<Seq<char>> = if l.len() > 0 {
        Some(join_seq(l, ", "@))
    } else {
        None
    };
    if l.len() == 0 {
        assert forall|t: Seq<char>| !merged_title(existing, new, t) by {
            assert(!l.contains(t));
        }
    }
    assert(is_title_merge(existing, new, r0));
    let r = title_merge(existing, new);
    lemma_title_merge_unique(existing, new, r, r0);
    // What the merge lists is what was merged.
    assert forall|t: Seq<char>| merged_title(r, new, t) <==> merged_title(existing, new, t) by {
        lemma_listed_titles(new, t);
        if let Some(e) = existing {
            lemma_listed_titles(e, t);
        }
        if l.len() > 0 {
            assert forall|i: int| 0 <= i < l.len() implies (#[trigger] l[i]).len() > 0 && comma_free(
                l[i],
            ) && trim(l[i]) == l[i] by {
                assert(l.contains(l[i]));
                assert(merged_title(existing, new, l[i]));
                lemma_listed_titles(new, l[i]);
                if let Some(e) = existing {
                    lemma_listed_titles(e, l[i]);
                }
            }
            lemma_split_join(l);
            let x = join_seq(l, ", "@);
            assert(split_seq(x, ", "@) == l);
            if lists_title(x, t) {
                let i = choose|i: int|
                    0 <= i < split_seq(x, ", "@).len() && trim(#[trigger] split_seq(x, ", "@)[i]) == t;
                assert(l[i] == t);
                assert(l.contains(t));
            }
            if l.contains(t) {
                let i = choose|i: int| 0 <= i < l.len() && l[i] == t;
                assert(trim(split_seq(x, ", "@)[i]) == t);
                assert(lists_title(x, t));
            }
        }
    }
    assert(is_title_merge(r, new, r0));
    let r2 = title_merge(r, new);
    lemma_title_merge_unique(r, new, r2, r0);
}

/// Merging is symmetric: merging `b` into the titles `a` gives what merging
/// `a` into the titles `b` gives.
pub proof fn lemma_title_merge_symmetric(
    a: Seq<char>,
    b: Seq<char>,
    r1: Option<Seq<char>>,
    r2: Option<Seq<char>>,
)
    requires
        is_title_merge(Some(a), b, r1),
        is_title_merge(Some(b), a, r2),
    ensures
        r1 == r2,
{
    assert forall|t: Seq<char>| merged_title(Some(a), b, t) <==> merged_title(Some(b), a, t) by {}
    match (r1, r2) {
        (Some(x1), Some(x2)) => {
            let l1 = choose|l: Seq<Seq<char>>|
                {
                    &&& l.len() > 0
                    &&& strictly_sorted(l)
                    &&& (forall|t: Seq<char>| l.contains(t) <==> merged_title(Some(a), b, t))
                    &&& x1 == join_seq(l, ", "@)
                };
            let l2 = choose|l: Seq<Seq<char>>|
                {
                    &&& l.len() > 0
                    &&& strictly_sorted(l)
                    &&& (forall|t: Seq<char>| l.contains(t) <==> merged_title(Some(b), a, t))
                    &&& x2 == join_seq(l, ", "@)
                };
            lemma_sorted_unique(l1, l2);
        },
        (Some(x1), None) => {
            let l1 = choose|l: Seq<Seq<char>>|
                {
                    &&& l.len() > 0
                    &&& strictly_sorted(l)
                    &&& (forall|t: Seq<char>| l.contains(t) <==> merged_title(Some(a), b, t))
                    &&& x1 == join_seq(l, ", "@)
                };
            assert(l1.contains(l1[0]));
            assert(!merged_title(Some(b), a, l1[0]));
        },
        (None, Some(x2)) => {
            let l2 = choose|l: Seq<Seq<char>>|
                {
                    &&& l.len() > 0
                    &&& strictly_sorted(l)
                    &&& (forall|t: Seq<char>| l.contains(t) <==> merged_title(Some(b), a, t))
                    &&& x2 == join_seq(l, ", "@)
                };
            assert(l2.contains(l2[0]));
            assert(!merged_title(Some(a), b, l2[0]));
        },
        (None, None) => {},
    }
}

} // verus!
