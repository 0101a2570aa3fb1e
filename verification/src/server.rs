//! The decisions of the HTTP endpoints: which source an import or a download
//! is about, how listing parameters are read, which chapter is meant, and
//! how downloaded archives are named.

use crate::helpers::{
    guess_source_id_from_url, guess_source_lower, opt_str_view, parse_source, parse_source_lower,
    wp_manga_source_by_name, wp_source,
};
use crate::crawler::ListingMerge;
use crate::models::{source_id_spec, Chapter, Source};
use crate::scraper::{
    join_url, parse_scheme_and_host, resolved_spec, url_joined, url_scheme_and_host,
};
use crate::text::{
    chars_of, decimal, decimal_chars, eq_str, last_index_of_char, lowercase, parse_i32, parse_i32_spec,
    slice_chars, string_of, to_lowercase,
};
use vstd::prelude::*;

verus! {

// ---------------------------------------------------------------------------
// Which source an import is about
// ---------------------------------------------------------------------------

/// The source an import request names.
#[derive(Debug, Clone)]
pub enum ImportTarget {
    /// A source with a scraper of its own.
    Builtin(Source),
    /// A WP-Manga site: its id and base URL.
    WpManga(i32, &'static str),
}

/// The source an import names: a built-in source's name or id (after
/// lowercasing), else (as `Err`) the id and base URL of the WP-Manga site
/// with the lowercased name.
pub open spec fn import_target_spec(name: Seq<char>) -> Option<Result<Source, (i32, Seq<char>)>> {
    match parse_source_lower(lowercase(name)) {
        Some(s) => Some(Ok(s)),
        None => match wp_source(lowercase(name)) {
            Some((id, base)) => Some(Err((id, base))),
            None => None,
        },
    }
}

/// Resolves the source an import request names; `None` is answered with
/// "unknown source".
pub fn resolve_import_target(name: &str) -> (r: Option<ImportTarget>)
    ensures
        match r {
            None => import_target_spec(name@) is None,
            Some(ImportTarget::Builtin(s)) => import_target_spec(name@) == Some(
                Ok::<Source, (i32, Seq<char>)>(s),
            ),
            Some(ImportTarget::WpManga(id, base)) => import_target_spec(name@) == Some(
                Err::<Source, (i32, Seq<char>)>((id, base@)),
            ),
        },
{
    match parse_source(name) {
        Some(s) => Some(ImportTarget::Builtin(s)),
        None => {
            let lower = to_lowercase(name);
            match wp_manga_source_by_name(lower.as_str()) {
                Some((id, base)) => Some(ImportTarget::WpManga(id, base)),
                None => None,
            }
        },
    }
}

/// A source that only lends metadata (KDT Novels, MyAnimeList, AniList): a
/// single-source import refuses it.
pub open spec fn metadata_only(s: Source) -> bool {
    s == Source::KDTNovels || s == Source::MyAnimeList || s == Source::AniList
}

/// The refusal a single-source import answers a resolved name with (400 Bad
/// Request): "unknown source" where the name names no source,
/// "metadata-only source not supported here" for a metadata-only source;
/// none where the import goes ahead.
pub open spec fn import_refusal_spec(target: Option<Result<Source, (i32, Seq<char>)>>) -> Option<Seq<char>> {
    match target {
        None => Some("unknown source"@),
        Some(Ok(s)) => if metadata_only(s) {
            Some("metadata-only source not supported here"@)
        } else {
            None
        },
        Some(Err(_)) => None,
    }
}

/// The refusal a single-source import answers a resolved target with.
pub fn import_refusal(target: &Option<ImportTarget>) -> (r: Option<&'static str>)
    ensures
        match r {
            Some(m) => import_refusal_spec(target_view(*target)) == Some(m@),
            None => import_refusal_spec(target_view(*target)) is None,
        },
{
    match target {
        None => Some("unknown source"),
        Some(ImportTarget::Builtin(s)) => match s {
            Source::KDTNovels | Source::MyAnimeList | Source::AniList => Some(
                "metadata-only source not supported here",
            ),
            _ => None,
        },
        Some(ImportTarget::WpManga(_, _)) => None,
    }
}

/// A resolved target as `import_target_spec` gives it.
pub open spec fn target_view(t: Option<ImportTarget>) -> Option<Result<Source, (i32, Seq<char>)>> {
    match t {
        None => None,
        Some(ImportTarget::Builtin(s)) => Some(Ok(s)),
        Some(ImportTarget::WpManga(id, base)) => Some(Err((id, base@))),
    }
}

/// The sources the full import lists, in order.
pub const FULL_IMPORT_ORDER: [i32; 8] = [1, 2, 3, 6, 8, 9, 10, 7];

/// How much of a listing the full import merges into a title, by source:
/// everything from MangaDex, the titles and the cover from Fire Scans and
/// Rizz Comic, the cover from the others.
pub open spec fn import_merge_spec(source_id: i32) -> ListingMerge {
    if source_id == source_id_spec(Source::MangaDex) {
        ListingMerge::Full
    } else if source_id == source_id_spec(Source::FireScans) || source_id == source_id_spec(
        Source::RizzComic,
    ) {
        ListingMerge::TitlesAndCover
    } else {
        ListingMerge::Cover
    }
}

/// How much of a source's listing the full import merges into a title.
pub fn import_merge(source_id: i32) -> (r: ListingMerge)
    ensures
        r == import_merge_spec(source_id),
{
    if source_id == Source::MangaDex.id() {
        ListingMerge::Full
    } else if source_id == Source::FireScans.id() || source_id == Source::RizzComic.id() {
        ListingMerge::TitlesAndCover
    } else {
        ListingMerge::Cover
    }
}

/// Whether a source whose listing fails makes the full import fail (500
/// Internal Server Error): so for MangaDex, Fire Scans, Rizz Comic, Drake
/// Comic, Asmotoon and Reset-Scans; the listing of any other source (Kagane,
/// KDT Novels) is skipped where it fails, adding nothing.
pub open spec fn import_failure_aborts_spec(source_id: i32) -> bool {
    source_id == source_id_spec(Source::MangaDex) || source_id == source_id_spec(Source::FireScans)
        || source_id == source_id_spec(Source::RizzComic) || source_id == source_id_spec(
        Source::DrakeComic,
    ) || source_id == source_id_spec(Source::Asmotoon) || source_id == source_id_spec(
        Source::ResetScans,
    )
}

/// Whether a failed listing of the source makes the full import fail.
pub fn import_failure_aborts(source_id: i32) -> (b: bool)
    ensures
        b == import_failure_aborts_spec(source_id),
{
    source_id == Source::MangaDex.id() || source_id == Source::FireScans.id() || source_id
        == Source::RizzComic.id() || source_id == Source::DrakeComic.id() || source_id
        == Source::Asmotoon.id() || source_id == Source::ResetScans.id()
}

/// The id a source name stands for in the quick import and the
/// verification endpoints: a built-in source's, else the WP-Manga site's
/// with the lowercased name.
pub open spec fn named_source_id_spec(name: Seq<char>) -> Option<i32> {
    match parse_source_lower(lowercase(name)) {
        Some(s) => Some(source_id_spec(s)),
        None => match wp_source(lowercase(name)) {
            Some((id, _)) => Some(id),
            None => None,
        },
    }
}

/// Resolves a source name to its id, where it names one.
pub fn named_source_id(name: &str) -> (r: Option<i32>)
    ensures
        r == named_source_id_spec(name@),
{
    match parse_source(name) {
        Some(s) => Some(s.id()),
        None => {
            let lower = to_lowercase(name);
            match wp_manga_source_by_name(lower.as_str()) {
                Some((id, _)) => Some(id),
                None => None,
            }
        },
    }
}

/// The base URL of the WP-Manga sites that the quick import knows by name
/// (after lowercasing).
pub open spec fn quick_import_base_lower(n: Seq<char>) -> Option<Seq<char>> {
    if n == "firescans"@ {
        Some("https://firescans.xyz"@)
    } else if n == "rizzcomic"@ {
        Some("https://rizzcomic.com"@)
    } else if n == "drakecomic"@ {
        Some("https://drakecomic.org"@)
    } else if n == "asmotoon"@ {
        Some("https://asmotoon.com"@)
    } else if n == "reset-scans"@ || n == "resetscans"@ {
        Some("https://reset-scans.org"@)
    } else if n == "temple-scan"@ || n == "templescan"@ {
        Some("https://templetoons.com"@)
    } else if n == "thunderscans"@ || n == "thunder-scans"@ {
        Some("https://thunderscans.com"@)
    } else {
        None
    }
}

/// The site base of a quick import: a site it knows by name, else the
/// WP-Manga site with exactly that name.
pub open spec fn quick_import_base_spec(name: Seq<char>) -> Option<Seq<char>> {
    match quick_import_base_lower(lowercase(name)) {
        Some(b) => Some(b),
        None => match wp_source(name) {
            Some((_, b)) => Some(b),
            None => None,
        },
    }
}

/// The site base a quick import of the source reads; `None` is answered
/// with "unknown or non-wp source".
pub fn quick_import_base(name: &str) -> (r: Option<&'static str>)
    ensures
        match r {
            Some(b) => quick_import_base_spec(name@) == Some(b@),
            None => quick_import_base_spec(name@) is None,
        },
{
    let lower = to_lowercase(name);
    let n = chars_of(lower.as_str());
    if eq_str(&n, "firescans") {
        Some("https://firescans.xyz")
    } else if eq_str(&n, "rizzcomic") {
        Some("https://rizzcomic.com")
    } else if eq_str(&n, "drakecomic") {
        Some("https://drakecomic.org")
    } else if eq_str(&n, "asmotoon") {
        Some("https://asmotoon.com")
    } else if eq_str(&n, "reset-scans") || eq_str(&n, "resetscans") {
        Some("https://reset-scans.org")
    } else if eq_str(&n, "temple-scan") || eq_str(&n, "templescan") {
        Some("https://templetoons.com")
    } else if eq_str(&n, "thunderscans") || eq_str(&n, "thunder-scans") {
        Some("https://thunderscans.com")
    } else {
        match wp_manga_source_by_name(name) {
            Some((_, b)) => Some(b),
            None => None,
        }
    }
}

// ---------------------------------------------------------------------------
// Listing parameters
// ---------------------------------------------------------------------------

/// A numeric query parameter: its value where it parses as an `i32`, else
/// the default.
pub open spec fn int_param_spec(v: Option<Seq<char>>, default: i32) -> i32 {
    match v {
        Some(s) => match parse_i32_spec(s) {
            Some(n) => n,
            None => default,
        },
        None => default,
    }
}

/// Reads a numeric query parameter.
pub fn int_param(v: Option<&str>, default: i32) -> (r: i32)
    ensures
        r == int_param_spec(opt_str_view(v), default),
{
    match v {
        Some(s) => {
            let c = chars_of(s);
            match parse_i32(&c) {
                Some(n) => n,
                None => default,
            }
        },
        None => default,
    }
}

/// The page size and offset of a listing request (20 and 0 by default).
pub fn listing_window(limit: Option<&str>, offset: Option<&str>) -> (r: (i32, i32))
    ensures
        r == (int_param_spec(opt_str_view(limit), 20), int_param_spec(opt_str_view(offset), 0)),
{
    (int_param(limit, 20), int_param(offset, 0))
}

/// Whether a request asks for the archive to be streamed back: its `stream`
/// parameter is exactly "true".
pub fn stream_requested(v: Option<&str>) -> (b: bool)
    ensures
        b == (opt_str_view(v) == Some("true"@)),
{
    match v {
        Some(s) => {
            let c = chars_of(s);
            eq_str(&c, "true")
        },
        None => false,
    }
}

// ---------------------------------------------------------------------------
// Downloads
// ---------------------------------------------------------------------------

/// The source a download by URL is taken from: the requested one where
/// given, else the only source the title has; 0 where neither settles it.
pub open spec fn download_source_spec(requested: Option<i32>, linked: Seq<i32>) -> i32 {
    match requested {
        Some(s) => s,
        None => if linked.len() == 1 {
            linked[0]
        } else {
            0
        },
    }
}

/// Chooses the source of a download by URL; 0 is answered with "source
/// could not be determined".
pub fn choose_download_source(requested: Option<i32>, linked: &Vec<i32>) -> (r: i32)
    ensures
        r == download_source_spec(requested, linked@),
{
    match requested {
        Some(s) => s,
        None => if linked.len() == 1 {
            linked[0]
        } else {
            0
        },
    }
}

/// The answer a download by URL gives where a required parameter is
/// missing (400 Bad Request): "manga_id is required" first, then "url is
/// required"; none where both are given.
pub open spec fn byurl_missing_spec(manga_id: Option<Seq<char>>, url: Option<Seq<char>>) -> Option<Seq<char>> {
    if manga_id is None {
        Some("manga_id is required"@)
    } else if url is None {
        Some("url is required"@)
    } else {
        None
    }
}

/// The answer a download by URL gives where a required parameter is missing.
pub fn byurl_missing(manga_id: Option<&str>, url: Option<&str>) -> (r: Option<&'static str>)
    ensures
        match r {
            Some(m) => byurl_missing_spec(opt_str_view(manga_id), opt_str_view(url)) == Some(m@),
            None => byurl_missing_spec(opt_str_view(manga_id), opt_str_view(url)) is None,
        },
{
    if manga_id.is_none() {
        Some("manga_id is required")
    } else if url.is_none() {
        Some("url is required")
    } else {
        None
    }
}

/// The answer of a download by URL whose source could not be determined.
pub const UNDETERMINED_SOURCE_MESSAGE: &'static str = "source could not be determined; specify source_id";

/// What a download of a title's chapter does.
#[derive(Debug, Clone, Copy, PartialEq, Eq, Structural)]
pub enum DownloadAnswer {
    /// The title has no link or several: answer with its links.
    ListLinks,
    /// No chapter of the only link matches (404 "Chapter not found").
    ChapterNotFound,
    /// Download the chapter at this index of the only link's chapters.
    Fetch(usize),
}

/// What a download does: with exactly one link, fetch the best-matching
/// chapter (or answer that none matches); with none or several, list the
/// links.
pub open spec fn download_answer_spec(link_count: nat, best: Option<usize>) -> DownloadAnswer {
    if link_count != 1 {
        DownloadAnswer::ListLinks
    } else {
        match best {
            Some(i) => DownloadAnswer::Fetch(i),
            None => DownloadAnswer::ChapterNotFound,
        }
    }
}

/// What a download does, given how many links the title has and which
/// chapter of its only link matches best.
pub fn download_answer(link_count: usize, best: Option<usize>) -> (r: DownloadAnswer)
    ensures
        r == download_answer_spec(link_count as nat, best),
{
    if link_count != 1 {
        DownloadAnswer::ListLinks
    } else {
        match best {
            Some(i) => DownloadAnswer::Fetch(i),
            None => DownloadAnswer::ChapterNotFound,
        }
    }
}

/// The source a download by URL asks for: the `source_id` parameter where
/// it parses, else the source the URL points at.
pub open spec fn requested_source_spec(param: Option<Seq<char>>, url: Seq<char>) -> Option<i32> {
    match param {
        Some(p) => match parse_i32_spec(p) {
            Some(n) => Some(n),
            None => guess_source_lower(lowercase(url)),
        },
        None => guess_source_lower(lowercase(url)),
    }
}

/// Reads the source a download by URL asks for.
pub fn requested_source(param: Option<&str>, url: &str) -> (r: Option<i32>)
    ensures
        r == requested_source_spec(opt_str_view(param), url@),
{
    match param {
        Some(p) => {
            let c = chars_of(p);
            match parse_i32(&c) {
                Some(n) => Some(n),
                None => guess_source_id_from_url(url),
            }
        },
        None => guess_source_id_from_url(url),
    }
}

/// The index of the first chapter whose text is exactly `number`.
pub open spec fn exact_chapter_spec(numbers: Seq<Seq<char>>, number: Seq<char>) -> Option<int>
    decreases numbers.len(),
{
    if numbers.len() == 0 {
        None
    } else if numbers[0] == number {
        Some(0)
    } else {
        match exact_chapter_spec(numbers.drop_first(), number) {
            Some(i) => Some(i + 1),
            None => None,
        }
    }
}

/// The chapter texts of a chapter list.
pub open spec fn chapter_numbers(cs: Seq<Chapter>) -> Seq<Seq<char>> {
    cs.map_values(|c: Chapter| c.chapter_number@)
}

/// Finds the first chapter whose text is exactly `number`.
pub fn find_exact_chapter(chapters: &Vec<Chapter>, number: &str) -> (r: Option<usize>)
    ensures
        match r {
            Some(i) => exact_chapter_spec(chapter_numbers(chapters@), number@) == Some(i as int),
            None => exact_chapter_spec(chapter_numbers(chapters@), number@) is None,
        },
{
    let ghost ns = chapter_numbers(chapters@);
    let target = chars_of(number);
    let mut i: usize = chapters.len();
    let mut found: Option<usize> = None;
    assert(ns.skip(i as int) =~= Seq::<Seq<char>>::empty());
    while i > 0
        invariant
            i <= chapters@.len(),
            ns == chapter_numbers(chapters@),
            target@ == number@,
            match found {
                Some(k) => exact_chapter_spec(ns.skip(i as int), number@) == Some(k - i),
                None => exact_chapter_spec(ns.skip(i as int), number@) is None,
            },
            found matches Some(k) ==> i <= k < chapters@.len(),
        decreases i,
    {
        let j = i - 1;
        assert(ns.skip(j as int).drop_first() =~= ns.skip(i as int));
        assert(ns.skip(j as int)[0] == chapters@[j as int].chapter_number@);
        let c = chars_of(chapters[j].chapter_number.as_str());
        if crate::text::eq_chars(&c, &target) {
            found = Some(j);
        }
        i = j;
    }
    assert(ns.skip(0) =~= ns);
    found
}

/// The index of the link to `source_id` among a title's links.
pub open spec fn link_index_spec(source_ids: Seq<i32>, source_id: i32) -> Option<int>
    decreases source_ids.len(),
{
    if source_ids.len() == 0 {
        None
    } else if source_ids[0] == source_id {
        Some(0)
    } else {
        match link_index_spec(source_ids.drop_first(), source_id) {
            Some(i) => Some(i + 1),
            None => None,
        }
    }
}

/// Finds the first of a title's links that goes to `source_id`; `None` is
/// answered with "Source not found".
pub fn find_source_link(source_ids: &Vec<i32>, source_id: i32) -> (r: Option<usize>)
    ensures
        match r {
            Some(i) => link_index_spec(source_ids@, source_id) == Some(i as int),
            None => link_index_spec(source_ids@, source_id) is None,
        },
{
    let ghost ids = source_ids@;
    let mut i: usize = source_ids.len();
    let mut found: Option<usize> = None;
    assert(ids.skip(i as int) =~= Seq::<i32>::empty());
    while i > 0
        invariant
            i <= ids.len(),
            ids == source_ids@,
            match found {
                Some(k) => link_index_spec(ids.skip(i as int), source_id) == Some(k - i),
                None => link_index_spec(ids.skip(i as int), source_id) is None,
            },
            found matches Some(k) ==> i <= k < ids.len(),
        decreases i,
    {
        let j = i - 1;
        assert(ids.skip(j as int).drop_first() =~= ids.skip(i as int));
        if source_ids[j] == source_id {
            found = Some(j);
        }
        i = j;
    }
    assert(ids.skip(0) =~= ids);
    found
}

/// `<title> - <chapter>.cbz`: the name of a streamed chapter archive.
pub fn stream_file_name(manga_title: &str, chapter_number: &str) -> (r: String)
    ensures
        r@ == manga_title@ + " - "@ + chapter_number@ + ".cbz"@,
{
    let mut s = String::from_str(manga_title);
    s.append(" - ");
    s.append(chapter_number);
    s.append(".cbz");
    s
}

/// `<manga id> - byurl.cbz`: the name of an archive streamed by URL.
pub fn byurl_file_name(manga_id: &str) -> (r: String)
    ensures
        r@ == manga_id@ + " - byurl.cbz"@,
{
    let mut s = String::from_str(manga_id);
    s.append(" - byurl.cbz");
    s
}

/// The `Content-Disposition` header of a streamed archive.
pub fn content_disposition(file_name: &str) -> (r: String)
    ensures
        r@ == "attachment; filename=\""@ + file_name@ + "\""@,
{
    let mut s = String::from_str("attachment; filename=\"");
    s.append(file_name);
    s.append("\"");
    s
}

/// The name shown for a source: its stored name, else "Source <id>".
pub fn source_display_name(stored: Option<String>, source_id: i32) -> (r: String)
    ensures
        r@ == match stored {
            Some(n) => n@,
            None => "Source "@ + decimal(source_id as int),
        },
{
    match stored {
        Some(n) => n,
        None => {
            let mut s = String::from_str("Source ");
            let d = decimal_chars(source_id as i64);
            let ds = string_of(&d);
            s.append(ds.as_str());
            s
        },
    }
}

/// The URL of a chapter to verify: the chapter URL where it parses as a URL,
/// else the chapter URL resolved against the series URL (or the chapter URL
/// as it is where that fails).
pub open spec fn absolute_chapter_url_spec(url: Seq<char>, series_url: Seq<char>) -> Seq<char> {
    if url_scheme_and_host(url) is Some {
        url
    } else {
        resolved_spec(url_joined(series_url, url), url)
    }
}

/// Makes a stored chapter URL absolute.
pub fn absolute_chapter_url(url: &str, series_url: &str) -> (r: String)
    ensures
        r@ == absolute_chapter_url_spec(url@, series_url@),
{
    match parse_scheme_and_host(url) {
        Some(_) => String::from_str(url),
        None => match join_url(series_url, url) {
            Some(j) => j,
            None => String::from_str(url),
        },
    }
}

/// The title of a Kagane series imported by URL: the last path segment of
/// the URL (trailing slashes left out) with `-` and `_` read as spaces, or
/// "Kagane Series" where that segment is empty.
pub open spec fn kagane_series_title_spec(url: Seq<char>) -> Seq<char> {
    let trimmed = strip_trailing(url, '/');
    let slug = trimmed.skip(last_index_of_char(trimmed, '/') + 1);
    if slug.len() == 0 {
        "Kagane Series"@
    } else {
        slug.map_values(|c: char| if c == '-' || c == '_' {
            ' '
        } else {
            c
        })
    }
}

/// `s` without its trailing `c`s.
pub open spec fn strip_trailing(s: Seq<char>, c: char) -> Seq<char>
    decreases s.len(),
{
    if s.len() > 0 && s.last() == c {
        strip_trailing(s.drop_last(), c)
    } else {
        s
    }
}

/// Derives the title of a Kagane series from its URL.
pub fn kagane_series_title(url: &str) -> (r: String)
    ensures
        r@ == kagane_series_title_spec(url@),
{
    let v = chars_of(url);
    let mut end: usize = v.len();
    assert(v@.take(end as int) =~= v@);
    while end > 0 && v[end - 1] == '/'
        invariant
            end <= v@.len(),
            strip_trailing(v@, '/') == strip_trailing(v@.take(end as int), '/'),
        decreases end,
    {
        assert(v@.take(end as int).drop_last() =~= v@.take(end - 1));
        end = end - 1;
    }
    let trimmed = slice_chars(&v, 0, end);
    assert(trimmed@ =~= v@.take(end as int));
    assert(strip_trailing(trimmed@, '/') == trimmed@);
    let mut start: usize = trimmed.len();
    assert(trimmed@.take(start as int) =~= trimmed@);
    while start > 0 && trimmed[start - 1] != '/'
        invariant
            start <= trimmed@.len(),
            last_index_of_char(trimmed@, '/') == last_index_of_char(trimmed@.take(start as int), '/'),
        decreases start,
    {
        assert(trimmed@.take(start as int).drop_last() =~= trimmed@.take(start - 1));
        start = start - 1;
    }
    assert(last_index_of_char(trimmed@, '/') + 1 == start) by {
        if start > 0 {
            assert(trimmed@.take(start as int).last() == '/');
        } else {
            assert(trimmed@.take(0) =~= Seq::<char>::empty());
        }
    }
    let slug = slice_chars(&trimmed, start, trimmed.len());
    assert(slug@ =~= trimmed@.skip(start as int));
    if slug.len() == 0 {
        return String::from_str("Kagane Series");
    }
    let mut out: Vec<char> = Vec::new();
    let mut i: usize = 0;
    while i < slug.len()
        invariant
            i <= slug@.len(),
            out@.len() == i,
            forall|j: int|
                0 <= j < i ==> out@[j] == (if slug@[j] == '-' || slug@[j] == '_' {
                    ' '
                } else {
                    slug@[j]
                }),
        decreases slug@.len() - i,
    {
        let c = slug[i];
        if c == '-' || c == '_' {
            out.push(' ');
        } else {
            out.push(c);
        }
        i = i + 1;
    }
    let r = string_of(&out);
    assert(r@ =~= kagane_series_title_spec(url@));
    r
}

} // verus!
