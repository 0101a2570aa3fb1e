//! Chapter archives: file names, chapter labels, the way each source's pages
//! are fetched, and the extraction of page images from reader pages.

use crate::helpers::{opt_string_view, regex_capture_group1, regex_group1};
use crate::text::{
    append_chars, chars_of, decimal, decimal_chars, nat_chars, first_match, lemma_first_match, lowercase, match_at, matches_at, contains_chars, has_sub,
    nat_digits, slice_chars, string_of, to_lowercase, trim, trim_chars, find_from, last_index_of_char,
};
use vstd::prelude::*;
use vstd::string::StringSliceAdditionalSpecFns;

verus! {

// ---------------------------------------------------------------------------
// File names
// ---------------------------------------------------------------------------

/// The characters that cannot stand in a file name on common file systems.
pub open spec fn is_reserved_filename_char(c: char) -> bool {
    c == '/' || c == '\\' || c == ':' || c == '*' || c == '?' || c == '"' || c == '<' || c == '>'
        || c == '|'
}

/// A character as it stands in a file name: a reserved one becomes `_`.
pub open spec fn sanitized_char(c: char) -> char {
    if is_reserved_filename_char(c) {
        '_'
    } else {
        c
    }
}

/// `s` with every reserved character replaced by `_`.
pub open spec fn sanitized(s: Seq<char>) -> Seq<char> {
    s.map_values(|c: char| sanitized_char(c))
}

fn sanitize_char(c: char) -> (r: char)
    ensures
        r == sanitized_char(c),
{
    if c == '/' || c == '\\' || c == ':' || c == '*' || c == '?' || c == '"' || c == '<' || c
        == '>' || c == '|' {
        '_'
    } else {
        c
    }
}

fn sanitize_chars(v: &Vec<char>) -> (r: Vec<char>)
    ensures
        r@ == sanitized(v@),
{
    let mut out: Vec<char> = Vec::new();
    let mut i: usize = 0;
    while i < v.len()
        invariant
            i <= v@.len(),
            out@.len() == i,
            forall|j: int| 0 <= j < i ==> out@[j] == sanitized_char(#[trigger] v@[j]),
        decreases v@.len() - i,
    {
        let c = sanitize_char(v[i]);
        out.push(c);
        i = i + 1;
    }
    assert(out@ =~= sanitized(v@));
    out
}

/// Replaces the characters that file systems reserve (`/ \ : * ? " < > |`)
/// with `_`, one for one.
pub fn sanitize_filename(s: &str) -> (r: String)
    ensures
        r@ == sanitized(s@),
{
    let v = chars_of(s);
    let w = sanitize_chars(&v);
    string_of(&w)
}

/// A sanitized name has the length of the original, holds no reserved
/// character, keeps every other character where it was, and is left as it is
/// by a second sanitizing.
pub proof fn lemma_sanitized_is_safe(s: Seq<char>)
    ensures
        sanitized(s).len() == s.len(),
        forall|i: int| 0 <= i < s.len() ==> !is_reserved_filename_char(#[trigger] sanitized(s)[i]),
        forall|i: int|
            0 <= i < s.len() && !is_reserved_filename_char(#[trigger] s[i]) ==> sanitized(s)[i]
                == s[i],
        sanitized(sanitized(s)) == sanitized(s),
{
    assert(sanitized(sanitized(s)) =~= sanitized(s));
}

/// The display name of a source id, as used in archive names.
pub open spec fn source_name_spec(source_id: i32) -> Seq<char> {
    if source_id == 1 {
        "MangaDex"@
    } else if source_id == 2 {
        "FireScans"@
    } else if source_id == 3 {
        "RizzComic"@
    } else if source_id == 6 {
        "DrakeComic"@
    } else if source_id == 8 {
        "Asmotoon"@
    } else if source_id == 9 {
        "ResetScans"@
    } else if source_id == 10 {
        "Kagane"@
    } else if source_id == 7 {
        "KDTNovels"@
    } else {
        "Unknown"@
    }
}

/// The name of a source as it stands in archive names ("Unknown" for the
/// sources without a name of their own here).
pub fn source_name_from_id(source_id: i32) -> (r: &'static str)
    ensures
        r@ == source_name_spec(source_id),
{
    if source_id == 1 {
        "MangaDex"
    } else if source_id == 2 {
        "FireScans"
    } else if source_id == 3 {
        "RizzComic"
    } else if source_id == 6 {
        "DrakeComic"
    } else if source_id == 8 {
        "Asmotoon"
    } else if source_id == 9 {
        "ResetScans"
    } else if source_id == 10 {
        "Kagane"
    } else if source_id == 7 {
        "KDTNovels"
    } else {
        "Unknown"
    }
}

// ---------------------------------------------------------------------------
// Chapter labels
// ---------------------------------------------------------------------------

/// A chapter number in a chapter's text: an optional "ch"/"chapter" prefix,
/// then digits with an optional decimal part (group 1).
pub const CHAPTER_NUMBER_PATTERN: &'static str = r"(?i)(?:ch(?:apter)?\s*)?(\d+(?:\.\d+)?)";

/// A volume number in a chapter's text (group 1).
pub const VOLUME_PATTERN: &'static str = r"(?i)(?:vol(?:ume)?\s*)?(\d+)";

/// A chapter number in a lowercased chapter URL (group 1).
pub const URL_CHAPTER_PATTERN: &'static str = r"chapter[-/](\d+(?:\.\d+)?)";

/// A volume number in a lowercased chapter URL (group 1).
pub const URL_VOLUME_PATTERN: &'static str = r"vol(?:ume)?[-/](\d+)";

/// The title part of a chapter's text: what follows its first `-`, trimmed,
/// where that is not empty.
pub open spec fn dash_title(number: Seq<char>) -> Option<Seq<char>> {
    let k = first_match(number, seq!['-'], 0);
    if k < 0 {
        None
    } else {
        let t = trim(number.skip(k + 1));
        if t.len() > 0 {
            Some(t)
        } else {
            None
        }
    }
}

/// "Vol.X Ch.Y", or the one of them that is known, or else the chapter's
/// text itself.
pub open spec fn label_base(number: Seq<char>, vol: Option<Seq<char>>, ch: Option<Seq<char>>) -> Seq<
    char,
> {
    match (vol, ch) {
        (Some(v), Some(c)) => "Vol."@ + v + " Ch."@ + c,
        (Some(v), None) => "Vol."@ + v,
        (None, Some(c)) => "Ch."@ + c,
        (None, None) => number,
    }
}

/// The label of a chapter: the base label, then " - " and the title where the
/// chapter's text has one.
pub open spec fn chapter_label_spec(number: Seq<char>, vol: Option<Seq<char>>, ch: Option<Seq<char>>) -> Seq<
    char,
> {
    match dash_title(number) {
        Some(t) => label_base(number, vol, ch) + " - "@ + t,
        None => label_base(number, vol, ch),
    }
}

fn dash_title_chars(v: &Vec<char>) -> (r: Option<Vec<char>>)
    ensures
        match r {
            Some(t) => dash_title(v@) == Some(t@),
            None => dash_title(v@) is None,
        },
{
    let mut dash: Vec<char> = Vec::new();
    dash.push('-');
    assert(dash@ =~= seq!['-']);
    let n = v.len();
    match find_from(v, &dash, 0) {
        None => None,
        Some(k) => {
            proof {
                lemma_first_match(v@, dash@, 0);
                assert(match_at(v@, dash@, k as int));
                assert(dash@.len() == 1);
                assert(k < n);
            }
            let rest = slice_chars(v, k + 1, n);
            assert(rest@ =~= v@.skip(k + 1));
            let t = trim_chars(&rest);
            if t.len() > 0 {
                Some(t)
            } else {
                None
            }
        },
    }
}

/// Builds a chapter label from the chapter's text and the volume and chapter
/// numbers found for it: "Vol.X Ch.Y - Title", leaving out what is unknown,
/// and the chapter's text itself where neither number is known.
pub fn build_chapter_label(chapter_number: &str, vol: &Option<String>, ch: &Option<String>) -> (r:
    String)
    ensures
        r@ == chapter_label_spec(chapter_number@, opt_string_view(*vol), opt_string_view(*ch)),
{
    let mut base = match (vol, ch) {
        (Some(v), Some(c)) => {
            let mut s = String::from_str("Vol.");
            s.append(v.as_str());
            s.append(" Ch.");
            s.append(c.as_str());
            s
        },
        (Some(v), None) => {
            let mut s = String::from_str("Vol.");
            s.append(v.as_str());
            s
        },
        (None, Some(c)) => {
            let mut s = String::from_str("Ch.");
            s.append(c.as_str());
            s
        },
        (None, None) => String::from_str(chapter_number),
    };
    let nv = chars_of(chapter_number);
    match dash_title_chars(&nv) {
        Some(t) => {
            base.append(" - ");
            let ts = string_of(&t);
            base.append(ts.as_str());
            base
        },
        None => base,
    }
}

/// The volume number of a chapter: from its text, else from its lowercased
/// URL.
pub open spec fn label_volume(number: Seq<char>, url: Seq<char>) -> Option<Seq<char>> {
    match regex_group1(VOLUME_PATTERN@, number) {
        Some(v) => Some(v),
        None => regex_group1(URL_VOLUME_PATTERN@, lowercase(url)),
    }
}

/// The chapter number of a chapter: from its text, else from its lowercased
/// URL.
pub open spec fn label_chapter(number: Seq<char>, url: Seq<char>) -> Option<Seq<char>> {
    match regex_group1(CHAPTER_NUMBER_PATTERN@, number) {
        Some(c) => Some(c),
        None => regex_group1(URL_CHAPTER_PATTERN@, lowercase(url)),
    }
}

/// Formats the label of a chapter from its text and its URL, e.g.
/// "Vol.2 Ch.15 - The Return".
pub fn format_chapter_label(chapter_number: &str, chapter_url: &str) -> (r: String)
    ensures
        r@ == chapter_label_spec(
            chapter_number@,
            label_volume(chapter_number@, chapter_url@),
            label_chapter(chapter_number@, chapter_url@),
        ),
{
    let mut ch = regex_capture_group1(CHAPTER_NUMBER_PATTERN, chapter_number);
    let mut vol = regex_capture_group1(VOLUME_PATTERN, chapter_number);
    let lower_url = to_lowercase(chapter_url);
    if ch.is_none() {
        ch = regex_capture_group1(URL_CHAPTER_PATTERN, lower_url.as_str());
    }
    if vol.is_none() {
        vol = regex_capture_group1(URL_VOLUME_PATTERN, lower_url.as_str());
    }
    build_chapter_label(chapter_number, &vol, &ch)
}

// ---------------------------------------------------------------------------
// Archive and image names
// ---------------------------------------------------------------------------

/// `<sourceId>-<SourceName>-<MangaTitle> - <ChapterLabel>.cbz`, each name
/// part sanitized.
pub open spec fn archive_file_name_spec(source_id: i32, manga_title: Seq<char>, label: Seq<char>) -> Seq<
    char,
> {
    decimal(source_id as int) + "-"@ + sanitized(source_name_spec(source_id)) + "-"@ + sanitized(
        manga_title,
    ) + " - "@ + sanitized(label) + ".cbz"@
}

/// The archive name of a chapter with the given label.
pub fn archive_file_name(source_id: i32, manga_title: &str, label: &str) -> (r: String)
    ensures
        r@ == archive_file_name_spec(source_id, manga_title@, label@),
{
    let id_chars = decimal_chars(source_id as i64);
    let mut s = string_of(&id_chars);
    s.append("-");
    let name = sanitize_filename(source_name_from_id(source_id));
    s.append(name.as_str());
    s.append("-");
    let t = sanitize_filename(manga_title);
    s.append(t.as_str());
    s.append(" - ");
    let l = sanitize_filename(label);
    s.append(l.as_str());
    s.append(".cbz");
    s
}

/// The archive name of a chapter given by its text and URL.
pub fn chapter_file_name(source_id: i32, manga_title: &str, chapter_number: &str, chapter_url: &str) -> (r:
    String)
    ensures
        r@ == archive_file_name_spec(
            source_id,
            manga_title@,
            chapter_label_spec(
                chapter_number@,
                label_volume(chapter_number@, chapter_url@),
                label_chapter(chapter_number@, chapter_url@),
            ),
        ),
{
    let label = format_chapter_label(chapter_number, chapter_url);
    archive_file_name(source_id, manga_title, label.as_str())
}

/// The extension of a cover image URL: what follows its last `.`, up to a
/// `?` (the whole URL where it has no `.`).
pub open spec fn cover_extension_spec(url: Seq<char>) -> Seq<char> {
    let tail = url.skip(last_index_of_char(url, '.') + 1);
    let q = first_match(tail, seq!['?'], 0);
    if q < 0 {
        tail
    } else {
        tail.take(q)
    }
}

/// The extension under which a cover image is stored.
pub fn cover_extension(cover_url: &str) -> (r: String)
    ensures
        r@ == cover_extension_spec(cover_url@),
{
    let v = chars_of(cover_url);
    let n = v.len();
    let mut i: usize = n;
    assert(v@.take(n as int) =~= v@);
    while i > 0 && v[i - 1] != '.'
        invariant
            i <= n,
            n == v@.len(),
            last_index_of_char(v@, '.') == last_index_of_char(v@.take(i as int), '.'),
        decreases i,
    {
        assert(v@.take(i as int).drop_last() =~= v@.take(i - 1));
        i = i - 1;
    }
    assert(v@.take(n as int) =~= v@);
    assert(last_index_of_char(v@, '.') + 1 == i) by {
        if i > 0 {
            assert(v@.take(i as int).last() == '.');
        } else {
            assert(v@.take(0) =~= Seq::<char>::empty());
        }
    }
    let tail = slice_chars(&v, i, n);
    assert(tail@ =~= v@.skip(i as int));
    let mut q: Vec<char> = Vec::new();
    q.push('?');
    assert(q@ =~= seq!['?']);
    match find_from(&tail, &q, 0) {
        None => string_of(&tail),
        Some(k) => {
            proof {
                lemma_first_match(tail@, q@, 0);
                assert(match_at(tail@, q@, k as int));
            }
            let head = slice_chars(&tail, 0, k);
            assert(head@ =~= tail@.take(k as int));
            string_of(&head)
        },
    }
}

/// `<sourceId>-<SourceName>-cover.<ext>`.
pub open spec fn cover_file_name_spec(source_id: i32, cover_url: Seq<char>) -> Seq<char> {
    decimal(source_id as int) + "-"@ + sanitized(source_name_spec(source_id)) + "-cover."@
        + cover_extension_spec(cover_url)
}

/// The name under which a title's cover from a source is stored.
pub fn cover_file_name(source_id: i32, cover_url: &str) -> (r: String)
    ensures
        r@ == cover_file_name_spec(source_id, cover_url@),
{
    let id_chars = decimal_chars(source_id as i64);
    let mut s = string_of(&id_chars);
    s.append("-");
    let name = sanitize_filename(source_name_from_id(source_id));
    s.append(name.as_str());
    s.append("-cover.");
    let ext = cover_extension(cover_url);
    s.append(ext.as_str());
    s
}

/// `page_<n>.jpg` for the page at zero-based index `index` (`n = index + 1`).
pub open spec fn page_file_name_spec(index: int) -> Seq<char> {
    "page_"@ + decimal(index + 1) + ".jpg"@
}

/// The archive entry name of the page at zero-based index `index`.
pub fn page_file_name(index: usize) -> (r: String)
    requires
        index < usize::MAX,
    ensures
        r@ == page_file_name_spec(index as int),
{
    let n: u64 = (index as u64) + 1;
    let d = nat_chars(n);
    let mut s = String::from_str("page_");
    let ds = string_of(&d);
    s.append(ds.as_str());
    s.append(".jpg");
    s
}


// ---------------------------------------------------------------------------
// How each source's pages are fetched
// ---------------------------------------------------------------------------

/// How the page images of a chapter are found and requested.
#[derive(Debug, Clone, Copy, PartialEq, Eq, Structural)]
pub enum DownloadRoute {
    /// The chapter page is rendered in a headless browser first.
    Browser,
    /// MangaDex's at-home server lists the pages.
    MangaDexAtHome,
    /// The images of the reading-content area, with a regular-expression
    /// fallback; requested with the page's origin as referer.
    ReaderImages,
    /// As `ReaderImages`, but requested as listed and without headers.
    PlainReaderImages,
    /// The images of the page-break blocks of the reading-content area.
    PageBreakImages,
    /// Kagane's reader; requested with headers.
    KaganeWithHeaders,
    /// Kagane's reader; requested without headers.
    KaganePlain,
    /// A list of reader selectors tried in turn, then the embedded JSON.
    MultiSelector,
}

/// The sources whose chapter pages sit behind Cloudflare and are rendered in
/// a browser when a chapter is fetched into memory.
pub open spec fn requires_browser_spec(source_id: i32) -> bool {
    source_id == 3 || source_id == 9 || source_id == 20 || source_id == 38 || source_id == 39
        || source_id == 40 || source_id == 59
}

/// Whether a chapter of this source is fetched through a browser.
pub fn requires_browser_download(source_id: i32) -> (b: bool)
    ensures
        b == requires_browser_spec(source_id),
{
    source_id == 3 || source_id == 9 || source_id == 20 || source_id == 38 || source_id == 39
        || source_id == 40 || source_id == 59
}

/// The route of a chapter that is saved as a file.
pub open spec fn file_route_spec(source_id: i32) -> DownloadRoute {
    if source_id == 1 {
        DownloadRoute::MangaDexAtHome
    } else if source_id == 2 || source_id == 3 || source_id == 6 || source_id == 8 || source_id == 9
        || source_id == 49 || source_id == 50 {
        DownloadRoute::ReaderImages
    } else if source_id == 10 {
        DownloadRoute::KaganeWithHeaders
    } else {
        DownloadRoute::PlainReaderImages
    }
}

/// How the pages of a chapter saved as a file are fetched.
pub fn file_download_route(source_id: i32) -> (r: DownloadRoute)
    ensures
        r == file_route_spec(source_id),
{
    if source_id == 1 {
        DownloadRoute::MangaDexAtHome
    } else if source_id == 2 || source_id == 3 || source_id == 6 || source_id == 8 || source_id
        == 9 || source_id == 49 || source_id == 50 {
        DownloadRoute::ReaderImages
    } else if source_id == 10 {
        DownloadRoute::KaganeWithHeaders
    } else {
        DownloadRoute::PlainReaderImages
    }
}

/// The route of a chapter that is fetched into memory.
pub open spec fn memory_route_spec(source_id: i32) -> DownloadRoute {
    if requires_browser_spec(source_id) {
        DownloadRoute::Browser
    } else if source_id == 1 {
        DownloadRoute::MangaDexAtHome
    } else if source_id == 2 {
        DownloadRoute::PageBreakImages
    } else if source_id == 10 {
        DownloadRoute::KaganePlain
    } else {
        DownloadRoute::MultiSelector
    }
}

/// How the pages of a chapter fetched into memory are found.
pub fn memory_download_route(source_id: i32) -> (r: DownloadRoute)
    ensures
        r == memory_route_spec(source_id),
{
    if requires_browser_download(source_id) {
        DownloadRoute::Browser
    } else if source_id == 1 {
        DownloadRoute::MangaDexAtHome
    } else if source_id == 2 {
        DownloadRoute::PageBreakImages
    } else if source_id == 10 {
        DownloadRoute::KaganePlain
    } else {
        DownloadRoute::MultiSelector
    }
}

/// A chapter fetched into memory goes through the browser exactly when its
/// source is one of the Cloudflare-protected ones, and a chapter saved as a
/// file never does.
pub proof fn lemma_browser_route(source_id: i32)
    ensures
        (memory_route_spec(source_id) == DownloadRoute::Browser) <==> requires_browser_spec(
            source_id,
        ),
        file_route_spec(source_id) != DownloadRoute::Browser,
{
}

// ---------------------------------------------------------------------------
// MangaDex
// ---------------------------------------------------------------------------

/// The pages of a chapter as MangaDex's at-home server lists them.
#[derive(Debug)]
pub struct AtHomeChapter {
    pub hash: String,
    pub data: Vec<String>,
    pub data_saver: Vec<String>,
}

/// MangaDex's answer to an at-home server request.
#[derive(Debug)]
pub struct AtHomeServer {
    pub base_url: String,
    pub chapter: AtHomeChapter,
}

/// The URL that asks MangaDex for the server of a chapter.
pub fn at_home_url(chapter_id: &str) -> (r: String)
    ensures
        r@ == "https://api.mangadex.org/at-home/server/"@ + chapter_id@,
{
    let mut s = String::from_str("https://api.mangadex.org/at-home/server/");
    s.append(chapter_id);
    s
}

/// `<base_url>/data/<hash>/<page>`.
pub open spec fn at_home_page_url_spec(base_url: Seq<char>, hash: Seq<char>, page: Seq<char>) -> Seq<
    char,
> {
    base_url + "/data/"@ + hash + "/"@ + page
}

/// The URLs of a chapter's full-quality pages, in order.
pub fn at_home_page_urls(server: &AtHomeServer) -> (r: Vec<String>)
    ensures
        r@.len() == server.chapter.data@.len(),
        forall|i: int|
            0 <= i < r@.len() ==> (#[trigger] r@[i])@ == at_home_page_url_spec(
                server.base_url@,
                server.chapter.hash@,
                server.chapter.data@[i]@,
            ),
{
    let mut r: Vec<String> = Vec::new();
    let mut i: usize = 0;
    while i < server.chapter.data.len()
        invariant
            i <= server.chapter.data@.len(),
            r@.len() == i,
            forall|j: int|
                0 <= j < i ==> (#[trigger] r@[j])@ == at_home_page_url_spec(
                    server.base_url@,
                    server.chapter.hash@,
                    server.chapter.data@[j]@,
                ),
        decreases server.chapter.data@.len() - i,
    {
        let mut u = String::from_str(server.base_url.as_str());
        u.append("/data/");
        u.append(server.chapter.hash.as_str());
        u.append("/");
        u.append(server.chapter.data[i].as_str());
        r.push(u);
        i = i + 1;
    }
    r
}

// ---------------------------------------------------------------------------
// Page image URLs
// ---------------------------------------------------------------------------

/// The views of a sequence of strings.
pub open spec fn strs(v: Seq<String>) -> Seq<Seq<char>> {
    v.map_values(|x: String| x@)
}

/// `s` ends with `suffix`.
pub open spec fn ends_with(s: Seq<char>, suffix: Seq<char>) -> bool {
    s.len() >= suffix.len() && s.skip(s.len() - suffix.len()) == suffix
}

fn ends_with_str(v: &Vec<char>, suffix: &str) -> (b: bool)
    ensures
        b == ends_with(v@, suffix@),
{
    let p = chars_of(suffix);
    if p.len() > v.len() {
        return false;
    }
    let b = matches_at(v, &p, v.len() - p.len());
    assert(v@.subrange(v@.len() - p@.len(), v@.len() as int) =~= v@.skip(v@.len() - p@.len()));
    b
}

fn contains_str(v: &Vec<char>, pat: &str) -> (b: bool)
    ensures
        b == has_sub(v@, pat@),
{
    let p = chars_of(pat);
    contains_chars(v, &p)
}

/// A likely page image: its lowercased URL names a JPEG, PNG or WebP file and
/// no logo, icon, avatar or banner.
pub open spec fn is_page_image_spec(url: Seq<char>) -> bool {
    let l = lowercase(url);
    (has_sub(l, ".jpg"@) || has_sub(l, ".jpeg"@) || has_sub(l, ".png"@) || has_sub(l, ".webp"@))
        && !has_sub(l, "logo"@) && !has_sub(l, "icon"@) && !has_sub(l, "avatar"@) && !has_sub(
        l,
        "banner"@,
    )
}

/// A URL is a page image exactly when its lowercased text names a `.jpg`,
/// `.jpeg`, `.png` or `.webp` file and none of logo, icon, avatar, banner;
/// and the page images kept from a list are exactly its URLs that are page
/// images.
pub proof fn lemma_page_images(url: Seq<char>, s: Seq<Seq<char>>)
    ensures
        is_page_image_spec(url) <==> ({
            let l = lowercase(url);
            &&& has_sub(l, ".jpg"@) || has_sub(l, ".jpeg"@) || has_sub(l, ".png"@) || has_sub(l, ".webp"@)
            &&& !has_sub(l, "logo"@) && !has_sub(l, "icon"@) && !has_sub(l, "avatar"@)
            &&& !has_sub(l, "banner"@)
        }),
        page_images_of(s).contains(url) <==> (s.contains(url) && is_page_image_spec(url)),
    decreases s.len(),
{
    if s.len() > 0 {
        lemma_page_images(url, s.drop_last());
        let r = page_images_of(s.drop_last());
        if page_images_of(s).contains(url) {
            let k = choose|k: int| 0 <= k < page_images_of(s).len() && page_images_of(s)[k] == url;
            if k < r.len() {
                assert(r[k] == url);
                let j = choose|j: int| 0 <= j < s.drop_last().len() && s.drop_last()[j] == url;
                assert(s[j] == url);
            } else {
                assert(s[s.len() - 1] == url);
            }
        }
        if s.contains(url) && is_page_image_spec(url) {
            let j = choose|j: int| 0 <= j < s.len() && s[j] == url;
            if j < s.len() - 1 {
                assert(s.drop_last()[j] == url);
                let k = choose|k: int| 0 <= k < r.len() && r[k] == url;
                assert(page_images_of(s)[k] == url);
            } else {
                assert(page_images_of(s)[r.len() as int] == url);
            }
        }
    }
}

/// Whether an image URL is likely a chapter page rather than site chrome.
pub fn is_page_image_url(url: &str) -> (b: bool)
    ensures
        b == is_page_image_spec(url@),
{
    let lower = to_lowercase(url);
    let l = chars_of(lower.as_str());
    (contains_str(&l, ".jpg") || contains_str(&l, ".jpeg") || contains_str(&l, ".png")
        || contains_str(&l, ".webp")) && !contains_str(&l, "logo") && !contains_str(&l, "icon")
        && !contains_str(&l, "avatar") && !contains_str(&l, "banner")
}

/// A page image on Kagane: an absolute URL of a JPEG or PNG file.
pub open spec fn is_kagane_page_spec(url: Seq<char>) -> bool {
    has_sub(url, "http"@) && (ends_with(url, ".jpg"@) || ends_with(url, ".jpeg"@) || ends_with(
        url,
        ".png"@,
    ))
}

/// Whether an image URL on Kagane is a chapter page.
pub fn is_kagane_page_url(url: &str) -> (b: bool)
    ensures
        b == is_kagane_page_spec(url@),
{
    let v = chars_of(url);
    contains_str(&v, "http") && (ends_with_str(&v, ".jpg") || ends_with_str(&v, ".jpeg")
        || ends_with_str(&v, ".png"))
}

/// The URLs of `s` that are likely pages, in order.
pub open spec fn page_images_of(s: Seq<Seq<char>>) -> Seq<Seq<char>>
    decreases s.len(),
{
    if s.len() == 0 {
        s
    } else {
        let r = page_images_of(s.drop_last());
        if is_page_image_spec(s.last()) {
            r.push(s.last())
        } else {
            r
        }
    }
}

/// The URLs of `s` that are Kagane pages, in order.
pub open spec fn kagane_images_of(s: Seq<Seq<char>>) -> Seq<Seq<char>>
    decreases s.len(),
{
    if s.len() == 0 {
        s
    } else {
        let r = kagane_images_of(s.drop_last());
        if is_kagane_page_spec(s.last()) {
            r.push(s.last())
        } else {
            r
        }
    }
}

/// Keeps the URLs that are likely pages, in order.
pub fn keep_page_images(urls: &Vec<String>) -> (r: Vec<String>)
    ensures
        strs(r@) == page_images_of(strs(urls@)),
{
    let mut r: Vec<String> = Vec::new();
    let mut i: usize = 0;
    while i < urls.len()
        invariant
            i <= urls@.len(),
            strs(r@) == page_images_of(strs(urls@).take(i as int)),
        decreases urls@.len() - i,
    {
        assert(strs(urls@).take(i + 1).drop_last() =~= strs(urls@).take(i as int));
        if is_page_image_url(urls[i].as_str()) {
            r.push(urls[i].clone());
            assert(strs(r@) =~= page_images_of(strs(urls@).take(i as int)).push(urls@[i as int]@));
        }
        i = i + 1;
    }
    assert(strs(urls@).take(urls@.len() as int) =~= strs(urls@));
    r
}

/// Keeps the URLs that are Kagane pages, in order.
pub fn keep_kagane_images(urls: &Vec<String>) -> (r: Vec<String>)
    ensures
        strs(r@) == kagane_images_of(strs(urls@)),
{
    let mut r: Vec<String> = Vec::new();
    let mut i: usize = 0;
    while i < urls.len()
        invariant
            i <= urls@.len(),
            strs(r@) == kagane_images_of(strs(urls@).take(i as int)),
        decreases urls@.len() - i,
    {
        assert(strs(urls@).take(i + 1).drop_last() =~= strs(urls@).take(i as int));
        if is_kagane_page_url(urls[i].as_str()) {
            r.push(urls[i].clone());
            assert(strs(r@) =~= kagane_images_of(strs(urls@).take(i as int)).push(urls@[i as int]@));
        }
        i = i + 1;
    }
    assert(strs(urls@).take(urls@.len() as int) =~= strs(urls@));
    r
}

/// `s` with each URL kept at its first occurrence only.
pub open spec fn dedup_seq(s: Seq<Seq<char>>) -> Seq<Seq<char>>
    decreases s.len(),
{
    if s.len() == 0 {
        s
    } else {
        let r = dedup_seq(s.drop_last());
        if r.contains(s.last()) {
            r
        } else {
            r.push(s.last())
        }
    }
}

/// A deduplicated list holds each URL of the original exactly once and
/// nothing else.
pub proof fn lemma_dedup(s: Seq<Seq<char>>)
    ensures
        forall|x: Seq<char>| dedup_seq(s).contains(x) <==> s.contains(x),
        forall|i: int, j: int|
            0 <= i < j < dedup_seq(s).len() ==> dedup_seq(s)[i] != dedup_seq(s)[j],
    decreases s.len(),
{
    if s.len() > 0 {
        lemma_dedup(s.drop_last());
        let r = dedup_seq(s.drop_last());
        assert forall|x: Seq<char>| dedup_seq(s).contains(x) <==> s.contains(x) by {
            if s.contains(x) {
                let k = choose|k: int| 0 <= k < s.len() && s[k] == x;
                if k < s.len() - 1 {
                    assert(s.drop_last()[k] == x);
                    assert(s.drop_last().contains(x));
                }
            }
            if s.drop_last().contains(x) {
                let k = choose|k: int| 0 <= k < s.drop_last().len() && s.drop_last()[k] == x;
                assert(s[k] == x);
            }
            if !r.contains(s.last()) {
                if dedup_seq(s).contains(x) {
                    let k = choose|k: int| 0 <= k < dedup_seq(s).len() && dedup_seq(s)[k] == x;
                    if k < r.len() {
                        assert(r[k] == x);
                    }
                }
                if r.contains(x) {
                    let k = choose|k: int| 0 <= k < r.len() && r[k] == x;
                    assert(dedup_seq(s)[k] == x);
                }
                assert(dedup_seq(s)[r.len() as int] == s.last());
            }
        }
    }
}

fn contains_string(v: &Vec<String>, x: &String) -> (b: bool)
    ensures
        b == strs(v@).contains(x@),
{
    let mut i: usize = 0;
    while i < v.len()
        invariant
            i <= v@.len(),
            forall|j: int| 0 <= j < i ==> v@[j]@ != x@,
        decreases v@.len() - i,
    {
        if v[i] == *x {
            assert(strs(v@)[i as int] == x@);
            return true;
        }
        i = i + 1;
    }
    assert forall|k: int| 0 <= k < strs(v@).len() implies strs(v@)[k] != x@ by {
        assert(strs(v@)[k] == v@[k]@);
    }
    false
}

/// Keeps each URL at its first occurrence, in order.
pub fn dedup_urls(urls: &Vec<String>) -> (r: Vec<String>)
    ensures
        strs(r@) == dedup_seq(strs(urls@)),
{
    let mut r: Vec<String> = Vec::new();
    let mut i: usize = 0;
    while i < urls.len()
        invariant
            i <= urls@.len(),
            strs(r@) == dedup_seq(strs(urls@).take(i as int)),
        decreases urls@.len() - i,
    {
        assert(strs(urls@).take(i + 1).drop_last() =~= strs(urls@).take(i as int));
        assert(strs(urls@).take(i + 1).last() == urls@[i as int]@);
        if !contains_string(&r, &urls[i]) {
            r.push(urls[i].clone());
            assert(strs(r@) =~= dedup_seq(strs(urls@).take(i as int)).push(urls@[i as int]@));
        }
        i = i + 1;
    }
    assert(strs(urls@).take(urls@.len() as int) =~= strs(urls@));
    r
}


// ---------------------------------------------------------------------------
// Page requests
// ---------------------------------------------------------------------------

/// The user agent under which pages are requested.
pub const SCRAPER_USER_AGENT: &'static str = "rust_manga_scraper/0.1.0";

/// The user agent under which pages found through the browser are requested.
pub const BROWSER_PAGE_USER_AGENT: &'static str =
    "Mozilla/5.0 (Windows NT 10.0; Win64; x64) AppleWebKit/537.36";

/// The referer sent with MangaDex and Kagane page requests.
pub const MANGADEX_REFERER: &'static str = "https://mangadex.org/";

/// What `url::Url::parse` gives for `u`: its scheme and host, or `None` where
/// it does not parse.
pub uninterp spec fn url_scheme_and_host(u: Seq<char>) -> Option<(Seq<char>, Option<Seq<char>>)>;

/// Calls `reqwest::Url::parse` (the `url` crate's `Url::parse`) and reads
/// `scheme()` and `host_str()` of the result. The parts are named by
/// `url_scheme_and_host`; nothing more of URL parsing is stated.
#[verifier::external_body]
pub(crate) fn parse_scheme_and_host(u: &str) -> (r: Option<(String, Option<String>)>)
    ensures
        match r {
            Some((scheme, host)) => url_scheme_and_host(u@) == Some((scheme@, opt_string_view(host))),
            None => url_scheme_and_host(u@) is None,
        },
{
    let parsed = reqwest::Url::parse(u).ok()?;
    Some((parsed.scheme().to_string(), parsed.host_str().map(|h| h.to_string())))
}

/// What `Url::parse(base)` then `join(reference)` serializes to, or `None`
/// where either step fails.
pub uninterp spec fn url_joined(base: Seq<char>, reference: Seq<char>) -> Option<Seq<char>>;

/// Calls `reqwest::Url::parse(base)`, then `Url::join(reference)` on it, and
/// serializes the result. Named by `url_joined`; the resolution rules
/// themselves are left unsaid.
#[verifier::external_body]
pub(crate) fn join_url(base: &str, reference: &str) -> (r: Option<String>)
    ensures
        match r {
            Some(j) => url_joined(base@, reference@) == Some(j@),
            None => url_joined(base@, reference@) is None,
        },
{
    let parsed = reqwest::Url::parse(base).ok()?;
    parsed.join(reference).ok().map(|j| j.to_string())
}

/// `scheme://host` of parsed URL parts, or the empty string where the URL did
/// not parse or has no host.
pub open spec fn origin_spec(parts: Option<(Seq<char>, Option<Seq<char>>)>) -> Seq<char> {
    match parts {
        Some((scheme, Some(host))) => scheme + "://"@ + host,
        _ => Seq::empty(),
    }
}

/// The origin written from parsed URL parts.
pub fn origin_of(parts: &Option<(String, Option<String>)>) -> (r: String)
    ensures
        r@ == origin_spec(
            match parts {
                Some((s, h)) => Some((s@, opt_string_view(*h))),
                None => None,
            },
        ),
{
    match parts {
        Some((scheme, Some(host))) => {
            let mut r = String::from_str(scheme.as_str());
            r.append("://");
            r.append(host.as_str());
            r
        },
        _ => String::new(),
    }
}

/// The origin of a chapter page, `scheme://host`, or the empty string.
pub fn page_origin(chapter_url: &str) -> (r: String)
    ensures
        r@ == origin_spec(url_scheme_and_host(chapter_url@)),
{
    let parts = parse_scheme_and_host(chapter_url);
    origin_of(&parts)
}

/// The referer of a page request: the chapter page's origin, or the chapter
/// URL itself where the origin is empty.
pub open spec fn referer_spec(origin: Seq<char>, chapter_url: Seq<char>) -> Seq<char> {
    if origin.len() > 0 {
        origin
    } else {
        chapter_url
    }
}

/// Chooses the referer of a page request.
pub fn referer_for(origin: &str, chapter_url: &str) -> (r: String)
    ensures
        r@ == referer_spec(origin@, chapter_url@),
{
    if origin.unicode_len() > 0 {
        String::from_str(origin)
    } else {
        String::from_str(chapter_url)
    }
}

/// The URL of an image: the image source resolved against the chapter URL,
/// or the source as it is where that fails.
pub open spec fn resolved_spec(joined: Option<Seq<char>>, src: Seq<char>) -> Seq<char> {
    match joined {
        Some(j) => j,
        None => src,
    }
}

/// Resolves an image source against the chapter URL.
pub fn resolve_page_url(chapter_url: &str, src: &str) -> (r: String)
    ensures
        r@ == resolved_spec(url_joined(chapter_url@, src@), src@),
{
    match join_url(chapter_url, src) {
        Some(j) => j,
        None => String::from_str(src),
    }
}

/// One page image to fetch, with the headers to send.
#[derive(Debug)]
pub struct PageRequest {
    pub url: String,
    pub referer: Option<String>,
    pub user_agent: Option<String>,
}

/// The URL, referer and user agent of the request for image `src` of a
/// chapter at `chapter_url` fetched by `route`.
pub open spec fn page_request_spec(route: DownloadRoute, chapter_url: Seq<char>, src: Seq<char>) -> (
    Seq<char>,
    Option<Seq<char>>,
    Option<Seq<char>>,
) {
    let resolved = resolved_spec(url_joined(chapter_url, src), src);
    let referer = referer_spec(origin_spec(url_scheme_and_host(chapter_url)), chapter_url);
    match route {
        DownloadRoute::Browser => (resolved, Some(referer), Some(BROWSER_PAGE_USER_AGENT@)),
        DownloadRoute::ReaderImages | DownloadRoute::PageBreakImages
        | DownloadRoute::MultiSelector => (resolved, Some(referer), Some(SCRAPER_USER_AGENT@)),
        DownloadRoute::MangaDexAtHome | DownloadRoute::KaganeWithHeaders => (
            src,
            Some(MANGADEX_REFERER@),
            Some(SCRAPER_USER_AGENT@),
        ),
        DownloadRoute::PlainReaderImages | DownloadRoute::KaganePlain => (src, None, None),
    }
}

/// The user agent sent with the request for the chapter page itself: the
/// scraper's for the reader routes that send headers, none for the others
/// (and none for MangaDex and the browser, which do not fetch the page).
pub open spec fn chapter_page_user_agent_spec(route: DownloadRoute) -> Option<Seq<char>> {
    match route {
        DownloadRoute::ReaderImages | DownloadRoute::PageBreakImages | DownloadRoute::KaganeWithHeaders => Some(
            SCRAPER_USER_AGENT@,
        ),
        _ => None,
    }
}

/// The user agent sent with the request for the chapter page itself.
pub fn chapter_page_user_agent(route: DownloadRoute) -> (r: Option<&'static str>)
    ensures
        match r {
            Some(u) => chapter_page_user_agent_spec(route) == Some(u@),
            None => chapter_page_user_agent_spec(route) is None,
        },
{
    match route {
        DownloadRoute::ReaderImages | DownloadRoute::PageBreakImages | DownloadRoute::KaganeWithHeaders => Some(
            SCRAPER_USER_AGENT,
        ),
        _ => None,
    }
}

/// The view of a page request.
pub open spec fn page_request_view(p: PageRequest) -> (Seq<char>, Option<Seq<char>>, Option<Seq<char>>) {
    (p.url@, opt_string_view(p.referer), opt_string_view(p.user_agent))
}

/// The request for one page image.
pub fn page_request(route: DownloadRoute, chapter_url: &str, src: &str) -> (r: PageRequest)
    ensures
        page_request_view(r) == page_request_spec(route, chapter_url@, src@),
{
    match route {
        DownloadRoute::Browser | DownloadRoute::ReaderImages | DownloadRoute::PageBreakImages
        | DownloadRoute::MultiSelector => {
            let url = resolve_page_url(chapter_url, src);
            let origin = page_origin(chapter_url);
            let referer = referer_for(origin.as_str(), chapter_url);
            let ua = match route {
                DownloadRoute::Browser => String::from_str(BROWSER_PAGE_USER_AGENT),
                _ => String::from_str(SCRAPER_USER_AGENT),
            };
            PageRequest { url, referer: Some(referer), user_agent: Some(ua) }
        },
        DownloadRoute::MangaDexAtHome | DownloadRoute::KaganeWithHeaders => PageRequest {
            url: String::from_str(src),
            referer: Some(String::from_str(MANGADEX_REFERER)),
            user_agent: Some(String::from_str(SCRAPER_USER_AGENT)),
        },
        DownloadRoute::PlainReaderImages | DownloadRoute::KaganePlain => PageRequest {
            url: String::from_str(src),
            referer: None,
            user_agent: None,
        },
    }
}

/// The requests for all page images of a chapter, in order.
pub fn page_requests(route: DownloadRoute, chapter_url: &str, srcs: &Vec<String>) -> (r: Vec<
    PageRequest,
>)
    ensures
        r@.len() == srcs@.len(),
        forall|i: int|
            0 <= i < r@.len() ==> page_request_view(#[trigger] r@[i]) == page_request_spec(
                route,
                chapter_url@,
                srcs@[i]@,
            ),
{
    let mut r: Vec<PageRequest> = Vec::new();
    let mut i: usize = 0;
    while i < srcs.len()
        invariant
            i <= srcs@.len(),
            r@.len() == i,
            forall|j: int|
                0 <= j < i ==> page_request_view(#[trigger] r@[j]) == page_request_spec(
                    route,
                    chapter_url@,
                    srcs@[j]@,
                ),
        decreases srcs@.len() - i,
    {
        let p = page_request(route, chapter_url, srcs[i].as_str());
        r.push(p);
        i = i + 1;
    }
    r
}


// ---------------------------------------------------------------------------
// Finding the page images of a reader page
// ---------------------------------------------------------------------------

/// For each element of `html` that `selector` matches, in document order,
/// the value of each of the attributes `attrs` (`None` where the element
/// does not carry it), as the `scraper` crate parses the document (no
/// elements where the selector does not parse).
pub uninterp spec fn html_attribute_table(html: Seq<char>, selector: Seq<char>, attrs: Seq<Seq<char>>) -> Seq<
    Seq<Option<Seq<char>>>,
>;

/// The views of a sequence of optional strings.
pub open spec fn opt_strs(v: Seq<Option<String>>) -> Seq<Option<Seq<char>>> {
    v.map_values(|x: Option<String>| opt_string_view(x))
}

/// The views of rows of optional strings.
pub open spec fn opt_str_rows(v: Seq<Vec<Option<String>>>) -> Seq<Seq<Option<Seq<char>>>> {
    v.map_values(|x: Vec<Option<String>>| opt_strs(x@))
}

/// Calls `scraper::Html::parse_document` and `Selector::parse`, then for
/// each selected element reads `value().attr(..)` of each attribute.
/// Named by `html_attribute_table`; HTML parsing and selector matching are
/// left unsaid.
#[verifier::external_body]
fn select_attribute_table(html: &str, selector: &str, attrs: &Vec<String>) -> (r: Vec<Vec<Option<String>>>)
    ensures
        opt_str_rows(r@) == html_attribute_table(html@, selector@, strs(attrs@)),
{
    let document = scraper::Html::parse_document(html);
    match scraper::Selector::parse(selector) {
        Ok(sel) => document.select(&sel).map(|el| {
            attrs.iter().map(|a| el.value().attr(a.as_str()).map(|v| v.to_string())).collect()
        }).collect(),
        Err(_) => Vec::new(),
    }
}

/// The first value of `row` that is present.
pub open spec fn first_present_value(row: Seq<Option<Seq<char>>>) -> Option<Seq<char>>
    decreases row.len(),
{
    if row.len() == 0 {
        None
    } else if row[0] is Some {
        row[0]
    } else {
        first_present_value(row.drop_first())
    }
}

/// For each element of `html` that `selector` matches, the value of the
/// first of the attributes `attrs` that it carries.
pub open spec fn html_attribute_values(html: Seq<char>, selector: Seq<char>, attrs: Seq<Seq<char>>) -> Seq<
    Option<Seq<char>>,
> {
    let t = html_attribute_table(html, selector, attrs);
    Seq::new(t.len(), |i: int| first_present_value(t[i]))
}

fn first_present_in(row: &Vec<Option<String>>) -> (r: Option<String>)
    ensures
        opt_string_view(r) == first_present_value(opt_strs(row@)),
{
    let ghost v = opt_strs(row@);
    let mut i: usize = 0;
    assert(v.skip(0) =~= v);
    while i < row.len()
        invariant
            i <= row@.len(),
            v == opt_strs(row@),
            first_present_value(v) == first_present_value(v.skip(i as int)),
        decreases row@.len() - i,
    {
        assert(v.skip(i as int)[0] == opt_string_view(row@[i as int]));
        assert(v.skip(i as int).drop_first() =~= v.skip(i + 1));
        match &row[i] {
            Some(x) => {
                return Some(x.clone());
            },
            None => {},
        }
        i = i + 1;
    }
    assert(v.skip(i as int) =~= Seq::<Option<Seq<char>>>::empty());
    None
}

/// For each element that `selector` matches, the value of the first of the
/// attributes `attrs` that it carries.
fn select_attribute_values(html: &str, selector: &str, attrs: &Vec<String>) -> (r: Vec<Option<String>>)
    ensures
        opt_strs(r@) == html_attribute_values(html@, selector@, strs(attrs@)),
{
    let table = select_attribute_table(html, selector, attrs);
    let ghost t = html_attribute_table(html@, selector@, strs(attrs@));
    let mut out: Vec<Option<String>> = Vec::new();
    let mut i: usize = 0;
    while i < table.len()
        invariant
            i <= table@.len(),
            opt_str_rows(table@) == t,
            opt_strs(out@) == Seq::new(i as nat, |k: int| first_present_value(t[k])),
        decreases table@.len() - i,
    {
        let x = first_present_in(&table[i]);
        assert(opt_strs(table@[i as int]@) == t[i as int]);
        let ghost before = out@;
        assert(opt_strs(before).len() == before.len());
        out.push(x);
        assert forall|k: int| 0 <= k < i + 1 implies #[trigger] opt_strs(out@)[k] == first_present_value(
            t[k],
        ) by {
            if k < i {
                assert(out@[k] == before[k]);
                assert(opt_strs(before)[k] == first_present_value(t[k]));
            }
        }
        assert(opt_strs(out@) =~= Seq::new((i + 1) as nat, |k: int| first_present_value(t[k])));
        i = i + 1;
    }
    assert(opt_strs(out@) =~= html_attribute_values(html@, selector@, strs(attrs@)));
    out
}

/// All non-overlapping matches of the regular expression `pattern` in `text`,
/// from left to right, as the `regex` crate finds them (empty where the
/// pattern does not compile).
pub uninterp spec fn regex_all_matches(pattern: Seq<char>, text: Seq<char>) -> Seq<Seq<char>>;

/// Calls `regex::Regex::new(pattern)` and `Regex::find_iter(text)`, and
/// returns the matched texts. Named by `regex_all_matches`.
#[verifier::external_body]
fn regex_find_all(pattern: &str, text: &str) -> (r: Vec<String>)
    ensures
        strs(r@) == regex_all_matches(pattern@, text@),
{
    match regex::Regex::new(pattern) {
        Ok(re) => re.find_iter(text).map(|m| m.as_str().to_string()).collect(),
        Err(_) => Vec::new(),
    }
}

/// For a JSON array text, the string value of member `key` of each element
/// (`None` for an element without one), as `serde_json` reads it; `None`
/// where the text is not a JSON array.
pub uninterp spec fn json_array_member_strings(text: Seq<char>, key: Seq<char>) -> Option<
    Seq<Option<Seq<char>>>,
>;

/// Calls `serde_json::from_str::<Value>`, then `as_array`, and for each
/// element `get(key)` and `as_str`. Named by `json_array_member_strings`.
#[verifier::external_body]
fn json_member_strings(text: &str, key: &str) -> (r: Option<Vec<Option<String>>>)
    ensures
        match r {
            Some(v) => json_array_member_strings(text@, key@) == Some(opt_strs(v@)),
            None => json_array_member_strings(text@, key@) is None,
        },
{
    let value: serde_json::Value = serde_json::from_str(text).ok()?;
    let items = value.as_array()?;
    Some(items.iter().map(|item| item.get(key).and_then(serde_json::Value::as_str).map(|v| v.to_string())).collect())
}

/// For a JSON array text, for each element the items of its array member
/// `key` (each a string or `None`; `None` for the element where the member
/// is missing or not an array), as `serde_json` reads it; `None` where the
/// text is not a JSON array.
pub uninterp spec fn json_array_member_arrays(text: Seq<char>, key: Seq<char>) -> Option<
    Seq<Option<Seq<Option<Seq<char>>>>>,
>;

/// The views of optional rows of optional strings.
pub open spec fn opt_rows(v: Seq<Option<Vec<Option<String>>>>) -> Seq<Option<Seq<Option<Seq<char>>>>> {
    v.map_values(|x: Option<Vec<Option<String>>>| match x {
        Some(r) => Some(opt_strs(r@)),
        None => None,
    })
}

/// Calls `serde_json::from_str::<Value>`, then `as_array`, and for each
/// element `get(key)`, `as_array` and `as_str` of each item. Named by
/// `json_array_member_arrays`.
#[verifier::external_body]
fn json_member_arrays(text: &str, key: &str) -> (r: Option<Vec<Option<Vec<Option<String>>>>>)
    ensures
        match r {
            Some(v) => json_array_member_arrays(text@, key@) == Some(opt_rows(v@)),
            None => json_array_member_arrays(text@, key@) is None,
        },
{
    let value: serde_json::Value = serde_json::from_str(text).ok()?;
    let items = value.as_array()?;
    Some(items.iter().map(|item| {
        item.get(key).and_then(serde_json::Value::as_array).map(|inner| {
            inner.iter().map(|x| x.as_str().map(|v| v.to_string())).collect()
        })
    }).collect())
}

/// For a JSON array text, for each element the string items of its array
/// member `key` (`None` for an item that is not a string; no items where the
/// member is missing or not an array); `None` where the text is not a JSON
/// array.
pub open spec fn json_array_nested_strings(text: Seq<char>, key: Seq<char>) -> Option<
    Seq<Seq<Option<Seq<char>>>>,
> {
    match json_array_member_arrays(text, key) {
        Some(rows) => Some(
            Seq::new(
                rows.len(),
                |i: int|
                    match rows[i] {
                        Some(r) => r,
                        None => Seq::empty(),
                    },
            ),
        ),
        None => None,
    }
}

/// The views of nested optional strings.
pub open spec fn nested_opt_strs(v: Seq<Vec<Option<String>>>) -> Seq<Seq<Option<Seq<char>>>> {
    v.map_values(|x: Vec<Option<String>>| opt_strs(x@))
}

/// For a JSON array text, for each element the string items of its array
/// member `key`, none where the member is missing or not an array.
fn json_nested_strings(text: &str, key: &str) -> (r: Option<Vec<Vec<Option<String>>>>)
    ensures
        match r {
            Some(v) => json_array_nested_strings(text@, key@) == Some(nested_opt_strs(v@)),
            None => json_array_nested_strings(text@, key@) is None,
        },
{
    match json_member_arrays(text, key) {
        None => None,
        Some(rows) => {
            let ghost rv = opt_rows(rows@);
            let mut out: Vec<Vec<Option<String>>> = Vec::new();
            let mut rows = rows;
            let ghost all = rows@;
            let mut i: usize = 0;
            let n = rows.len();
            while i < n
                invariant
                    n == all.len(),
                    i <= n,
                    rows@.len() == n,
                    forall|k: int| i <= k < n ==> rows@[k] == all[k],
                    rv == opt_rows(all),
                    nested_opt_strs(out@) == Seq::new(
                        i as nat,
                        |k: int|
                            match rv[k] {
                                Some(r) => r,
                                None => Seq::<Option<Seq<char>>>::empty(),
                            },
                    ),
                decreases n - i,
            {
                let mut taken: Option<Vec<Option<String>>> = None;
                std::mem::swap(&mut taken, &mut rows[i]);
                let row: Vec<Option<String>> = match taken {
                    Some(r) => r,
                    None => Vec::new(),
                };
                assert(opt_strs(row@) == match rv[i as int] {
                    Some(r) => r,
                    None => Seq::<Option<Seq<char>>>::empty(),
                });
                let ghost before = out@;
                assert(nested_opt_strs(before).len() == before.len());
                out.push(row);
                assert forall|k: int| 0 <= k < i + 1 implies #[trigger] nested_opt_strs(out@)[k] == match rv[k] {
                    Some(r) => r,
                    None => Seq::<Option<Seq<char>>>::empty(),
                } by {
                    if k < i {
                        assert(out@[k] == before[k]);
                        assert(nested_opt_strs(before)[k] == match rv[k] {
                            Some(r) => r,
                            None => Seq::<Option<Seq<char>>>::empty(),
                        });
                    }
                }
                assert(nested_opt_strs(out@) =~= Seq::new(
                    (i + 1) as nat,
                    |k: int|
                        match rv[k] {
                            Some(r) => r,
                            None => Seq::<Option<Seq<char>>>::empty(),
                        },
                ));
                i = i + 1;
            }
            assert(nested_opt_strs(out@) =~= json_array_nested_strings(text@, key@).unwrap());
            Some(out)
        },
    }
}

/// The present values of `s`, in order.
pub open spec fn present_seq(s: Seq<Option<Seq<char>>>) -> Seq<Seq<char>>
    decreases s.len(),
{
    if s.len() == 0 {
        Seq::empty()
    } else {
        match s.last() {
            Some(x) => present_seq(s.drop_last()).push(x),
            None => present_seq(s.drop_last()),
        }
    }
}

/// Keeps the present values, in order.
pub fn present_values(v: &Vec<Option<String>>) -> (r: Vec<String>)
    ensures
        strs(r@) == present_seq(opt_strs(v@)),
{
    let mut r: Vec<String> = Vec::new();
    let mut i: usize = 0;
    while i < v.len()
        invariant
            i <= v@.len(),
            strs(r@) == present_seq(opt_strs(v@).take(i as int)),
        decreases v@.len() - i,
    {
        assert(opt_strs(v@).take(i + 1).drop_last() =~= opt_strs(v@).take(i as int));
        assert(opt_strs(v@).take(i + 1).last() == opt_string_view(v@[i as int]));
        match &v[i] {
            Some(x) => {
                r.push(x.clone());
                assert(strs(r@) =~= present_seq(opt_strs(v@).take(i as int)).push(x@));
            },
            None => {},
        }
        i = i + 1;
    }
    assert(opt_strs(v@).take(v@.len() as int) =~= opt_strs(v@));
    r
}

/// The present values of each group, groups in order.
pub open spec fn flatten_present(s: Seq<Seq<Option<Seq<char>>>>) -> Seq<Seq<char>>
    decreases s.len(),
{
    if s.len() == 0 {
        Seq::empty()
    } else {
        flatten_present(s.drop_last()) + present_seq(s.last())
    }
}

fn flatten_present_values(v: &Vec<Vec<Option<String>>>) -> (r: Vec<String>)
    ensures
        strs(r@) == flatten_present(nested_opt_strs(v@)),
{
    let mut r: Vec<String> = Vec::new();
    let mut i: usize = 0;
    while i < v.len()
        invariant
            i <= v@.len(),
            strs(r@) == flatten_present(nested_opt_strs(v@).take(i as int)),
        decreases v@.len() - i,
    {
        assert(nested_opt_strs(v@).take(i + 1).drop_last() =~= nested_opt_strs(v@).take(i as int));
        let part = present_values(&v[i]);
        let ghost before = strs(r@);
        let mut k: usize = 0;
        while k < part.len()
            invariant
                k <= part@.len(),
                strs(r@) == before + strs(part@).take(k as int),
            decreases part@.len() - k,
        {
            let x = part[k].clone();
            let ghost old_r = r@;
            r.push(x);
            assert(strs(r@) =~= strs(old_r).push(part@[k as int]@));
            assert(strs(part@).take(k + 1) =~= strs(part@).take(k as int).push(part@[k as int]@));
            k = k + 1;
            assert(strs(r@) =~= before + strs(part@).take(k as int));
        }
        assert(strs(part@).take(part@.len() as int) =~= strs(part@));
        i = i + 1;
    }
    assert(nested_opt_strs(v@).take(v@.len() as int) =~= nested_opt_strs(v@));
    r
}

/// Where a Next.js reader page embeds its image list.
pub const CHAPTER_IMAGES_MARKER: &'static str = "\"chapterImages\":[";

/// Where some readers embed their image sources.
pub const SOURCES_MARKER: &'static str = "\"sources\":[";

/// How far after the sources marker its array is looked for.
pub const SOURCES_WINDOW: usize = 50000;

/// The JSON array text after the chapter-images marker: from the first `[`
/// of the text that runs from the marker to the first `]` after it.
pub open spec fn chapter_images_array_spec(html: Seq<char>) -> Option<Seq<char>> {
    let start = first_match(html, CHAPTER_IMAGES_MARKER@, 0);
    if start < 0 {
        None
    } else {
        let end = first_match(html, "]"@, start);
        if end < 0 {
            None
        } else {
            let json = html.subrange(start, end + 1);
            let open = first_match(json, "["@, 0);
            if open < 0 {
                None
            } else {
                Some(json.skip(open))
            }
        }
    }
}

/// Finds the embedded chapter-images array of a reader page.
pub fn chapter_images_array(html: &str) -> (r: Option<String>)
    ensures
        match r {
            Some(a) => chapter_images_array_spec(html@) == Some(a@),
            None => chapter_images_array_spec(html@) is None,
        },
{
    let h = chars_of(html);
    let marker = chars_of(CHAPTER_IMAGES_MARKER);
    let close = chars_of("]");
    let open = chars_of("[");
    proof {
        reveal_strlit("]");
    }
    let start = match find_from(&h, &marker, 0) {
        Some(k) => k,
        None => return None,
    };
    proof {
        lemma_first_match(h@, marker@, 0);
    }
    let end = match find_from(&h, &close, start) {
        Some(k) => k,
        None => return None,
    };
    let n = h.len();
    proof {
        lemma_first_match(h@, close@, start as int);
        assert(match_at(h@, close@, end as int));
        assert(close@.len() == 1);
        assert(end < n);
    }
    let json = slice_chars(&h, start, end + 1);
    let o = match find_from(&json, &open, 0) {
        Some(k) => k,
        None => return None,
    };
    proof {
        lemma_first_match(json@, open@, 0);
        assert(match_at(json@, open@, o as int));
    }
    let arr = slice_chars(&json, o, json.len());
    assert(arr@ =~= json@.skip(o as int));
    Some(string_of(&arr))
}

/// The JSON array text after the sources marker: from the first `[` of the
/// text that runs from the marker to the last `]` within the window of
/// `SOURCES_WINDOW` characters that starts at the marker.
pub open spec fn sources_array_spec(html: Seq<char>) -> Option<Seq<char>> {
    let start = first_match(html, SOURCES_MARKER@, 0);
    if start < 0 {
        None
    } else {
        let width = if html.len() - start < SOURCES_WINDOW {
            html.len() - start
        } else {
            SOURCES_WINDOW as int
        };
        let window = html.subrange(start, start + width);
        let end = last_index_of_char(window, ']');
        if end < 0 {
            None
        } else {
            let json = html.subrange(start, start + end + 1);
            let open = first_match(json, "["@, 0);
            if open < 0 {
                None
            } else {
                Some(json.skip(open))
            }
        }
    }
}

/// Finds the embedded sources array of a reader page.
pub fn sources_array(html: &str) -> (r: Option<String>)
    ensures
        match r {
            Some(a) => sources_array_spec(html@) == Some(a@),
            None => sources_array_spec(html@) is None,
        },
{
    let h = chars_of(html);
    let marker = chars_of(SOURCES_MARKER);
    let open = chars_of("[");
    let start = match find_from(&h, &marker, 0) {
        Some(k) => k,
        None => return None,
    };
    proof {
        lemma_first_match(h@, marker@, 0);
    }
    let width = if h.len() - start < SOURCES_WINDOW {
        h.len() - start
    } else {
        SOURCES_WINDOW
    };
    let window = slice_chars(&h, start, start + width);
    let mut e: usize = window.len();
    assert(window@.take(e as int) =~= window@);
    while e > 0 && window[e - 1] != ']'
        invariant
            e <= window@.len(),
            last_index_of_char(window@, ']') == last_index_of_char(window@.take(e as int), ']'),
        decreases e,
    {
        assert(window@.take(e as int).drop_last() =~= window@.take(e - 1));
        e = e - 1;
    }
    if e == 0 {
        assert(window@.take(0) =~= Seq::<char>::empty());
        return None;
    }
    assert(window@.take(e as int).last() == ']');
    let end = e - 1;
    let json = slice_chars(&h, start, start + end + 1);
    let o = match find_from(&json, &open, 0) {
        Some(k) => k,
        None => return None,
    };
    proof {
        lemma_first_match(json@, open@, 0);
        assert(match_at(json@, open@, o as int));
    }
    let arr = slice_chars(&json, o, json.len());
    assert(arr@ =~= json@.skip(o as int));
    Some(string_of(&arr))
}


/// The images of a reader's reading-content area.
pub const READER_SELECTOR: &'static str = "div.reading-content img";

/// The images of the page-break blocks of the reading-content area.
pub const PAGE_BREAK_SELECTOR: &'static str = "div.reading-content > div.page-break > img";

/// Absolute JPEG and PNG URLs anywhere in a page.
pub const IMAGE_URL_PATTERN: &'static str = r#"https?://[^"'\s>]+\.(?:jpg|jpeg|png)"#;

/// The places Kagane's reader keeps its pages, tried in turn.
pub const KAGANE_SELECTORS: [&'static str; 3] = [
    "div[data-reader] img",
    "div.reading-content img",
    "main img",
];

/// The places a reader may keep its pages, tried in turn.
pub const READER_SELECTORS: [&'static str; 9] = [
    "div.reading-content img",
    "div.read-content img",
    "div.page-break img",
    "div#readerarea img",
    "div.reader-area img",
    "div.chapter-content img",
    "div.entry-content img",
    "main img[src*='.jpg'], main img[src*='.png'], main img[src*='.webp']",
    "img[loading='lazy']",
];

/// The attributes that carry an image's URL.
pub open spec fn src_attrs() -> Seq<Seq<char>> {
    seq!["src"@, "data-src"@]
}

/// The attributes that carry an image's URL, lazy-loading ones included.
pub open spec fn lazy_src_attrs() -> Seq<Seq<char>> {
    seq!["src"@, "data-src"@, "data-lazy-src"@]
}

fn make_src_attrs(lazy: bool) -> (r: Vec<String>)
    ensures
        strs(r@) == (if lazy {
            lazy_src_attrs()
        } else {
            src_attrs()
        }),
{
    let mut r: Vec<String> = Vec::new();
    r.push(String::from_str("src"));
    r.push(String::from_str("data-src"));
    if lazy {
        r.push(String::from_str("data-lazy-src"));
    }
    assert(strs(r@) =~= (if lazy {
        lazy_src_attrs()
    } else {
        src_attrs()
    }));
    r
}

/// The images of the reading-content area, or else every absolute image URL
/// of the page, each once.
pub open spec fn reader_images_spec(html: Seq<char>) -> Seq<Seq<char>> {
    let listed = present_seq(html_attribute_values(html, READER_SELECTOR@, src_attrs()));
    if listed.len() > 0 {
        listed
    } else {
        dedup_seq(regex_all_matches(IMAGE_URL_PATTERN@, html))
    }
}

/// Finds the page images of a reading-content reader.
pub fn reader_images(html: &str) -> (r: Vec<String>)
    ensures
        strs(r@) == reader_images_spec(html@),
{
    let attrs = make_src_attrs(false);
    let values = select_attribute_values(html, READER_SELECTOR, &attrs);
    let listed = present_values(&values);
    if listed.len() > 0 {
        listed
    } else {
        let found = regex_find_all(IMAGE_URL_PATTERN, html);
        dedup_urls(&found)
    }
}

/// The `src` of each image in a page-break block.
pub open spec fn page_break_images_spec(html: Seq<char>) -> Seq<Seq<char>> {
    present_seq(html_attribute_values(html, PAGE_BREAK_SELECTOR@, seq!["src"@]))
}

/// Finds the page images of a page-break reader.
pub fn page_break_images(html: &str) -> (r: Vec<String>)
    ensures
        strs(r@) == page_break_images_spec(html@),
{
    let mut attrs: Vec<String> = Vec::new();
    attrs.push(String::from_str("src"));
    assert(strs(attrs@) =~= seq!["src"@]);
    let values = select_attribute_values(html, PAGE_BREAK_SELECTOR, &attrs);
    present_values(&values)
}

/// The Kagane pages among the images that `selector` finds.
pub open spec fn kagane_step(html: Seq<char>, selector: Seq<char>) -> Seq<Seq<char>> {
    kagane_images_of(present_seq(html_attribute_values(html, selector, src_attrs())))
}

/// The Kagane pages of the first of Kagane's places that has any.
pub open spec fn kagane_images_spec(html: Seq<char>) -> Seq<Seq<char>> {
    let a = kagane_step(html, KAGANE_SELECTORS@[0]@);
    if a.len() > 0 {
        a
    } else {
        let b = kagane_step(html, KAGANE_SELECTORS@[1]@);
        if b.len() > 0 {
            b
        } else {
            kagane_step(html, KAGANE_SELECTORS@[2]@)
        }
    }
}

fn kagane_selection(html: &str, selector: &str) -> (r: Vec<String>)
    ensures
        strs(r@) == kagane_step(html@, selector@),
{
    let attrs = make_src_attrs(false);
    let values = select_attribute_values(html, selector, &attrs);
    let listed = present_values(&values);
    keep_kagane_images(&listed)
}

/// Finds the page images of Kagane's reader.
pub fn kagane_images(html: &str) -> (r: Vec<String>)
    ensures
        strs(r@) == kagane_images_spec(html@),
{
    let a = kagane_selection(html, KAGANE_SELECTORS[0]);
    if a.len() > 0 {
        return a;
    }
    let b = kagane_selection(html, KAGANE_SELECTORS[1]);
    if b.len() > 0 {
        return b;
    }
    kagane_selection(html, KAGANE_SELECTORS[2])
}

/// The likely pages found by the first of the reader places, from index `i`
/// on, that has any.
pub open spec fn selected_pages_from(html: Seq<char>, i: int) -> Seq<Seq<char>>
    decreases 9 - i,
{
    if i < 0 || i >= 9 {
        Seq::empty()
    } else {
        let found = page_images_of(
            present_seq(html_attribute_values(html, READER_SELECTORS@[i]@, lazy_src_attrs())),
        );
        if found.len() > 0 {
            found
        } else {
            selected_pages_from(html, i + 1)
        }
    }
}

/// The URLs of the embedded chapter-images array.
pub open spec fn json_images_spec(html: Seq<char>) -> Seq<Seq<char>> {
    match chapter_images_array_spec(html) {
        Some(a) => match json_array_member_strings(a, "url"@) {
            Some(v) => present_seq(v),
            None => Seq::empty(),
        },
        None => Seq::empty(),
    }
}

/// The image URLs of the embedded sources array.
pub open spec fn sources_images_spec(html: Seq<char>) -> Seq<Seq<char>> {
    match sources_array_spec(html) {
        Some(a) => match json_array_nested_strings(a, "images"@) {
            Some(v) => flatten_present(v),
            None => Seq::empty(),
        },
        None => Seq::empty(),
    }
}

/// The pages of a reader page: those of the first reader place that has
/// likely pages, else those of the embedded chapter-images array, else (where
/// `with_sources`) those of the embedded sources array.
pub open spec fn multi_selector_images_spec(html: Seq<char>, with_sources: bool) -> Seq<Seq<char>> {
    let css = selected_pages_from(html, 0);
    if css.len() > 0 {
        css
    } else {
        let j = json_images_spec(html);
        if j.len() > 0 || !with_sources {
            j
        } else {
            sources_images_spec(html)
        }
    }
}

fn json_images(html: &str) -> (r: Vec<String>)
    ensures
        strs(r@) == json_images_spec(html@),
{
    match chapter_images_array(html) {
        Some(a) => {
            let key = String::from_str("url");
            match json_member_strings(a.as_str(), key.as_str()) {
                Some(v) => present_values(&v),
                None => Vec::new(),
            }
        },
        None => Vec::new(),
    }
}

fn sources_images(html: &str) -> (r: Vec<String>)
    ensures
        strs(r@) == sources_images_spec(html@),
{
    match sources_array(html) {
        Some(a) => {
            let key = String::from_str("images");
            match json_nested_strings(a.as_str(), key.as_str()) {
                Some(v) => flatten_present_values(&v),
                None => Vec::new(),
            }
        },
        None => Vec::new(),
    }
}

/// Finds the page images of a reader page by trying the reader places in
/// turn, then the embedded JSON.
pub fn multi_selector_images(html: &str, with_sources: bool) -> (r: Vec<String>)
    ensures
        strs(r@) == multi_selector_images_spec(html@, with_sources),
{
    let attrs = make_src_attrs(true);
    let mut i: usize = 0;
    while i < 9
        invariant
            i <= 9,
            strs(attrs@) == lazy_src_attrs(),
            selected_pages_from(html@, 0) == selected_pages_from(html@, i as int),
        decreases 9 - i,
    {
        let values = select_attribute_values(html, READER_SELECTORS[i], &attrs);
        let listed = present_values(&values);
        let found = keep_page_images(&listed);
        if found.len() > 0 {
            return found;
        }
        i = i + 1;
    }
    assert(selected_pages_from(html@, 9) =~= Seq::<Seq<char>>::empty());
    let j = json_images(html);
    if j.len() > 0 || !with_sources {
        j
    } else {
        sources_images(html)
    }
}

/// The image sources of a chapter page fetched by `route` (none for
/// MangaDex, whose pages come from its at-home server).
pub open spec fn page_sources_spec(route: DownloadRoute, html: Seq<char>) -> Seq<Seq<char>> {
    match route {
        DownloadRoute::ReaderImages | DownloadRoute::PlainReaderImages => reader_images_spec(html),
        DownloadRoute::PageBreakImages => page_break_images_spec(html),
        DownloadRoute::KaganeWithHeaders | DownloadRoute::KaganePlain => kagane_images_spec(html),
        DownloadRoute::MultiSelector => multi_selector_images_spec(html, false),
        DownloadRoute::Browser => multi_selector_images_spec(html, true),
        DownloadRoute::MangaDexAtHome => Seq::empty(),
    }
}

/// Finds the image sources of a chapter page as its route reads them.
pub fn page_image_sources(route: DownloadRoute, html: &str) -> (r: Vec<String>)
    ensures
        strs(r@) == page_sources_spec(route, html@),
{
    match route {
        DownloadRoute::ReaderImages | DownloadRoute::PlainReaderImages => reader_images(html),
        DownloadRoute::PageBreakImages => page_break_images(html),
        DownloadRoute::KaganeWithHeaders | DownloadRoute::KaganePlain => kagane_images(html),
        DownloadRoute::MultiSelector => multi_selector_images(html, false),
        DownloadRoute::Browser => multi_selector_images(html, true),
        DownloadRoute::MangaDexAtHome => Vec::new(),
    }
}


// ---------------------------------------------------------------------------
// Chapter archives
// ---------------------------------------------------------------------------

/// A chapter archive being written in memory: a `zip` writer over an
/// in-memory cursor, kept private so that only the functions below touch it.
#[verifier::external_body]
pub struct ArchiveWriter {
    inner: zip::ZipWriter<std::io::Cursor<Vec<u8>>>,
}

#[verifier::external_type_specification]
#[verifier::external_body]
pub struct ExZipError(zip::result::ZipError);

#[verifier::external_type_specification]
#[verifier::external_body]
pub struct ExIoError(std::io::Error);

/// The files of an archive being written, in order: each one's name and the
/// bytes written into it so far.
pub uninterp spec fn zip_entries(z: ArchiveWriter) -> Seq<
    (Seq<char>, Seq<u8>),
>;

/// Whether the writer is still open: neither finished nor closed by an
/// earlier error.
pub uninterp spec fn zip_writer_open(z: ArchiveWriter) -> bool;

/// The bytes of the finished archive that holds `entries`, each file written
/// with the crate's default options.
pub uninterp spec fn zip_archive_bytes(entries: Seq<(Seq<char>, Seq<u8>)>) -> Seq<u8>;

/// The largest file written without the zip64 extension: its data and its
/// deflated data stay below the 4 GiB limit of zip32 headers.
pub const ZIP32_FILE_LIMIT: u64 = 4_000_000_000;

/// Every file of `entries` is within the zip32 limit.
pub open spec fn zip32_sized(entries: Seq<(Seq<char>, Seq<u8>)>) -> bool {
    forall|i: int| 0 <= i < entries.len() ==> (#[trigger] entries[i]).1.len() <= ZIP32_FILE_LIMIT
}

/// Calls `zip::ZipWriter::new` on an empty in-memory cursor: an open archive
/// with no files.
#[verifier::external_body]
fn new_archive_writer() -> (z: ArchiveWriter)
    ensures
        zip_entries(z) == Seq::<(Seq<char>, Seq<u8>)>::empty(),
        zip_writer_open(z),
{
    ArchiveWriter { inner: zip::ZipWriter::new(std::io::Cursor::new(Vec::new())) }
}

/// Calls `ZipWriter::start_file` with the default `FileOptions` (deflated,
/// no zip64 extension). It first finishes the file before; that fails only
/// on a closed writer or a file past the zip32 limit, since writing to an
/// in-memory cursor does not fail. On success a new, empty file of that name
/// follows the others and the writer is open. Nothing is stated of the writer
/// after an error.
#[verifier::external_body]
fn archive_start_file(z: &mut ArchiveWriter, name: &str) -> (r: Result<
    (),
    zip::result::ZipError,
>)
    ensures
        r is Ok ==> zip_entries(*final(z)) == zip_entries(*old(z)).push((name@, Seq::<u8>::empty())),
        r is Ok ==> zip_writer_open(*final(z)),
        zip_writer_open(*old(z)) && zip32_sized(zip_entries(*old(z))) ==> r is Ok,
{
    z.inner.start_file(name, zip::write::FileOptions::default())
}

/// Calls `io::Write::write_all` on the writer. On success the bytes are
/// appended to the file started last; an empty slice is accepted, and
/// changes nothing, even where no file is started, but other bytes need a
/// started file. The write fails only on a closed writer, without a started
/// file, or past the zip32 limit. Nothing is stated of the writer after an
/// error.
#[verifier::external_body]
fn archive_write(z: &mut ArchiveWriter, bytes: &[u8]) -> (r: Result<
    (),
    std::io::Error,
>)
    ensures
        r is Ok ==> {
            let old_entries = zip_entries(*old(z));
            &&& bytes@.len() > 0 ==> old_entries.len() > 0
            &&& old_entries.len() > 0 ==> zip_entries(*final(z)) == old_entries.update(
                old_entries.len() - 1,
                (old_entries.last().0, old_entries.last().1 + bytes@),
            )
            &&& old_entries.len() == 0 ==> zip_entries(*final(z)) == old_entries
            &&& zip_writer_open(*final(z)) == zip_writer_open(*old(z))
        },
        ({
            let old_entries = zip_entries(*old(z));
            &&& zip_writer_open(*old(z))
            &&& old_entries.len() > 0
            &&& old_entries.last().1.len() + bytes@.len() <= ZIP32_FILE_LIMIT
        }) ==> r is Ok,
{
    std::io::Write::write_all(&mut z.inner, bytes)
}

/// Calls `ZipWriter::finish` and takes the cursor's buffer: on success the
/// bytes of the archive that holds the files written. It fails only on a
/// closed writer or a file past the zip32 limit (the archive itself may grow
/// past it: the writer then adds the zip64 end records).
#[verifier::external_body]
fn archive_finish(z: &mut ArchiveWriter) -> (r: Result<
    Vec<u8>,
    zip::result::ZipError,
>)
    ensures
        r matches Ok(b) ==> b@ == zip_archive_bytes(zip_entries(*old(z))),
        zip_writer_open(*old(z)) && zip32_sized(zip_entries(*old(z))) ==> r is Ok,
{
    z.inner.finish().map(|cursor| cursor.into_inner())
}

/// The step at which writing an archive failed.
#[derive(Debug, Clone, Copy, PartialEq, Eq, Structural)]
pub enum ArchiveError {
    StartFile,
    Write,
    Finish,
}

/// The page files of a chapter archive, named `page_1.jpg`, `page_2.jpg`, ...
pub open spec fn page_entries(pages: Seq<Seq<u8>>) -> Seq<(Seq<char>, Seq<u8>)> {
    Seq::new(pages.len(), |i: int| (page_file_name_spec(i), pages[i]))
}

/// The files of a chapter archive: `ComicInfo.xml` first where there is one,
/// then the pages in order.
pub open spec fn chapter_archive_entries(comicinfo: Option<Seq<u8>>, pages: Seq<Seq<u8>>) -> Seq<
    (Seq<char>, Seq<u8>),
> {
    match comicinfo {
        Some(x) => seq![("ComicInfo.xml"@, x)] + page_entries(pages),
        None => page_entries(pages),
    }
}

/// The views of a sequence of byte vectors.
pub open spec fn byte_views(v: Seq<Vec<u8>>) -> Seq<Seq<u8>> {
    v.map_values(|x: Vec<u8>| x@)
}

fn add_archive_file(z: &mut ArchiveWriter, name: &str, bytes: &[u8]) -> (r:
    Result<(), ArchiveError>)
    ensures
        r is Ok ==> zip_entries(*final(z)) == zip_entries(*old(z)).push((name@, bytes@)),
        r is Ok ==> zip_writer_open(*final(z)),
        zip_writer_open(*old(z)) && zip32_sized(zip_entries(*old(z))) && bytes@.len()
            <= ZIP32_FILE_LIMIT ==> r is Ok,
{
    match archive_start_file(z, name) {
        Ok(()) => {},
        Err(_) => return Err(ArchiveError::StartFile),
    }
    match archive_write(z, bytes) {
        Ok(()) => {},
        Err(_) => return Err(ArchiveError::Write),
    }
    assert(zip_entries(*z) =~= zip_entries(*old(z)).push((name@, bytes@)));
    Ok(())
}

/// Writes a chapter archive: `ComicInfo.xml` (the UTF-8 bytes of the given
/// XML) where there is one, then each page as `page_<n>.jpg`. On success the
/// bytes are those of the archive of exactly these files; where the archive
/// writer fails, the step is reported. It succeeds whenever every file is
/// within the zip32 limit.
pub fn build_chapter_archive(comicinfo_xml: Option<&str>, pages: &Vec<Vec<u8>>) -> (r: Result<
    Vec<u8>,
    ArchiveError,
>)
    ensures
        r matches Ok(b) ==> b@ == zip_archive_bytes(
            chapter_archive_entries(
                match comicinfo_xml {
                    Some(x) => Some(x.spec_bytes()),
                    None => None,
                },
                byte_views(pages@),
            ),
        ),
        zip32_sized(
            chapter_archive_entries(
                match comicinfo_xml {
                    Some(x) => Some(x.spec_bytes()),
                    None => None,
                },
                byte_views(pages@),
            ),
        ) ==> r is Ok,
{
    let ghost all = chapter_archive_entries(
        match comicinfo_xml {
            Some(x) => Some(x.spec_bytes()),
            None => None,
        },
        byte_views(pages@),
    );
    let ghost within = zip32_sized(all);
    let mut z = new_archive_writer();
    let ghost pre: Seq<(Seq<char>, Seq<u8>)> = match comicinfo_xml {
        Some(x) => seq![("ComicInfo.xml"@, x.spec_bytes())],
        None => Seq::empty(),
    };
    assert(pre + page_entries(byte_views(pages@)) =~= all);
    match comicinfo_xml {
        Some(xml) => {
            let name = String::from_str("ComicInfo.xml");
            proof {
                if within {
                    assert(all[0] == ("ComicInfo.xml"@, xml.spec_bytes()));
                }
            }
            match add_archive_file(&mut z, name.as_str(), xml.as_bytes()) {
                Ok(()) => {},
                Err(e) => return Err(e),
            }
            assert(zip_entries(z) =~= pre);
        },
        None => {},
    }
    let mut i: usize = 0;
    while i < pages.len()
        invariant
            i <= pages@.len(),
            zip_entries(z) == pre + page_entries(byte_views(pages@).take(i as int)),
            pre + page_entries(byte_views(pages@)) == all,
            all == chapter_archive_entries(
                match comicinfo_xml {
                    Some(x) => Some(x.spec_bytes()),
                    None => None,
                },
                byte_views(pages@),
            ),
            within == zip32_sized(all),
            within ==> zip_writer_open(z),
        decreases pages@.len() - i,
    {
        let name = page_file_name(i);
        proof {
            if within {
                let cur = zip_entries(z);
                assert forall|k: int| 0 <= k < cur.len() implies (#[trigger] cur[k]).1.len()
                    <= ZIP32_FILE_LIMIT by {
                    if k < pre.len() {
                        assert(cur[k] == all[k]);
                    } else {
                        assert(cur[k] == all[k]);
                    }
                }
                assert(all[pre.len() + i] == (page_file_name_spec(i as int), pages@[i as int]@));
                assert(all[pre.len() + i].1.len() <= ZIP32_FILE_LIMIT);
                assert(zip32_sized(cur));
            }
        }
        let page = pages[i].as_slice();
        assert(page@ == pages@[i as int]@);
        match add_archive_file(&mut z, name.as_str(), page) {
            Ok(()) => {},
            Err(e) => return Err(e),
        }
        assert(page_entries(byte_views(pages@).take(i + 1)) =~= page_entries(
            byte_views(pages@).take(i as int),
        ).push((page_file_name_spec(i as int), pages@[i as int]@)));
        i = i + 1;
    }
    assert(byte_views(pages@).take(pages@.len() as int) =~= byte_views(pages@));
    assert(zip_entries(z) == all);
    match archive_finish(&mut z) {
        Ok(bytes) => Ok(bytes),
        Err(_) => Err(ArchiveError::Finish),
    }
}

// ---------------------------------------------------------------------------
// The browser of a Cloudflare-protected download
// ---------------------------------------------------------------------------

/// The flags a browser for a protected download is always started with.
pub const STEALTH_ARGS: [&'static str; 22] = [
    "--disable-blink-features=AutomationControlled",
    "--disable-dev-shm-usage",
    "--no-first-run",
    "--no-default-browser-check",
    "--disable-background-networking",
    "--disable-background-timer-throttling",
    "--disable-backgrounding-occluded-windows",
    "--disable-breakpad",
    "--disable-client-side-phishing-detection",
    "--disable-component-update",
    "--disable-default-apps",
    "--disable-extensions",
    "--disable-features=TranslateUI",
    "--disable-hang-monitor",
    "--disable-ipc-flooding-protection",
    "--disable-popup-blocking",
    "--disable-prompt-on-repost",
    "--disable-renderer-backgrounding",
    "--disable-sync",
    "--metrics-recording-only",
    "--no-sandbox",
    "--safebrowsing-disable-auto-update",
];

/// The user agent a protected download presents where it does not pick one
/// at random.
pub const FIXED_BROWSER_USER_AGENT: &'static str =
    "Mozilla/5.0 (Windows NT 10.0; Win64; x64) AppleWebKit/537.36 (KHTML, like Gecko) Chrome/120.0.0.0 Safari/537.36";

/// The launch flags of the browser of a protected download: the stealth
/// flags, the window size, the user agent, and the first proxy where proxies
/// are enabled and listed.
pub open spec fn browser_download_args_spec(
    window_size: Seq<char>,
    user_agent: Seq<char>,
    proxy: Option<Seq<char>>,
) -> Seq<Seq<char>> {
    let base = STEALTH_ARGS@.map_values(|a: &str| a@).push("--window-size="@ + window_size).push(
        "--user-agent="@ + user_agent,
    );
    match proxy {
        Some(p) => base.push("--proxy-server="@ + p),
        None => base,
    }
}

/// The proxy a protected download goes through: the first one listed, where
/// proxies are enabled.
pub open spec fn download_proxy_spec(cf: crate::cloudflare_bypass::CloudflareConfig) -> Option<Seq<char>> {
    if cf.proxy.enabled && cf.proxy.proxies@.len() > 0 {
        Some(cf.proxy.proxies@[0]@)
    } else {
        None
    }
}

/// Builds the launch flags of the browser of a protected download that
/// presents `user_agent`.
pub fn browser_download_args(cf: &crate::cloudflare_bypass::CloudflareConfig, user_agent: &str) -> (r: Vec<
    String,
>)
    ensures
        strs(r@) == browser_download_args_spec(cf.browser.window_size@, user_agent@, download_proxy_spec(*cf)),
{
    let mut r: Vec<String> = Vec::new();
    let mut i: usize = 0;
    while i < 22
        invariant
            i <= 22,
            strs(r@) == STEALTH_ARGS@.map_values(|a: &str| a@).take(i as int),
        decreases 22 - i,
    {
        let a = STEALTH_ARGS[i];
        let ghost old_r = r@;
        assert(STEALTH_ARGS@.len() == 22);
        r.push(String::from_str(a));
        assert(strs(r@) =~= strs(old_r).push(a@));
        assert(STEALTH_ARGS@.map_values(|a: &str| a@).take(i + 1) =~= STEALTH_ARGS@.map_values(
            |a: &str| a@,
        ).take(i as int).push(a@));
        i = i + 1;
    }
    assert(STEALTH_ARGS@.map_values(|a: &str| a@).take(22) =~= STEALTH_ARGS@.map_values(|a: &str| a@));
    let mut w = String::from_str("--window-size=");
    w.append(cf.browser.window_size.as_str());
    r.push(w);
    let mut u = String::from_str("--user-agent=");
    u.append(user_agent);
    r.push(u);
    if cf.proxy.enabled && cf.proxy.proxies.len() > 0 {
        let mut p = String::from_str("--proxy-server=");
        p.append(cf.proxy.proxies[0].as_str());
        r.push(p);
    }
    assert(strs(r@) =~= browser_download_args_spec(cf.browser.window_size@, user_agent@, download_proxy_spec(*cf)));
    r
}

/// The user agent of a protected download: one picked by the clock where
/// the configuration asks for random ones, else the fixed one.
pub fn browser_download_user_agent(cf: &crate::cloudflare_bypass::CloudflareConfig) -> (ua: &'static str)
    ensures
        cf.fingerprint.random_user_agent ==> exists|i: int|
            0 <= i < 5 && ua == crate::cloudflare_bypass::BYPASS_USER_AGENTS@[i],
        !cf.fingerprint.random_user_agent ==> ua == FIXED_BROWSER_USER_AGENT,
{
    if cf.fingerprint.random_user_agent {
        crate::cloudflare_bypass::get_random_user_agent()
    } else {
        FIXED_BROWSER_USER_AGENT
    }
}

} // verus!
