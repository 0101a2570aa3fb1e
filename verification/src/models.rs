//! Data records shared by the catalogue, the crawler and the download helpers.

use vstd::prelude::*;

verus! {

/// The sources that have a fixed numeric id of their own.
#[derive(Debug, Clone, PartialEq, Eq, Hash, Structural)]
pub enum Source {
    MangaDex,
    FireScans,
    RizzComic,
    MyAnimeList,
    AniList,
    DrakeComic,
    KDTNovels,
    Asmotoon,
    ResetScans,
    Kagane,
    TempleScan,
    ThunderScans,
}

/// The numeric id of each source, as stored in the database.
pub open spec fn source_id_spec(s: Source) -> i32 {
    match s {
        Source::MangaDex => 1,
        Source::FireScans => 2,
        Source::RizzComic => 3,
        Source::MyAnimeList => 4,
        Source::AniList => 5,
        Source::DrakeComic => 6,
        Source::KDTNovels => 7,
        Source::Asmotoon => 8,
        Source::ResetScans => 9,
        Source::Kagane => 10,
        Source::TempleScan => 49,
        Source::ThunderScans => 50,
    }
}

/// The source with numeric id `n`, if any.
pub open spec fn source_from_id_spec(n: i32) -> Option<Source> {
    if n == 1 {
        Some(Source::MangaDex)
    } else if n == 2 {
        Some(Source::FireScans)
    } else if n == 3 {
        Some(Source::RizzComic)
    } else if n == 4 {
        Some(Source::MyAnimeList)
    } else if n == 5 {
        Some(Source::AniList)
    } else if n == 6 {
        Some(Source::DrakeComic)
    } else if n == 7 {
        Some(Source::KDTNovels)
    } else if n == 8 {
        Some(Source::Asmotoon)
    } else if n == 9 {
        Some(Source::ResetScans)
    } else if n == 10 {
        Some(Source::Kagane)
    } else if n == 49 {
        Some(Source::TempleScan)
    } else if n == 50 {
        Some(Source::ThunderScans)
    } else {
        None
    }
}

impl Source {
    /// The numeric id of this source.
    pub fn id(&self) -> (n: i32)
        ensures
            n == source_id_spec(*self),
    {
        match self {
            Source::MangaDex => 1,
            Source::FireScans => 2,
            Source::RizzComic => 3,
            Source::MyAnimeList => 4,
            Source::AniList => 5,
            Source::DrakeComic => 6,
            Source::KDTNovels => 7,
            Source::Asmotoon => 8,
            Source::ResetScans => 9,
            Source::Kagane => 10,
            Source::TempleScan => 49,
            Source::ThunderScans => 50,
        }
    }

    /// The source whose numeric id is `n`, if any.
    pub fn from_id(n: i32) -> (s: Option<Source>)
        ensures
            s == source_from_id_spec(n),
    {
        if n == 1 {
            Some(Source::MangaDex)
        } else if n == 2 {
            Some(Source::FireScans)
        } else if n == 3 {
            Some(Source::RizzComic)
        } else if n == 4 {
            Some(Source::MyAnimeList)
        } else if n == 5 {
            Some(Source::AniList)
        } else if n == 6 {
            Some(Source::DrakeComic)
        } else if n == 7 {
            Some(Source::KDTNovels)
        } else if n == 8 {
            Some(Source::Asmotoon)
        } else if n == 9 {
            Some(Source::ResetScans)
        } else if n == 10 {
            Some(Source::Kagane)
        } else if n == 49 {
            Some(Source::TempleScan)
        } else if n == 50 {
            Some(Source::ThunderScans)
        } else {
            None
        }
    }
}

/// Each source's id leads back to the source, and an id that leads to a
/// source is that source's id: the ids are distinct.
pub proof fn lemma_source_id_roundtrip(s: Source, n: i32)
    ensures
        source_from_id_spec(source_id_spec(s)) == Some(s),
        source_from_id_spec(n) == Some(s) ==> source_id_spec(s) == n,
{
}

/// A title in the catalogue.
#[derive(Debug, Clone)]
pub struct Manga {
    pub id: String,
    pub title: String,
    pub alt_titles: Option<String>,
    pub cover_url: Option<String>,
    pub description: Option<String>,
    pub tags: Option<String>,
    pub rating: Option<String>,
    pub monitored: Option<bool>,
    pub check_interval_secs: Option<i64>,
    pub discover_interval_secs: Option<i64>,
    pub last_chapter_check: Option<i64>,
    pub last_discover_check: Option<i64>,
}

/// The view of an optional string.
pub open spec fn opt_text(o: Option<String>) -> Option<Seq<char>> {
    match o {
        Some(s) => Some(s@),
        None => None,
    }
}

/// A copy of an optional string.
pub fn copy_opt_string(o: &Option<String>) -> (r: Option<String>)
    ensures
        opt_text(r) == opt_text(*o),
{
    match o {
        Some(s) => Some(s.clone()),
        None => None,
    }
}

/// What a title record holds, its strings taken by their characters.
pub struct MangaRecord {
    pub id: Seq<char>,
    pub title: Seq<char>,
    pub alt_titles: Option<Seq<char>>,
    pub cover_url: Option<Seq<char>>,
    pub description: Option<Seq<char>>,
    pub tags: Option<Seq<char>>,
    pub rating: Option<Seq<char>>,
    pub monitored: Option<bool>,
    pub check_interval_secs: Option<i64>,
    pub discover_interval_secs: Option<i64>,
    pub last_chapter_check: Option<i64>,
    pub last_discover_check: Option<i64>,
}

/// The record of a title.
pub open spec fn manga_record(m: Manga) -> MangaRecord {
    MangaRecord {
        id: m.id@,
        title: m.title@,
        alt_titles: opt_text(m.alt_titles),
        cover_url: opt_text(m.cover_url),
        description: opt_text(m.description),
        tags: opt_text(m.tags),
        rating: opt_text(m.rating),
        monitored: m.monitored,
        check_interval_secs: m.check_interval_secs,
        discover_interval_secs: m.discover_interval_secs,
        last_chapter_check: m.last_chapter_check,
        last_discover_check: m.last_discover_check,
    }
}

impl Manga {
    /// A copy of this title.
    pub fn duplicate(&self) -> (r: Manga)
        ensures
            manga_record(r) == manga_record(*self),
    {
        Manga {
            id: self.id.clone(),
            title: self.title.clone(),
            alt_titles: copy_opt_string(&self.alt_titles),
            cover_url: copy_opt_string(&self.cover_url),
            description: copy_opt_string(&self.description),
            tags: copy_opt_string(&self.tags),
            rating: copy_opt_string(&self.rating),
            monitored: self.monitored,
            check_interval_secs: self.check_interval_secs,
            discover_interval_secs: self.discover_interval_secs,
            last_chapter_check: self.last_chapter_check,
            last_discover_check: self.last_discover_check,
        }
    }
}

/// A chapter as listed by one source of a title.
#[derive(Debug)]
pub struct Chapter {
    pub id: i32,
    pub manga_source_data_id: i32,
    pub chapter_number: String,
    pub url: String,
    pub scraped: bool,
}

/// The link between a title and its page on one source.
#[derive(Debug)]
pub struct MangaSourceData {
    pub manga_id: String,
    pub source_id: i32,
    pub source_manga_id: String,
    pub source_manga_url: String,
}

/// What a source link holds, its strings taken by their characters.
pub struct LinkRecord {
    pub manga_id: Seq<char>,
    pub source_id: i32,
    pub source_manga_id: Seq<char>,
    pub source_manga_url: Seq<char>,
}

/// The record of a source link.
pub open spec fn link_record(l: MangaSourceData) -> LinkRecord {
    LinkRecord {
        manga_id: l.manga_id@,
        source_id: l.source_id,
        source_manga_id: l.source_manga_id@,
        source_manga_url: l.source_manga_url@,
    }
}

/// One page of a listing.
#[derive(Debug)]
pub struct PaginatedResponse<T> {
    pub data: Vec<T>,
    pub pagination: PaginationInfo,
}

/// Where a page of a listing stands in the whole listing.
#[derive(Debug)]
pub struct PaginationInfo {
    pub total: i32,
    pub limit: i32,
    pub offset: i32,
    pub has_more: bool,
}

impl PaginationInfo {
    /// The pagination record of the page of `limit` items from `offset` in a
    /// listing of `total` items: more follow when `offset + limit < total`.
    pub fn new(total: i32, limit: i32, offset: i32) -> (p: PaginationInfo)
        requires
            i32::MIN <= offset + limit <= i32::MAX,
        ensures
            p.total == total,
            p.limit == limit,
            p.offset == offset,
            p.has_more == (offset + limit < total),
    {
        PaginationInfo { total, limit, offset, has_more: offset + limit < total }
    }
}

/// Counts over the whole catalogue.
#[derive(Debug)]
pub struct Stats {
    pub total_manga: i32,
    pub total_chapters: i32,
    pub total_sources: i32,
}

/// A title with the sources it is found on.
#[derive(Debug, Clone)]
pub struct MangaWithSources {
    pub id: String,
    pub title: String,
    pub alt_titles: Option<String>,
    pub cover_url: Option<String>,
    pub description: Option<String>,
    pub tags: Option<String>,
    pub rating: Option<String>,
    pub sources: Vec<SourceInfo>,
}

/// One source of a title, with the source's name.
#[derive(Debug, Clone)]
pub struct SourceInfo {
    pub source_id: i32,
    pub source_name: String,
    pub source_manga_id: String,
    pub source_manga_url: String,
}

/// A chapter with the source it comes from.
#[derive(Debug)]
pub struct ChapterWithSource {
    pub id: i32,
    pub chapter_number: String,
    pub url: String,
    pub scraped: bool,
    pub source_id: i32,
    pub source_name: String,
}

/// A request to change how a title is monitored for new chapters.
#[derive(Debug)]
pub struct MonitorRequest {
    pub monitored: bool,
    pub check_interval_secs: Option<i64>,
    pub discover_interval_secs: Option<i64>,
}

} // verus!
