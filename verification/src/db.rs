//! The catalogue's SQL: the statements a listing or a search runs, schema
//! migrations, the seeded source table, and which titles are due for a
//! chapter check.

use crate::text::{chars_of, eq_chars};
use vstd::prelude::*;

verus! {

/// The columns of a title row, in the order they are read.
pub const MANGA_COLUMNS: &'static str =
    "id, title, alt_titles, cover_url, description, tags, rating, monitored, check_interval_secs, discover_interval_secs, last_chapter_check, last_discover_check";

/// Orders titles by rating class (safe, suggestive, erotica, pornographic,
/// then the rest), then by title.
pub const RATING_ORDER: &'static str =
    "CASE lower(coalesce(rating,'')) WHEN 'safe' THEN 1 WHEN 'suggestive' THEN 2 WHEN 'erotica' THEN 3 WHEN 'pornographic' THEN 4 ELSE 5 END, title";

/// The ORDER BY expression of a listing: by rating class for "rating",
/// else by title.
pub open spec fn sort_expression_spec(sort_by: Seq<char>) -> Seq<char> {
    if sort_by == "rating"@ {
        RATING_ORDER@
    } else {
        "title"@
    }
}

/// The ORDER BY expression of a listing.
pub fn sort_expression(sort_by: &str) -> (r: &'static str)
    ensures
        r@ == sort_expression_spec(sort_by@),
{
    let s = chars_of(sort_by);
    let rating = chars_of("rating");
    if eq_chars(&s, &rating) {
        RATING_ORDER
    } else {
        "title"
    }
}

/// The statement of a page of the title listing: optionally filtered by
/// rating (case-insensitively), ordered, with the page size and offset as
/// the last two parameters.
pub open spec fn manga_page_sql_spec(sort_by: Seq<char>, rating_filter: bool) -> Seq<char> {
    "SELECT "@ + MANGA_COLUMNS@ + " FROM manga"@ + (if rating_filter {
        " WHERE lower(rating) = lower(?)"@
    } else {
        Seq::empty()
    }) + " ORDER BY "@ + sort_expression_spec(sort_by) + " LIMIT ? OFFSET ?"@
}

/// Builds the statement of a page of the title listing.
pub fn manga_page_sql(sort_by: &str, rating_filter: bool) -> (r: String)
    ensures
        r@ == manga_page_sql_spec(sort_by@, rating_filter),
{
    let mut s = String::from_str("SELECT ");
    s.append(MANGA_COLUMNS);
    s.append(" FROM manga");
    if rating_filter {
        s.append(" WHERE lower(rating) = lower(?)");
    }
    s.append(" ORDER BY ");
    s.append(sort_expression(sort_by));
    s.append(" LIMIT ? OFFSET ?");
    assert(s@ =~= manga_page_sql_spec(sort_by@, rating_filter));
    s
}

/// The conditions of a search: the title or alternative titles match the
/// pattern; then, where given, the tags and the rating.
pub open spec fn search_conditions(tags: bool, rating: bool) -> Seq<char> {
    "(title LIKE ? OR alt_titles LIKE ?)"@ + (if tags {
        " AND tags LIKE ?"@
    } else {
        Seq::empty()
    }) + (if rating {
        " AND lower(rating) = lower(?)"@
    } else {
        Seq::empty()
    })
}

/// The statement of a page of search results.
pub open spec fn search_sql_spec(sort_by: Seq<char>, tags: bool, rating: bool) -> Seq<char> {
    "SELECT "@ + MANGA_COLUMNS@ + " FROM manga WHERE "@ + search_conditions(tags, rating)
        + " ORDER BY "@ + sort_expression_spec(sort_by) + " LIMIT ? OFFSET ?"@
}

/// Builds the statement of a page of search results.
pub fn search_sql(sort_by: &str, tags: bool, rating: bool) -> (r: String)
    ensures
        r@ == search_sql_spec(sort_by@, tags, rating),
{
    let mut s = String::from_str("SELECT ");
    s.append(MANGA_COLUMNS);
    s.append(" FROM manga WHERE ");
    s.append("(title LIKE ? OR alt_titles LIKE ?)");
    if tags {
        s.append(" AND tags LIKE ?");
    }
    if rating {
        s.append(" AND lower(rating) = lower(?)");
    }
    s.append(" ORDER BY ");
    s.append(sort_expression(sort_by));
    s.append(" LIMIT ? OFFSET ?");
    assert(s@ =~= search_sql_spec(sort_by@, tags, rating));
    s
}

/// The LIKE pattern that matches texts containing `text`.
pub fn like_pattern(text: &str) -> (r: String)
    ensures
        r@ == "%"@ + text@ + "%"@,
{
    let mut s = String::from_str("%");
    s.append(text);
    s.append("%");
    s
}

/// The page size and offset a query runs with: 100 and 0 where not given.
pub fn page_bounds(limit: Option<i32>, offset: Option<i32>) -> (r: (i32, i32))
    ensures
        r.0 == match limit {
            Some(l) => l,
            None => 100,
        },
        r.1 == match offset {
            Some(o) => o,
            None => 0,
        },
{
    let l = match limit {
        Some(l) => l,
        None => 100,
    };
    let o = match offset {
        Some(o) => o,
        None => 0,
    };
    (l, o)
}

/// The statement that lists a table's columns.
pub fn table_info_sql(table: &str) -> (r: String)
    ensures
        r@ == "PRAGMA table_info("@ + table@ + ")"@,
{
    let mut s = String::from_str("PRAGMA table_info(");
    s.append(table);
    s.append(")");
    s
}

/// The statement that adds a column to a table.
pub fn add_column_sql(table: &str, column: &str, column_type: &str) -> (r: String)
    ensures
        r@ == "ALTER TABLE "@ + table@ + " ADD COLUMN "@ + column@ + " "@ + column_type@,
{
    let mut s = String::from_str("ALTER TABLE ");
    s.append(table);
    s.append(" ADD COLUMN ");
    s.append(column);
    s.append(" ");
    s.append(column_type);
    s
}

/// Whether a table whose columns are `names` lacks `column` and needs it
/// added.
pub fn column_missing(names: &Vec<String>, column: &str) -> (b: bool)
    ensures
        b == !names@.map_values(|n: String| n@).contains(column@),
{
    let ghost vs = names@.map_values(|n: String| n@);
    let c = chars_of(column);
    let mut i: usize = 0;
    while i < names.len()
        invariant
            i <= names@.len(),
            vs == names@.map_values(|n: String| n@),
            c@ == column@,
            forall|j: int| 0 <= j < i ==> vs[j] != column@,
        decreases names@.len() - i,
    {
        let n = chars_of(names[i].as_str());
        if eq_chars(&n, &c) {
            assert(vs[i as int] == column@);
            return false;
        }
        i = i + 1;
    }
    true
}

/// A title is due for a chapter check when it is monitored, has a check
/// interval, and was never checked or was last checked at least an interval
/// before `now`.
pub open spec fn due_for_check_spec(
    monitored: Option<bool>,
    check_interval_secs: Option<i64>,
    last_chapter_check: Option<i64>,
    now: i64,
) -> bool {
    &&& monitored == Some(true)
    &&& check_interval_secs is Some
    &&& match last_chapter_check {
        None => true,
        Some(last) => now - last >= check_interval_secs.unwrap(),
    }
}

/// Whether a title is due for a chapter check at `now`.
pub fn is_due_for_chapter_check(
    monitored: Option<bool>,
    check_interval_secs: Option<i64>,
    last_chapter_check: Option<i64>,
    now: i64,
) -> (b: bool)
    ensures
        b == due_for_check_spec(monitored, check_interval_secs, last_chapter_check, now),
{
    if monitored != Some(true) {
        return false;
    }
    match check_interval_secs {
        None => false,
        Some(interval) => match last_chapter_check {
            None => true,
            Some(last) => (now as i128) - (last as i128) >= interval as i128,
        },
    }
}

/// How many titles and chapters the catalogue holds from one source.
#[derive(Debug)]
pub struct PerSourceCounts {
    pub source_id: i32,
    pub source_name: String,
    pub manga: i32,
    pub chapters: i32,
}

/// The sources worth listing: those with chapters, in order.
pub open spec fn sources_with_chapters(cs: Seq<PerSourceCounts>) -> Seq<int>
    decreases cs.len(),
{
    if cs.len() == 0 {
        Seq::empty()
    } else {
        let r = sources_with_chapters(cs.drop_last());
        if cs.last().chapters > 0 {
            r.push(cs.len() - 1)
        } else {
            r
        }
    }
}

/// Keeps the sources that have chapters, in order, as the source listing
/// shows them.
pub fn keep_sources_with_chapters(counts: Vec<PerSourceCounts>) -> (r: Vec<PerSourceCounts>)
    ensures
        r@.len() == sources_with_chapters(counts@).len(),
        forall|i: int|
            0 <= i < r@.len() ==> #[trigger] r@[i] == counts@[sources_with_chapters(counts@)[i]],
{
    let ghost all = counts@;
    let n = counts.len();
    let mut rest = counts;
    let mut r: Vec<PerSourceCounts> = Vec::new();
    let mut taken: usize = 0;
    proof {
        assert(all.take(0) =~= Seq::<PerSourceCounts>::empty());
    }
    while rest.len() > 0
        invariant
            taken + rest@.len() == all.len(),
            all.len() == n,
            rest@ == all.skip(taken as int),
            r@.len() == sources_with_chapters(all.take(taken as int)).len(),
            forall|i: int|
                0 <= i < r@.len() ==> #[trigger] r@[i] == all[sources_with_chapters(all.take(taken as int))[i]],
            forall|i: int|
                0 <= i < sources_with_chapters(all.take(taken as int)).len() ==> 0 <= #[trigger] sources_with_chapters(all.take(taken as int))[i] < taken,
        decreases rest@.len(),
    {
        let ghost before = sources_with_chapters(all.take(taken as int));
        let c = rest.remove(0);
        assert(c == all[taken as int]);
        assert(all.take(taken + 1).drop_last() =~= all.take(taken as int));
        assert(all.take(taken + 1).last() == c);
        assert(rest@ =~= all.skip(taken + 1));
        if c.chapters > 0 {
            r.push(c);
            assert(sources_with_chapters(all.take(taken + 1)) == before.push(taken as int));
        } else {
            assert(sources_with_chapters(all.take(taken + 1)) == before);
        }
        taken = taken + 1;
        proof {
            let now = sources_with_chapters(all.take(taken as int));
            assert forall|i: int| 0 <= i < now.len() implies 0 <= #[trigger] now[i] < taken by {
                if i < before.len() {
                    assert(now[i] == before[i]);
                }
            }
            assert forall|i: int| 0 <= i < r@.len() implies #[trigger] r@[i] == all[now[i]] by {
                if i < before.len() {
                    assert(now[i] == before[i]);
                }
            }
        }
    }
    assert(all.take(taken as int) =~= all);
    r
}

/// The sources the catalogue knows: id, name and site.
pub const SEED_SOURCES: [(i32, &'static str, &'static str); 60] = [
    (1, "MangaDex", "https://mangadex.org"),
    (2, "FireScans", "https://firescans.xyz"),
    (3, "RizzComic", "https://rizzcomic.com"),
    (4, "MyAnimeList", "https://myanimelist.net"),
    (5, "AniList", "https://anilist.co"),
    (6, "DrakeComic", "https://drakecomic.org"),
    (7, "KDTNovels", "https://kdtnovels.com"),
    (8, "Asmotoon", "https://asmotoon.com"),
    (9, "ResetScans", "https://reset-scans.org"),
    (10, "Kagane", "https://kagane.org"),
    (11, "Asura Scans", "https://asurascans.com"),
    (12, "BookLive", "https://booklive.jp"),
    (13, "Comikey", "https://comikey.com"),
    (14, "DENPA BOOKS", "https://denpa.pub"),
    (15, "Dark Horse Comics", "https://www.darkhorse.com"),
    (16, "Day Comics", "https://daycomics.com"),
    (17, "FAKKU", "https://www.fakku.net"),
    (18, "Flame Comics", "https://flamecomics.com"),
    (19, "Grim Scans", "https://grimscans.team"),
    (20, "Hive Toons", "https://hivetoons.com"),
    (21, "INKR Comics", "https://inkr.com"),
    (22, "Irodori Comics", "https://irodoricomics.com"),
    (23, "J-Novel Club", "https://j-novel.club"),
    (24, "Kana", "https://www.kana.fr"),
    (25, "Kenscans", "https://kenscans.com"),
    (26, "Kodansha Comics", "https://kodansha.us"),
    (27, "Kodoku Studio", "https://kodokustudio.com"),
    (28, "Lezhin", "https://www.lezhinus.com"),
    (29, "Luna Toons", "https://lunatoons.com"),
    (30, "Madarascans", "https://madarascans.com"),
    (31, "Manhuaus", "https://manhuaus.com"),
    (32, "Manta", "https://manta.net"),
    (33, "MediBang", "https://medibang.com"),
    (34, "Nyx Scans", "https://nyxscans.com"),
    (35, "One Peace Books", "https://onepeacebooks.com"),
    (36, "Others", "https://example.com/others"),
    (37, "Pocket Comics", "https://www.pocketcomics.com"),
    (38, "Qi Scans", "https://qiscans.com"),
    (39, "Rizz Fables", "https://rizzfables.com"),
    (40, "Rokari Comics", "https://rokaricomics.com"),
    (41, "Seven Seas Entertainment", "https://sevenseasentertainment.com"),
    (42, "Shusuisha", "https://www.shueisha.co.jp"),
    (43, "Siren Scans", "https://sirenscans.com"),
    (44, "Square Enix Manga", "https://square-enix-books.com"),
    (45, "StoneScape", "https://stonescape.xyz"),
    (46, "TOKYOPOP", "https://tokyopop.com"),
    (47, "Tapas", "https://tapas.io"),
    (48, "Tappytoon", "https://www.tappytoon.com"),
    (49, "Temple Scan", "https://templescan.net"),
    (50, "Thunderscans", "https://thunderscans.com"),
    (51, "Titan Manga", "https://titan-comics.com"),
    (52, "Toomics", "https://toomics.com"),
    (53, "UDON Entertainment", "https://udonentertainment.com"),
    (54, "VAST Visual", "https://vastvisual.com"),
    (55, "VIZ Media", "https://www.viz.com"),
    (56, "Vortex Scans", "https://vortexscans.com"),
    (57, "Webcomics", "https://www.webcomicsapp.com"),
    (58, "Webtoon", "https://www.webtoons.com"),
    (59, "Witch Scans", "https://witchscans.com"),
    (60, "Yen Press", "https://yenpress.com"),
];

/// The statement that records a source unless its id is already present.
pub const SEED_SOURCE_SQL: &'static str =
    "INSERT OR IGNORE INTO sources (id, name, url) VALUES (?1, ?2, ?3)";

/// The value a title's optional text field is stored as: the text, or the
/// empty string.
pub fn stored_text(o: &Option<String>) -> (r: String)
    ensures
        r@ == match o {
            Some(s) => s@,
            None => Seq::<char>::empty(),
        },
{
    match o {
        Some(s) => s.clone(),
        None => String::new(),
    }
}

} // verus!
