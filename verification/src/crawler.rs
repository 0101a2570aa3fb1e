//! The catalogue that a crawl or an import assembles from the listings of
//! the sources: one title per normalized title, each with the source links
//! found for it. Also the crawl's choice of sources and its progress record.

use crate::helpers::{merge_alt_titles, normalized_title, opt_str_view, title_merge};
use crate::models::{
    copy_opt_string, link_record, manga_record, source_id_spec, LinkRecord, Manga, MangaRecord,
    MangaSourceData,
};
use crate::text::{
    chars_of, lowercase, parse_i32, parse_i32_spec, split_chars, split_seq, string_of, trim,
    trim_chars, views,
};
use std::collections::HashSet;
use vstd::prelude::*;

verus! {

/// Normalizes a title into the key under which listings are merged:
/// lowercased, without spaces and hyphens.
pub fn normalize_title(title: &str) -> (r: String)
    ensures
        r@ == normalized_title(title@),
{
    crate::helpers::normalize_title(title)
}

// ---------------------------------------------------------------------------
// The catalogue
// ---------------------------------------------------------------------------

/// A title of the catalogue: its key, its record and its source links.
#[derive(Debug)]
pub struct CatalogEntry {
    pub key: String,
    pub manga: Manga,
    pub links: Vec<MangaSourceData>,
}

/// What an entry of the catalogue holds.
pub struct EntryRecord {
    pub key: Seq<char>,
    pub manga: MangaRecord,
    pub links: Seq<LinkRecord>,
}

/// The records of source links.
pub open spec fn link_records(ls: Seq<MangaSourceData>) -> Seq<LinkRecord> {
    ls.map_values(|l: MangaSourceData| link_record(l))
}

/// The record of an entry.
pub open spec fn entry_record(e: CatalogEntry) -> EntryRecord {
    EntryRecord { key: e.key@, manga: manga_record(e.manga), links: link_records(e.links@) }
}

/// The records of entries.
pub open spec fn entry_records(es: Seq<CatalogEntry>) -> Seq<EntryRecord> {
    es.map_values(|e: CatalogEntry| entry_record(e))
}

/// A well-formed catalogue: each key is the normalized title of its entry,
/// no two entries share a key, and every link of an entry carries the id of
/// the entry's title.
pub open spec fn catalog_wf(es: Seq<EntryRecord>) -> bool {
    &&& forall|i: int| 0 <= i < es.len() ==> (#[trigger] es[i]).key == normalized_title(es[i].manga.title)
    &&& forall|i: int, j: int| 0 <= i < j < es.len() ==> (#[trigger] es[i]).key != (#[trigger] es[j]).key
    &&& forall|i: int, k: int|
        0 <= i < es.len() && 0 <= k < es[i].links.len() ==> (#[trigger] es[i].links[k]).manga_id
            == es[i].manga.id
}

/// The index of the entry with key `key`, or -1.
pub open spec fn key_index(es: Seq<EntryRecord>, key: Seq<char>) -> int
    decreases es.len(),
{
    if es.len() == 0 {
        -1
    } else if es.last().key == key {
        es.len() - 1
    } else {
        key_index(es.drop_last(), key)
    }
}

/// `key_index` finds the entry with the key, and finds none where no entry
/// has it.
pub proof fn lemma_key_index(es: Seq<EntryRecord>, key: Seq<char>)
    ensures
        -1 <= key_index(es, key) < es.len(),
        key_index(es, key) >= 0 ==> es[key_index(es, key)].key == key,
        key_index(es, key) < 0 ==> forall|i: int| 0 <= i < es.len() ==> (#[trigger] es[i]).key != key,
    decreases es.len(),
{
    if es.len() > 0 && es.last().key != key {
        lemma_key_index(es.drop_last(), key);
        if key_index(es, key) < 0 {
            assert forall|i: int| 0 <= i < es.len() implies (#[trigger] es[i]).key != key by {
                if i < es.len() - 1 {
                    assert(es[i] == es.drop_last()[i]);
                }
            }
        } else {
            assert(es[key_index(es, key)] == es.drop_last()[key_index(es, key)]);
        }
    }
}

/// `m` with the id `id`.
pub open spec fn with_id(m: MangaRecord, id: Seq<char>) -> MangaRecord {
    MangaRecord { id: id, ..m }
}

/// `m` with its cover taken from `item` where it has none.
pub open spec fn cover_filled(m: MangaRecord, item: MangaRecord) -> MangaRecord {
    MangaRecord {
        cover_url: if m.cover_url is None {
            item.cover_url
        } else {
            m.cover_url
        },
        ..m
    }
}

/// `m` with what a full import takes from another listing `item` of the same
/// title: `item`'s title (where it differs) and alternative titles merged
/// into the alternative titles, the cover and description where `m` has none,
/// and `item`'s tags merged into the tags.
pub open spec fn merged_record(m: MangaRecord, item: MangaRecord) -> MangaRecord {
    let alt1 = if item.title != m.title {
        title_merge(m.alt_titles, item.title)
    } else {
        m.alt_titles
    };
    let alt2 = match item.alt_titles {
        Some(a) => title_merge(alt1, a),
        None => alt1,
    };
    MangaRecord {
        alt_titles: alt2,
        cover_url: if m.cover_url is None {
            item.cover_url
        } else {
            m.cover_url
        },
        description: if m.description is None {
            item.description
        } else {
            m.description
        },
        tags: match item.tags {
            Some(t) => title_merge(m.tags, t),
            None => m.tags,
        },
        ..m
    }
}

/// `m` with what the full import takes from a listing `item` of a source
/// that lists titles but no details: `item`'s title (where it differs) and
/// alternative titles merged into the alternative titles, and the cover
/// where `m` has none.
pub open spec fn titles_merged_record(m: MangaRecord, item: MangaRecord) -> MangaRecord {
    let alt1 = if item.title != m.title {
        title_merge(m.alt_titles, item.title)
    } else {
        m.alt_titles
    };
    let alt2 = match item.alt_titles {
        Some(a) => title_merge(alt1, a),
        None => alt1,
    };
    MangaRecord {
        alt_titles: alt2,
        cover_url: if m.cover_url is None {
            item.cover_url
        } else {
            m.cover_url
        },
        ..m
    }
}

/// How much of a listing an entry takes.
#[derive(Debug, Clone, Copy, PartialEq, Eq, Structural)]
pub enum ListingMerge {
    /// The cover, where the entry has none.
    Cover,
    /// The titles and the cover.
    TitlesAndCover,
    /// The titles, cover, description and tags.
    Full,
}

/// `m` with what it takes from the listing `item`.
pub open spec fn listing_merged(m: MangaRecord, item: MangaRecord, how: ListingMerge) -> MangaRecord {
    match how {
        ListingMerge::Cover => cover_filled(m, item),
        ListingMerge::TitlesAndCover => titles_merged_record(m, item),
        ListingMerge::Full => merged_record(m, item),
    }
}

/// The catalogue after a listing `item` of source `source_id` is added: the
/// entry with `item`'s normalized title (a new one with id `fresh_id` where
/// there is none, at the end) takes what it takes from the listing
/// (`listing_merged`) and one more link to the source,
/// which carries the entry's id. The other entries stay as they were.
pub open spec fn catalog_step(
    es: Seq<EntryRecord>,
    item: MangaRecord,
    fresh_id: Seq<char>,
    source_id: i32,
    source_manga_id: Seq<char>,
    source_manga_url: Seq<char>,
    how: ListingMerge,
) -> Seq<EntryRecord> {
    let key = normalized_title(item.title);
    let i = key_index(es, key);
    let base = if i < 0 {
        with_id(item, fresh_id)
    } else {
        es[i].manga
    };
    let m = listing_merged(base, item, how);
    let link = LinkRecord {
        manga_id: base.id,
        source_id: source_id,
        source_manga_id: source_manga_id,
        source_manga_url: source_manga_url,
    };
    if i < 0 {
        es.push(EntryRecord { key: key, manga: m, links: seq![link] })
    } else {
        es.update(i, EntryRecord { key: es[i].key, manga: m, links: es[i].links.push(link) })
    }
}

/// A listing's cover is taken only by an entry without one: an entry that
/// already has a cover keeps it, whatever is merged, and an entry without one
/// (or a new entry) takes the listing's.
pub proof fn lemma_catalog_step_cover(
    es: Seq<EntryRecord>,
    item: MangaRecord,
    fresh_id: Seq<char>,
    source_id: i32,
    source_manga_id: Seq<char>,
    source_manga_url: Seq<char>,
    how: ListingMerge,
)
    requires
        catalog_wf(es),
    ensures
        ({
            let r = catalog_step(es, item, fresh_id, source_id, source_manga_id, source_manga_url, how);
            let key = normalized_title(item.title);
            let i = key_index(es, key);
            &&& i >= 0 && es[i].manga.cover_url is Some ==> r[i].manga.cover_url == es[i].manga.cover_url
            &&& i >= 0 && es[i].manga.cover_url is None ==> r[i].manga.cover_url == item.cover_url
            &&& i < 0 ==> r[es.len() as int].manga.cover_url == item.cover_url
            &&& forall|j: int| 0 <= j < es.len() && j != i ==> #[trigger] r[j] == es[j]
        }),
{
    let key = normalized_title(item.title);
    lemma_key_index(es, key);
}

/// The number of links of all entries.
pub open spec fn total_links(es: Seq<EntryRecord>) -> int
    decreases es.len(),
{
    if es.len() == 0 {
        0
    } else {
        total_links(es.drop_last()) + es.last().links.len()
    }
}

proof fn lemma_total_links_update(es: Seq<EntryRecord>, i: int, e: EntryRecord)
    requires
        0 <= i < es.len(),
    ensures
        total_links(es.update(i, e)) == total_links(es) - es[i].links.len() + e.links.len(),
    decreases es.len(),
{
    if i < es.len() - 1 {
        assert(es.update(i, e).drop_last() =~= es.drop_last().update(i, e));
        lemma_total_links_update(es.drop_last(), i, e);
    } else {
        assert(es.update(i, e).drop_last() =~= es.drop_last());
    }
}

/// Adding a listing keeps the catalogue well-formed, leaves exactly one
/// entry for the listing's normalized title, adds an entry only where the
/// title was new, keeps the id of a title already present, and adds exactly
/// one link.
pub proof fn lemma_catalog_step(
    es: Seq<EntryRecord>,
    item: MangaRecord,
    fresh_id: Seq<char>,
    source_id: i32,
    source_manga_id: Seq<char>,
    source_manga_url: Seq<char>,
    how: ListingMerge,
)
    requires
        catalog_wf(es),
    ensures
        ({
            let r = catalog_step(es, item, fresh_id, source_id, source_manga_id, source_manga_url, how);
            let key = normalized_title(item.title);
            let i = key_index(r, key);
            &&& catalog_wf(r)
            &&& i >= 0
            &&& forall|j: int| 0 <= j < r.len() && j != i ==> (#[trigger] r[j]).key != key
            &&& r.len() == es.len() + (if key_index(es, key) < 0 { 1int } else { 0int })
            &&& r[i].manga.id == (if key_index(es, key) < 0 { fresh_id } else { es[key_index(es, key)].manga.id })
            &&& total_links(r) == total_links(es) + 1
        }),
{
    let r = catalog_step(es, item, fresh_id, source_id, source_manga_id, source_manga_url, how);
    let key = normalized_title(item.title);
    let i0 = key_index(es, key);
    lemma_key_index(es, key);
    lemma_key_index(r, key);
    if i0 < 0 {
        assert(r.drop_last() =~= es);
        assert(r.last().key == key);
        assert(key_index(r, key) == r.len() - 1);
        assert forall|j: int, k: int|
            0 <= j < r.len() && 0 <= k < r[j].links.len() implies (#[trigger] r[j].links[k]).manga_id
            == r[j].manga.id by {
            if j < es.len() {
                assert(r[j] == es[j]);
            }
        }
        assert forall|a: int, b: int| 0 <= a < b < r.len() implies (#[trigger] r[a]).key != (
        #[trigger] r[b]).key by {
            if b < es.len() {
                assert(r[a] == es[a]);
                assert(r[b] == es[b]);
            } else {
                assert(r[a] == es[a]);
            }
        }
        assert forall|a: int| 0 <= a < r.len() implies (#[trigger] r[a]).key == normalized_title(
            r[a].manga.title,
        ) by {
            if a < es.len() {
                assert(r[a] == es[a]);
            }
        }
    } else {
        assert(r.len() == es.len());
        assert forall|a: int, b: int| 0 <= a < b < r.len() implies (#[trigger] r[a]).key != (
        #[trigger] r[b]).key by {
            assert(r[a].key == es[a].key);
            assert(r[b].key == es[b].key);
        }
        assert forall|j: int, k: int|
            0 <= j < r.len() && 0 <= k < r[j].links.len() implies (#[trigger] r[j].links[k]).manga_id
            == r[j].manga.id by {
            if j != i0 {
                assert(r[j] == es[j]);
            } else if k < es[j].links.len() {
                assert(r[j].links[k] == es[j].links[k]);
            }
        }
        assert forall|a: int| 0 <= a < r.len() implies (#[trigger] r[a]).key == normalized_title(
            r[a].manga.title,
        ) by {
            if a != i0 {
                assert(r[a] == es[a]);
            }
        }
        assert forall|j: int| 0 <= j < r.len() && j != i0 implies (#[trigger] r[j]).key != key by {
            assert(r[j] == es[j]);
        }
        assert(key_index(r, key) == i0) by {
            if key_index(r, key) != i0 {
                assert(r[key_index(r, key)].key == key);
                assert(r[i0].key == key);
            }
        }
        lemma_total_links_update(
            es,
            i0,
            EntryRecord {
                key: es[i0].key,
                manga: listing_merged(es[i0].manga, item, how),
                links: es[i0].links.push(
                    LinkRecord {
                        manga_id: es[i0].manga.id,
                        source_id: source_id,
                        source_manga_id: source_manga_id,
                        source_manga_url: source_manga_url,
                    },
                ),
            },
        );
    }
}

/// The catalogue after a link is added to the entry of `title`'s normalized
/// title, where there is one.
pub open spec fn catalog_link_added(
    es: Seq<EntryRecord>,
    title: Seq<char>,
    source_id: i32,
    source_manga_id: Seq<char>,
    source_manga_url: Seq<char>,
) -> Seq<EntryRecord> {
    let i = key_index(es, normalized_title(title));
    if i < 0 {
        es
    } else {
        es.update(
            i,
            EntryRecord {
                links: es[i].links.push(
                    LinkRecord {
                        manga_id: es[i].manga.id,
                        source_id: source_id,
                        source_manga_id: source_manga_id,
                        source_manga_url: source_manga_url,
                    },
                ),
                ..es[i]
            },
        )
    }
}

fn copy_string(s: &String) -> (r: String)
    ensures
        r@ == s@,
{
    s.clone()
}

fn make_link(manga_id: &String, source_id: i32, source_manga_id: &str, source_manga_url: &str) -> (r:
    MangaSourceData)
    ensures
        link_record(r) == (LinkRecord {
            manga_id: manga_id@,
            source_id: source_id,
            source_manga_id: source_manga_id@,
            source_manga_url: source_manga_url@,
        }),
{
    MangaSourceData {
        manga_id: copy_string(manga_id),
        source_id,
        source_manga_id: String::from_str(source_manga_id),
        source_manga_url: String::from_str(source_manga_url),
    }
}

fn merge_into(m: &mut Manga, item: &Manga, how: ListingMerge)
    ensures
        manga_record(*final(m)) == listing_merged(manga_record(*old(m)), manga_record(*item), how),
{
    let ghost m0 = manga_record(*m);
    let ghost it = manga_record(*item);
    let titles = how != ListingMerge::Cover;
    let details = how == ListingMerge::Full;
    if titles && item.title != m.title {
        merge_alt_titles(&mut m.alt_titles, item.title.as_str());
    }
    if m.cover_url.is_none() && item.cover_url.is_some() {
        m.cover_url = copy_opt_string(&item.cover_url);
    }
    if titles {
        match &item.alt_titles {
            Some(a) => merge_alt_titles(&mut m.alt_titles, a.as_str()),
            None => {},
        }
    }
    if details {
        if m.description.is_none() && item.description.is_some() {
            m.description = copy_opt_string(&item.description);
        }
        match &item.tags {
            Some(t) => merge_alt_titles(&mut m.tags, t.as_str()),
            None => {},
        }
    }
    assert(manga_record(*m) == listing_merged(m0, it, how));
}

fn find_key(entries: &Vec<CatalogEntry>, key: &String) -> (r: Option<usize>)
    ensures
        match r {
            Some(i) => i as int == key_index(entry_records(entries@), key@),
            None => key_index(entry_records(entries@), key@) < 0,
        },
{
    let ghost es = entry_records(entries@);
    let mut i: usize = entries.len();
    assert(es.take(i as int) =~= es);
    while i > 0
        invariant
            i <= entries@.len(),
            es == entry_records(entries@),
            key_index(es, key@) == key_index(es.take(i as int), key@),
        decreases i,
    {
        assert(es.take(i as int).drop_last() =~= es.take(i - 1));
        assert(es.take(i as int).last() == entry_record(entries@[i - 1]));
        if entries[i - 1].key == *key {
            return Some(i - 1);
        }
        i = i - 1;
    }
    assert(es.take(0) =~= Seq::<EntryRecord>::empty());
    None
}

/// The catalogue of a crawl or an import.
pub struct Catalog {
    entries: Vec<CatalogEntry>,
}

impl View for Catalog {
    type V = Seq<EntryRecord>;

    closed spec fn view(&self) -> Seq<EntryRecord> {
        entry_records(self.entries@)
    }
}

impl Catalog {
    #[verifier::type_invariant]
    closed spec fn inv(self) -> bool {
        catalog_wf(entry_records(self.entries@))
    }

    /// An empty catalogue.
    pub fn new() -> (c: Catalog)
        ensures
            c@ == Seq::<EntryRecord>::empty(),
            catalog_wf(c@),
    {
        let c = Catalog { entries: Vec::new() };
        assert(c@ =~= Seq::<EntryRecord>::empty());
        c
    }

    /// The number of titles.
    pub fn len(&self) -> (n: usize)
        ensures
            n == self@.len(),
            catalog_wf(self@),
    {
        proof {
            use_type_invariant(self);
        }
        self.entries.len()
    }

    /// The entries, in the order their titles were first seen.
    pub fn entries(&self) -> (r: &Vec<CatalogEntry>)
        ensures
            entry_records(r@) == self@,
    {
        &self.entries
    }

    /// The number of links of all titles.
    pub fn link_count(&self) -> (n: usize)
        requires
            total_links(self@) <= usize::MAX,
        ensures
            n == total_links(self@),
    {
        let ghost es = self@;
        let mut n: usize = 0;
        let mut i: usize = 0;
        while i < self.entries.len()
            invariant
                i <= self.entries@.len(),
                es == entry_records(self.entries@),
                total_links(es) <= usize::MAX,
                n == total_links(es.take(i as int)),
            decreases self.entries@.len() - i,
        {
            assert(es.take(i + 1).drop_last() =~= es.take(i as int));
            proof {
                lemma_total_links_prefix(es, i + 1);
            }
            n = n + self.entries[i].links.len();
            i = i + 1;
        }
        assert(es.take(i as int) =~= es);
        n
    }

    fn step(
        &mut self,
        item: &Manga,
        fresh_id: &str,
        source_id: i32,
        source_manga_id: &str,
        source_manga_url: &str,
        how: ListingMerge,
    )
        ensures
            final(self)@ == catalog_step(
                old(self)@,
                manga_record(*item),
                fresh_id@,
                source_id,
                source_manga_id@,
                source_manga_url@,
                how,
            ),
            catalog_wf(final(self)@),
    {
        proof {
            use_type_invariant(&*self);
        }
        let ghost es = self@;
        let ghost it = manga_record(*item);
        let key = normalize_title(item.title.as_str());
        let mut entries: Vec<CatalogEntry> = Vec::new();
        proof {
            assert(entry_records(entries@) =~= Seq::<EntryRecord>::empty());
        }
        std::mem::swap(&mut entries, &mut self.entries);
        assert(entry_records(entries@) == es);
        proof {
            lemma_key_index(es, key@);
            lemma_catalog_step(es, it, fresh_id@, source_id, source_manga_id@, source_manga_url@, how);
        }
        match find_key(&entries, &key) {
            None => {
                let mut m = item.duplicate();
                m.id = String::from_str(fresh_id);
                let link = make_link(&m.id, source_id, source_manga_id, source_manga_url);
                merge_into(&mut m, item, how);
                let mut links: Vec<MangaSourceData> = Vec::new();
                links.push(link);
                let e = CatalogEntry { key, manga: m, links };
                entries.push(e);
                assert(link_records(e.links@) =~= seq![link_record(link)]);
                assert(entry_records(entries@) =~= es.push(entry_record(e)));
            },
            Some(i) => {
                let mut e = entries.remove(i);
                assert(entry_record(e) == es[i as int]);
                let link = make_link(&e.manga.id, source_id, source_manga_id, source_manga_url);
                let mut m = e.manga;
                merge_into(&mut m, item, how);
                let mut links = e.links;
                links.push(link);
                assert(link_records(links@) =~= es[i as int].links.push(link_record(link)));
                let e2 = CatalogEntry { key: e.key, manga: m, links };
                entries.insert(i, e2);
                assert(entry_records(entries@) =~= es.update(i as int, entry_record(e2)));
            },
        }
        self.entries = entries;
    }

    /// Adds a source's listing of a title, as a crawl or a single-source
    /// import does: the title's entry (a new one with id `fresh_id` where the
    /// normalized title is new) takes the listing's cover where it has none,
    /// and gains a link to the source.
    pub fn add_listing(
        &mut self,
        item: &Manga,
        fresh_id: &str,
        source_id: i32,
        source_manga_id: &str,
        source_manga_url: &str,
    )
        ensures
            final(self)@ == catalog_step(
                old(self)@,
                manga_record(*item),
                fresh_id@,
                source_id,
                source_manga_id@,
                source_manga_url@,
                ListingMerge::Cover,
            ),
            catalog_wf(final(self)@),
    {
        self.step(item, fresh_id, source_id, source_manga_id, source_manga_url, ListingMerge::Cover)
    }

    /// Adds a source's listing of a title, as the full import does: as
    /// `add_listing`, and the entry also takes the listing's titles, tags and
    /// description (`merged_record`).
    pub fn merge_listing(
        &mut self,
        item: &Manga,
        fresh_id: &str,
        source_id: i32,
        source_manga_id: &str,
        source_manga_url: &str,
    )
        ensures
            final(self)@ == catalog_step(
                old(self)@,
                manga_record(*item),
                fresh_id@,
                source_id,
                source_manga_id@,
                source_manga_url@,
                ListingMerge::Full,
            ),
            catalog_wf(final(self)@),
    {
        self.step(item, fresh_id, source_id, source_manga_id, source_manga_url, ListingMerge::Full)
    }

    /// Adds a source's listing of a title, the entry taking from it what
    /// `how` says (`listing_merged`).
    pub fn add_listing_merged(
        &mut self,
        item: &Manga,
        fresh_id: &str,
        source_id: i32,
        source_manga_id: &str,
        source_manga_url: &str,
        how: ListingMerge,
    )
        ensures
            final(self)@ == catalog_step(
                old(self)@,
                manga_record(*item),
                fresh_id@,
                source_id,
                source_manga_id@,
                source_manga_url@,
                how,
            ),
            catalog_wf(final(self)@),
    {
        self.step(item, fresh_id, source_id, source_manga_id, source_manga_url, how)
    }

    /// Adds a link to another source to the entry of `title`'s normalized
    /// title; returns whether there is such an entry (else nothing changes).
    pub fn add_link(&mut self, title: &str, source_id: i32, source_manga_id: &str, source_manga_url: &str) -> (found:
        bool)
        ensures
            final(self)@ == catalog_link_added(old(self)@, title@, source_id, source_manga_id@, source_manga_url@),
            found == (key_index(old(self)@, normalized_title(title@)) >= 0),
            catalog_wf(final(self)@),
    {
        proof {
            use_type_invariant(&*self);
        }
        let ghost es = self@;
        let key = normalize_title(title);
        let mut entries: Vec<CatalogEntry> = Vec::new();
        proof {
            assert(entry_records(entries@) =~= Seq::<EntryRecord>::empty());
        }
        std::mem::swap(&mut entries, &mut self.entries);
        assert(entry_records(entries@) == es);
        proof {
            lemma_key_index(es, key@);
        }
        let found = match find_key(&entries, &key) {
            None => {
                assert(entry_records(entries@) == catalog_link_added(es, title@, source_id, source_manga_id@, source_manga_url@));
                false
            },
            Some(i) => {
                let e = entries.remove(i);
                assert(entry_record(e) == es[i as int]);
                let link = make_link(&e.manga.id, source_id, source_manga_id, source_manga_url);
                let mut links = e.links;
                links.push(link);
                assert(link_records(links@) =~= es[i as int].links.push(link_record(link)));
                let e2 = CatalogEntry { key: e.key, manga: e.manga, links };
                entries.insert(i, e2);
                assert(entry_records(entries@) =~= es.update(i as int, entry_record(e2)));
                proof {
                    let r = entry_records(entries@);
                    assert forall|a: int, b: int| 0 <= a < b < r.len() implies (#[trigger] r[a]).key != (
                    #[trigger] r[b]).key by {
                        assert(r[a].key == es[a].key);
                        assert(r[b].key == es[b].key);
                    }
                    assert forall|j: int, k: int|
                        0 <= j < r.len() && 0 <= k < r[j].links.len() implies (
                        #[trigger] r[j].links[k]).manga_id == r[j].manga.id by {
                        if j != i {
                            assert(r[j] == es[j]);
                        } else if k < es[j].links.len() {
                            assert(r[j].links[k] == es[j].links[k]);
                        }
                    }
                    assert forall|a: int| 0 <= a < r.len() implies (#[trigger] r[a]).key
                        == normalized_title(r[a].manga.title) by {
                        if a != i {
                            assert(r[a] == es[a]);
                        }
                    }
                }
                true
            },
        };
        self.entries = entries;
        found
    }
}

proof fn lemma_total_links_prefix(es: Seq<EntryRecord>, i: int)
    requires
        0 <= i <= es.len(),
    ensures
        total_links(es.take(i)) <= total_links(es),
    decreases es.len() - i,
{
    if i < es.len() {
        assert(es.drop_last().take(i) =~= es.take(i));
        lemma_total_links_prefix(es.drop_last(), i);
    } else {
        assert(es.take(i) =~= es);
    }
}


// ---------------------------------------------------------------------------
// Which sources a crawl visits
// ---------------------------------------------------------------------------

/// Whether a crawl announces a source as the one in progress: it does so
/// for MangaDex and Kagane only.
pub open spec fn crawl_announces_spec(source_id: i32) -> bool {
    source_id == 1 || source_id == 10
}

/// Whether a crawl announces a source as the one in progress.
pub fn crawl_announces(source_id: i32) -> (b: bool)
    ensures
        b == crawl_announces_spec(source_id),
{
    source_id == 1 || source_id == 10
}

/// The page of a listed title: for MangaDex, the title page of its MangaDex
/// id; for the other sources, the listed series URL itself.
pub open spec fn listing_page_url_spec(source_id: i32, listed: Seq<char>) -> Seq<char> {
    if source_id == 1 {
        "https://mangadex.org/title/"@ + listed
    } else {
        listed
    }
}

/// The page of a listed title.
pub fn listing_page_url(source_id: i32, listed: &str) -> (r: String)
    ensures
        r@ == listing_page_url_spec(source_id, listed@),
{
    if source_id == 1 {
        let mut u = String::from_str("https://mangadex.org/title/");
        u.append(listed);
        u
    } else {
        String::from_str(listed)
    }
}

/// What a crawl reports for a source once it is done with it: MangaDex
/// reports the titles and links gathered so far, Kagane reports zeros, and
/// the other sources report nothing.
pub open spec fn crawl_report_spec(source_id: i32, titles: usize, links: usize) -> Option<(usize, usize)> {
    if source_id == 1 {
        Some((titles, links))
    } else if source_id == 10 {
        Some((0, 0))
    } else {
        None
    }
}

/// What a crawl reports for a source once it is done with it.
pub fn crawl_report(source_id: i32, titles: usize, links: usize) -> (r: Option<(usize, usize)>)
    ensures
        r == crawl_report_spec(source_id, titles, links),
{
    if source_id == 1 {
        Some((titles, links))
    } else if source_id == 10 {
        Some((0, 0))
    } else {
        None
    }
}

/// The sources a full crawl visits, in order.
pub const CRAWL_ORDER: [i32; 23] = [
    1,
    10,
    2,
    3,
    6,
    8,
    9,
    49,
    50,
    11,
    25,
    43,
    56,
    59,
    38,
    30,
    39,
    40,
    45,
    31,
    19,
    20,
    34,
];

/// The contents of an optional set of source ids.
pub open spec fn opt_id_set(o: Option<HashSet<i32>>) -> Option<Set<i32>> {
    match o {
        Some(s) => Some(s@),
        None => None,
    }
}

/// A source is crawled when it is in the included set (where there is one)
/// and not in the excluded set (where there is one).
pub open spec fn allowed_spec(source_id: i32, included: Option<Set<i32>>, excluded: Option<Set<i32>>) -> bool {
    &&& (included matches Some(inc) ==> inc.contains(source_id))
    &&& !(excluded matches Some(exc) && exc.contains(source_id))
}

/// Whether a crawl with these filters visits the source.
pub fn source_allowed(source_id: i32, included: &Option<HashSet<i32>>, excluded: &Option<HashSet<i32>>) -> (b:
    bool)
    ensures
        b == allowed_spec(source_id, opt_id_set(*included), opt_id_set(*excluded)),
{
    broadcast use vstd::std_specs::hash::group_hash_axioms;

    match included {
        Some(inc) => {
            if !inc.contains(&source_id) {
                return false;
            }
        },
        None => {},
    }
    match excluded {
        Some(exc) => {
            if exc.contains(&source_id) {
                return false;
            }
        },
        None => {},
    }
    true
}

/// The sources of `order` that the filters allow, in order.
pub open spec fn crawl_plan_spec(order: Seq<i32>, included: Option<Set<i32>>, excluded: Option<Set<i32>>) -> Seq<
    i32,
>
    decreases order.len(),
{
    if order.len() == 0 {
        Seq::empty()
    } else {
        let r = crawl_plan_spec(order.drop_last(), included, excluded);
        if allowed_spec(order.last(), included, excluded) {
            r.push(order.last())
        } else {
            r
        }
    }
}

/// The sources a crawl with these filters visits, in crawl order.
pub fn crawl_plan(included: &Option<HashSet<i32>>, excluded: &Option<HashSet<i32>>) -> (r: Vec<i32>)
    ensures
        r@ == crawl_plan_spec(CRAWL_ORDER@, opt_id_set(*included), opt_id_set(*excluded)),
{
    let mut r: Vec<i32> = Vec::new();
    let mut i: usize = 0;
    while i < 23
        invariant
            i <= 23,
            r@ == crawl_plan_spec(CRAWL_ORDER@.take(i as int), opt_id_set(*included), opt_id_set(*excluded)),
        decreases 23 - i,
    {
        assert(CRAWL_ORDER@.take(i + 1).drop_last() =~= CRAWL_ORDER@.take(i as int));
        let sid = CRAWL_ORDER[i];
        if source_allowed(sid, included, excluded) {
            r.push(sid);
        }
        i = i + 1;
    }
    assert(CRAWL_ORDER@.take(23) =~= CRAWL_ORDER@);
    r
}

/// The id a crawl filter names: a built-in source's name or id (after
/// lowercasing), else a WP-Manga source's exact name, else a number.
pub open spec fn name_to_id_spec(name: Seq<char>) -> Option<i32> {
    match crate::helpers::parse_source_lower(lowercase(name)) {
        Some(s) => Some(source_id_spec(s)),
        None => match crate::helpers::wp_source(name) {
            Some((id, _)) => Some(id),
            None => parse_i32_spec(name),
        },
    }
}

/// Resolves one name of a crawl filter to a source id.
pub fn name_to_id(name: &str) -> (r: Option<i32>)
    ensures
        r == name_to_id_spec(name@),
{
    match crate::helpers::parse_source(name) {
        Some(s) => Some(s.id()),
        None => match crate::helpers::wp_manga_source_by_name(name) {
            Some((id, _)) => Some(id),
            None => {
                let v = chars_of(name);
                parse_i32(&v)
            },
        },
    }
}

/// The ids named by a comma-separated filter: each piece trimmed and
/// resolved, the pieces that name no source left out.
pub open spec fn filter_ids(pieces: Seq<Seq<char>>) -> Set<i32>
    decreases pieces.len(),
{
    if pieces.len() == 0 {
        Set::empty()
    } else {
        match name_to_id_spec(trim(pieces.last())) {
            Some(id) => filter_ids(pieces.drop_last()).insert(id),
            None => filter_ids(pieces.drop_last()),
        }
    }
}

/// The set of source ids a comma-separated filter names.
pub fn parse_source_filter(list: &str) -> (r: HashSet<i32>)
    ensures
        r@ == filter_ids(split_seq(list@, ","@)),
{
    broadcast use vstd::std_specs::hash::group_hash_axioms;

    let v = chars_of(list);
    let sep = chars_of(",");
    proof {
        reveal_strlit(",");
    }
    let pieces = split_chars(&v, &sep);
    let ghost ps = views(pieces@);
    let mut r: HashSet<i32> = HashSet::new();
    let mut i: usize = 0;
    while i < pieces.len()
        invariant
            i <= pieces@.len(),
            ps == views(pieces@),
            r@ == filter_ids(ps.take(i as int)),
        decreases pieces@.len() - i,
    {
        assert(ps.take(i + 1).drop_last() =~= ps.take(i as int));
        assert(ps.take(i + 1).last() == pieces@[i as int]@);
        let t = trim_chars(&pieces[i]);
        let ts = string_of(&t);
        match name_to_id(ts.as_str()) {
            Some(id) => {
                r.insert(id);
            },
            None => {},
        }
        i = i + 1;
    }
    assert(ps.take(pieces@.len() as int) =~= ps);
    r
}

/// The filters of a crawl request: the included and excluded lists where given;
/// where neither is given, Kagane is excluded.
pub open spec fn crawl_filters_spec(included: Option<Seq<char>>, excluded: Option<Seq<char>>) -> (
    Option<Set<i32>>,
    Option<Set<i32>>,
) {
    let inc = match included {
        Some(l) => Some(filter_ids(split_seq(l, ","@))),
        None => None,
    };
    let exc = match excluded {
        Some(l) => Some(filter_ids(split_seq(l, ","@))),
        None => None,
    };
    if inc is None && exc is None {
        (None, Some(Set::empty().insert(10i32)))
    } else {
        (inc, exc)
    }
}

/// Reads the included and excluded lists of a crawl request.
pub fn crawl_filters(included: Option<&str>, excluded: Option<&str>) -> (r: (
    Option<HashSet<i32>>,
    Option<HashSet<i32>>,
))
    ensures
        (opt_id_set(r.0), opt_id_set(r.1)) == crawl_filters_spec(opt_str_view(included), opt_str_view(excluded)),
{
    broadcast use vstd::std_specs::hash::group_hash_axioms;

    let inc = match included {
        Some(l) => Some(parse_source_filter(l)),
        None => None,
    };
    let exc = match excluded {
        Some(l) => Some(parse_source_filter(l)),
        None => None,
    };
    if inc.is_none() && exc.is_none() {
        let mut ex: HashSet<i32> = HashSet::new();
        ex.insert(10);
        assert(ex@ =~= Set::empty().insert(10i32));
        (None, Some(ex))
    } else {
        (inc, exc)
    }
}

/// How the chapters of a source link are fetched.
#[derive(Debug, Clone, Copy)]
pub enum ChapterFetch {
    /// MangaDex, by the title's MangaDex id.
    MangaDexById,
    /// The source's own scraper, by the series URL.
    SeriesPage,
    /// The shared WP-Manga scraper with this site base, by the series URL.
    WpManga(&'static str),
    /// The source has no chapter scraper.
    Unsupported,
}

/// How a crawl fetches the chapters of a link to the source.
pub open spec fn crawl_chapter_fetch_spec(source_id: i32) -> ChapterFetch {
    if source_id == 1 {
        ChapterFetch::MangaDexById
    } else if source_id == 10 || source_id == 2 || source_id == 3 || source_id == 6 || source_id == 8
        || source_id == 9 || source_id == 49 || source_id == 50 {
        ChapterFetch::SeriesPage
    } else if source_id == 11 {
        ChapterFetch::WpManga("https://asurascans.com")
    } else if source_id == 25 {
        ChapterFetch::WpManga("https://kenscans.com")
    } else if source_id == 43 {
        ChapterFetch::WpManga("https://sirenscans.com")
    } else if source_id == 56 {
        ChapterFetch::WpManga("https://vortexscans.com")
    } else if source_id == 59 {
        ChapterFetch::WpManga("https://witchscans.com")
    } else if source_id == 38 {
        ChapterFetch::WpManga("https://qiscans.com")
    } else if source_id == 30 {
        ChapterFetch::WpManga("https://madarascans.com")
    } else if source_id == 39 {
        ChapterFetch::WpManga("https://rizzfables.com")
    } else if source_id == 40 {
        ChapterFetch::WpManga("https://rokaricomics.com")
    } else if source_id == 45 {
        ChapterFetch::WpManga("https://stonescape.xyz")
    } else if source_id == 31 {
        ChapterFetch::WpManga("https://manhuaus.com")
    } else if source_id == 19 {
        ChapterFetch::WpManga("https://grimscans.team")
    } else if source_id == 20 {
        ChapterFetch::WpManga("https://hivetoons.com")
    } else if source_id == 34 {
        ChapterFetch::WpManga("https://nyxscans.com")
    } else {
        ChapterFetch::Unsupported
    }
}

/// How a crawl fetches the chapters of a link to this source.
pub fn crawl_chapter_fetch(source_id: i32) -> (r: ChapterFetch)
    ensures
        r == crawl_chapter_fetch_spec(source_id),
{
    if source_id == 1 {
        ChapterFetch::MangaDexById
    } else if source_id == 10 || source_id == 2 || source_id == 3 || source_id == 6 || source_id
        == 8 || source_id == 9 || source_id == 49 || source_id == 50 {
        ChapterFetch::SeriesPage
    } else if source_id == 11 {
        ChapterFetch::WpManga("https://asurascans.com")
    } else if source_id == 25 {
        ChapterFetch::WpManga("https://kenscans.com")
    } else if source_id == 43 {
        ChapterFetch::WpManga("https://sirenscans.com")
    } else if source_id == 56 {
        ChapterFetch::WpManga("https://vortexscans.com")
    } else if source_id == 59 {
        ChapterFetch::WpManga("https://witchscans.com")
    } else if source_id == 38 {
        ChapterFetch::WpManga("https://qiscans.com")
    } else if source_id == 30 {
        ChapterFetch::WpManga("https://madarascans.com")
    } else if source_id == 39 {
        ChapterFetch::WpManga("https://rizzfables.com")
    } else if source_id == 40 {
        ChapterFetch::WpManga("https://rokaricomics.com")
    } else if source_id == 45 {
        ChapterFetch::WpManga("https://stonescape.xyz")
    } else if source_id == 31 {
        ChapterFetch::WpManga("https://manhuaus.com")
    } else if source_id == 19 {
        ChapterFetch::WpManga("https://grimscans.team")
    } else if source_id == 20 {
        ChapterFetch::WpManga("https://hivetoons.com")
    } else if source_id == 34 {
        ChapterFetch::WpManga("https://nyxscans.com")
    } else {
        ChapterFetch::Unsupported
    }
}

/// How the scheduler refreshes the chapters of a link to the source: the
/// built-in scrapers only.
pub open spec fn scheduler_chapter_fetch_spec(source_id: i32) -> ChapterFetch {
    if source_id == 1 {
        ChapterFetch::MangaDexById
    } else if source_id == 2 || source_id == 3 || source_id == 6 || source_id == 8 || source_id == 9
        || source_id == 10 {
        ChapterFetch::SeriesPage
    } else {
        ChapterFetch::Unsupported
    }
}

/// How the scheduler refreshes the chapters of a link to this source.
pub fn scheduler_chapter_fetch(source_id: i32) -> (r: ChapterFetch)
    ensures
        r == scheduler_chapter_fetch_spec(source_id),
{
    if source_id == 1 {
        ChapterFetch::MangaDexById
    } else if source_id == 2 || source_id == 3 || source_id == 6 || source_id == 8 || source_id
        == 9 || source_id == 10 {
        ChapterFetch::SeriesPage
    } else {
        ChapterFetch::Unsupported
    }
}

// ---------------------------------------------------------------------------
// Progress of a crawl
// ---------------------------------------------------------------------------

/// What one source contributed to a crawl.
#[derive(Debug, Clone)]
pub struct SourceProgress {
    pub name: String,
    pub fetched_manga: usize,
    pub inserted_msd: usize,
}

/// The progress record of a crawl.
#[derive(Debug)]
pub struct CrawlProgress {
    pub in_progress: bool,
    pub started_at: Option<i64>,
    pub finished_at: Option<i64>,
    pub current_source: Option<String>,
    pub sources: Vec<SourceProgress>,
    pub error: Option<String>,
}

/// An idle progress record, with nothing recorded.
pub open spec fn is_idle_progress(p: CrawlProgress) -> bool {
    &&& !p.in_progress
    &&& p.started_at is None
    &&& p.finished_at is None
    &&& p.current_source is None
    &&& p.sources@.len() == 0
    &&& p.error is None
}

impl Default for CrawlProgress {
    fn default() -> (p: CrawlProgress)
        ensures
            is_idle_progress(p),
    {
        CrawlProgress {
            in_progress: false,
            started_at: None,
            finished_at: None,
            current_source: None,
            sources: Vec::new(),
            error: None,
        }
    }
}

impl CrawlProgress {
    /// The record of a crawl that started at `now` (seconds since the epoch).
    pub fn started(now: i64) -> (p: CrawlProgress)
        ensures
            p.in_progress,
            p.started_at == Some(now),
            p.finished_at is None,
            p.current_source is None,
            p.sources@.len() == 0,
            p.error is None,
    {
        CrawlProgress {
            in_progress: true,
            started_at: Some(now),
            finished_at: None,
            current_source: None,
            sources: Vec::new(),
            error: None,
        }
    }

    /// Records that the crawl moved on to the source `name`.
    pub fn begin_source(&mut self, name: &str)
        ensures
            opt_str_view(Some(name)) == match final(self).current_source {
                Some(s) => Some(s@),
                None => None,
            },
            final(self).in_progress == old(self).in_progress,
            final(self).started_at == old(self).started_at,
            final(self).finished_at == old(self).finished_at,
            final(self).sources@ == old(self).sources@,
            final(self).error == old(self).error,
    {
        self.current_source = Some(String::from_str(name));
    }

    /// Records what a source contributed.
    pub fn record_source(&mut self, name: &str, fetched_manga: usize, inserted_msd: usize)
        ensures
            final(self).sources@.len() == old(self).sources@.len() + 1,
            forall|i: int| 0 <= i < old(self).sources@.len() ==> final(self).sources@[i] == old(self).sources@[i],
            final(self).sources@.last().name@ == name@,
            final(self).sources@.last().fetched_manga == fetched_manga,
            final(self).sources@.last().inserted_msd == inserted_msd,
            final(self).in_progress == old(self).in_progress,
            final(self).started_at == old(self).started_at,
            final(self).finished_at == old(self).finished_at,
            final(self).current_source == old(self).current_source,
            final(self).error == old(self).error,
    {
        self.sources.push(SourceProgress { name: String::from_str(name), fetched_manga, inserted_msd });
    }

    /// Records that the crawl finished at `now`.
    pub fn finish(&mut self, now: i64)
        ensures
            !final(self).in_progress,
            final(self).finished_at == Some(now),
            final(self).current_source is None,
            final(self).started_at == old(self).started_at,
            final(self).sources@ == old(self).sources@,
            final(self).error == old(self).error,
    {
        self.in_progress = false;
        self.finished_at = Some(now);
        self.current_source = None;
    }
}

} // verus!
