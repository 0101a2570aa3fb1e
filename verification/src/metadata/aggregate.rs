//! Merging the metadata reported by the providers into a title's
//! description, tags and rating.

use crate::models::opt_text;
use crate::text::{
    chars_of, insert_sorted, join_chars, lemma_sorted_insert_exists, join_seq, lemma_sorted_unique, string_of, strictly_sorted, trim,
    trim_chars, views,
};
use vstd::prelude::*;

verus! {

/// What one provider reported of a title.
#[derive(Debug)]
pub struct ProviderDetails {
    pub description: Option<String>,
    pub genres: Vec<String>,
}

/// The fields a merge writes; `None` leaves the stored value as it is.
#[derive(Debug)]
pub struct MetadataUpdate {
    pub description: Option<String>,
    pub tags: Option<String>,
    pub rating: Option<String>,
}

/// The description of the first provider, in order, that reported one.
pub open spec fn first_description(ds: Seq<ProviderDetails>) -> Option<Seq<char>>
    decreases ds.len(),
{
    if ds.len() == 0 {
        None
    } else {
        match ds[0].description {
            Some(d) => Some(d@),
            None => first_description(ds.drop_first()),
        }
    }
}

/// The views of strings.
pub open spec fn texts(v: Seq<String>) -> Seq<Seq<char>> {
    v.map_values(|x: String| x@)
}

/// All genres reported, provider by provider.
pub open spec fn all_genres(ds: Seq<ProviderDetails>) -> Seq<Seq<char>>
    decreases ds.len(),
{
    if ds.len() == 0 {
        Seq::empty()
    } else {
        all_genres(ds.drop_last()) + texts(ds.last().genres@)
    }
}

/// The strictly ascending list of the distinct strings of `all`.
pub open spec fn sorted_set(all: Seq<Seq<char>>) -> Seq<Seq<char>> {
    choose|l: Seq<Seq<char>>|
        strictly_sorted(l) && forall|t: Seq<char>| #[trigger] l.contains(t) <==> all.contains(t)
}

/// The tags of a merge: the distinct genres in ascending order, joined by
/// ", "; `None` where no genre was reported.
pub open spec fn merged_tags(all: Seq<Seq<char>>) -> Option<Seq<char>> {
    if all.len() == 0 {
        None
    } else {
        Some(join_seq(sorted_set(all), ", "@))
    }
}

/// The rating of a merge: MyAnimeList's where it gave one, else "erotica"
/// where AniList marks the title as adult.
pub open spec fn merged_rating(mal_rating: Option<Seq<char>>, anilist_adult: Option<bool>) -> Option<
    Seq<char>,
> {
    match mal_rating {
        Some(r) => Some(r),
        None => if anilist_adult == Some(true) {
            Some("erotica"@)
        } else {
            None
        },
    }
}

/// A description is written only where it is not blank.
pub open spec fn shown_description(d: Option<Seq<char>>) -> Option<Seq<char>> {
    match d {
        Some(x) => if trim(x).len() > 0 {
            Some(x)
        } else {
            None
        },
        None => None,
    }
}

/// The genres reported, in any order, lead to the same tags.
pub proof fn lemma_merged_tags_order(a: Seq<Seq<char>>, b: Seq<Seq<char>>)
    ensures
        merged_tags(a + b) == merged_tags(b + a),
{
    if (a + b).len() > 0 {
        let l1 = sorted_set(a + b);
        let l2 = sorted_set(b + a);
        lemma_sorted_set_exists(a + b);
        lemma_sorted_set_exists(b + a);
        assert forall|t: Seq<char>| (a + b).contains(t) <==> (b + a).contains(t) by {
            if (a + b).contains(t) {
                let k = choose|k: int| 0 <= k < (a + b).len() && (a + b)[k] == t;
                if k < a.len() {
                    assert((b + a)[b.len() + k] == t);
                } else {
                    assert((b + a)[k - a.len()] == t);
                }
            }
            if (b + a).contains(t) {
                let k = choose|k: int| 0 <= k < (b + a).len() && (b + a)[k] == t;
                if k < b.len() {
                    assert((a + b)[a.len() + k] == t);
                } else {
                    assert((a + b)[k - b.len()] == t);
                }
            }
        }
        lemma_sorted_unique(l1, l2);
    }
}

/// Some strictly ascending list holds exactly the strings of `all`.
pub proof fn lemma_sorted_set_exists(all: Seq<Seq<char>>)
    ensures
        strictly_sorted(sorted_set(all)),
        forall|t: Seq<char>| #[trigger] sorted_set(all).contains(t) <==> all.contains(t),
    decreases all.len(),
{
    let w = sorted_witness(all);
    assert(strictly_sorted(w) && forall|t: Seq<char>| #[trigger] w.contains(t) <==> all.contains(t));
}

proof fn sorted_witness(all: Seq<Seq<char>>) -> (l: Seq<Seq<char>>)
    ensures
        strictly_sorted(l),
        forall|t: Seq<char>| #[trigger] l.contains(t) <==> all.contains(t),
    decreases all.len(),
{
    if all.len() == 0 {
        let l = Seq::<Seq<char>>::empty();
        assert forall|t: Seq<char>| #[trigger] l.contains(t) <==> all.contains(t) by {}
        l
    } else {
        let rest = sorted_witness(all.drop_last());
        let x = all.last();
        let l = sorted_insert_spec(rest, x);
        assert forall|t: Seq<char>| #[trigger] l.contains(t) <==> all.contains(t) by {
            if all.contains(t) && t != x {
                let k = choose|k: int| 0 <= k < all.len() && all[k] == t;
                assert(all.drop_last()[k] == t);
                assert(all.drop_last().contains(t));
            }
            if all.drop_last().contains(t) {
                let k = choose|k: int| 0 <= k < all.drop_last().len() && all.drop_last()[k] == t;
                assert(all[k] == t);
            }
            assert(all[all.len() - 1] == x);
        }
        l
    }
}

proof fn sorted_insert_spec(l: Seq<Seq<char>>, x: Seq<char>) -> (r: Seq<Seq<char>>)
    requires
        strictly_sorted(l),
    ensures
        strictly_sorted(r),
        forall|t: Seq<char>| #[trigger] r.contains(t) <==> (l.contains(t) || t == x),
{
    lemma_sorted_insert_exists(l, x)
}

proof fn lemma_push_contains(s: Seq<Seq<char>>, v: Seq<char>, t: Seq<char>)
    ensures
        s.push(v).contains(t) <==> (s.contains(t) || t == v),
{
    if s.push(v).contains(t) {
        let j = choose|j: int| 0 <= j < s.push(v).len() && s.push(v)[j] == t;
        if j < s.len() {
            assert(s[j] == t);
        }
    }
    if s.contains(t) {
        let j = choose|j: int| 0 <= j < s.len() && s[j] == t;
        assert(s.push(v)[j] == t);
    }
    if t == v {
        assert(s.push(v)[s.len() as int] == t);
    }
}

/// The update a merge writes for the details reported by the providers that
/// answered (in the order MangaBaka, MyAnimeList, AniList), MyAnimeList's
/// rating and AniList's adult flag.
pub open spec fn merge_spec(
    ds: Seq<ProviderDetails>,
    mal_rating: Option<Seq<char>>,
    anilist_adult: Option<bool>,
) -> (Option<Seq<char>>, Option<Seq<char>>, Option<Seq<char>>) {
    (
        shown_description(first_description(ds)),
        merged_tags(all_genres(ds)),
        merged_rating(mal_rating, anilist_adult),
    )
}

/// Merges what the providers reported: the first description (where it is
/// not blank), the distinct genres sorted and joined by ", ", and a rating.
pub fn merge_metadata(details: &Vec<ProviderDetails>, mal_rating: &Option<String>, anilist_adult: Option<bool>) -> (r:
    MetadataUpdate)
    ensures
        (opt_text(r.description), opt_text(r.tags), opt_text(r.rating)) == merge_spec(
            details@,
            opt_text(*mal_rating),
            anilist_adult,
        ),
{
    let ghost ds = details@;
    let mut descr: Option<String> = None;
    let mut list: Vec<Vec<char>> = Vec::new();
    let mut any_genre = false;
    assert(views(list@) =~= Seq::<Seq<char>>::empty());
    let mut i: usize = 0;
    assert(ds.skip(0) =~= ds);
    while i < details.len()
        invariant
            i <= ds.len(),
            ds == details@,
            match descr {
                Some(d) => first_description(ds) == Some(d@),
                None => first_description(ds) == first_description(ds.skip(i as int)),
            },
            strictly_sorted(views(list@)),
            forall|t: Seq<char>| #[trigger] views(list@).contains(t) <==> all_genres(ds.take(i as int)).contains(t),
            any_genre == (all_genres(ds.take(i as int)).len() > 0),
        decreases ds.len() - i,
    {
        assert(ds.skip(i as int)[0] == ds[i as int]);
        assert(ds.skip(i as int).drop_first() =~= ds.skip(i + 1));
        if descr.is_none() {
            match &details[i].description {
                Some(d) => {
                    descr = Some(d.clone());
                },
                None => {},
            }
        }
        let ghost before = views(list@);
        let ghost prev = all_genres(ds.take(i as int));
        assert(ds.take(i + 1).drop_last() =~= ds.take(i as int));
        assert(all_genres(ds.take(i + 1)) == prev + texts(details@[i as int].genres@));
        let g = &details[i].genres;
        let mut k: usize = 0;
        while k < g.len()
            invariant
                k <= g@.len(),
                strictly_sorted(views(list@)),
                forall|t: Seq<char>| #[trigger] views(list@).contains(t) <==> (prev + texts(g@).take(k as int)).contains(t),
            decreases g@.len() - k,
        {
            let x = chars_of(g[k].as_str());
            let ghost cur = views(list@);
            let ghost b0 = prev + texts(g@).take(k as int);
            let ghost b1 = prev + texts(g@).take(k + 1);
            assert(b1 =~= b0.push(g@[k as int]@));
            insert_sorted(&mut list, x);
            assert forall|t: Seq<char>| #[trigger] views(list@).contains(t) <==> b1.contains(t) by {
                assert(cur.contains(t) <==> b0.contains(t));
                lemma_push_contains(b0, g@[k as int]@, t);
            }
            k = k + 1;
        }
        assert(texts(g@).take(g@.len() as int) =~= texts(g@));
        if g.len() > 0 {
            any_genre = true;
        }
        i = i + 1;
    }
    assert(ds.take(ds.len() as int) =~= ds);
    let description = match descr {
        Some(d) => {
            let t = trim_chars(&chars_of(d.as_str()));
            if t.len() > 0 {
                Some(d)
            } else {
                None
            }
        },
        None => {
            assert(ds.skip(ds.len() as int) =~= Seq::<ProviderDetails>::empty());
            None
        },
    };
    let tags = if any_genre {
        proof {
            lemma_sorted_set_exists(all_genres(ds));
            lemma_sorted_unique(views(list@), sorted_set(all_genres(ds)));
        }
        let sep = chars_of(", ");
        let joined = join_chars(&list, &sep);
        Some(string_of(&joined))
    } else {
        None
    };
    let rating = match mal_rating {
        Some(r) => Some(r.clone()),
        None => if anilist_adult == Some(true) {
            Some(String::from_str("erotica"))
        } else {
            None
        },
    };
    MetadataUpdate { description, tags, rating }
}

/// Whether a merge writes anything.
pub fn needs_update(u: &MetadataUpdate) -> (b: bool)
    ensures
        b == (u.description is Some || u.tags is Some || u.rating is Some),
{
    u.description.is_some() || u.tags.is_some() || u.rating.is_some()
}

} // verus!
