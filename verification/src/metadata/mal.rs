//! MyAnimeList, through the Jikan API: finding a title's id and reading its
//! details.

use super::json::{
    array_of, element_strings, element_strings_spec, get_spec, int_of, member, member_of, opt_array,
    opt_get, opt_i64, opt_str, text_of, texts, JsonValue,
};
use super::{match_key, match_key_of, url_encode, url_encoded, ProviderError};
use crate::models::opt_text;
use vstd::prelude::*;

verus! {

/// Normalizes a title for comparison with MyAnimeList's titles.
pub fn normalize(s: &str) -> (r: String)
    ensures
        r@ == match_key(s@),
{
    match_key_of(s)
}

/// The Jikan search URL for a query (five results).
pub fn search_url(query: &str) -> (r: String)
    ensures
        r@ == "https://api.jikan.moe/v4/manga?q="@ + url_encoded(query@) + "&limit=5"@,
{
    let mut u = String::from_str("https://api.jikan.moe/v4/manga?q=");
    let q = url_encode(query);
    u.append(q.as_str());
    u.append("&limit=5");
    u
}

/// The views of (title, id) pairs.
pub open spec fn item_views(v: Seq<(String, i64)>) -> Seq<(Seq<char>, i64)> {
    v.map_values(|x: (String, i64)| (x.0@, x.1))
}

/// A result of a Jikan search: its `title` string ("" where missing) and
/// its `mal_id` integer (0 where missing).
pub open spec fn jikan_item(x: JsonValue) -> (Seq<char>, i64) {
    (
        match opt_str(get_spec(x, "title"@)) {
            Some(t) => t,
            None => Seq::empty(),
        },
        match opt_i64(get_spec(x, "mal_id"@)) {
            Some(n) => n,
            None => 0,
        },
    )
}

/// The results of a Jikan search answer: one for each element of its `data`
/// array, none where there is no such array.
pub open spec fn jikan_search_items(v: JsonValue) -> Seq<(Seq<char>, i64)> {
    match opt_array(get_spec(v, "data"@)) {
        Some(a) => Seq::new(a.len(), |i: int| jikan_item(a[i])),
        None => Seq::empty(),
    }
}

/// Reads the results of a Jikan search answer.
pub fn search_items(v: &JsonValue) -> (r: Vec<(String, i64)>)
    ensures
        item_views(r@) == jikan_search_items(*v),
{
    let mut out: Vec<(String, i64)> = Vec::new();
    match array_of(member(v, "data")) {
        Some(a) => {
            let mut i: usize = 0;
            while i < a.len()
                invariant
                    i <= a@.len(),
                    item_views(out@) == Seq::new(i as nat, |k: int| jikan_item(a@[k])),
                decreases a@.len() - i,
            {
                let x = &a[i];
                let title = match text_of(member(x, "title")) {
                    Some(t) => t,
                    None => String::new(),
                };
                let id = match int_of(member(x, "mal_id")) {
                    Some(n) => n,
                    None => 0,
                };
                assert(*x == a@[i as int]);
                assert(title@ == jikan_item(a@[i as int]).0);
                assert(id == jikan_item(a@[i as int]).1);
                let ghost before = out@;
                assert(item_views(before).len() == before.len());
                assert(before.len() == i);
                out.push((title, id));
                assert(out@ == before.push((title, id)));
                assert forall|k: int| 0 <= k < i + 1 implies #[trigger] item_views(out@)[k] == jikan_item(
                    a@[k],
                ) by {
                    if k < i {
                        assert(out@[k] == before[k]);
                        assert(item_views(before)[k] == jikan_item(a@[k]));
                    }
                }
                assert(item_views(out@) =~= Seq::new((i + 1) as nat, |k: int| jikan_item(a@[k])));
                i = i + 1;
            }
            assert(item_views(out@) =~= jikan_search_items(*v));
        },
        None => {
            assert(item_views(out@) =~= jikan_search_items(*v));
        },
    }
    out
}

/// A search result matches the query: it has an id and a title, and the
/// title's comparison key is the query's.
pub open spec fn item_matches(item: (Seq<char>, i64), query: Seq<char>) -> bool {
    item.1 > 0 && item.0.len() > 0 && match_key(item.0) == match_key(query)
}

/// The id of the first result that matches the query.
pub open spec fn first_match_id(items: Seq<(Seq<char>, i64)>, query: Seq<char>) -> Option<i64>
    decreases items.len(),
{
    if items.len() == 0 {
        None
    } else if item_matches(items[0], query) {
        Some(items[0].1)
    } else {
        first_match_id(items.drop_first(), query)
    }
}

/// The id of the first search result that matches the query.
pub fn pick_match(items: &Vec<(String, i64)>, query: &str) -> (r: Option<i64>)
    ensures
        r == first_match_id(item_views(items@), query@),
{
    let target = normalize(query);
    let ghost all = item_views(items@);
    let mut i: usize = 0;
    assert(all.skip(0) =~= all);
    while i < items.len()
        invariant
            i <= items@.len(),
            all == item_views(items@),
            target@ == match_key(query@),
            first_match_id(all, query@) == first_match_id(all.skip(i as int), query@),
        decreases items@.len() - i,
    {
        assert(all.skip(i as int)[0] == (items@[i as int].0@, items@[i as int].1));
        assert(all.skip(i as int).drop_first() =~= all.skip(i + 1));
        let (title, id) = (&items[i].0, items[i].1);
        if id > 0 && title.unicode_len() > 0 {
            let key = normalize(title.as_str());
            if key == target {
                return Some(id);
            }
        }
        i = i + 1;
    }
    assert(all.skip(i as int) =~= Seq::<(Seq<char>, i64)>::empty());
    None
}

/// The id a Jikan search answer gives for the query: that of its first
/// matching result; `None` where there is none or the answer is not JSON
/// (`json` is `None`).
pub fn match_in_response(json: &Option<JsonValue>, query: &str) -> (r: Option<i64>)
    ensures
        r == match json {
            Some(v) => first_match_id(jikan_search_items(*v), query@),
            None => None,
        },
{
    match json {
        Some(v) => {
            let items = search_items(v);
            pick_match(&items, query)
        },
        None => None,
    }
}

/// The Jikan URL of a title's details.
pub fn details_url(mal_id: i64) -> (r: String)
    ensures
        r@ == "https://api.jikan.moe/v4/manga/"@ + crate::text::decimal(mal_id as int),
{
    let mut u = String::from_str("https://api.jikan.moe/v4/manga/");
    let d = crate::text::decimal_chars(mal_id);
    let ds = crate::text::string_of(&d);
    u.append(ds.as_str());
    u
}

/// The details in a Jikan answer: the `synopsis` string, the `name` string
/// of each element of `genres` that has one, and the `rating` string, all
/// under `data`.
pub open spec fn jikan_details(v: JsonValue) -> (Option<Seq<char>>, Seq<Seq<char>>, Option<Seq<char>>) {
    let data = get_spec(v, "data"@);
    (
        opt_str(opt_get(data, "synopsis"@)),
        match opt_array(opt_get(data, "genres"@)) {
            Some(a) => element_strings_spec(a, false, true),
            None => Seq::empty(),
        },
        opt_str(opt_get(data, "rating"@)),
    )
}

/// Reads the details of a Jikan answer.
pub fn details(v: &JsonValue) -> (r: (Option<String>, Vec<String>, Option<String>))
    ensures
        (opt_text(r.0), texts(r.1@), opt_text(r.2)) == jikan_details(*v),
{
    let data = member(v, "data");
    let desc = text_of(member_of(data, "synopsis"));
    let genres = match array_of(member_of(data, "genres")) {
        Some(a) => element_strings(a, false, true),
        None => Vec::new(),
    };
    let rating = text_of(member_of(data, "rating"));
    proof {
        if opt_array(opt_get(get_spec(*v, "data"@), "genres"@)) is None {
            assert(texts(genres@) =~= Seq::<Seq<char>>::empty());
        }
    }
    (desc, genres, rating)
}

/// The details of a title from the answer to a details request: nothing
/// where the request did not succeed, else what the answer holds; an error
/// where a successful answer is not JSON (`json` is `None`).
pub fn details_from_response(status_ok: bool, json: &Option<JsonValue>) -> (r: Result<
    (Option<String>, Vec<String>, Option<String>),
    ProviderError,
>)
    ensures
        !status_ok ==> (r matches Ok((d, g, rt)) && d is None && g@.len() == 0 && rt is None),
        status_ok ==> match json {
            Some(v) => (r matches Ok((d, g, rt)) && (opt_text(d), texts(g@), opt_text(rt))
                == jikan_details(*v)),
            None => r == Err::<(Option<String>, Vec<String>, Option<String>), ProviderError>(
                ProviderError::InvalidJson,
            ),
        },
{
    if !status_ok {
        return Ok((None, Vec::new(), None));
    }
    match json {
        Some(v) => Ok(details(v)),
        None => Err(ProviderError::InvalidJson),
    }
}

} // verus!
