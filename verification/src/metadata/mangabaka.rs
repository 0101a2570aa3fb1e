//! MangaBaka: finding a title's id and reading its details.

use super::json::{
    array_of, element_strings, element_strings_spec, first_present, first_present_of, get_spec, int_of,
    member, opt_array, opt_i64, opt_str, text_of, texts, JsonValue,
};
use super::{match_key, match_key_of, url_encode, url_encoded};
use crate::models::opt_text;
use crate::text::{decimal, decimal_chars, string_of};
use vstd::prelude::*;

verus! {

/// Normalizes a title for comparison with MangaBaka's titles.
pub fn normalize(s: &str) -> (r: String)
    ensures
        r@ == match_key(s@),
{
    match_key_of(s)
}

/// The MangaBaka search URL for a query.
pub fn search_url(query: &str) -> (r: String)
    ensures
        r@ == "https://mangabaka.dev/api/search?query="@ + url_encoded(query@),
{
    let mut u = String::from_str("https://mangabaka.dev/api/search?query=");
    let q = url_encode(query);
    u.append(q.as_str());
    u
}

/// The views of (name, id) pairs.
pub open spec fn item_views(v: Seq<(String, String)>) -> Seq<(Seq<char>, Seq<char>)> {
    v.map_values(|x: (String, String)| (x.0@, x.1@))
}

/// The id of a search result: the `id` string, else the `id` integer
/// written in decimal, else "".
pub open spec fn baka_id(x: JsonValue) -> Seq<char> {
    let id = get_spec(x, "id"@);
    match opt_str(id) {
        Some(s) => s,
        None => match opt_i64(id) {
            Some(n) => decimal(n as int),
            None => Seq::empty(),
        },
    }
}

/// A result of a MangaBaka search: its `name` (else `title`) string, ""
/// where that is not a string, and its id.
pub open spec fn baka_item(x: JsonValue) -> (Seq<char>, Seq<char>) {
    (
        match opt_str(first_present(get_spec(x, "name"@), get_spec(x, "title"@))) {
            Some(s) => s,
            None => Seq::empty(),
        },
        baka_id(x),
    )
}

/// The array of results of a MangaBaka search answer: its `results` array,
/// else its `data` array.
pub open spec fn baka_results(v: JsonValue) -> Option<Seq<JsonValue>> {
    match opt_array(get_spec(v, "results"@)) {
        Some(a) => Some(a),
        None => opt_array(get_spec(v, "data"@)),
    }
}

/// The results of a MangaBaka search answer, none where it has no array of
/// results.
pub open spec fn baka_search_items(v: JsonValue) -> Seq<(Seq<char>, Seq<char>)> {
    match baka_results(v) {
        Some(a) => Seq::new(a.len(), |i: int| baka_item(a[i])),
        None => Seq::empty(),
    }
}

fn item_of(x: &JsonValue) -> (r: (String, String))
    ensures
        (r.0@, r.1@) == baka_item(*x),
{
    let name = match text_of(first_present_of(member(x, "name"), member(x, "title"))) {
        Some(s) => s,
        None => String::new(),
    };
    let id_value = member(x, "id");
    let id = match text_of(id_value) {
        Some(s) => s,
        None => match int_of(id_value) {
            Some(n) => string_of(&decimal_chars(n)),
            None => String::new(),
        },
    };
    (name, id)
}

/// Reads the results of a MangaBaka search answer.
pub fn search_items(v: &JsonValue) -> (r: Vec<(String, String)>)
    ensures
        item_views(r@) == baka_search_items(*v),
{
    let mut out: Vec<(String, String)> = Vec::new();
    let arr = match array_of(member(v, "results")) {
        Some(a) => Some(a),
        None => array_of(member(v, "data")),
    };
    match arr {
        Some(a) => {
            assert(baka_results(*v) == Some(a@));
            let mut i: usize = 0;
            while i < a.len()
                invariant
                    i <= a@.len(),
                    item_views(out@) == Seq::new(i as nat, |k: int| baka_item(a@[k])),
                decreases a@.len() - i,
            {
                let (name, id) = item_of(&a[i]);
                let ghost before = out@;
                assert(item_views(before).len() == before.len());
                out.push((name, id));
                assert forall|k: int| 0 <= k < i + 1 implies #[trigger] item_views(out@)[k] == baka_item(
                    a@[k],
                ) by {
                    if k < i {
                        assert(out@[k] == before[k]);
                        assert(item_views(before)[k] == baka_item(a@[k]));
                    }
                }
                assert(item_views(out@) =~= Seq::new((i + 1) as nat, |k: int| baka_item(a@[k])));
                i = i + 1;
            }
            assert(item_views(out@) =~= baka_search_items(*v));
        },
        None => {
            assert(item_views(out@) =~= baka_search_items(*v));
        },
    }
    out
}

/// A search result matches the query: it has an id and a name, and the
/// name's comparison key is the query's.
pub open spec fn item_matches(item: (Seq<char>, Seq<char>), query: Seq<char>) -> bool {
    item.1.len() > 0 && item.0.len() > 0 && match_key(item.0) == match_key(query)
}

/// The id of the first result that matches the query.
pub open spec fn first_match_id(items: Seq<(Seq<char>, Seq<char>)>, query: Seq<char>) -> Option<Seq<char>>
    decreases items.len(),
{
    if items.len() == 0 {
        None
    } else if item_matches(items[0], query) {
        Some(items[0].1)
    } else {
        first_match_id(items.drop_first(), query)
    }
}

/// The id of the first search result that matches the query.
pub fn pick_match(items: &Vec<(String, String)>, query: &str) -> (r: Option<String>)
    ensures
        opt_text(r) == first_match_id(item_views(items@), query@),
{
    let target = normalize(query);
    let ghost all = item_views(items@);
    let mut i: usize = 0;
    assert(all.skip(0) =~= all);
    while i < items.len()
        invariant
            i <= items@.len(),
            all == item_views(items@),
            target@ == match_key(query@),
            first_match_id(all, query@) == first_match_id(all.skip(i as int), query@),
        decreases items@.len() - i,
    {
        assert(all.skip(i as int)[0] == (items@[i as int].0@, items@[i as int].1@));
        assert(all.skip(i as int).drop_first() =~= all.skip(i + 1));
        let name = &items[i].0;
        let id = &items[i].1;
        if id.unicode_len() > 0 && name.unicode_len() > 0 {
            let key = normalize(name.as_str());
            if key == target {
                return Some(id.clone());
            }
        }
        i = i + 1;
    }
    assert(all.skip(i as int) =~= Seq::<(Seq<char>, Seq<char>)>::empty());
    None
}

/// The id a MangaBaka search answer gives for the query: that of its first
/// matching result; `None` where there is none or the answer is not JSON
/// (`json` is `None`).
pub fn match_in_response(json: &Option<JsonValue>, query: &str) -> (r: Option<String>)
    ensures
        opt_text(r) == match json {
            Some(v) => first_match_id(baka_search_items(*v), query@),
            None => None,
        },
{
    match json {
        Some(v) => {
            let items = search_items(v);
            pick_match(&items, query)
        },
        None => None,
    }
}

/// The MangaBaka URL of a title's details.
pub fn details_url(provider_id: &str) -> (r: String)
    ensures
        r@ == "https://mangabaka.dev/api/manga/"@ + provider_id@,
{
    let mut u = String::from_str("https://mangabaka.dev/api/manga/");
    u.append(provider_id);
    u
}

/// The details in a MangaBaka answer: the `description` (else `synopsis`)
/// string, and for each element of `genres` the element itself where it is
/// a string, else its `name` string where it has one.
pub open spec fn baka_details(v: JsonValue) -> (Option<Seq<char>>, Seq<Seq<char>>) {
    (
        opt_str(first_present(get_spec(v, "description"@), get_spec(v, "synopsis"@))),
        match opt_array(get_spec(v, "genres"@)) {
            Some(a) => element_strings_spec(a, true, true),
            None => Seq::empty(),
        },
    )
}

/// Reads the details of a MangaBaka answer.
pub fn details(v: &JsonValue) -> (r: (Option<String>, Vec<String>))
    ensures
        (opt_text(r.0), texts(r.1@)) == baka_details(*v),
{
    let desc = text_of(first_present_of(member(v, "description"), member(v, "synopsis")));
    let genres = match array_of(member(v, "genres")) {
        Some(a) => element_strings(a, true, true),
        None => Vec::new(),
    };
    proof {
        if opt_array(get_spec(*v, "genres"@)) is None {
            assert(texts(genres@) =~= Seq::<Seq<char>>::empty());
        }
    }
    (desc, genres)
}

/// The details of a title from the answer to a details request: nothing
/// where the request did not succeed, else what the answer holds, an answer
/// that is not JSON (`json` is `None`) read as `null`.
pub fn details_from_response(status_ok: bool, json: &Option<JsonValue>) -> (r: (Option<String>, Vec<String>))
    ensures
        !status_ok ==> r.0 is None && r.1@.len() == 0,
        status_ok ==> (opt_text(r.0), texts(r.1@)) == baka_details(
            match json {
                Some(v) => *v,
                None => JsonValue::Null,
            },
        ),
{
    if !status_ok {
        return (None, Vec::new());
    }
    match json {
        Some(v) => details(v),
        None => {
            let r: (Option<String>, Vec<String>) = (None, Vec::new());
            assert(texts(r.1@) =~= Seq::<Seq<char>>::empty());
            r
        },
    }
}

} // verus!
