//! AniList: finding a title's id and reading its details.

use super::json::{
    array_of, bool_of, element_strings, element_strings_spec, first_present, first_present_of, get_spec,
    int_of, member, member_of, opt_array, opt_bool, opt_get, opt_i64, opt_str, text_of, texts,
    JsonValue,
};
use super::{match_key, match_key_of, ProviderError};
use crate::models::opt_text;
use vstd::prelude::*;

verus! {

/// Normalizes a title for comparison with AniList's titles.
pub fn normalize(s: &str) -> (r: String)
    ensures
        r@ == match_key(s@),
{
    match_key_of(s)
}

/// AniList's GraphQL endpoint.
pub const GRAPHQL_URL: &'static str = "https://graphql.anilist.co";

/// The GraphQL query that searches a manga by title.
pub const SEARCH_QUERY: &'static str =
    "query ($search: String) { Media(search: $search, type: MANGA) { id title { romaji english native } isAdult } }";

/// The GraphQL query that reads a manga's details by id.
pub const DETAILS_QUERY: &'static str =
    "query ($id: Int) { Media(id: $id, type: MANGA) { id description(asHtml: false) genres isAdult } }";

/// The title of a media: the first of its `english`, `romaji` and `native`
/// title members that is present, "" where that is not a string.
pub open spec fn media_title(media: JsonValue) -> Seq<char> {
    let t = get_spec(media, "title"@);
    let picked = first_present(
        opt_get(t, "english"@),
        first_present(opt_get(t, "romaji"@), opt_get(t, "native"@)),
    );
    match opt_str(picked) {
        Some(s) => s,
        None => Seq::empty(),
    }
}

/// The media of an AniList search answer: its title and its `id` integer;
/// `None` where the answer has no `data.Media`.
pub open spec fn anilist_media(v: JsonValue) -> Option<(Seq<char>, Option<i64>)> {
    match opt_get(get_spec(v, "data"@), "Media"@) {
        Some(media) => Some((media_title(media), opt_i64(get_spec(media, "id"@)))),
        None => None,
    }
}

/// Reads the media of an AniList search answer.
pub fn media(v: &JsonValue) -> (r: Option<(String, Option<i64>)>)
    ensures
        match r {
            Some((t, id)) => anilist_media(*v) == Some((t@, id)),
            None => anilist_media(*v) is None,
        },
{
    match member_of(member(v, "data"), "Media") {
        Some(m) => {
            let t = member(m, "title");
            let picked = first_present_of(
                member_of(t, "english"),
                first_present_of(member_of(t, "romaji"), member_of(t, "native")),
            );
            let title = match text_of(picked) {
                Some(s) => s,
                None => String::new(),
            };
            Some((title, int_of(member(m, "id"))))
        },
        None => None,
    }
}

/// The id a search answer gives for the query: the media's, where it has an
/// id and a title whose comparison key is the query's.
pub open spec fn media_match(media: Option<(Seq<char>, Option<i64>)>, query: Seq<char>) -> Option<i64> {
    match media {
        Some((title, Some(id))) => if title.len() > 0 && match_key(title) == match_key(query) {
            Some(id)
        } else {
            None
        },
        _ => None,
    }
}

/// The id an AniList search answer gives for the query; `None` where the
/// answer is not JSON (`json` is `None`).
pub fn match_in_response(json: &Option<JsonValue>, query: &str) -> (r: Option<i64>)
    ensures
        r == match json {
            Some(v) => media_match(anilist_media(*v), query@),
            None => None,
        },
{
    let found = match json {
        Some(v) => media(v),
        None => None,
    };
    match found {
        Some((title, Some(id))) => {
            if title.unicode_len() > 0 {
                let a = normalize(title.as_str());
                let b = normalize(query);
                if a == b {
                    return Some(id);
                }
            }
            None
        },
        _ => None,
    }
}



/// The details in an AniList answer: the `description` string, the string
/// elements of `genres`, and `isAdult` (`false` where missing), all under
/// `data.Media`.
pub open spec fn anilist_details(v: JsonValue) -> (Option<Seq<char>>, Seq<Seq<char>>, bool) {
    let media = opt_get(get_spec(v, "data"@), "Media"@);
    (
        opt_str(opt_get(media, "description"@)),
        match opt_array(opt_get(media, "genres"@)) {
            Some(a) => element_strings_spec(a, true, false),
            None => Seq::empty(),
        },
        match opt_bool(opt_get(media, "isAdult"@)) {
            Some(b) => b,
            None => false,
        },
    )
}

/// Reads the details of an AniList answer.
pub fn details(v: &JsonValue) -> (r: (Option<String>, Vec<String>, bool))
    ensures
        (opt_text(r.0), texts(r.1@), r.2) == anilist_details(*v),
{
    let media = member_of(member(v, "data"), "Media");
    let desc = text_of(member_of(media, "description"));
    let genres = match array_of(member_of(media, "genres")) {
        Some(a) => element_strings(a, true, false),
        None => Vec::new(),
    };
    let adult = match bool_of(member_of(media, "isAdult")) {
        Some(b) => b,
        None => false,
    };
    proof {
        if opt_array(opt_get(opt_get(get_spec(*v, "data"@), "Media"@), "genres"@)) is None {
            assert(texts(genres@) =~= Seq::<Seq<char>>::empty());
        }
    }
    (desc, genres, adult)
}

/// The details of a title from the answer to a details request: nothing
/// where the request did not succeed, else the description, genres and adult
/// flag of the answer; an error where a successful answer is not JSON
/// (`json` is `None`).
pub fn details_from_response(status_ok: bool, json: &Option<JsonValue>) -> (r: Result<
    (Option<String>, Vec<String>, Option<bool>),
    ProviderError,
>)
    ensures
        !status_ok ==> (r matches Ok((d, g, a)) && d is None && g@.len() == 0 && a is None),
        status_ok ==> match json {
            Some(v) => (r matches Ok((d, g, a)) && opt_text(d) == anilist_details(*v).0 && texts(g@)
                == anilist_details(*v).1 && a == Some(anilist_details(*v).2)),
            None => r == Err::<(Option<String>, Vec<String>, Option<bool>), ProviderError>(
                ProviderError::InvalidJson,
            ),
        },
{
    if !status_ok {
        return Ok((None, Vec::new(), None));
    }
    match json {
        Some(v) => {
            let (d, g, adult) = details(v);
            Ok((d, g, Some(adult)))
        },
        None => Err(ProviderError::InvalidJson),
    }
}

} // verus!
