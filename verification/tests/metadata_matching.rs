use rust_manga_scraper::metadata::aggregate::{merge_metadata, needs_update, ProviderDetails};
use rust_manga_scraper::metadata::json::JsonValue;
use rust_manga_scraper::metadata::{anilist, mal, mangabaka, match_key_of, title_candidates};

fn value(v: serde_json::Value) -> JsonValue {
    match v {
        serde_json::Value::Null => JsonValue::Null,
        serde_json::Value::Bool(b) => JsonValue::Bool(b),
        serde_json::Value::Number(n) => JsonValue::Number(n.as_i64(), n.to_string()),
        serde_json::Value::String(s) => JsonValue::Str(s),
        serde_json::Value::Array(a) => JsonValue::Array(a.into_iter().map(value).collect()),
        serde_json::Value::Object(m) => JsonValue::Object(m.into_iter().map(|(k, v)| (k, value(v))).collect()),
    }
}

fn json(text: &str) -> Option<JsonValue> {
    serde_json::from_str::<serde_json::Value>(text).ok().map(value)
}

#[test]
fn normalize_keeps_letters_and_digits() {
    assert_eq!(mal::normalize("Re:Zero - Starting Life!"), "rezerostartinglife");
    assert_eq!(anilist::normalize("Kaguya-sama: Love Is War"), "kaguyasamaloveiswar");
    assert_eq!(mangabaka::normalize("20th Century Boys"), "20thcenturyboys");
    assert_eq!(match_key_of("Élan Vital"), "élanvital");
}

#[test]
fn candidates_are_title_then_alternatives() {
    let c = title_candidates("One Piece", "ワンピース, , OP ");
    assert_eq!(c, vec!["One Piece".to_string(), "ワンピース".to_string(), "OP".to_string()]);
    assert_eq!(title_candidates("X", ""), vec!["X".to_string()]);
}

#[test]
fn search_urls_are_encoded() {
    assert_eq!(mal::search_url("one piece"), "https://api.jikan.moe/v4/manga?q=one%20piece&limit=5");
    assert_eq!(mangabaka::search_url("a&b"), "https://mangabaka.dev/api/search?query=a%26b");
    assert_eq!(mal::details_url(13), "https://api.jikan.moe/v4/manga/13");
    assert_eq!(mangabaka::details_url("abc"), "https://mangabaka.dev/api/manga/abc");
}

#[test]
fn jikan_answers_are_matched() {
    let text = r#"{"data":[{"title":"One Piece: Film","mal_id":5},{"title":"One-Piece","mal_id":13},{"title":"One Piece","mal_id":21}]}"#;
    assert_eq!(mal::match_in_response(&json(text), "one piece"), Some(13));
    assert_eq!(mal::match_in_response(&json(r#"{"data":[{"title":"One Piece","mal_id":0}]}"#), "One Piece"), None);
    assert_eq!(mal::match_in_response(&json("not json"), "x"), None);
    assert_eq!(mal::pick_match(&vec![("A".to_string(), 3)], "a"), Some(3));
}

#[test]
fn mangabaka_answers_are_matched() {
    let text = r#"{"results":[{"name":"Berserk","id":42},{"title":"Vagabond","id":"v-1"}]}"#;
    assert_eq!(mangabaka::match_in_response(&json(text), "berserk").as_deref(), Some("42"));
    assert_eq!(mangabaka::match_in_response(&json(text), "VAGABOND").as_deref(), Some("v-1"));
    let data = r#"{"data":[{"name":"Monster","id":"m"}]}"#;
    assert_eq!(mangabaka::match_in_response(&json(data), "monster").as_deref(), Some("m"));
    assert_eq!(mangabaka::match_in_response(&json(text), "Akira"), None);
}

#[test]
fn anilist_answers_are_matched() {
    let text = r#"{"data":{"Media":{"id":30013,"title":{"romaji":"One Piece","english":null}}}}"#;
    assert_eq!(anilist::match_in_response(&json(text), "One Piece"), None);
    let text = r#"{"data":{"Media":{"id":30013,"title":{"romaji":"One Piece","english":"ONE PIECE"}}}}"#;
    assert_eq!(anilist::match_in_response(&json(text), "one piece"), Some(30013));
    let text = r#"{"data":{"Media":{"id":7,"title":{"romaji":"Shingeki no Kyojin"}}}}"#;
    assert_eq!(anilist::match_in_response(&json(text), "shingeki no kyojin"), Some(7));
    assert_eq!(anilist::match_in_response(&json("{}"), "x"), None);
}

#[test]
fn provider_details_are_read() {
    let (d, g, r) = mal::details_from_response(true, &json(r#"{"data":{"synopsis":"Pirates.","genres":[{"name":"Action"},{"id":2}],"rating":"PG-13"}}"#))
    .unwrap();
    assert_eq!(d.as_deref(), Some("Pirates."));
    assert_eq!(g, vec!["Action".to_string()]);
    assert_eq!(r.as_deref(), Some("PG-13"));
    let (d, g, r) = mal::details_from_response(false, &json("ignored")).unwrap();
    assert!(d.is_none() && g.is_empty() && r.is_none());
    assert!(mal::details_from_response(true, &json("oops")).is_err());
    let (d, g) = mangabaka::details_from_response(true, &json(r#"{"synopsis":"S","genres":["Drama",{"name":"Horror"}]}"#));
    assert_eq!(d.as_deref(), Some("S"));
    assert_eq!(g, vec!["Drama".to_string(), "Horror".to_string()]);
    let (d, g) = mangabaka::details_from_response(true, &json("garbage"));
    assert!(d.is_none() && g.is_empty());
    let (d, g, a) = anilist::details_from_response(true, &json(r#"{"data":{"Media":{"description":"D","genres":["Comedy"],"isAdult":true}}}"#))
    .unwrap();
    assert_eq!(d.as_deref(), Some("D"));
    assert_eq!(g, vec!["Comedy".to_string()]);
    assert_eq!(a, Some(true));
    let (_, _, a) = anilist::details_from_response(true, &json(r#"{"data":{"Media":{}}}"#)).unwrap();
    assert_eq!(a, Some(false));
}

#[test]
fn metadata_is_merged() {
    let details = vec![
        ProviderDetails { description: None, genres: vec!["Drama".to_string(), "Action".to_string()] },
        ProviderDetails { description: Some("From MAL".to_string()), genres: vec!["Action".to_string()] },
        ProviderDetails { description: Some("From AniList".to_string()), genres: vec![] },
    ];
    let u = merge_metadata(&details, &None, Some(true));
    assert_eq!(u.description.as_deref(), Some("From MAL"));
    assert_eq!(u.tags.as_deref(), Some("Action, Drama"));
    assert_eq!(u.rating.as_deref(), Some("erotica"));
    assert!(needs_update(&u));
    let u = merge_metadata(&details, &Some("R - 17+".to_string()), Some(true));
    assert_eq!(u.rating.as_deref(), Some("R - 17+"));
    let blank = vec![ProviderDetails { description: Some("   ".to_string()), genres: vec![] }];
    let u = merge_metadata(&blank, &None, Some(false));
    assert!(u.description.is_none() && u.tags.is_none() && u.rating.is_none());
    assert!(!needs_update(&u));
}

#[test]
fn search_urls_encode_utf8_bytes_in_uppercase_hex() {
    assert_eq!(mal::search_url("é-x_y.z~"), "https://api.jikan.moe/v4/manga?q=%C3%A9-x_y.z~&limit=5");
    assert_eq!(mangabaka::search_url("A/b"), "https://mangabaka.dev/api/search?query=A%2Fb");
}
