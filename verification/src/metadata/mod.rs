//! Matching titles against the metadata providers (MangaBaka, MyAnimeList,
//! AniList) and merging what they report.

pub mod aggregate;
pub mod anilist;
pub mod mal;
pub mod mangabaka;
pub mod json;

use crate::text::{
    alphanumeric, chars_of, is_alphanumeric, lowercase, split_chars, split_seq, string_of, to_lowercase,
    trim, trim_chars, views,
};
use vstd::prelude::*;

verus! {

/// `s` without the characters that are not alphanumeric.
pub open spec fn keep_alphanumeric(s: Seq<char>) -> Seq<char>
    decreases s.len(),
{
    if s.len() == 0 {
        s
    } else {
        let r = keep_alphanumeric(s.drop_last());
        if alphanumeric(s.last()) {
            r.push(s.last())
        } else {
            r
        }
    }
}

/// The key under which a provider's title is compared with a query:
/// lowercased, with every character that is not alphanumeric removed.
pub open spec fn match_key(s: Seq<char>) -> Seq<char> {
    keep_alphanumeric(lowercase(s))
}

/// Computes the comparison key of a title.
pub fn match_key_of(s: &str) -> (r: String)
    ensures
        r@ == match_key(s@),
{
    let lower = to_lowercase(s);
    let v = chars_of(lower.as_str());
    let mut out: Vec<char> = Vec::new();
    let mut i: usize = 0;
    while i < v.len()
        invariant
            i <= v@.len(),
            out@ == keep_alphanumeric(v@.take(i as int)),
        decreases v@.len() - i,
    {
        assert(v@.take(i + 1).drop_last() =~= v@.take(i as int));
        if is_alphanumeric(v[i]) {
            out.push(v[i]);
        }
        i = i + 1;
    }
    assert(v@.take(v@.len() as int) =~= v@);
    string_of(&out)
}

/// The trimmed, non-empty pieces of a list of alternative titles.
pub open spec fn alt_candidates(pieces: Seq<Seq<char>>) -> Seq<Seq<char>>
    decreases pieces.len(),
{
    if pieces.len() == 0 {
        Seq::empty()
    } else {
        let r = alt_candidates(pieces.drop_last());
        let t = trim(pieces.last());
        if t.len() > 0 {
            r.push(t)
        } else {
            r
        }
    }
}

/// The queries tried for a title: the title itself, then each alternative
/// title (the pieces of `alts` between ", ", trimmed, the empty ones left
/// out).
pub open spec fn title_candidates_spec(title: Seq<char>, alts: Seq<char>) -> Seq<Seq<char>> {
    seq![title] + alt_candidates(split_seq(alts, ", "@))
}

/// The views of a sequence of strings.
pub open spec fn string_views(v: Seq<String>) -> Seq<Seq<char>> {
    v.map_values(|x: String| x@)
}

/// Lists the queries tried for a title with its alternative titles.
pub fn title_candidates(title: &str, alts: &str) -> (r: Vec<String>)
    ensures
        string_views(r@) == title_candidates_spec(title@, alts@),
{
    let mut r: Vec<String> = Vec::new();
    r.push(String::from_str(title));
    let v = chars_of(alts);
    let sep = chars_of(", ");
    proof {
        reveal_strlit(", ");
    }
    let pieces = split_chars(&v, &sep);
    let ghost ps = views(pieces@);
    let mut i: usize = 0;
    while i < pieces.len()
        invariant
            i <= pieces@.len(),
            ps == views(pieces@),
            ps == split_seq(alts@, ", "@),
            string_views(r@) == seq![title@] + alt_candidates(ps.take(i as int)),
        decreases pieces@.len() - i,
    {
        assert(ps.take(i + 1).drop_last() =~= ps.take(i as int));
        assert(ps.take(i + 1).last() == pieces@[i as int]@);
        let t = trim_chars(&pieces[i]);
        if t.len() > 0 {
            let ts = string_of(&t);
            let ghost old_r = r@;
            r.push(ts);
            assert(alt_candidates(ps.take(i + 1)) == alt_candidates(ps.take(i as int)).push(t@));
            assert(string_views(r@) =~= string_views(old_r).push(t@));
            assert(string_views(r@) =~= seq![title@] + alt_candidates(ps.take(i + 1)));
        } else {
            assert(alt_candidates(ps.take(i + 1)) == alt_candidates(ps.take(i as int)));
        }
        i = i + 1;
    }
    assert(ps.take(pieces@.len() as int) =~= ps);
    r
}

/// A byte that URL encoding keeps as it is: an ASCII letter or digit, or one
/// of `-`, `.`, `_`, `~`.
pub open spec fn url_safe_byte(b: u8) -> bool {
    (48 <= b <= 57) || (65 <= b <= 90) || (97 <= b <= 122) || b == 45 || b == 46 || b == 95 || b
        == 126
}

/// The uppercase hexadecimal digit of `d` (below 16).
pub open spec fn hex_digit(d: int) -> char {
    seq!['0', '1', '2', '3', '4', '5', '6', '7', '8', '9', 'A', 'B', 'C', 'D', 'E', 'F'][d]
}

/// `bytes` percent-encoded: each safe byte as its character, each other
/// byte as `%` and two uppercase hexadecimal digits.
pub open spec fn percent_encoded(bytes: Seq<u8>) -> Seq<char>
    decreases bytes.len(),
{
    if bytes.len() == 0 {
        Seq::empty()
    } else {
        let b = bytes.last();
        percent_encoded(bytes.drop_last()) + if url_safe_byte(b) {
            seq![b as char]
        } else {
            seq!['%', hex_digit((b / 16) as int), hex_digit((b % 16) as int)]
        }
    }
}

/// What `urlencoding::encode` gives for `s`: the bytes of its UTF-8 form,
/// percent-encoded.
pub open spec fn url_encoded(s: Seq<char>) -> Seq<char> {
    percent_encoded(vstd::utf8::encode_utf8(s))
}

/// Calls `urlencoding::encode`, which percent-encodes every byte of the UTF-8
/// form except ASCII letters, digits and `-_.~`, with uppercase hexadecimal
/// digits (urlencoding's `encode_into` and `to_hex_digit`).
#[verifier::external_body]
pub(crate) fn url_encode(s: &str) -> (r: String)
    ensures
        r@ == url_encoded(s@),
{
    urlencoding::encode(s).into_owned()
}

/// The outcome of reading a provider's answer that is not JSON.
#[derive(Debug, Clone, Copy, PartialEq, Eq, Structural)]
pub enum ProviderError {
    /// The answer is not valid JSON.
    InvalidJson,
}

} // verus!
