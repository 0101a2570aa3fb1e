//! Character-level text operations used by the title, chapter and file-name
//! helpers, stated over `Seq<char>` and proved against their specifications.

use vstd::prelude::*;

verus! {

// ---------------------------------------------------------------------------
// Outside behaviour that is named rather than written out
// ---------------------------------------------------------------------------

/// What `str::to_lowercase` returns: the Unicode lowercase mapping of the
/// whole string (which may change its length, e.g. for 'İ').
pub uninterp spec fn lowercase(s: Seq<char>) -> Seq<char>;

/// Every character of `s` is ASCII.
pub open spec fn ascii_chars(s: Seq<char>) -> bool {
    forall|i: int| 0 <= i < s.len() ==> (#[trigger] s[i] as int) < 128
}

/// The ASCII lowercase of one character: `A`..`Z` become `a`..`z`, every
/// other character stays.
pub open spec fn ascii_lower_char(c: char) -> char {
    if 'A' <= c && c <= 'Z' {
        ((c as int) + 32) as char
    } else {
        c
    }
}

/// The ASCII lowercase of each character of `s`.
pub open spec fn ascii_lowered(s: Seq<char>) -> Seq<char> {
    s.map_values(|c: char| ascii_lower_char(c))
}

/// Calls `str::to_lowercase`; its result is named by `lowercase`. Lowercase
/// is Unicode's mapping, which on ASCII text lowers `A`..`Z` and leaves every
/// other character as it is; that much is stated.
#[verifier::external_body]
pub(crate) fn to_lowercase(s: &str) -> (res: String)
    ensures
        res@ == lowercase(s@),
        ascii_chars(s@) ==> res@ == ascii_lowered(s@),
{
    s.to_lowercase()
}

/// What `char::is_alphanumeric` says of `c`: whether it is Unicode
/// alphabetic or numeric.
pub uninterp spec fn alphanumeric(c: char) -> bool;

/// An ASCII letter or digit.
pub open spec fn ascii_alphanumeric(c: char) -> bool {
    ('0' <= c && c <= '9') || ('A' <= c && c <= 'Z') || ('a' <= c && c <= 'z')
}

/// Calls `char::is_alphanumeric`; its result is named by `alphanumeric`. On
/// an ASCII character it holds exactly of the letters and digits.
#[verifier::external_body]
pub(crate) fn is_alphanumeric(c: char) -> (b: bool)
    ensures
        b == alphanumeric(c),
        (c as int) < 128 ==> b == ascii_alphanumeric(c),
{
    c.is_alphanumeric()
}

/// Calls `String::push`, which appends one character to the end of the string.
#[verifier::external_body]
pub(crate) fn push_char(s: &mut String, c: char)
    ensures
        final(s)@ == old(s)@.push(c),
{
    s.push(c)
}

// ---------------------------------------------------------------------------
// Conversions between strings and character vectors
// ---------------------------------------------------------------------------

/// The characters of `s`, in order.
pub fn chars_of(s: &str) -> (v: Vec<char>)
    ensures
        v@ == s@,
{
    let n = s.unicode_len();
    let mut v: Vec<char> = Vec::new();
    let mut i: usize = 0;
    while i < n
        invariant
            n == s@.len(),
            i <= n,
            v@ == s@.take(i as int),
        decreases n - i,
    {
        let c = s.get_char(i);
        v.push(c);
        i = i + 1;
        assert(v@ =~= s@.take(i as int));
    }
    assert(s@.take(n as int) =~= s@);
    v
}

/// A string made of the characters of `v`, in order.
pub fn string_of(v: &Vec<char>) -> (s: String)
    ensures
        s@ == v@,
{
    let mut s = String::new();
    let mut i: usize = 0;
    while i < v.len()
        invariant
            i <= v.len(),
            s@ == v@.take(i as int),
        decreases v.len() - i,
    {
        push_char(&mut s, v[i]);
        i = i + 1;
        assert(s@ =~= v@.take(i as int));
    }
    assert(v@.take(v.len() as int) =~= v@);
    s
}

} // verus!

verus! {

// ---------------------------------------------------------------------------
// Whitespace and trimming
// ---------------------------------------------------------------------------

/// `char::is_whitespace`: the characters with the Unicode `White_Space` property.
pub open spec fn is_ws(c: char) -> bool {
    ||| ('\u{9}' <= c && c <= '\u{d}')
    ||| c == ' '
    ||| c == '\u{85}'
    ||| c == '\u{a0}'
    ||| c == '\u{1680}'
    ||| ('\u{2000}' <= c && c <= '\u{200a}')
    ||| c == '\u{2028}'
    ||| c == '\u{2029}'
    ||| c == '\u{202f}'
    ||| c == '\u{205f}'
    ||| c == '\u{3000}'
}

/// Whether `c` is whitespace in the sense of `char::is_whitespace`.
pub fn is_whitespace(c: char) -> (b: bool)
    ensures
        b == is_ws(c),
{
    ('\u{9}' <= c && c <= '\u{d}') || c == ' ' || c == '\u{85}' || c == '\u{a0}' || c
        == '\u{1680}' || ('\u{2000}' <= c && c <= '\u{200a}') || c == '\u{2028}' || c
        == '\u{2029}' || c == '\u{202f}' || c == '\u{205f}' || c == '\u{3000}'
}

/// `s` without its leading whitespace.
pub open spec fn trim_start(s: Seq<char>) -> Seq<char>
    decreases s.len(),
{
    if s.len() > 0 && is_ws(s[0]) {
        trim_start(s.drop_first())
    } else {
        s
    }
}

/// `s` without its trailing whitespace.
pub open spec fn trim_end(s: Seq<char>) -> Seq<char>
    decreases s.len(),
{
    if s.len() > 0 && is_ws(s.last()) {
        trim_end(s.drop_last())
    } else {
        s
    }
}

/// `str::trim`: `s` without leading and trailing whitespace.
pub open spec fn trim(s: Seq<char>) -> Seq<char> {
    trim_end(trim_start(s))
}

proof fn lemma_trim_start_skip(s: Seq<char>, i: int)
    requires
        0 <= i <= s.len(),
        forall|j: int| 0 <= j < i ==> is_ws(#[trigger] s[j]),
    ensures
        trim_start(s) == trim_start(s.skip(i)),
    decreases i,
{
    if i > 0 {
        assert(s.drop_first().skip(i - 1) =~= s.skip(i));
        lemma_trim_start_skip(s.drop_first(), i - 1);
    } else {
        assert(s.skip(0) =~= s);
    }
}

proof fn lemma_trim_end_take(s: Seq<char>, i: int)
    requires
        0 <= i <= s.len(),
        forall|j: int| i <= j < s.len() ==> is_ws(#[trigger] s[j]),
    ensures
        trim_end(s) == trim_end(s.take(i)),
    decreases s.len() - i,
{
    if i < s.len() {
        assert(s.drop_last().take(i) =~= s.take(i));
        lemma_trim_end_take(s.drop_last(), i);
    } else {
        assert(s.take(i) =~= s);
    }
}

/// The characters of `v` without leading and trailing whitespace.
pub fn trim_chars(v: &Vec<char>) -> (r: Vec<char>)
    ensures
        r@ == trim(v@),
{
    let n = v.len();
    let mut a: usize = 0;
    while a < n && is_whitespace(v[a])
        invariant
            n == v@.len(),
            a <= n,
            forall|j: int| 0 <= j < a ==> is_ws(#[trigger] v@[j]),
        decreases n - a,
    {
        a = a + 1;
    }
    proof {
        lemma_trim_start_skip(v@, a as int);
    }
    let mut b: usize = n;
    while b > a && is_whitespace(v[b - 1])
        invariant
            n == v@.len(),
            a <= b <= n,
            forall|j: int| b <= j < n ==> is_ws(#[trigger] v@[j]),
        decreases b,
    {
        b = b - 1;
    }
    let ghost t = v@.skip(a as int);
    proof {
        if a < n {
            assert(!is_ws(t[0]));
        }
        assert(trim_start(t) == t);
        assert forall|j: int| b - a <= j < t.len() implies is_ws(#[trigger] t[j]) by {
            assert(t[j] == v@[j + a]);
        }
        lemma_trim_end_take(t, b - a);
        if b > a {
            assert(t.take(b - a).last() == v@[b - 1]);
        }
    }
    let mut r: Vec<char> = Vec::new();
    let mut k: usize = a;
    while k < b
        invariant
            a <= k <= b <= n,
            n == v@.len(),
            r@ == v@.subrange(a as int, k as int),
        decreases b - k,
    {
        r.push(v[k]);
        k = k + 1;
        assert(r@ =~= v@.subrange(a as int, k as int));
    }
    assert(r@ =~= t.take(b - a));
    r
}

// ---------------------------------------------------------------------------
// Substrings
// ---------------------------------------------------------------------------

/// `pat` occurs in `s` starting at index `i`.
pub open spec fn match_at(s: Seq<char>, pat: Seq<char>, i: int) -> bool {
    0 <= i && i + pat.len() <= s.len() && s.subrange(i, i + pat.len()) == pat
}

/// `str::contains` with a string pattern.
pub open spec fn has_sub(s: Seq<char>, pat: Seq<char>) -> bool {
    exists|i: int| match_at(s, pat, i)
}

/// Whether `pat` occurs in `s` starting at index `i`.
pub fn matches_at(s: &Vec<char>, pat: &Vec<char>, i: usize) -> (b: bool)
    ensures
        b == match_at(s@, pat@, i as int),
{
    if i > s.len() || pat.len() > s.len() - i {
        return false;
    }
    let mut j: usize = 0;
    while j < pat.len()
        invariant
            i + pat.len() <= s.len(),
            j <= pat@.len(),
            forall|k: int| 0 <= k < j ==> s@[i + k] == pat@[k],
        decreases pat@.len() - j,
    {
        if s[i + j] != pat[j] {
            assert(s@.subrange(i as int, i + pat@.len())[j as int] != pat@[j as int]);
            return false;
        }
        j = j + 1;
    }
    assert(s@.subrange(i as int, i + pat@.len()) =~= pat@);
    true
}

/// Whether `pat` occurs somewhere in `s`.
pub fn contains_chars(s: &Vec<char>, pat: &Vec<char>) -> (b: bool)
    ensures
        b == has_sub(s@, pat@),
{
    if pat.len() == 0 {
        assert(s@.subrange(0, 0) =~= pat@);
        assert(match_at(s@, pat@, 0));
        return true;
    }
    if pat.len() > s.len() {
        assert forall|i: int| !match_at(s@, pat@, i) by {}
        return false;
    }
    let mut i: usize = 0;
    while i <= s.len() - pat.len()
        invariant
            1 <= pat@.len() <= s@.len(),
            i <= s@.len() - pat@.len() + 1,
            forall|k: int| 0 <= k < i ==> !match_at(s@, pat@, k),
        decreases s@.len() - pat@.len() + 1 - i,
    {
        if matches_at(s, pat, i) {
            return true;
        }
        i = i + 1;
    }
    assert forall|k: int| !match_at(s@, pat@, k) by {}
    false
}

/// `str::replace(pat, "")`: every occurrence of `pat`, scanned from the left
/// without overlap, removed.
pub open spec fn remove_all(s: Seq<char>, pat: Seq<char>) -> Seq<char>
    decreases s.len(),
{
    if s.len() == 0 || pat.len() == 0 {
        s
    } else if match_at(s, pat, 0) {
        remove_all(s.skip(pat.len() as int), pat)
    } else {
        seq![s[0]] + remove_all(s.skip(1), pat)
    }
}

/// The characters of `s` with every occurrence of `pat` removed, as
/// `str::replace(pat, "")` does.
pub fn remove_all_chars(s: &Vec<char>, pat: &Vec<char>) -> (r: Vec<char>)
    ensures
        r@ == remove_all(s@, pat@),
{
    if pat.len() == 0 {
        return s.clone();
    }
    let mut r: Vec<char> = Vec::new();
    let mut i: usize = 0;
    assert(s@.skip(0) =~= s@);
    while i < s.len()
        invariant
            i <= s@.len(),
            pat@.len() > 0,
            remove_all(s@, pat@) == r@ + remove_all(s@.skip(i as int), pat@),
        decreases s@.len() - i,
    {
        let ghost rest = s@.skip(i as int);
        if matches_at(s, pat, i) {
            assert(rest.subrange(0, pat@.len() as int) =~= s@.subrange(i as int, i + pat@.len()));
            assert(rest.skip(pat@.len() as int) =~= s@.skip(i + pat@.len()));
            i = i + pat.len();
        } else {
            assert(rest.len() > 0);
            proof {
                if pat@.len() <= rest.len() {
                    assert(rest.subrange(0, pat@.len() as int) =~= s@.subrange(i as int, i + pat@.len()));
                }
            }
            assert(rest.skip(1) =~= s@.skip(i + 1));
            assert(rest[0] == s@[i as int]);
            r.push(s[i]);
            i = i + 1;
            assert(r@ + remove_all(s@.skip(i as int), pat@) =~= (r@.drop_last() + seq![s@[i - 1]]) + remove_all(s@.skip(i as int), pat@));
        }
    }
    assert(s@.skip(i as int) =~= Seq::<char>::empty());
    assert(r@ + Seq::<char>::empty() =~= r@);
    r
}

/// `s` with every `c` removed, as `str::replace(c, "")` does.
pub open spec fn remove_char(s: Seq<char>, c: char) -> Seq<char>
    decreases s.len(),
{
    if s.len() == 0 {
        s
    } else if s.last() == c {
        remove_char(s.drop_last(), c)
    } else {
        remove_char(s.drop_last(), c).push(s.last())
    }
}

/// The characters of `s` with every `c` removed.
pub fn remove_char_chars(s: &Vec<char>, c: char) -> (r: Vec<char>)
    ensures
        r@ == remove_char(s@, c),
{
    let mut r: Vec<char> = Vec::new();
    let mut i: usize = 0;
    while i < s.len()
        invariant
            i <= s@.len(),
            r@ == remove_char(s@.take(i as int), c),
        decreases s@.len() - i,
    {
        assert(s@.take(i + 1).drop_last() =~= s@.take(i as int));
        if s[i] != c {
            r.push(s[i]);
        }
        i = i + 1;
    }
    assert(s@.take(s@.len() as int) =~= s@);
    r
}

} // verus!

verus! {

// ---------------------------------------------------------------------------
// Splitting and joining
// ---------------------------------------------------------------------------

/// The first index `>= i` at which `pat` occurs in `s`, or -1.
pub open spec fn first_match(s: Seq<char>, pat: Seq<char>, i: int) -> int
    decreases s.len() + 1 - i,
{
    if i < 0 || i + pat.len() > s.len() {
        -1
    } else if match_at(s, pat, i) {
        i
    } else {
        first_match(s, pat, i + 1)
    }
}

pub proof fn lemma_first_match(s: Seq<char>, pat: Seq<char>, i: int)
    requires
        0 <= i,
    ensures
        first_match(s, pat, i) == -1 || (i <= first_match(s, pat, i) && match_at(
            s,
            pat,
            first_match(s, pat, i),
        )),
        forall|k: int|
            i <= k && (first_match(s, pat, i) == -1 || k < first_match(s, pat, i)) ==> !match_at(
                s,
                pat,
                k,
            ),
    decreases s.len() + 1 - i,
{
    if i + pat.len() > s.len() {
    } else if match_at(s, pat, i) {
    } else {
        lemma_first_match(s, pat, i + 1);
    }
}

/// The pieces of `s` from index `start` on, separated by `sep` (non-empty).
pub open spec fn split_from(s: Seq<char>, sep: Seq<char>, start: int) -> Seq<Seq<char>>
    decreases s.len() - start,
{
    if sep.len() == 0 || start < 0 || start > s.len() {
        seq![s]
    } else {
        let k = first_match(s, sep, start);
        if k < 0 {
            seq![s.subrange(start, s.len() as int)]
        } else {
            proof {
                lemma_first_match(s, sep, start);
            }
            seq![s.subrange(start, k)] + split_from(s, sep, k + sep.len())
        }
    }
}

proof fn lemma_first_match_shift(p: Seq<char>, b: Seq<char>, pat: Seq<char>, j: int)
    requires
        0 <= j,
    ensures
        first_match(p + b, pat, p.len() + j) == (if first_match(b, pat, j) < 0 {
            -1
        } else {
            p.len() + first_match(b, pat, j)
        }),
    decreases b.len() + 1 - j,
{
    let s = p + b;
    if j + pat.len() > b.len() {
    } else {
        assert(s.subrange(p.len() + j, p.len() + j + pat.len()) =~= b.subrange(j, j + pat.len()));
        if !match_at(b, pat, j) {
            lemma_first_match_shift(p, b, pat, j + 1);
        }
    }
}

proof fn lemma_split_shift(p: Seq<char>, b: Seq<char>, pat: Seq<char>, j: int)
    requires
        0 <= j <= b.len(),
        pat.len() > 0,
    ensures
        split_from(p + b, pat, p.len() + j) == split_from(b, pat, j),
    decreases b.len() - j,
{
    let s = p + b;
    lemma_first_match_shift(p, b, pat, j);
    lemma_first_match(b, pat, j);
    let k = first_match(b, pat, j);
    if k < 0 {
        assert(s.subrange(p.len() + j, s.len() as int) =~= b.subrange(j, b.len() as int));
    } else {
        assert(s.subrange(p.len() + j, p.len() + k) =~= b.subrange(j, k));
        lemma_split_shift(p, b, pat, k + pat.len());
    }
}

/// `x` holds no `", "`.
pub open spec fn comma_free(x: Seq<char>) -> bool {
    forall|i: int| !match_at(x, ", "@, i)
}

/// The pieces of a split hold no separator.
pub proof fn lemma_split_pieces_comma_free(s: Seq<char>, j: int)
    requires
        0 <= j <= s.len(),
    ensures
        forall|i: int|
            0 <= i < split_from(s, ", "@, j).len() ==> comma_free(#[trigger] split_from(s, ", "@, j)[i]),
    decreases s.len() - j,
{
    reveal_strlit(", ");
    let sep = ", "@;
    lemma_first_match(s, sep, j);
    let k = first_match(s, sep, j);
    if k < 0 {
        let piece = s.subrange(j, s.len() as int);
        assert forall|i: int| !match_at(piece, sep, i) by {
            if match_at(piece, sep, i) {
                assert(s.subrange(j + i, j + i + 2) =~= piece.subrange(i, i + 2));
                assert(match_at(s, sep, j + i));
            }
        }
        assert(split_from(s, sep, j) =~= seq![piece]);
    } else {
        let piece = s.subrange(j, k);
        assert forall|i: int| !match_at(piece, sep, i) by {
            if match_at(piece, sep, i) {
                assert(s.subrange(j + i, j + i + 2) =~= piece.subrange(i, i + 2));
                assert(match_at(s, sep, j + i));
            }
        }
        lemma_split_pieces_comma_free(s, k + 2);
        let rest = split_from(s, sep, k + 2);
        assert(split_from(s, sep, j) == seq![piece] + rest);
        assert forall|i: int| 0 <= i < split_from(s, sep, j).len() implies comma_free(
            #[trigger] split_from(s, sep, j)[i],
        ) by {
            if i > 0 {
                assert(split_from(s, sep, j)[i] == rest[i - 1]);
            }
        }
    }
}

proof fn lemma_join_front(l: Seq<Seq<char>>, sep: Seq<char>)
    requires
        l.len() >= 2,
    ensures
        join_seq(l, sep) == l[0] + sep + join_seq(l.drop_first(), sep),
    decreases l.len(),
{
    if l.len() == 2 {
        assert(l.drop_last().len() == 1);
        assert(l.drop_first().len() == 1);
        assert(join_seq(l.drop_last(), sep) == l[0]);
        assert(join_seq(l.drop_first(), sep) == l[1]);
    } else {
        lemma_join_front(l.drop_last(), sep);
        assert(l.drop_first().drop_last() =~= l.drop_last().drop_first());
        assert(l.drop_first().last() == l.last());
        assert(join_seq(l.drop_first(), sep) == join_seq(l.drop_first().drop_last(), sep) + sep
            + l.drop_first().last());
        assert(join_seq(l, sep) =~= l[0] + sep + join_seq(l.drop_first(), sep));
    }
}

/// Splitting at ", " what was joined with ", " gives the pieces back, where
/// none of them is empty or holds ", ".
pub proof fn lemma_split_join(l: Seq<Seq<char>>)
    requires
        l.len() > 0,
        forall|i: int| 0 <= i < l.len() ==> (#[trigger] l[i]).len() > 0 && comma_free(l[i]),
    ensures
        split_seq(join_seq(l, ", "@), ", "@) == l,
    decreases l.len(),
{
    reveal_strlit(", ");
    let sep = ", "@;
    if l.len() == 1 {
        let x = l[0];
        assert(join_seq(l, sep) == x);
        lemma_first_match(x, sep, 0);
        assert(comma_free(x));
        if first_match(x, sep, 0) >= 0 {
            assert(match_at(x, sep, first_match(x, sep, 0)));
        }
        assert(x.subrange(0, x.len() as int) =~= x);
        assert(split_seq(x, sep) =~= l);
    } else {
        lemma_join_front(l, sep);
        let x = l[0];
        let rest = join_seq(l.drop_first(), sep);
        let s = (x + sep) + rest;
        assert(join_seq(l, sep) =~= s);
        assert(comma_free(x));
        assert forall|k: int| 0 <= k < x.len() implies !match_at(s, sep, k) by {
            if k < x.len() - 1 {
                if match_at(s, sep, k) {
                    assert(x.subrange(k, k + 2) =~= s.subrange(k, k + 2));
                    assert(match_at(x, sep, k));
                }
            } else {
                assert(s[k + 1] == ',');
                if match_at(s, sep, k) {
                    assert(s.subrange(k, k + 2)[1] == s[k + 1]);
                }
            }
        }
        assert(s.subrange(x.len() as int, x.len() + 2int) =~= sep);
        assert(match_at(s, sep, x.len() as int));
        lemma_first_match(s, sep, 0);
        let fm = first_match(s, sep, 0);
        assert(fm == x.len());
        assert(s.subrange(0, x.len() as int) =~= x);
        lemma_split_shift(x + sep, rest, sep, 0);
        assert(x + sep + rest == s);
        assert((x + sep).len() + 0 == x.len() + 2);
        assert forall|i: int| 0 <= i < l.drop_first().len() implies (#[trigger] l.drop_first()[i]).len()
            > 0 && comma_free(l.drop_first()[i]) by {
            assert(l.drop_first()[i] == l[i + 1]);
        }
        lemma_split_join(l.drop_first());
        assert(split_seq(s, sep) == seq![x] + split_from(s, sep, x.len() + 2int));
        assert(split_seq(s, sep) =~= l);
    }
}

proof fn lemma_trim_start_of(p: Seq<char>) -> (a: int)
    ensures
        0 <= a <= p.len(),
        trim_start(p) == p.skip(a),
        trim_start(p).len() > 0 ==> !is_ws(trim_start(p)[0]),
    decreases p.len(),
{
    if p.len() > 0 && is_ws(p[0]) {
        let a0 = lemma_trim_start_of(p.drop_first());
        assert(p.drop_first().skip(a0) =~= p.skip(a0 + 1));
        a0 + 1
    } else {
        assert(p.skip(0) =~= p);
        0
    }
}

proof fn lemma_trim_end_of(p: Seq<char>) -> (b: int)
    ensures
        0 <= b <= p.len(),
        trim_end(p) == p.take(b),
        trim_end(p).len() > 0 ==> !is_ws(trim_end(p).last()),
    decreases p.len(),
{
    if p.len() > 0 && is_ws(p.last()) {
        let b0 = lemma_trim_end_of(p.drop_last());
        assert(p.drop_last().take(b0) =~= p.take(b0));
        b0
    } else {
        assert(p.take(p.len() as int) =~= p);
        p.len() as int
    }
}

/// Trimming twice is trimming once, and trimming keeps a text free of ", ".
pub proof fn lemma_trim_trimmed(p: Seq<char>)
    ensures
        trim(trim(p)) == trim(p),
        comma_free(p) ==> comma_free(trim(p)),
{
    reveal_strlit(", ");
    let a = lemma_trim_start_of(p);
    let ts = trim_start(p);
    let b = lemma_trim_end_of(ts);
    let q = trim(p);
    assert(q == ts.take(b));
    if q.len() > 0 {
        assert(q[0] == ts[0]);
        assert(trim_start(q) == q);
        assert(trim_end(q) == q);
    } else {
        assert(trim_start(q) == q);
        assert(trim_end(q) == q);
    }
    if comma_free(p) {
        assert forall|i: int| !match_at(q, ", "@, i) by {
            if match_at(q, ", "@, i) {
                assert(p.subrange(a + i, a + i + 2) =~= q.subrange(i, i + 2));
                assert(match_at(p, ", "@, a + i));
            }
        }
    }
}

/// `str::split` with a non-empty string separator: the pieces of `s` between
/// the occurrences of `sep`, found from the left without overlap.
pub open spec fn split_seq(s: Seq<char>, sep: Seq<char>) -> Seq<Seq<char>> {
    split_from(s, sep, 0)
}

/// The views of a sequence of character vectors.
pub open spec fn views(v: Seq<Vec<char>>) -> Seq<Seq<char>> {
    v.map_values(|x: Vec<char>| x@)
}

/// The first index `>= from` at which `pat` occurs in `s`.
pub fn find_from(s: &Vec<char>, pat: &Vec<char>, from: usize) -> (r: Option<usize>)
    ensures
        match r {
            Some(k) => k as int == first_match(s@, pat@, from as int),
            None => first_match(s@, pat@, from as int) == -1,
        },
{
    proof {
        lemma_first_match(s@, pat@, from as int);
    }
    if from > s.len() || pat.len() > s.len() - from {
        return None;
    }
    let mut i: usize = from;
    while i <= s.len() - pat.len()
        invariant
            from <= i,
            pat@.len() <= s@.len(),
            from + pat@.len() <= s@.len(),
            i <= s@.len() - pat@.len() + 1,
            s@.len() <= usize::MAX,
            forall|k: int| from <= k < i ==> !match_at(s@, pat@, k),
            first_match(s@, pat@, from as int) == -1 || i <= first_match(s@, pat@, from as int),
        decreases s@.len() - pat@.len() + 1 - i,
    {
        proof {
            lemma_first_match(s@, pat@, from as int);
        }
        if matches_at(s, pat, i) {
            return Some(i);
        }
        if i == s.len() - pat.len() {
            return None;
        }
        i = i + 1;
    }
    None
}

/// The pieces of `s` separated by the non-empty `sep`, as `str::split` gives them.
pub fn split_chars(s: &Vec<char>, sep: &Vec<char>) -> (r: Vec<Vec<char>>)
    requires
        sep@.len() > 0,
    ensures
        views(r@) == split_seq(s@, sep@),
{
    let mut r: Vec<Vec<char>> = Vec::new();
    let mut start: usize = 0;
    loop
        invariant
            sep@.len() > 0,
            start <= s@.len(),
            views(r@) + split_from(s@, sep@, start as int) == split_seq(s@, sep@),
        decreases s@.len() - start,
    {
        proof {
            lemma_first_match(s@, sep@, start as int);
        }
        match find_from(s, sep, start) {
            None => {
                let mut piece: Vec<char> = Vec::new();
                let mut i = start;
                while i < s.len()
                    invariant
                        start <= i <= s@.len(),
                        piece@ == s@.subrange(start as int, i as int),
                    decreases s@.len() - i,
                {
                    piece.push(s[i]);
                    i = i + 1;
                    assert(piece@ =~= s@.subrange(start as int, i as int));
                }
                let ghost old_r = r@;
                r.push(piece);
                assert(views(r@) =~= views(old_r) + split_from(s@, sep@, start as int));
                return r;
            },
            Some(k) => {
                assert(match_at(s@, sep@, k as int));
                let n = s.len();
                assert(k + sep@.len() <= n);
                let mut piece: Vec<char> = Vec::new();
                let mut i = start;
                while i < k
                    invariant
                        start <= i <= k,
                        k + sep@.len() <= s@.len(),
                        piece@ == s@.subrange(start as int, i as int),
                    decreases k - i,
                {
                    piece.push(s[i]);
                    i = i + 1;
                    assert(piece@ =~= s@.subrange(start as int, i as int));
                }
                let ghost old_r = r@;
                r.push(piece);
                assert(views(r@) =~= views(old_r) + seq![s@.subrange(start as int, k as int)]);
                assert(views(r@) + split_from(s@, sep@, k + sep@.len()) =~= views(old_r)
                    + split_from(s@, sep@, start as int));
                start = k + sep.len();
            },
        }
    }
}

/// `[T]::join` on strings: the pieces with `sep` between consecutive ones.
pub open spec fn join_seq(ps: Seq<Seq<char>>, sep: Seq<char>) -> Seq<char>
    decreases ps.len(),
{
    if ps.len() == 0 {
        Seq::empty()
    } else if ps.len() == 1 {
        ps[0]
    } else {
        join_seq(ps.drop_last(), sep) + sep + ps.last()
    }
}

/// The pieces joined with `sep` between consecutive ones.
pub fn join_chars(ps: &Vec<Vec<char>>, sep: &Vec<char>) -> (r: Vec<char>)
    ensures
        r@ == join_seq(views(ps@), sep@),
{
    let mut r: Vec<char> = Vec::new();
    let mut i: usize = 0;
    while i < ps.len()
        invariant
            i <= ps@.len(),
            r@ == join_seq(views(ps@).take(i as int), sep@),
        decreases ps@.len() - i,
    {
        assert(views(ps@).take(i + 1).drop_last() =~= views(ps@).take(i as int));
        if i > 0 {
            let mut j: usize = 0;
            let ghost r0 = r@;
            while j < sep.len()
                invariant
                    j <= sep@.len(),
                    r@ == r0 + sep@.take(j as int),
                decreases sep@.len() - j,
            {
                r.push(sep[j]);
                j = j + 1;
                assert(r@ =~= r0 + sep@.take(j as int));
            }
            assert(sep@.take(sep@.len() as int) =~= sep@);
        }
        let ghost r1 = r@;
        let mut j: usize = 0;
        while j < ps[i].len()
            invariant
                i < ps@.len(),
                j <= ps@[i as int]@.len(),
                r@ == r1 + ps@[i as int]@.take(j as int),
            decreases ps@[i as int]@.len() - j,
        {
            r.push(ps[i][j]);
            j = j + 1;
            assert(r@ =~= r1 + ps@[i as int]@.take(j as int));
        }
        assert(ps@[i as int]@.take(ps@[i as int]@.len() as int) =~= ps@[i as int]@);
        assert(views(ps@).take(i + 1).last() == ps@[i as int]@);
        i = i + 1;
        proof {
            if i == 1 {
                assert(r@ =~= views(ps@).take(1)[0]);
            }
        }
    }
    assert(views(ps@).take(ps@.len() as int) =~= views(ps@));
    r
}

} // verus!

verus! {

// ---------------------------------------------------------------------------
// Ordering
// ---------------------------------------------------------------------------

/// Lexicographic order on code points. This is the order of `String`'s `Ord`,
/// which compares UTF-8 bytes, since UTF-8 preserves code-point order.
pub open spec fn seq_lt(a: Seq<char>, b: Seq<char>) -> bool
    decreases a.len(),
{
    if a.len() == 0 {
        b.len() > 0
    } else if b.len() == 0 {
        false
    } else if a[0] != b[0] {
        a[0] < b[0]
    } else {
        seq_lt(a.drop_first(), b.drop_first())
    }
}

pub proof fn lemma_lt_irrefl(a: Seq<char>)
    ensures
        !seq_lt(a, a),
    decreases a.len(),
{
    if a.len() > 0 {
        lemma_lt_irrefl(a.drop_first());
    }
}

pub proof fn lemma_lt_trans(a: Seq<char>, b: Seq<char>, c: Seq<char>)
    requires
        seq_lt(a, b),
        seq_lt(b, c),
    ensures
        seq_lt(a, c),
    decreases a.len(),
{
    if a.len() > 0 && b.len() > 0 && c.len() > 0 && a[0] == b[0] && b[0] == c[0] {
        lemma_lt_trans(a.drop_first(), b.drop_first(), c.drop_first());
    }
}

pub proof fn lemma_lt_total(a: Seq<char>, b: Seq<char>)
    requires
        a != b,
    ensures
        seq_lt(a, b) || seq_lt(b, a),
    decreases a.len(),
{
    if a.len() == 0 {
        assert(b.len() > 0) by {
            if b.len() == 0 {
                assert(a =~= b);
            }
        }
    } else if b.len() == 0 {
    } else if a[0] != b[0] {
    } else {
        if a.drop_first() == b.drop_first() {
            assert(a =~= seq![a[0]] + a.drop_first());
            assert(b =~= seq![b[0]] + b.drop_first());
        }
        lemma_lt_total(a.drop_first(), b.drop_first());
    }
}

/// Whether `a` comes before `b` in code-point order.
pub fn less_chars(a: &Vec<char>, b: &Vec<char>) -> (r: bool)
    ensures
        r == seq_lt(a@, b@),
{
    let mut i: usize = 0;
    assert(a@.skip(0) =~= a@);
    assert(b@.skip(0) =~= b@);
    while i < a.len() && i < b.len() && a[i] == b[i]
        invariant
            i <= a@.len(),
            i <= b@.len(),
            seq_lt(a@, b@) == seq_lt(a@.skip(i as int), b@.skip(i as int)),
        decreases a@.len() - i,
    {
        assert(a@.skip(i as int).drop_first() =~= a@.skip(i + 1));
        assert(b@.skip(i as int).drop_first() =~= b@.skip(i + 1));
        i = i + 1;
    }
    if i == a.len() {
        i < b.len()
    } else if i == b.len() {
        false
    } else {
        assert(a@.skip(i as int)[0] == a@[i as int]);
        assert(b@.skip(i as int)[0] == b@[i as int]);
        a[i] < b[i]
    }
}

/// Whether `a` and `b` hold the same characters.
pub fn eq_chars(a: &Vec<char>, b: &Vec<char>) -> (r: bool)
    ensures
        r == (a@ == b@),
{
    if a.len() != b.len() {
        return false;
    }
    let mut i: usize = 0;
    while i < a.len()
        invariant
            a@.len() == b@.len(),
            i <= a@.len(),
            forall|k: int| 0 <= k < i ==> a@[k] == b@[k],
        decreases a@.len() - i,
    {
        if a[i] != b[i] {
            return false;
        }
        i = i + 1;
    }
    assert(a@ =~= b@);
    true
}

/// Every element comes strictly before the ones after it.
pub open spec fn strictly_sorted(ss: Seq<Seq<char>>) -> bool {
    forall|i: int, j: int| 0 <= i < j < ss.len() ==> seq_lt(ss[i], ss[j])
}

/// The number of leading elements of `l` that come before `x`.
spec fn count_before(l: Seq<Seq<char>>, x: Seq<char>) -> int
    decreases l.len(),
{
    if l.len() == 0 {
        0
    } else if seq_lt(l[0], x) {
        1 + count_before(l.drop_first(), x)
    } else {
        0
    }
}

proof fn lemma_count_before(l: Seq<Seq<char>>, x: Seq<char>)
    ensures
        0 <= count_before(l, x) <= l.len(),
        forall|k: int| 0 <= k < count_before(l, x) ==> seq_lt(#[trigger] l[k], x),
        count_before(l, x) < l.len() ==> !seq_lt(l[count_before(l, x)], x),
    decreases l.len(),
{
    if l.len() > 0 && seq_lt(l[0], x) {
        lemma_count_before(l.drop_first(), x);
        assert forall|k: int| 0 <= k < count_before(l, x) implies seq_lt(#[trigger] l[k], x) by {
            if k > 0 {
                assert(l[k] == l.drop_first()[k - 1]);
            }
        }
        if count_before(l, x) < l.len() {
            assert(l[count_before(l, x)] == l.drop_first()[count_before(l.drop_first(), x)]);
        }
    }
}

/// A strictly sorted sequence with `x` added, still strictly sorted: some
/// such sequence exists.
pub proof fn lemma_sorted_insert_exists(l: Seq<Seq<char>>, x: Seq<char>) -> (r: Seq<Seq<char>>)
    requires
        strictly_sorted(l),
    ensures
        strictly_sorted(r),
        forall|t: Seq<char>| #[trigger] r.contains(t) <==> (l.contains(t) || t == x),
{
    lemma_count_before(l, x);
    let p = count_before(l, x);
    if p < l.len() && l[p] == x {
        assert forall|t: Seq<char>| #[trigger] l.contains(t) <==> (l.contains(t) || t == x) by {
            if t == x {
                assert(l[p] == t);
            }
        }
        l
    } else {
        let r = l.take(p) + seq![x] + l.skip(p);
        assert(r.len() == l.len() + 1);
        assert forall|k: int| 0 <= k < r.len() implies #[trigger] r[k] == (if k < p {
            l[k]
        } else if k == p {
            x
        } else {
            l[k - 1]
        }) by {}
        if p < l.len() {
            lemma_lt_total(l[p], x);
        }
        assert forall|i: int, j: int| 0 <= i < j < r.len() implies seq_lt(r[i], r[j]) by {
            if j < p {
            } else if j == p {
            } else if i < p {
            } else if i == p {
                if j - 1 > p {
                    lemma_lt_trans(x, l[p], l[j - 1]);
                }
            } else {
            }
        }
        assert forall|t: Seq<char>| #[trigger] r.contains(t) <==> (l.contains(t) || t == x) by {
            if r.contains(t) {
                let k = choose|k: int| 0 <= k < r.len() && r[k] == t;
                if k < p {
                    assert(l[k] == t);
                } else if k > p {
                    assert(l[k - 1] == t);
                }
            }
            if l.contains(t) {
                let k = choose|k: int| 0 <= k < l.len() && l[k] == t;
                if k < p {
                    assert(r[k] == t);
                } else {
                    assert(r[k + 1] == t);
                }
            }
            if t == x {
                assert(r[p] == t);
            }
        }
        r
    }
}

/// Two strictly sorted sequences with the same elements are equal.
pub proof fn lemma_sorted_unique(a: Seq<Seq<char>>, b: Seq<Seq<char>>)
    requires
        strictly_sorted(a),
        strictly_sorted(b),
        forall|t: Seq<char>| a.contains(t) <==> b.contains(t),
    ensures
        a == b,
    decreases a.len(),
{
    if a.len() == 0 {
        if b.len() > 0 {
            assert(b.contains(b[0]));
        }
        assert(a =~= b);
    } else {
        assert(a.contains(a[0]));
        assert(b.len() > 0);
        assert(b.contains(b[0]));
        let ia = choose|i: int| 0 <= i < b.len() && b[i] == a[0];
        let ib = choose|i: int| 0 <= i < a.len() && a[i] == b[0];
        if a[0] != b[0] {
            assert(ia > 0 && ib > 0);
            assert(seq_lt(b[0], a[0]));
            assert(seq_lt(a[0], b[0]));
            lemma_lt_trans(a[0], b[0], a[0]);
            lemma_lt_irrefl(a[0]);
        }
        let ra = a.drop_first();
        let rb = b.drop_first();
        assert forall|t: Seq<char>| ra.contains(t) <==> rb.contains(t) by {
            if ra.contains(t) {
                let k = choose|k: int| 0 <= k < ra.len() && ra[k] == t;
                assert(seq_lt(a[0], a[k + 1]));
                assert(a.contains(t));
                assert(b.contains(t));
                let m = choose|m: int| 0 <= m < b.len() && b[m] == t;
                if m == 0 {
                    lemma_lt_irrefl(a[0]);
                }
                assert(rb[m - 1] == t);
            }
            if rb.contains(t) {
                let k = choose|k: int| 0 <= k < rb.len() && rb[k] == t;
                assert(seq_lt(b[0], b[k + 1]));
                assert(b.contains(t));
                assert(a.contains(t));
                let m = choose|m: int| 0 <= m < a.len() && a[m] == t;
                if m == 0 {
                    lemma_lt_irrefl(b[0]);
                }
                assert(ra[m - 1] == t);
            }
        }
        lemma_sorted_unique(ra, rb);
        assert(a =~= seq![a[0]] + ra);
        assert(b =~= seq![b[0]] + rb);
    }
}

/// Adds `x` to a strictly sorted list of strings, keeping it strictly sorted
/// and leaving it unchanged when `x` is already present.
pub fn insert_sorted(list: &mut Vec<Vec<char>>, x: Vec<char>)
    requires
        strictly_sorted(views(old(list)@)),
    ensures
        strictly_sorted(views(final(list)@)),
        forall|t: Seq<char>|
            #[trigger] views(final(list)@).contains(t) <==> (views(old(list)@).contains(t) || t
                == x@),
{
    let ghost old_v = views(list@);
    let mut j: usize = 0;
    while j < list.len() && less_chars(&list[j], &x)
        invariant
            j <= list@.len(),
            views(list@) == old_v,
            forall|k: int| 0 <= k < j ==> seq_lt(#[trigger] old_v[k], x@),
        decreases list@.len() - j,
    {
        j = j + 1;
    }
    if j < list.len() && eq_chars(&list[j], &x) {
        assert(old_v[j as int] == x@);
        assert forall|t: Seq<char>| old_v.contains(t) <==> (old_v.contains(t) || t == x@) by {
            if t == x@ {
                assert(old_v[j as int] == t);
            }
        }
        return;
    }
    proof {
        if j < list@.len() {
            assert(old_v[j as int] == list@[j as int]@);
            assert(!seq_lt(old_v[j as int], x@));
            lemma_lt_total(old_v[j as int], x@);
        }
    }
    let ghost xv = x@;
    list.insert(j, x);
    let ghost nv = views(list@);
    assert(nv =~= old_v.insert(j as int, xv));
    assert forall|a: int, b: int| 0 <= a < b < nv.len() implies seq_lt(nv[a], nv[b]) by {
        if b < j {
        } else if b == j {
        } else if a == j {
            if b > j + 1 {
                lemma_lt_trans(xv, old_v[j as int], old_v[b - 1]);
            }
        } else if a < j {
            assert(seq_lt(old_v[a], xv));
            if j < old_v.len() {
                lemma_lt_trans(old_v[a], xv, old_v[j as int]);
                if b - 1 > j {
                    lemma_lt_trans(old_v[a], old_v[j as int], old_v[b - 1]);
                }
            }
        } else {
        }
    }
    assert forall|t: Seq<char>| nv.contains(t) <==> (old_v.contains(t) || t == xv) by {
        if nv.contains(t) {
            let k = choose|k: int| 0 <= k < nv.len() && nv[k] == t;
            if k < j {
                assert(old_v[k] == t);
            } else if k > j {
                assert(old_v[k - 1] == t);
            }
        }
        if old_v.contains(t) {
            let k = choose|k: int| 0 <= k < old_v.len() && old_v[k] == t;
            if k < j {
                assert(nv[k] == t);
            } else {
                assert(nv[k + 1] == t);
            }
        }
        if t == xv {
            assert(nv[j as int] == t);
        }
    }
}

} // verus!

verus! {

// ---------------------------------------------------------------------------
// Literals and decimal numbers
// ---------------------------------------------------------------------------

/// Whether the characters of `v` are those of the string `s`.
pub fn eq_str(v: &Vec<char>, s: &str) -> (r: bool)
    ensures
        r == (v@ == s@),
{
    let w = chars_of(s);
    eq_chars(v, &w)
}

/// An ASCII decimal digit, as accepted by `i32::from_str`.
pub open spec fn is_digit(c: char) -> bool {
    '0' <= c && c <= '9'
}

/// The value of a decimal digit character.
pub open spec fn digit_val(c: char) -> int {
    if c == '1' {
        1
    } else if c == '2' {
        2
    } else if c == '3' {
        3
    } else if c == '4' {
        4
    } else if c == '5' {
        5
    } else if c == '6' {
        6
    } else if c == '7' {
        7
    } else if c == '8' {
        8
    } else if c == '9' {
        9
    } else {
        0
    }
}

fn digit_value(c: char) -> (d: i64)
    ensures
        d == digit_val(c),
        0 <= d <= 9,
{
    if c == '1' {
        1
    } else if c == '2' {
        2
    } else if c == '3' {
        3
    } else if c == '4' {
        4
    } else if c == '5' {
        5
    } else if c == '6' {
        6
    } else if c == '7' {
        7
    } else if c == '8' {
        8
    } else if c == '9' {
        9
    } else {
        0
    }
}

/// The number written by the decimal digits `d`.
pub open spec fn digits_value(d: Seq<char>) -> int
    decreases d.len(),
{
    if d.len() == 0 {
        0
    } else {
        digits_value(d.drop_last()) * 10 + digit_val(d.last())
    }
}

/// Every character of `d` is a decimal digit.
pub open spec fn all_digits(d: Seq<char>) -> bool {
    forall|i: int| 0 <= i < d.len() ==> is_digit(#[trigger] d[i])
}

/// `i32::from_str`: an optional `+` or `-`, then one or more ASCII digits,
/// whose value must fit in an `i32`.
pub open spec fn parse_i32_spec(k: Seq<char>) -> Option<i32> {
    let neg = k.len() > 0 && k[0] == '-';
    let signed = k.len() > 0 && (k[0] == '-' || k[0] == '+');
    let d = if signed {
        k.drop_first()
    } else {
        k
    };
    let v = if neg {
        -digits_value(d)
    } else {
        digits_value(d)
    };
    if d.len() == 0 || !all_digits(d) || v < i32::MIN || v > i32::MAX {
        None
    } else {
        Some(v as i32)
    }
}

proof fn lemma_digits_value_nonneg(d: Seq<char>)
    ensures
        digits_value(d) >= 0,
    decreases d.len(),
{
    if d.len() > 0 {
        lemma_digits_value_nonneg(d.drop_last());
    }
}

proof fn lemma_digits_value_prefix(d: Seq<char>, i: int)
    requires
        0 <= i <= d.len(),
    ensures
        digits_value(d.take(i)) <= digits_value(d),
    decreases d.len() - i,
{
    if i < d.len() {
        assert(d.drop_last().take(i) =~= d.take(i));
        lemma_digits_value_prefix(d.drop_last(), i);
        lemma_digits_value_nonneg(d.drop_last());
    } else {
        assert(d.take(i) =~= d);
    }
}

/// Parses the characters of `v` as `i32::from_str` does.
pub fn parse_i32(v: &Vec<char>) -> (r: Option<i32>)
    ensures
        r == parse_i32_spec(v@),
{
    let n = v.len();
    let neg = n > 0 && v[0] == '-';
    let start: usize = if n > 0 && (v[0] == '-' || v[0] == '+') {
        1
    } else {
        0
    };
    let ghost d = if start == 1 {
        v@.drop_first()
    } else {
        v@
    };
    assert(d =~= v@.skip(start as int));
    if start == n {
        return None;
    }
    let mut acc: i64 = 0;
    let mut i: usize = start;
    while i < n
        invariant
            n == v@.len(),
            start < n,
            start <= i <= n,
            start == (if n > 0 && (v@[0] == '-' || v@[0] == '+') { 1int } else { 0int }),
            neg == (n > 0 && v@[0] == '-'),
            d == v@.skip(start as int),
            all_digits(d.take(i - start)),
            acc == digits_value(d.take(i - start)),
            0 <= acc <= 2147483648,
        decreases n - i,
    {
        let c = v[i];
        assert(d[i - start] == c);
        if !('0' <= c && c <= '9') {
            assert(!is_digit(d[i - start]));
            return None;
        }
        let dv = digit_value(c);
        assert(d.take(i - start + 1).drop_last() =~= d.take(i - start));
        assert(d.take(i - start + 1).last() == c);
        assert(digits_value(d.take(i - start + 1)) == acc * 10 + dv);
        acc = acc * 10 + dv;
        i = i + 1;
        assert(all_digits(d.take(i - start)));
        assert(acc == digits_value(d.take(i - start)));
        if acc > 2147483648 {
            proof {
                if all_digits(d) {
                    lemma_digits_value_prefix(d, i - start);
                    assert(digits_value(d) > 2147483648);
                }
                let signed = v@.len() > 0 && (v@[0] == '-' || v@[0] == '+');
                assert(signed == (start == 1));
                let dd = if signed { v@.drop_first() } else { v@ };
                assert(dd == d);
                if all_digits(dd) {
                    assert(digits_value(dd) > 2147483648);
                }
                assert(parse_i32_spec(v@) is None);
            }
            return None;
        }
    }
    assert(d.take(i - start) =~= d);
    if neg {
        Some((0 - acc) as i32)
    } else if acc <= 2147483647 {
        Some(acc as i32)
    } else {
        None
    }
}


// ---------------------------------------------------------------------------
// Decimal formatting
// ---------------------------------------------------------------------------

/// The character of the decimal digit with value `d` (`0..=9`).
pub open spec fn digit_char(d: int) -> char {
    if d == 1 {
        '1'
    } else if d == 2 {
        '2'
    } else if d == 3 {
        '3'
    } else if d == 4 {
        '4'
    } else if d == 5 {
        '5'
    } else if d == 6 {
        '6'
    } else if d == 7 {
        '7'
    } else if d == 8 {
        '8'
    } else if d == 9 {
        '9'
    } else {
        '0'
    }
}

/// The decimal digits of `n`, most significant first, without leading zeros
/// (`"0"` for zero).
pub open spec fn nat_digits(n: nat) -> Seq<char>
    decreases n,
{
    if n < 10 {
        seq![digit_char(n as int)]
    } else {
        nat_digits(n / 10).push(digit_char((n % 10) as int))
    }
}

proof fn lemma_digit_char(d: int)
    requires
        0 <= d < 10,
    ensures
        digit_val(digit_char(d)) == d,
        is_digit(digit_char(d)),
{
}

/// The digits of `n` are decimal digits whose value is `n`.
pub proof fn lemma_nat_digits_value(n: nat)
    ensures
        nat_digits(n).len() > 0,
        all_digits(nat_digits(n)),
        digits_value(nat_digits(n)) == n,
    decreases n,
{
    if n < 10 {
        lemma_digit_char(n as int);
        assert(nat_digits(n).drop_last() =~= Seq::<char>::empty());
        assert(nat_digits(n).last() == digit_char(n as int));
        assert(digits_value(Seq::<char>::empty()) == 0);
        assert(digits_value(nat_digits(n)) == digits_value(nat_digits(n).drop_last()) * 10 + digit_val(
            nat_digits(n).last(),
        ));
    } else {
        lemma_digit_char((n % 10) as int);
        lemma_nat_digits_value(n / 10);
        let d = nat_digits(n);
        assert(d.drop_last() =~= nat_digits(n / 10));
        assert forall|i: int| 0 <= i < d.len() implies is_digit(#[trigger] d[i]) by {
            if i < d.len() - 1 {
                assert(d[i] == nat_digits(n / 10)[i]);
            }
        }
        assert(d.last() == digit_char((n % 10) as int));
        assert(digits_value(d) == digits_value(d.drop_last()) * 10 + digit_val(d.last()));
        assert(n == (n / 10) * 10 + n % 10);
    }
}

/// Reading the decimal writing of an `i32` gives it back.
pub proof fn lemma_parse_decimal(n: i32)
    requires
        n >= 0,
    ensures
        parse_i32_spec(decimal(n as int)) == Some(n),
{
    lemma_nat_digits_value(n as nat);
    let k = decimal(n as int);
    assert(k == nat_digits(n as nat));
    assert(is_digit(k[0]));
}

/// How `Display` writes an integer: a `-` for a negative one, then the
/// decimal digits of its magnitude.
pub open spec fn decimal(n: int) -> Seq<char> {
    if n < 0 {
        seq!['-'] + nat_digits((-n) as nat)
    } else {
        nat_digits(n as nat)
    }
}

fn digit_to_char(d: u64) -> (c: char)
    requires
        d < 10,
    ensures
        c == digit_char(d as int),
{
    if d == 1 {
        '1'
    } else if d == 2 {
        '2'
    } else if d == 3 {
        '3'
    } else if d == 4 {
        '4'
    } else if d == 5 {
        '5'
    } else if d == 6 {
        '6'
    } else if d == 7 {
        '7'
    } else if d == 8 {
        '8'
    } else if d == 9 {
        '9'
    } else {
        '0'
    }
}

fn push_digits(m: u64, out: &mut Vec<char>)
    ensures
        final(out)@ == old(out)@ + nat_digits(m as nat),
    decreases m,
{
    if m >= 10 {
        push_digits(m / 10, out);
    }
    let c = digit_to_char(m % 10);
    out.push(c);
    proof {
        if m < 10 {
            assert(nat_digits(m as nat) =~= seq![digit_char(m as int)]);
        } else {
            assert(nat_digits(m as nat) == nat_digits((m / 10) as nat).push(digit_char((m % 10) as int)));
        }
    }
}

/// The decimal characters of `n`, as `n.to_string()` writes them.
pub fn decimal_chars(n: i64) -> (r: Vec<char>)
    ensures
        r@ == decimal(n as int),
{
    let mut out: Vec<char> = Vec::new();
    if n < 0 {
        out.push('-');
        let m: u64 = ((-(n + 1)) as u64) + 1;
        push_digits(m, &mut out);
        assert(out@ =~= seq!['-'] + nat_digits((-n) as nat));
    } else {
        push_digits(n as u64, &mut out);
        assert(out@ =~= nat_digits(n as nat));
    }
    out
}

/// The decimal characters of the unsigned `n`.
pub fn nat_chars(n: u64) -> (r: Vec<char>)
    ensures
        r@ == nat_digits(n as nat),
{
    let mut out: Vec<char> = Vec::new();
    push_digits(n, &mut out);
    assert(out@ =~= nat_digits(n as nat));
    out
}

/// The index of the last `c` in `s`, or -1.
pub open spec fn last_index_of_char(s: Seq<char>, c: char) -> int
    decreases s.len(),
{
    if s.len() == 0 {
        -1
    } else if s.last() == c {
        s.len() - 1
    } else {
        last_index_of_char(s.drop_last(), c)
    }
}

/// The characters `v[a..b]`.
pub fn slice_chars(v: &Vec<char>, a: usize, b: usize) -> (r: Vec<char>)
    requires
        a <= b <= v@.len(),
    ensures
        r@ == v@.subrange(a as int, b as int),
{
    let mut r: Vec<char> = Vec::new();
    let mut k: usize = a;
    while k < b
        invariant
            a <= k <= b <= v@.len(),
            r@ == v@.subrange(a as int, k as int),
        decreases b - k,
    {
        r.push(v[k]);
        k = k + 1;
        assert(r@ =~= v@.subrange(a as int, k as int));
    }
    r
}

/// Appends the characters of `s` to `v`.
pub fn append_chars(v: &mut Vec<char>, s: &Vec<char>)
    ensures
        final(v)@ == old(v)@ + s@,
{
    let mut i: usize = 0;
    while i < s.len()
        invariant
            i <= s@.len(),
            v@ == old(v)@ + s@.take(i as int),
        decreases s@.len() - i,
    {
        v.push(s[i]);
        i = i + 1;
        assert(v@ =~= old(v)@ + s@.take(i as int));
    }
    assert(s@.take(s@.len() as int) =~= s@);
}

} // verus!
