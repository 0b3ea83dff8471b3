//! Character-level text handling: conversion between `str`, `String` and
//! character vectors, splitting, trimming, decimal numbers and padding.

use vstd::prelude::*;

verus! {

/// `String::push` appends one character.
pub assume_specification[ String::push ](s: &mut String, ch: char)
    ensures
        final(s)@ == old(s)@.push(ch),
;

/// The text that `std::error::Error::description` gives for the error that
/// `String::from_utf8` returns on `bytes`, which depends on the bytes alone.
pub uninterp spec fn utf8_error_description(bytes: Seq<u8>) -> Seq<char>;

/// Calls `String::from_utf8`, and on failure turns its `FromUtf8Error` into
/// the text of its deprecated `description`. Claims that it succeeds
/// exactly on valid UTF-8, with the characters that the bytes encode, and
/// that the error text is `utf8_error_description(bytes@)`.
#[verifier::external_body]
#[allow(deprecated)]
pub(crate) fn string_from_utf8(bytes: Vec<u8>) -> (r: Result<String, String>)
    ensures
        r is Ok <==> vstd::utf8::valid_utf8(bytes@),
        r matches Ok(s) ==> s@ == vstd::utf8::decode_utf8(bytes@),
        r matches Err(t) ==> t@ == utf8_error_description(bytes@),
{
    match String::from_utf8(bytes) {
        Ok(s) => Ok(s),
        Err(e) => Err(std::error::Error::description(&e).to_string()),
    }
}

/// The text that `bytes` encode, or the empty text where they are not
/// valid UTF-8: `String::from_utf8(..).unwrap_or(String::new())`.
pub open spec fn utf8_or_empty(bytes: Seq<u8>) -> Seq<char> {
    if vstd::utf8::valid_utf8(bytes) {
        vstd::utf8::decode_utf8(bytes)
    } else {
        Seq::<char>::empty()
    }
}

/// The characters that `bytes` encode, or none where they are not UTF-8.
pub fn chars_of_utf8_or_empty(bytes: Vec<u8>) -> (v: Vec<char>)
    ensures
        v@ == utf8_or_empty(bytes@),
{
    match string_from_utf8(bytes) {
        Ok(s) => chars_of(s.as_str()),
        Err(_) => Vec::new(),
    }
}

/// What `str::to_lowercase` gives for `s`: the Unicode lowercase mapping,
/// which depends on the text alone.
pub uninterp spec fn lowercase(s: Seq<char>) -> Seq<char>;

/// Calls `str::to_lowercase`. Claims that the result is `lowercase(s@)`.
#[verifier::external_body]
pub(crate) fn to_lowercase(s: &str) -> (r: String)
    ensures
        r@ == lowercase(s@),
{
    s.to_lowercase()
}

/// Whether `a` and `b` hold the same characters.
pub fn chars_equal(a: &[char], b: &[char]) -> (r: bool)
    ensures
        r == (a@ == b@),
{
    if a.len() != b.len() {
        return false;
    }
    let mut i: usize = 0;
    while i < a.len()
        invariant
            i <= a@.len(),
            a@.len() == b@.len(),
            forall|j: int| 0 <= j < i ==> a@[j] == b@[j],
        decreases a@.len() - i,
    {
        if a[i] != b[i] {
            return false;
        }
        i = i + 1;
    }
    assert(a@ == b@);
    true
}

/// The characters of `s`, in order.
pub fn chars_of(s: &str) -> (v: Vec<char>)
    ensures
        v@ == s@,
{
    let mut v: Vec<char> = Vec::new();
    for c in it: s.chars()
        invariant
            v@ == it.seq().take(it.index() as int),
    {
        v.push(c);
    }
    v
}

/// A `String` holding exactly the characters of `v`.
pub fn string_of(v: &[char]) -> (s: String)
    ensures
        s@ == v@,
{
    let mut s = String::new();
    let mut i: usize = 0;
    while i < v.len()
        invariant
            i <= v@.len(),
            s@ == v@.take(i as int),
        decreases v@.len() - i,
    {
        s.push(v[i]);
        i = i + 1;
        assert(v@.take(i as int) == v@.take(i - 1).push(v@[i - 1]));
    }
    assert(v@.take(i as int) == v@);
    s
}


/// The fields of `s` between occurrences of `sep`, as `str::split` with a
/// one-character pattern yields them: always at least one field, and an
/// empty field wherever two separators meet or a separator starts or ends `s`.
pub open spec fn split_on(s: Seq<char>, sep: char) -> Seq<Seq<char>>
    decreases s.len(),
{
    if s.len() == 0 {
        seq![Seq::<char>::empty()]
    } else {
        let init = split_on(s.drop_last(), sep);
        if s.last() == sep {
            init.push(Seq::<char>::empty())
        } else {
            init.update(init.len() - 1, init.last().push(s.last()))
        }
    }
}

/// Splitting always yields at least one field.
pub proof fn lemma_split_on_len(s: Seq<char>, sep: char)
    ensures
        split_on(s, sep).len() >= 1,
    decreases s.len(),
{
    if s.len() > 0 {
        lemma_split_on_len(s.drop_last(), sep);
    }
}

/// Appending text without separators extends the last field.
pub proof fn lemma_split_on_extend(x: Seq<char>, y: Seq<char>, sep: char)
    requires
        !y.contains(sep),
    ensures
        split_on(x + y, sep) == split_on(x, sep).update(
            split_on(x, sep).len() - 1,
            split_on(x, sep).last() + y,
        ),
    decreases y.len(),
{
    lemma_split_on_len(x, sep);
    if y.len() == 0 {
        assert(x + y == x);
        assert(split_on(x, sep).last() + y == split_on(x, sep).last());
        assert(split_on(x, sep).update(split_on(x, sep).len() - 1, split_on(x, sep).last())
            == split_on(x, sep));
    } else {
        let y0 = y.drop_last();
        assert(!y0.contains(sep)) by {
            if y0.contains(sep) {
                let k = choose|k: int| 0 <= k < y0.len() && y0[k] == sep;
                assert(y[k] == sep);
            }
        }
        lemma_split_on_extend(x, y0, sep);
        assert((x + y).drop_last() == x + y0);
        assert((x + y).last() == y.last());
        assert(y.last() != sep) by {
            assert(y[y.len() - 1] == y.last());
        }
        assert(split_on(x, sep).last() + y0 + seq![y.last()] == split_on(x, sep).last() + y);
        lemma_split_on_len(x + y0, sep);
        let init = split_on(x + y0, sep);
        let sx = split_on(x, sep);
        assert(split_on(x + y, sep) == init.update(init.len() - 1, init.last().push(y.last())));
        assert(init.len() == sx.len());
        assert(init.last() == sx.last() + y0);
        assert(init.last().push(y.last()) =~= sx.last() + y);
        assert(split_on(x + y, sep) =~= split_on(x, sep).update(
            split_on(x, sep).len() - 1,
            split_on(x, sep).last() + y,
        ));
    }
}

/// Two pieces without separators, joined by one, split back into the two.
pub proof fn lemma_split_on_pair(a: Seq<char>, b: Seq<char>, sep: char)
    requires
        !a.contains(sep),
        !b.contains(sep),
    ensures
        split_on(a + seq![sep] + b, sep) == seq![a, b],
{
    lemma_split_on_extend(Seq::<char>::empty(), a, sep);
    assert(Seq::<char>::empty() + a == a);
    assert(split_on(Seq::<char>::empty(), sep) == seq![Seq::<char>::empty()]);
    assert(split_on(a, sep) =~= seq![a]);
    assert((a + seq![sep]).drop_last() == a);
    assert(split_on(a + seq![sep], sep) =~= seq![a, Seq::<char>::empty()]);
    lemma_split_on_extend(a + seq![sep], b, sep);
    assert(split_on(a + seq![sep] + b, sep) =~= seq![a, b]);
}

/// The views of a vector of character vectors.
pub open spec fn views(v: Seq<Vec<char>>) -> Seq<Seq<char>> {
    v.map_values(|f: Vec<char>| f@)
}

/// The fields of `s` separated by `sep`.
pub fn split_chars(s: &[char], sep: char) -> (fields: Vec<Vec<char>>)
    ensures
        views(fields@) == split_on(s@, sep),
{
    let mut done: Vec<Vec<char>> = Vec::new();
    let mut cur: Vec<char> = Vec::new();
    let mut i: usize = 0;
    while i < s.len()
        invariant
            i <= s@.len(),
            split_on(s@.take(i as int), sep) == views(done@).push(cur@),
        decreases s@.len() - i,
    {
        let c = s[i];
        proof {
            assert(s@.take(i + 1).drop_last() == s@.take(i as int));
            assert(s@.take(i + 1).last() == c);
        }
        if c == sep {
            let finished = cur;
            done.push(finished);
            cur = Vec::new();
            assert(views(done@) == views(done@.drop_last()).push(finished@));
        } else {
            cur.push(c);
        }
        i = i + 1;
    }
    assert(s@.take(i as int) == s@);
    done.push(cur);
    assert(views(done@) == views(done@.drop_last()).push(done@.last()@));
    done
}

/// `s` without the characters satisfying `p` at its start.
pub open spec fn drop_leading(s: Seq<char>, p: spec_fn(char) -> bool) -> Seq<char>
    decreases s.len(),
{
    if s.len() > 0 && p(s[0]) {
        drop_leading(s.drop_first(), p)
    } else {
        s
    }
}

/// `s` without the characters satisfying `p` at its end.
pub open spec fn drop_trailing(s: Seq<char>, p: spec_fn(char) -> bool) -> Seq<char>
    decreases s.len(),
{
    if s.len() > 0 && p(s.last()) {
        drop_trailing(s.drop_last(), p)
    } else {
        s
    }
}

/// `s` without the characters satisfying `p` at either end.
pub open spec fn trim_by(s: Seq<char>, p: spec_fn(char) -> bool) -> Seq<char> {
    drop_trailing(drop_leading(s, p), p)
}

/// `s` without the copies of `c` at either end, as `str::trim_matches(c)`.
pub open spec fn trim_char(s: Seq<char>, c: char) -> Seq<char> {
    trim_by(s, equal_to(c))
}

/// The test for being the character `c`.
pub open spec fn equal_to(c: char) -> spec_fn(char) -> bool {
    |x: char| x == c
}

/// The test for whitespace.
pub open spec fn whitespace_test() -> spec_fn(char) -> bool {
    |x: char| white_space(x)
}

proof fn lemma_drop_leading_head(s: Seq<char>, p: spec_fn(char) -> bool)
    ensures
        drop_leading(s, p).len() > 0 ==> !p(drop_leading(s, p)[0]),
    decreases s.len(),
{
    if s.len() > 0 && p(s[0]) {
        lemma_drop_leading_head(s.drop_first(), p);
    }
}

proof fn lemma_drop_trailing_prefix(s: Seq<char>, p: spec_fn(char) -> bool)
    ensures
        drop_trailing(s, p).len() <= s.len(),
        drop_trailing(s, p) == s.take(drop_trailing(s, p).len() as int),
        drop_trailing(s, p).len() > 0 ==> !p(drop_trailing(s, p).last()),
    decreases s.len(),
{
    if s.len() > 0 && p(s.last()) {
        lemma_drop_trailing_prefix(s.drop_last(), p);
        let t = drop_trailing(s.drop_last(), p);
        assert(s.drop_last().take(t.len() as int) == s.take(t.len() as int));
    } else {
        assert(s.take(s.len() as int) == s);
    }
}

/// Trimmed text neither starts nor ends with a character that the trim
/// removes.
pub proof fn lemma_trim_by_ends(s: Seq<char>, p: spec_fn(char) -> bool)
    ensures
        trim_by(s, p).len() > 0 ==> !p(trim_by(s, p)[0]) && !p(trim_by(s, p).last()),
{
    let d = drop_leading(s, p);
    lemma_drop_leading_head(s, p);
    lemma_drop_trailing_prefix(d, p);
    let t = trim_by(s, p);
    if t.len() > 0 {
        assert(t[0] == d.take(t.len() as int)[0]);
    }
}

/// Whether `c` has the Unicode `White_Space` property, as
/// `char::is_whitespace` reports it.
pub uninterp spec fn white_space(c: char) -> bool;

/// `s` without whitespace at either end, as `str::trim`.
pub open spec fn trim_white(s: Seq<char>) -> Seq<char> {
    trim_by(s, whitespace_test())
}

/// Calls `char::is_whitespace`. Claims that its answer is `white_space(c)`:
/// it depends on the character alone (the Unicode `White_Space` table).
#[verifier::external_body]
fn is_white_space(c: char) -> (b: bool)
    ensures
        b == white_space(c),
{
    c.is_whitespace()
}

/// A copy of `s[lo..hi]`.
pub fn copy_range(s: &[char], lo: usize, hi: usize) -> (r: Vec<char>)
    requires
        lo <= hi <= s@.len(),
    ensures
        r@ == s@.subrange(lo as int, hi as int),
{
    let mut r: Vec<char> = Vec::new();
    let mut k: usize = lo;
    while k < hi
        invariant
            lo <= k <= hi,
            hi <= s@.len(),
            r@ == s@.subrange(lo as int, k as int),
        decreases hi - k,
    {
        r.push(s[k]);
        k = k + 1;
        assert(r@ == s@.subrange(lo as int, k as int));
    }
    r
}

proof fn lemma_drop_leading_step(s: Seq<char>, i: int, p: spec_fn(char) -> bool)
    requires
        0 <= i < s.len(),
        p(s[i]),
    ensures
        drop_leading(s.subrange(i, s.len() as int), p) == drop_leading(
            s.subrange(i + 1, s.len() as int),
            p,
        ),
{
    assert(s.subrange(i, s.len() as int).drop_first() == s.subrange(i + 1, s.len() as int));
}

proof fn lemma_drop_trailing_step(s: Seq<char>, i: int, j: int, p: spec_fn(char) -> bool)
    requires
        0 <= i < j <= s.len(),
        p(s[j - 1]),
    ensures
        drop_trailing(s.subrange(i, j), p) == drop_trailing(s.subrange(i, j - 1), p),
{
    assert(s.subrange(i, j).drop_last() == s.subrange(i, j - 1));
}

/// `s` without the copies of `c` at either end.
pub fn trim_matches_char(s: &[char], c: char) -> (r: Vec<char>)
    ensures
        r@ == trim_char(s@, c),
{
    let ghost p = equal_to(c);
    let n = s.len();
    let mut i: usize = 0;
    assert(s@.subrange(0, n as int) == s@);
    while i < n && s[i] == c
        invariant
            i <= n,
            n == s@.len(),
            p == equal_to(c),
            drop_leading(s@, p) == drop_leading(s@.subrange(i as int, n as int), p),
        decreases n - i,
    {
        proof {
            lemma_drop_leading_step(s@, i as int, p);
        }
        i = i + 1;
    }
    let mut j: usize = n;
    while j > i && s[j - 1] == c
        invariant
            i <= j <= n,
            n == s@.len(),
            p == equal_to(c),
            drop_trailing(drop_leading(s@, p), p) == drop_trailing(
                s@.subrange(i as int, j as int),
                p,
            ),
        decreases j - i,
    {
        proof {
            lemma_drop_trailing_step(s@, i as int, j as int, p);
        }
        j = j - 1;
    }
    copy_range(s, i, j)
}

/// `s` without whitespace at either end.
pub fn trim_whitespace(s: &[char]) -> (r: Vec<char>)
    ensures
        r@ == trim_white(s@),
{
    let ghost p = whitespace_test();
    let n = s.len();
    let mut i: usize = 0;
    assert(s@.subrange(0, n as int) == s@);
    while i < n && is_white_space(s[i])
        invariant
            i <= n,
            n == s@.len(),
            p == whitespace_test(),
            drop_leading(s@, p) == drop_leading(s@.subrange(i as int, n as int), p),
        decreases n - i,
    {
        proof {
            lemma_drop_leading_step(s@, i as int, p);
        }
        i = i + 1;
    }
    let mut j: usize = n;
    while j > i && is_white_space(s[j - 1])
        invariant
            i <= j <= n,
            n == s@.len(),
            p == whitespace_test(),
            drop_trailing(drop_leading(s@, p), p) == drop_trailing(
                s@.subrange(i as int, j as int),
                p,
            ),
        decreases j - i,
    {
        proof {
            lemma_drop_trailing_step(s@, i as int, j as int, p);
        }
        j = j - 1;
    }
    copy_range(s, i, j)
}

} // verus!
