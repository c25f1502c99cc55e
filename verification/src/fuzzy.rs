//! Subsequence fuzzy match for row labels (case-insensitive). Lower score = better match.
//!
//! The needle's characters are looked up left to right in the haystack, each at the first
//! position after the previous match; the score is the sum of the matched positions.
use vstd::prelude::*;
use vstd::arithmetic::div_mod::lemma_add_mod_noop;
use crate::text::chars_of;

verus! {

/// The characters that `char::to_lowercase` yields for `c` (full Unicode lowercase mapping).
pub uninterp spec fn char_lowercase(c: char) -> Seq<char>;

/// `char::to_lowercase`, collected.
#[verifier::external_body]
fn lowercase_of(c: char) -> (r: Vec<char>)
    ensures
        r@ == char_lowercase(c),
{
    c.to_lowercase().collect()
}

/// Every character of `s` replaced by its lowercase mapping.
pub open spec fn lower_seq(s: Seq<char>) -> Seq<char>
    decreases s.len(),
{
    if s.len() == 0 {
        Seq::<char>::empty()
    } else {
        lower_seq(s.drop_last()) + char_lowercase(s.last())
    }
}

/// `j` is the first position at or after `from` where `hay` holds `c`.
pub open spec fn first_at_or_after(hay: Seq<char>, c: char, from: int, j: int) -> bool {
    &&& from <= j < hay.len()
    &&& hay[j] == c
    &&& forall|k: int| from <= k < j ==> hay[k] != c
}

/// Greedy left-to-right match of `needle` in `hay` starting at `pos`: the sum of the matched
/// positions, or `None` when some character cannot be found.
pub open spec fn greedy(needle: Seq<char>, hay: Seq<char>, pos: int) -> Option<int>
    decreases needle.len(),
{
    if needle.len() == 0 {
        Some(0)
    } else if exists|j: int| first_at_or_after(hay, needle[0], pos, j) {
        let j = choose|j: int| first_at_or_after(hay, needle[0], pos, j);
        match greedy(needle.drop_first(), hay, j + 1) {
            Some(s) => Some(j + s),
            None => None,
        }
    } else {
        None
    }
}

/// The score as a `u32`: sums wrap around at 2^32.
pub open spec fn wrap_score(o: Option<int>) -> Option<u32> {
    match o {
        Some(s) => Some((s % 0x1_0000_0000) as u32),
        None => None,
    }
}

/// What [`fuzzy_match_score`] returns for these two strings.
pub open spec fn spec_fuzzy_score(needle: Seq<char>, hay: Seq<char>) -> Option<u32> {
    if needle.len() == 0 {
        Some(0)
    } else {
        wrap_score(greedy(lower_seq(needle), lower_seq(hay), 0))
    }
}

proof fn lemma_first_unique(hay: Seq<char>, c: char, from: int, j1: int, j2: int)
    requires
        first_at_or_after(hay, c, from, j1),
        first_at_or_after(hay, c, from, j2),
    ensures
        j1 == j2,
{
    if j1 < j2 {
        assert(hay[j1] != c);
    } else if j2 < j1 {
        assert(hay[j2] != c);
    }
}

/// `s` lowercased character by character.
pub fn lowercase_chars(s: &[char]) -> (r: Vec<char>)
    ensures
        r@ == lower_seq(s@),
{
    let mut r: Vec<char> = Vec::new();
    let mut i: usize = 0;
    assert(s@.take(0) =~= Seq::<char>::empty());
    while i < s.len()
        invariant
            0 <= i <= s@.len(),
            r@ == lower_seq(s@.take(i as int)),
        decreases s.len() - i,
    {
        let l = lowercase_of(s[i]);
        let mut k: usize = 0;
        let ghost base = r@;
        while k < l.len()
            invariant
                0 <= k <= l@.len(),
                r@ == base + l@.take(k as int),
            decreases l.len() - k,
        {
            r.push(l[k]);
            k = k + 1;
            assert(r@ =~= base + l@.take(k as int));
        }
        assert(l@.take(l@.len() as int) =~= l@);
        assert(s@.take(i + 1).drop_last() =~= s@.take(i as int));
        i = i + 1;
    }
    assert(s@.take(s@.len() as int) =~= s@);
    r
}

/// Greedy score of an already-lowercased needle in an already-lowercased haystack.
pub fn greedy_score(needle: &[char], hay: &[char]) -> (r: Option<u32>)
    ensures
        r == wrap_score(greedy(needle@, hay@, 0)),
{
    let mut score: u32 = 0;
    let ghost mut acc: int = 0;
    let mut pos: usize = 0;
    let mut i: usize = 0;
    let hn = hay.len();
    assert(needle@.skip(0) =~= needle@);
    while i < needle.len()
        invariant
            hn == hay@.len(),
            0 <= i <= needle@.len(),
            0 <= pos <= hay@.len(),
            acc >= 0,
            score == acc % 0x1_0000_0000,
            greedy(needle@, hay@, 0) == match greedy(needle@.skip(i as int), hay@, pos as int) {
                Some(s) => Some(acc + s),
                None => None::<int>,
            },
        decreases needle.len() - i,
    {
        let c = needle[i];
        let ghost rest = needle@.skip(i as int);
        assert(rest[0] == c);
        assert(rest.drop_first() =~= needle@.skip(i + 1));
        let mut j: usize = pos;
        while j < hn && hay[j] != c
            invariant
                hn == hay@.len(),
                pos <= j <= hn,
                forall|k: int| pos <= k < j ==> hay@[k] != c,
            decreases hn - j,
        {
            j = j + 1;
        }
        if j == hn {
            proof {
                assert(!exists|jj: int| first_at_or_after(hay@, rest[0], pos as int, jj)) by {
                    if exists|jj: int| first_at_or_after(hay@, rest[0], pos as int, jj) {
                        let jj = choose|jj: int| first_at_or_after(hay@, rest[0], pos as int, jj);
                        assert(hay@[jj] != c);
                    }
                }
            }
            return None;
        }
        proof {
            assert(first_at_or_after(hay@, rest[0], pos as int, j as int));
            let jc = choose|jj: int| first_at_or_after(hay@, rest[0], pos as int, jj);
            lemma_first_unique(hay@, rest[0], pos as int, j as int, jc);
            lemma_add_mod_noop(acc, j as int, 0x1_0000_0000);
        }
        let jj: u32 = (j as u64 % 0x1_0000_0000u64) as u32;
        score = score.wrapping_add(jj);
        proof {
            acc = acc + j;
        }
        pos = j + 1;
        i = i + 1;
    }
    assert(needle@.skip(i as int) =~= Seq::<char>::empty());
    Some(score)
}

/// Greedy subsequence match of `needle` in `haystack`, both lowercased: the sum of matched
/// positions (so tighter, earlier matches sort first), `None` if no match. An empty needle
/// matches everything with score 0.
pub fn fuzzy_match_score(needle: &str, haystack: &str) -> (r: Option<u32>)
    ensures
        r == spec_fuzzy_score(needle@, haystack@),
{
    let n = chars_of(needle);
    if n.len() == 0 {
        return Some(0);
    }
    let h = chars_of(haystack);
    let nl = lowercase_chars(n.as_slice());
    let hl = lowercase_chars(h.as_slice());
    greedy_score(nl.as_slice(), hl.as_slice())
}

/// An empty needle matches every haystack with score 0.
pub proof fn lemma_fuzzy_empty_needle(hay: Seq<char>)
    ensures
        spec_fuzzy_score(Seq::<char>::empty(), hay) == Some(0u32),
{
}

/// A one-character needle matches at the first place the haystack holds it (the score is
/// that position), and does not match when the haystack lacks it.
pub proof fn lemma_greedy_one_char(c: char, hay: Seq<char>)
    ensures
        greedy(seq![c], hay, 0) is None <==> !hay.contains(c),
        greedy(seq![c], hay, 0) matches Some(j) ==> 0 <= j < hay.len() && hay[j] == c && forall|k: int|
            0 <= k < j ==> hay[k] != c,
{
    let n = seq![c];
    assert(n.drop_first() =~= Seq::<char>::empty());
    assert(n[0] == c);
    assert(greedy(n.drop_first(), hay, 0) == Some(0int));
    if hay.contains(c) {
        let i = choose|i: int| 0 <= i < hay.len() && hay[i] == c;
        lemma_first_exists(hay, c, 0, i);
        let j = choose|j: int| first_at_or_after(hay, c, 0, j);
        assert(greedy(n.drop_first(), hay, j + 1) == Some(0int));
        assert(greedy(n, hay, 0) == Some(j));
    } else {
        if exists|j: int| first_at_or_after(hay, c, 0, j) {
            let j = choose|j: int| first_at_or_after(hay, c, 0, j);
            assert(hay[j] == c);
        }
    }
}

proof fn lemma_first_exists(hay: Seq<char>, c: char, from: int, i: int)
    requires
        0 <= from <= i < hay.len(),
        hay[i] == c,
    ensures
        exists|j: int| first_at_or_after(hay, c, from, j),
    decreases i - from,
{
    if hay[from] == c {
        assert(first_at_or_after(hay, c, from, from));
    } else {
        let f1 = from + 1;
        lemma_first_exists(hay, c, f1, i);
        let j = choose|j: int| first_at_or_after(hay, c, f1, j);
        assert(first_at_or_after(hay, c, from, j));
    }
}

/// When a needle matches from `pos`, each of its characters occurs in the haystack at or
/// after `pos`, in order: the matched positions increase and hold the needle's characters.
pub proof fn lemma_greedy_matches_in_order(needle: Seq<char>, hay: Seq<char>, pos: int)
    requires
        0 <= pos,
        greedy(needle, hay, pos) is Some,
        needle.len() > 0,
    ensures
        exists|j: int| pos <= j < hay.len() && hay[j] == needle[0] && (needle.len() == 1 || greedy(
            needle.drop_first(),
            hay,
            j + 1,
        ) is Some),
        forall|i: int| 0 <= i < needle.len() ==> hay.subrange(pos, hay.len() as int).contains(#[trigger] needle[i]),
    decreases needle.len(),
{
    let c0 = needle[0];
    let j = choose|j: int| first_at_or_after(hay, c0, pos, j);
    assert(pos <= j < hay.len() && hay[j] == needle[0]);
    let tail = needle.drop_first();
    assert forall|i: int| 0 <= i < needle.len() implies hay.subrange(pos, hay.len() as int).contains(#[trigger] needle[i]) by {
        if i == 0 {
            assert(hay.subrange(pos, hay.len() as int)[j - pos] == needle[0]);
        } else {
            lemma_greedy_matches_in_order(tail, hay, j + 1);
            assert(tail[i - 1] == needle[i]);
            let sub = hay.subrange(j + 1, hay.len() as int);
            assert(sub.contains(tail[i - 1]));
            let q = choose|q: int| 0 <= q < sub.len() && sub[q] == tail[i - 1];
            assert(hay.subrange(pos, hay.len() as int)[q + j + 1 - pos] == needle[i]);
        }
    }
}

/// Lowercasing works character by character: the lowercase of a concatenation is the
/// concatenation of the lowercases.
pub proof fn lemma_lower_concat(a: Seq<char>, b: Seq<char>)
    ensures
        lower_seq(a + b) == lower_seq(a) + lower_seq(b),
    decreases b.len(),
{
    if b.len() == 0 {
        assert(a + b =~= a);
        assert(lower_seq(a) + lower_seq(b) =~= lower_seq(a));
    } else {
        lemma_lower_concat(a, b.drop_last());
        assert((a + b).drop_last() =~= a + b.drop_last());
        assert((a + b).last() == b.last());
        assert(lower_seq(a) + lower_seq(b.drop_last()) + char_lowercase(b.last()) =~= lower_seq(a) + (lower_seq(
            b.drop_last(),
        ) + char_lowercase(b.last())));
    }
}

/// A needle written out contiguously in the haystack at `p` matches from any earlier start.
pub proof fn lemma_greedy_contiguous(needle: Seq<char>, hay: Seq<char>, q: int, p: int)
    requires
        0 <= q <= p,
        p + needle.len() <= hay.len(),
        hay.subrange(p, p + needle.len()) == needle,
    ensures
        greedy(needle, hay, q) is Some,
    decreases needle.len(),
{
    if needle.len() > 0 {
        assert(hay[p] == hay.subrange(p, p + needle.len())[0]);
        let c0 = needle[0];
        lemma_first_exists(hay, c0, q, p);
        let j = choose|j: int| first_at_or_after(hay, c0, q, j);
        assert(j <= p);
        let tail = needle.drop_first();
        assert(hay.subrange(p + 1, p + 1 + tail.len()) =~= tail);
        lemma_greedy_contiguous(tail, hay, j + 1, p + 1);
    }
}

/// A label that contains the typed text (as written, in any case the lowercase mapping
/// makes equal) matches it: `pre + needle + post` always scores.
pub proof fn lemma_fuzzy_substring_matches(pre: Seq<char>, needle: Seq<char>, post: Seq<char>)
    ensures
        spec_fuzzy_score(needle, pre + needle + post) is Some,
{
    if needle.len() > 0 {
        lemma_lower_concat(pre + needle, post);
        lemma_lower_concat(pre, needle);
        let ln = lower_seq(needle);
        let h = lower_seq(pre + needle + post);
        let p = lower_seq(pre).len() as int;
        assert(h =~= lower_seq(pre) + ln + lower_seq(post));
        assert(h.subrange(p, p + ln.len()) =~= ln);
        lemma_greedy_contiguous(ln, h, 0, p);
    }
}

} // verus!
