//! Character-sequence utilities: trimming, splitting, decimal numbers.
//!
//! Every function works on `char` sequences and is specified by a spec function over
//! `Seq<char>`. The specs follow the documented behaviour of the corresponding `str`
//! methods (`trim`, `split`, `lines`, `split_whitespace`, `parse::<uN>()`).
use vstd::prelude::*;

verus! {

/// Unicode `White_Space` (what `char::is_whitespace` tests).
pub open spec fn is_ws(c: char) -> bool {
    let u = c as u32;
    ||| 0x9 <= u <= 0xD
    ||| u == 0x20
    ||| u == 0x85
    ||| u == 0xA0
    ||| u == 0x1680
    ||| 0x2000 <= u <= 0x200A
    ||| u == 0x2028
    ||| u == 0x2029
    ||| u == 0x202F
    ||| u == 0x205F
    ||| u == 0x3000
}

/// The view of each vector in a sequence of character vectors.
pub open spec fn views(vs: Seq<Vec<char>>) -> Seq<Seq<char>> {
    vs.map_values(|v: Vec<char>| v@)
}

/// `s` without its leading whitespace.
pub open spec fn trim_start_seq(s: Seq<char>) -> Seq<char>
    decreases s.len(),
{
    if s.len() > 0 && is_ws(s[0]) {
        trim_start_seq(s.drop_first())
    } else {
        s
    }
}

/// `s` without its trailing whitespace.
pub open spec fn trim_end_seq(s: Seq<char>) -> Seq<char>
    decreases s.len(),
{
    if s.len() > 0 && is_ws(s.last()) {
        trim_end_seq(s.drop_last())
    } else {
        s
    }
}

/// `str::trim`: leading and trailing whitespace removed.
pub open spec fn trim_seq(s: Seq<char>) -> Seq<char> {
    trim_end_seq(trim_start_seq(s))
}

pub open spec fn starts_with_seq(s: Seq<char>, p: Seq<char>) -> bool {
    p.len() <= s.len() && s.subrange(0, p.len() as int) == p
}

pub open spec fn ends_with_seq(s: Seq<char>, p: Seq<char>) -> bool {
    p.len() <= s.len() && s.subrange(s.len() - p.len(), s.len() as int) == p
}

/// `t` occurs somewhere in `s` as a contiguous run.
pub open spec fn contains_seq(s: Seq<char>, t: Seq<char>) -> bool {
    exists|i: int| 0 <= i && i + t.len() <= s.len() && #[trigger] s.subrange(i, i + t.len()) == t
}

/// `str::split(sep)`: the pieces between occurrences of `sep`, empty pieces included.
pub open spec fn split_on(s: Seq<char>, sep: char) -> Seq<Seq<char>>
    decreases s.len(),
{
    if s.len() == 0 {
        seq![Seq::<char>::empty()]
    } else {
        let p = split_on(s.drop_last(), sep);
        if s.last() == sep {
            p.push(Seq::<char>::empty())
        } else {
            p.update(p.len() - 1, p.last().push(s.last()))
        }
    }
}

/// One trailing carriage return removed.
pub open spec fn strip_cr(s: Seq<char>) -> Seq<char> {
    if s.len() > 0 && s.last() == '\r' {
        s.drop_last()
    } else {
        s
    }
}

/// `str::lines`: split at `\n`, a `\r` before a `\n` dropped, no empty line after a final `\n`.
pub open spec fn lines_seq(s: Seq<char>) -> Seq<Seq<char>> {
    let p = split_on(s, '\n');
    let body = p.drop_last().map_values(|x: Seq<char>| strip_cr(x));
    if p.last().len() == 0 {
        body
    } else {
        body.push(p.last())
    }
}

/// Pieces of `s` separated by single whitespace characters (empty pieces included).
pub open spec fn split_ws_pieces(s: Seq<char>) -> Seq<Seq<char>>
    decreases s.len(),
{
    if s.len() == 0 {
        seq![Seq::<char>::empty()]
    } else {
        let p = split_ws_pieces(s.drop_last());
        if is_ws(s.last()) {
            p.push(Seq::<char>::empty())
        } else {
            p.update(p.len() - 1, p.last().push(s.last()))
        }
    }
}

/// The non-empty members of `ss`, in order.
pub open spec fn nonempty_only(ss: Seq<Seq<char>>) -> Seq<Seq<char>>
    decreases ss.len(),
{
    if ss.len() == 0 {
        ss
    } else if ss.last().len() == 0 {
        nonempty_only(ss.drop_last())
    } else {
        nonempty_only(ss.drop_last()).push(ss.last())
    }
}

/// `str::split_whitespace`: the maximal runs of non-whitespace characters.
pub open spec fn words(s: Seq<char>) -> Seq<Seq<char>> {
    nonempty_only(split_ws_pieces(s))
}

pub open spec fn is_digit(c: char) -> bool {
    '0' <= c && c <= '9'
}

pub open spec fn digit_val(c: char) -> nat {
    (c as u32 - '0' as u32) as nat
}

/// Value of a run of decimal digits (most significant first).
pub open spec fn digits_value(s: Seq<char>) -> nat
    decreases s.len(),
{
    if s.len() == 0 {
        0
    } else {
        digits_value(s.drop_last()) * 10 + digit_val(s.last())
    }
}

pub open spec fn all_digits(s: Seq<char>) -> bool {
    forall|i: int| 0 <= i < s.len() ==> is_digit(#[trigger] s[i])
}

/// The digits part of an unsigned number: one leading `+` is allowed.
pub open spec fn unsigned_digits(s: Seq<char>) -> Seq<char> {
    if s.len() > 0 && s[0] == '+' {
        s.drop_first()
    } else {
        s
    }
}

/// `str::parse` for an unsigned integer type whose largest value is `max`.
pub open spec fn parse_unsigned(s: Seq<char>, max: nat) -> Option<nat> {
    let d = unsigned_digits(s);
    if d.len() > 0 && all_digits(d) && digits_value(d) <= max {
        Some(digits_value(d))
    } else {
        None
    }
}

pub open spec fn digit_char(d: nat) -> char {
    (d + 48) as char
}

/// Decimal rendering of `n` (what `format!("{n}")` prints).
pub open spec fn dec_digits(n: nat) -> Seq<char>
    decreases n,
{
    if n < 10 {
        seq![digit_char(n)]
    } else {
        dec_digits(n / 10).push(digit_char(n % 10))
    }
}

/// Characters of a string, in order.
pub fn chars_of(s: &str) -> (v: Vec<char>)
    ensures
        v@ == s@,
{
    broadcast use vstd::string::axiom_spec_iter;
    let mut v: Vec<char> = Vec::new();
    for c in it: s.chars()
        invariant
            it.seq() == s@,
            v@ == it.seq().take(it.index() as int),
    {
        v.push(c);
    }
    assert(v@ =~= s@);
    v
}

/// A string made of the given characters.
#[verifier::external_body]
pub fn string_of(v: &[char]) -> (s: String)
    ensures
        s@ == v@,
{
    v.iter().collect()
}

pub fn is_whitespace(c: char) -> (b: bool)
    ensures
        b == is_ws(c),
{
    let u = c as u32;
    (0x9 <= u && u <= 0xD) || u == 0x20 || u == 0x85 || u == 0xA0 || u == 0x1680 || (0x2000
        <= u && u <= 0x200A) || u == 0x2028 || u == 0x2029 || u == 0x202F || u == 0x205F || u
        == 0x3000
}

/// Copy of `s[lo..hi]`.
pub fn sub_vec(s: &[char], lo: usize, hi: usize) -> (r: Vec<char>)
    requires
        lo <= hi <= s@.len(),
    ensures
        r@ == s@.subrange(lo as int, hi as int),
{
    let mut r: Vec<char> = Vec::new();
    let mut i: usize = lo;
    while i < hi
        invariant
            lo <= i <= hi <= s@.len(),
            r@ == s@.subrange(lo as int, i as int),
        decreases hi - i,
    {
        r.push(s[i]);
        i = i + 1;
        assert(r@ =~= s@.subrange(lo as int, i as int));
    }
    r
}

proof fn lemma_trim_start_skip(s: Seq<char>, i: int)
    requires
        0 <= i <= s.len(),
        forall|k: int| 0 <= k < i ==> is_ws(#[trigger] s[k]),
    ensures
        trim_start_seq(s) == trim_start_seq(s.subrange(i, s.len() as int)),
    decreases i,
{
    if i == 0 {
        assert(s.subrange(0, s.len() as int) =~= s);
    } else {
        assert(is_ws(s[0]));
        let t = s.drop_first();
        assert forall|k: int| 0 <= k < i - 1 implies is_ws(#[trigger] t[k]) by {
            assert(t[k] == s[k + 1]);
        }
        lemma_trim_start_skip(t, i - 1);
        assert(t.subrange(i - 1, t.len() as int) =~= s.subrange(i, s.len() as int));
    }
}

proof fn lemma_trim_end_skip(s: Seq<char>, j: int)
    requires
        0 <= j <= s.len(),
        forall|k: int| j <= k < s.len() ==> is_ws(#[trigger] s[k]),
    ensures
        trim_end_seq(s) == trim_end_seq(s.subrange(0, j)),
    decreases s.len() - j,
{
    if j == s.len() {
        assert(s.subrange(0, j) =~= s);
    } else {
        assert(is_ws(s.last()));
        let t = s.drop_last();
        lemma_trim_end_skip(t, j);
        assert(t.subrange(0, j) =~= s.subrange(0, j));
    }
}

/// `s` with leading whitespace removed.
pub fn trim_start_chars(s: &[char]) -> (r: Vec<char>)
    ensures
        r@ == trim_start_seq(s@),
{
    let mut i: usize = 0;
    while i < s.len() && is_whitespace(s[i])
        invariant
            0 <= i <= s@.len(),
            forall|k: int| 0 <= k < i ==> is_ws(#[trigger] s@[k]),
        decreases s.len() - i,
    {
        i = i + 1;
    }
    proof {
        lemma_trim_start_skip(s@, i as int);
    }
    sub_vec(s, i, s.len())
}

/// `s` with trailing whitespace removed.
pub fn trim_end_chars(s: &[char]) -> (r: Vec<char>)
    ensures
        r@ == trim_end_seq(s@),
{
    let mut j: usize = s.len();
    while j > 0 && is_whitespace(s[j - 1])
        invariant
            0 <= j <= s@.len(),
            forall|k: int| j <= k < s@.len() ==> is_ws(#[trigger] s@[k]),
        decreases j,
    {
        j = j - 1;
    }
    proof {
        lemma_trim_end_skip(s@, j as int);
        assert(s@.subrange(0, j as int).len() == j);
    }
    sub_vec(s, 0, j)
}

/// `str::trim` on characters.
pub fn trim_chars(s: &[char]) -> (r: Vec<char>)
    ensures
        r@ == trim_seq(s@),
{
    let a = trim_start_chars(s);
    trim_end_chars(a.as_slice())
}

/// `str::trim` on a string.
pub fn trim_str(s: &str) -> (r: String)
    ensures
        r@ == trim_seq(s@),
{
    let v = chars_of(s);
    let t = trim_chars(v.as_slice());
    string_of(t.as_slice())
}

pub fn starts_with_char(s: &[char], c: char) -> (b: bool)
    ensures
        b == (s@.len() > 0 && s@[0] == c),
{
    s.len() > 0 && s[0] == c
}

/// Does `t` occur in `s`?
pub fn contains_chars(s: &[char], t: &[char]) -> (b: bool)
    ensures
        b == contains_seq(s@, t@),
{
    if t.len() > s.len() {
        proof {
            assert forall|i: int| 0 <= i && i + t@.len() <= s@.len() implies #[trigger] s@.subrange(
                i,
                i + t@.len(),
            ) != t@ by {}
        }
        return false;
    }
    let last = s.len() - t.len();
    let sn = s.len();
    let mut i: usize = 0;
    while i <= last
        invariant
            sn == s@.len(),
            t@.len() <= s@.len(),
            last == s@.len() - t@.len(),
            0 <= i <= s@.len() - t@.len() + 1,
            forall|k: int|
                0 <= k < i && k + t@.len() <= s@.len() ==> #[trigger] s@.subrange(k, k + t@.len())
                    != t@,
        decreases s.len() - i,
    {
        let mut j: usize = 0;
        let mut ok: bool = true;
        while j < t.len()
            invariant
                sn == s@.len(),
                i + t@.len() <= s@.len(),
                0 <= j <= t@.len(),
                ok == (forall|m: int| 0 <= m < j ==> s@[i + m] == t@[m]),
            decreases t.len() - j,
        {
            assert(i + j < sn);
            let ij: usize = i + j;
            if s[ij] != t[j] {
                ok = false;
            }
            j = j + 1;
        }
        if ok {
            assert(s@.subrange(i as int, i + t@.len()) =~= t@);
            return true;
        }
        proof {
            let m = choose|m: int| 0 <= m < t@.len() && s@[i + m] != t@[m];
            assert(s@.subrange(i as int, i + t@.len())[m] != t@[m]);
        }
        i = i + 1;
    }
    false
}

pub fn contains_char(s: &[char], c: char) -> (b: bool)
    ensures
        b == s@.contains(c),
{
    let mut i: usize = 0;
    while i < s.len()
        invariant
            0 <= i <= s@.len(),
            forall|k: int| 0 <= k < i ==> s@[k] != c,
        decreases s.len() - i,
    {
        if s[i] == c {
            return true;
        }
        i = i + 1;
    }
    false
}

pub proof fn lemma_split_on_nonempty(s: Seq<char>, sep: char)
    ensures
        split_on(s, sep).len() >= 1,
    decreases s.len(),
{
    if s.len() > 0 {
        lemma_split_on_nonempty(s.drop_last(), sep);
    }
}

/// `str::split(sep)` on characters.
pub fn split_chars(s: &[char], sep: char) -> (r: Vec<Vec<char>>)
    ensures
        views(r@) == split_on(s@, sep),
{
    let mut out: Vec<Vec<char>> = Vec::new();
    let mut cur: Vec<char> = Vec::new();
    let mut i: usize = 0;
    assert(s@.take(0) =~= Seq::<char>::empty());
    assert(views(out@).push(cur@) =~= split_on(s@.take(0), sep));
    while i < s.len()
        invariant
            0 <= i <= s@.len(),
            views(out@).push(cur@) == split_on(s@.take(i as int), sep),
        decreases s.len() - i,
    {
        let ghost prev = s@.take(i as int);
        assert(s@.take(i + 1).drop_last() =~= prev);
        proof {
            lemma_split_on_nonempty(prev, sep);
        }
        if s[i] == sep {
            out.push(cur);
            cur = Vec::new();
            assert(views(out@).push(cur@) =~= split_on(prev, sep).push(Seq::<char>::empty()));
        } else {
            cur.push(s[i]);
            assert(views(out@).push(cur@) =~= split_on(prev, sep).update(
                split_on(prev, sep).len() - 1,
                split_on(prev, sep).last().push(s@[i as int]),
            ));
        }
        i = i + 1;
    }
    out.push(cur);
    assert(s@.take(s@.len() as int) =~= s@);
    assert(views(out@) =~= split_on(s@, sep));
    out
}

/// `str::lines` on characters.
pub fn lines_chars(s: &[char]) -> (r: Vec<Vec<char>>)
    ensures
        views(r@) == lines_seq(s@),
{
    let pieces = split_chars(s, '\n');
    proof {
        lemma_split_on_nonempty(s@, '\n');
    }
    let ghost p = split_on(s@, '\n');
    let n = pieces.len();
    let mut out: Vec<Vec<char>> = Vec::new();
    let mut i: usize = 0;
    while i + 1 < n
        invariant
            n == pieces@.len(),
            n >= 1,
            views(pieces@) == p,
            0 <= i <= n - 1,
            views(out@) == p.take(i as int).map_values(|x: Seq<char>| strip_cr(x)),
        decreases n - i,
    {
        let piece = &pieces[i];
        assert(piece@ == p[i as int]);
        let k = piece.len();
        let line = if k > 0 && piece[k - 1] == '\r' {
            let l = sub_vec(piece.as_slice(), 0, k - 1);
            assert(piece@.subrange(0, k - 1) =~= piece@.drop_last());
            l
        } else {
            let l = sub_vec(piece.as_slice(), 0, k);
            assert(piece@.subrange(0, k as int) =~= piece@);
            l
        };
        assert(line@ == strip_cr(p[i as int]));
        let ghost before = views(out@);
        out.push(line);
        assert(views(out@) =~= before.push(line@));
        assert(p.take(i + 1) =~= p.take(i as int).push(p[i as int]));
        i = i + 1;
        assert(views(out@) =~= p.take(i as int).map_values(|x: Seq<char>| strip_cr(x)));
    }
    assert(p.take(i as int) =~= p.drop_last());
    let last = &pieces[n - 1];
    assert(last@ == p.last());
    if last.len() > 0 {
        let l = sub_vec(last.as_slice(), 0, last.len());
        assert(last@.subrange(0, last@.len() as int) =~= last@);
        out.push(l);
        assert(views(out@) =~= p.drop_last().map_values(|x: Seq<char>| strip_cr(x)).push(p.last()));
    }
    out
}

proof fn lemma_split_ws_nonempty(s: Seq<char>)
    ensures
        split_ws_pieces(s).len() >= 1,
    decreases s.len(),
{
    if s.len() > 0 {
        lemma_split_ws_nonempty(s.drop_last());
    }
}

proof fn lemma_nonempty_only_push(ss: Seq<Seq<char>>, x: Seq<char>)
    ensures
        nonempty_only(ss.push(x)) == if x.len() == 0 {
            nonempty_only(ss)
        } else {
            nonempty_only(ss).push(x)
        },
{
    assert(ss.push(x).drop_last() =~= ss);
}

/// `str::split_whitespace` on characters.
pub fn words_chars(s: &[char]) -> (r: Vec<Vec<char>>)
    ensures
        views(r@) == words(s@),
{
    let mut out: Vec<Vec<char>> = Vec::new();
    let mut cur: Vec<char> = Vec::new();
    let mut i: usize = 0;
    assert(s@.take(0) =~= Seq::<char>::empty());
    assert(split_ws_pieces(s@.take(0)) =~= seq![Seq::<char>::empty()]);
    assert(seq![Seq::<char>::empty()].drop_last() =~= Seq::<Seq<char>>::empty());
    assert(views(out@) =~= nonempty_only(split_ws_pieces(s@.take(0)).drop_last()));
    while i < s.len()
        invariant
            0 <= i <= s@.len(),
            split_ws_pieces(s@.take(i as int)).len() >= 1,
            cur@ == split_ws_pieces(s@.take(i as int)).last(),
            views(out@) == nonempty_only(split_ws_pieces(s@.take(i as int)).drop_last()),
        decreases s.len() - i,
    {
        let ghost prev = s@.take(i as int);
        let ghost pp = split_ws_pieces(prev);
        assert(s@.take(i + 1).drop_last() =~= prev);
        if is_whitespace(s[i]) {
            let ghost old_cur = cur@;
            let done = cur;
            cur = Vec::new();
            if done.len() > 0 {
                out.push(done);
            }
            proof {
                let np = pp.push(Seq::<char>::empty());
                assert(split_ws_pieces(s@.take(i + 1)) == np);
                assert(np.drop_last() =~= pp);
                assert(pp =~= pp.drop_last().push(pp.last()));
                lemma_nonempty_only_push(pp.drop_last(), pp.last());
                assert(views(out@) =~= nonempty_only(np.drop_last()));
            }
        } else {
            cur.push(s[i]);
            proof {
                let np = pp.update(pp.len() - 1, pp.last().push(s@[i as int]));
                assert(split_ws_pieces(s@.take(i + 1)) == np);
                assert(np.drop_last() =~= pp.drop_last());
            }
        }
        i = i + 1;
    }
    assert(s@.take(s@.len() as int) =~= s@);
    proof {
        let pp = split_ws_pieces(s@);
        assert(pp =~= pp.drop_last().push(pp.last()));
        lemma_nonempty_only_push(pp.drop_last(), pp.last());
    }
    if cur.len() > 0 {
        out.push(cur);
    }
    out
}

proof fn lemma_digits_value_prefix(s: Seq<char>, k: int)
    requires
        0 <= k <= s.len(),
    ensures
        digits_value(s.take(k)) <= digits_value(s),
    decreases s.len() - k,
{
    if k < s.len() {
        lemma_digits_value_prefix(s, k + 1);
        assert(s.take(k + 1).drop_last() =~= s.take(k));
    } else {
        assert(s.take(k) =~= s);
    }
}

/// Digits-only value of `s` (no sign), `None` on a non-digit or when above `max`.
fn parse_digits(s: &[char], max: u64) -> (r: Option<u64>)
    ensures
        r == (if s@.len() > 0 && all_digits(s@) && digits_value(s@) <= max {
            Some(digits_value(s@) as u64)
        } else {
            None::<u64>
        }),
{
    if s.len() == 0 {
        return None;
    }
    let mut v: u64 = 0;
    let mut i: usize = 0;
    assert(s@.take(0) =~= Seq::<char>::empty());
    while i < s.len()
        invariant
            0 <= i <= s@.len(),
            all_digits(s@.take(i as int)),
            v == digits_value(s@.take(i as int)),
            v <= max,
        decreases s.len() - i,
    {
        let c = s[i];
        assert(s@.take(i + 1).drop_last() =~= s@.take(i as int));
        if !('0' <= c && c <= '9') {
            assert(!is_digit(s@[i as int]));
            return None;
        }
        let d = (c as u32 - '0' as u32) as u64;
        assert(d == digit_val(c));
        let next = match v.checked_mul(10) {
            Some(t) => t.checked_add(d),
            None => None,
        };
        match next {
            Some(n) if n <= max => {
                v = n;
            },
            _ => {
                proof {
                    assert(digits_value(s@.take(i + 1)) > max);
                    lemma_digits_value_prefix(s@, i + 1);
                }
                return None;
            },
        }
        i = i + 1;
        assert forall|k: int| 0 <= k < i implies is_digit(#[trigger] s@.take(i as int)[k]) by {
            if k < i - 1 {
                assert(s@.take(i as int)[k] == s@.take(i - 1)[k]);
            }
        }
    }
    assert(s@.take(s@.len() as int) =~= s@);
    Some(v)
}

/// `str::parse` for an unsigned integer type whose largest value is `max`.
pub fn parse_unsigned_chars(s: &[char], max: u64) -> (r: Option<u64>)
    ensures
        r == match parse_unsigned(s@, max as nat) {
            Some(n) => Some(n as u64),
            None => None::<u64>,
        },
{
    if s.len() > 0 && s[0] == '+' {
        let d = sub_vec(s, 1, s.len());
        assert(d@ =~= s@.drop_first());
        parse_digits(d.as_slice(), max)
    } else {
        parse_digits(s, max)
    }
}

/// `str::parse::<u16>()`.
pub fn parse_u16_chars(s: &[char]) -> (r: Option<u16>)
    ensures
        r == match parse_unsigned(s@, 0xffff) {
            Some(n) => Some(n as u16),
            None => None::<u16>,
        },
{
    match parse_unsigned_chars(s, 0xffff) {
        Some(n) => Some(n as u16),
        None => None,
    }
}

/// `str::parse::<u64>()`.
pub fn parse_u64_chars(s: &[char]) -> (r: Option<u64>)
    ensures
        r == match parse_unsigned(s@, 0xffff_ffff_ffff_ffff) {
            Some(n) => Some(n as u64),
            None => None::<u64>,
        },
{
    parse_unsigned_chars(s, 0xffff_ffff_ffff_ffff)
}

fn digit_to_char(d: u64) -> (c: char)
    requires
        d < 10,
    ensures
        c == digit_char(d as nat),
{
    let b: u8 = (48 + d) as u8;
    b as char
}

/// Decimal digits of `n`.
pub fn dec_chars(n: u64) -> (r: Vec<char>)
    ensures
        r@ == dec_digits(n as nat),
    decreases n,
{
    if n < 10 {
        let mut v: Vec<char> = Vec::new();
        v.push(digit_to_char(n));
        assert(v@ =~= seq![digit_char(n as nat)]);
        v
    } else {
        let mut v = dec_chars(n / 10);
        v.push(digit_to_char(n % 10));
        v
    }
}

/// Concatenation of two character vectors.
pub fn concat_chars(a: &[char], b: &[char]) -> (r: Vec<char>)
    ensures
        r@ == a@ + b@,
{
    let mut r = sub_vec(a, 0, a.len());
    assert(a@.subrange(0, a@.len() as int) =~= a@);
    let mut i: usize = 0;
    while i < b.len()
        invariant
            0 <= i <= b@.len(),
            r@ == a@ + b@.take(i as int),
        decreases b.len() - i,
    {
        r.push(b[i]);
        i = i + 1;
        assert(r@ =~= a@ + b@.take(i as int));
    }
    assert(b@.take(b@.len() as int) =~= b@);
    r
}

/// Are two character sequences equal?
pub fn chars_eq(a: &[char], b: &[char]) -> (r: bool)
    ensures
        r == (a@ == b@),
{
    if a.len() != b.len() {
        return false;
    }
    let mut i: usize = 0;
    while i < a.len()
        invariant
            a@.len() == b@.len(),
            0 <= i <= a@.len(),
            forall|k: int| 0 <= k < i ==> a@[k] == b@[k],
        decreases a.len() - i,
    {
        if a[i] != b[i] {
            return false;
        }
        i = i + 1;
    }
    assert(a@ =~= b@);
    true
}

/// Are two strings equal?
pub fn str_eq(a: &str, b: &str) -> (r: bool)
    ensures
        r == (a@ == b@),
{
    let x = chars_of(a);
    let y = chars_of(b);
    chars_eq(x.as_slice(), y.as_slice())
}

/// `a` followed by `b`.
pub fn join_str(a: &str, b: &str) -> (r: String)
    ensures
        r@ == a@ + b@,
{
    let x = chars_of(a);
    let y = chars_of(b);
    let c = concat_chars(x.as_slice(), y.as_slice());
    string_of(c.as_slice())
}

/// Decimal text of `n`.
pub fn u64_str(n: u64) -> (r: String)
    ensures
        r@ == dec_digits(n as nat),
{
    let d = dec_chars(n);
    string_of(d.as_slice())
}

/// The path's components that name something: pieces between `/` that are neither empty nor
/// `.`, in order.
pub open spec fn path_parts(pieces: Seq<Seq<char>>) -> Seq<Seq<char>>
    decreases pieces.len(),
{
    if pieces.len() == 0 {
        pieces
    } else if pieces.last().len() == 0 || pieces.last() == "."@ {
        path_parts(pieces.drop_last())
    } else {
        path_parts(pieces.drop_last()).push(pieces.last())
    }
}

/// `Path::file_name` on a Unix path: its last component, unless there is none or it is `..`.
pub open spec fn spec_file_name(path: Seq<char>) -> Option<Seq<char>> {
    let ps = path_parts(split_on(path, '/'));
    if ps.len() == 0 || ps.last() == ".."@ {
        None
    } else {
        Some(ps.last())
    }
}

/// Last component of a Unix path (`Path::file_name`).
pub fn file_name(path: &str) -> (r: Option<String>)
    ensures
        match r {
            Some(f) => spec_file_name(path@) == Some(f@),
            None => spec_file_name(path@) is None,
        },
{
    let cs = chars_of(path);
    let pieces = split_chars(cs.as_slice(), '/');
    let dot = chars_of(".");
    let dotdot = chars_of("..");
    proof {
        reveal_strlit(".");
        reveal_strlit("..");
    }
    let mut last: Option<usize> = None;
    let mut i: usize = 0;
    while i < pieces.len()
        invariant
            0 <= i <= pieces@.len(),
            dot@ == "."@,
            match last {
                Some(k) => k < i && path_parts(views(pieces@).take(i as int)).len() > 0
                    && path_parts(views(pieces@).take(i as int)).last() == pieces@[k as int]@,
                None => path_parts(views(pieces@).take(i as int)).len() == 0,
            },
        decreases pieces.len() - i,
    {
        let ghost pv = views(pieces@);
        assert(pv.take(i + 1).drop_last() =~= pv.take(i as int));
        assert(pv.take(i + 1).last() == pieces@[i as int]@);
        if pieces[i].len() > 0 && !chars_eq(pieces[i].as_slice(), dot.as_slice()) {
            last = Some(i);
        }
        i = i + 1;
    }
    assert(views(pieces@).take(pieces@.len() as int) =~= views(pieces@));
    match last {
        None => None,
        Some(k) => {
            if chars_eq(pieces[k].as_slice(), dotdot.as_slice()) {
                None
            } else {
                Some(string_of(pieces[k].as_slice()))
            }
        },
    }
}

proof fn lemma_trim_start_shape(s: Seq<char>)
    ensures
        trim_start_seq(s).len() == 0 || !is_ws(trim_start_seq(s)[0]),
    decreases s.len(),
{
    if s.len() > 0 && is_ws(s[0]) {
        lemma_trim_start_shape(s.drop_first());
    }
}

proof fn lemma_trim_end_shape(s: Seq<char>)
    ensures
        trim_end_seq(s).len() == 0 || !is_ws(trim_end_seq(s).last()),
        trim_end_seq(s).len() <= s.len(),
        trim_end_seq(s) == s.take(trim_end_seq(s).len() as int),
    decreases s.len(),
{
    if s.len() > 0 && is_ws(s.last()) {
        lemma_trim_end_shape(s.drop_last());
        assert(s.drop_last().take(trim_end_seq(s).len() as int) =~= s.take(trim_end_seq(s).len() as int));
    } else {
        assert(s.take(s.len() as int) =~= s);
    }
}

/// Trimming twice is trimming once.
pub proof fn lemma_trim_idempotent(s: Seq<char>)
    ensures
        trim_seq(trim_seq(s)) == trim_seq(s),
{
    let a = trim_start_seq(s);
    let u = trim_end_seq(a);
    lemma_trim_start_shape(s);
    lemma_trim_end_shape(a);
    if u.len() > 0 {
        assert(u[0] == a.take(u.len() as int)[0]);
        assert(u[0] == a[0]);
        assert(trim_start_seq(u) == u);
        assert(trim_end_seq(u) == u);
    } else {
        assert(trim_start_seq(u) == u);
    }
}

/// The decimal rendering of `n` is a non-empty run of digits whose value is `n`.
pub proof fn lemma_dec_digits_value(n: nat)
    ensures
        dec_digits(n).len() > 0,
        all_digits(dec_digits(n)),
        digits_value(dec_digits(n)) == n,
    decreases n,
{
    let s = dec_digits(n);
    if n < 10 {
        assert(s =~= seq![digit_char(n)]);
        assert(s.drop_last() =~= Seq::<char>::empty());
        assert(digit_val(digit_char(n)) == n);
        assert(digits_value(s) == digits_value(s.drop_last()) * 10 + digit_val(s.last()));
    } else {
        lemma_dec_digits_value(n / 10);
        let d = digit_char(n % 10);
        assert(s =~= dec_digits(n / 10).push(d));
        assert(s.drop_last() =~= dec_digits(n / 10));
        assert(digit_val(d) == n % 10);
        assert(is_digit(d));
        assert forall|i: int| 0 <= i < s.len() implies is_digit(#[trigger] s[i]) by {
            if i < s.len() - 1 {
                assert(s[i] == dec_digits(n / 10)[i]);
            }
        }
        assert(digits_value(s) == digits_value(dec_digits(n / 10)) * 10 + digit_val(d));
        assert(n == (n / 10) * 10 + n % 10) by (nonlinear_arith);
    }
}

/// No piece of a split holds the separator.
pub proof fn lemma_split_pieces_lack_sep(s: Seq<char>, sep: char)
    ensures
        forall|k: int| 0 <= k < split_on(s, sep).len() ==> !(#[trigger] split_on(s, sep)[k]).contains(sep),
    decreases s.len(),
{
    if s.len() > 0 {
        let p = split_on(s.drop_last(), sep);
        lemma_split_pieces_lack_sep(s.drop_last(), sep);
        lemma_split_on_nonempty(s.drop_last(), sep);
        if s.last() != sep {
            let q = split_on(s, sep);
            assert forall|k: int| 0 <= k < q.len() implies !(#[trigger] q[k]).contains(sep) by {
                if k == p.len() - 1 {
                    let x = p.last().push(s.last());
                    assert(q[k] == x);
                    if x.contains(sep) {
                        let j = choose|j: int| 0 <= j < x.len() && x[j] == sep;
                        if j < p.last().len() {
                            assert(p.last()[j] == sep);
                            assert(p[p.len() - 1].contains(sep));
                        }
                    }
                } else {
                    assert(q[k] == p[k]);
                }
            }
        } else {
            let q = split_on(s, sep);
            assert forall|k: int| 0 <= k < q.len() implies !(#[trigger] q[k]).contains(sep) by {
                if k < p.len() {
                    assert(q[k] == p[k]);
                }
            }
        }
    }
}

/// Appending text without the separator extends the last piece.
pub proof fn lemma_split_append_plain(s: Seq<char>, t: Seq<char>, sep: char)
    requires
        !t.contains(sep),
    ensures
        split_on(s + t, sep) == split_on(s, sep).update(
            split_on(s, sep).len() - 1,
            split_on(s, sep).last() + t,
        ),
    decreases t.len(),
{
    lemma_split_on_nonempty(s, sep);
    let p = split_on(s, sep);
    if t.len() == 0 {
        assert(s + t =~= s);
        assert(p.last() + t =~= p.last());
        assert(p.update(p.len() - 1, p.last() + t) =~= p);
    } else {
        let t0 = t.drop_last();
        assert(!t0.contains(sep)) by {
            if t0.contains(sep) {
                let j = choose|j: int| 0 <= j < t0.len() && t0[j] == sep;
                assert(t[j] == sep);
            }
        }
        lemma_split_append_plain(s, t0, sep);
        assert((s + t).drop_last() =~= s + t0);
        assert((s + t).last() == t.last());
        assert(t.last() != sep) by {
            assert(t[t.len() - 1] == t.last());
        }
        let q0 = split_on(s + t0, sep);
        assert(q0.len() == p.len());
        assert(q0.last() == p.last() + t0);
        assert(q0.last().push(t.last()) =~= p.last() + t);
        assert(split_on(s + t, sep) =~= p.update(p.len() - 1, p.last() + t));
    }
}

/// Text without the separator splits into itself alone.
pub proof fn lemma_split_plain(y: Seq<char>, sep: char)
    requires
        !y.contains(sep),
    ensures
        split_on(y, sep) == seq![y],
{
    let e = Seq::<char>::empty();
    lemma_split_append_plain(e, y, sep);
    assert(e + y =~= y);
    assert(split_on(e, sep) =~= seq![e]);
    assert(seq![e].update(0, e + y) =~= seq![y]);
}

/// A separator followed by text without it adds that text as one more piece.
pub proof fn lemma_split_sep_then_plain(x: Seq<char>, y: Seq<char>, sep: char)
    requires
        !y.contains(sep),
    ensures
        split_on(x + seq![sep] + y, sep) == split_on(x, sep).push(y),
{
    let e = Seq::<char>::empty();
    let a = x + seq![sep];
    assert(a.drop_last() =~= x);
    assert(a.last() == sep);
    assert(split_on(a, sep) == split_on(x, sep).push(e));
    lemma_split_append_plain(a, y, sep);
    assert(e + y =~= y);
    assert(split_on(x, sep).push(e).update(split_on(x, sep).len() as int, e + y) =~= split_on(x, sep).push(y));
}

/// What `trim_start` leaves is a suffix, everything before it whitespace, and it starts
/// with a non-whitespace character (when not empty).
proof fn lemma_trim_start_suffix(s: Seq<char>)
    ensures
        trim_start_seq(s).len() <= s.len(),
        trim_start_seq(s) == s.skip(s.len() - trim_start_seq(s).len()),
        forall|i: int| 0 <= i < s.len() - trim_start_seq(s).len() ==> is_ws(#[trigger] s[i]),
        trim_start_seq(s).len() > 0 ==> !is_ws(trim_start_seq(s)[0]),
    decreases s.len(),
{
    if s.len() > 0 && is_ws(s[0]) {
        let s1 = s.drop_first();
        lemma_trim_start_suffix(s1);
        let k = s.len() - trim_start_seq(s).len();
        assert(s1.skip(s1.len() - trim_start_seq(s1).len()) =~= s.skip(k));
        assert forall|i: int| 0 <= i < k implies is_ws(#[trigger] s[i]) by {
            if i > 0 {
                assert(s[i] == s1[i - 1]);
            }
        }
    } else {
        assert(s.skip(0) =~= s);
    }
}

/// Trailing whitespace does not change the trim.
pub proof fn lemma_trim_drop_trailing_ws(s: Seq<char>)
    requires
        s.len() > 0,
        is_ws(s.last()),
    ensures
        trim_seq(s) == trim_seq(s.drop_last()),
{
    let s1 = s.drop_last();
    let t = trim_start_seq(s);
    let t1 = trim_start_seq(s1);
    lemma_trim_start_suffix(s);
    lemma_trim_start_suffix(s1);
    let k = s.len() - t.len();
    let k1 = s1.len() - t1.len();
    if t.len() == 0 {
        if t1.len() > 0 {
            assert(t1[0] == s1[k1]);
            assert(s1[k1] == s[k1]);
        }
        assert(t1 =~= Seq::<char>::empty());
    } else {
        assert(t[0] == s[k]);
        assert(t.last() == s.last());
        assert(k < s.len() - 1) by {
            if k == s.len() - 1 {
                assert(t.len() == 1);
            }
        }
        if k1 < k {
            assert(is_ws(s[k1]));
            if t1.len() > 0 {
                assert(t1[0] == s1[k1]);
            }
        } else if k1 > k {
            assert(s1[k] == s[k]);
            assert(is_ws(s1[k]));
        }
        assert(k1 == k);
        assert(t1 =~= t.drop_last());
        assert(trim_end_seq(t) == trim_end_seq(t.drop_last()));
    }
}

/// Trimming the end first does not change the trim.
pub proof fn lemma_trim_of_trim_end(m: Seq<char>)
    ensures
        trim_seq(trim_end_seq(m)) == trim_seq(m),
    decreases m.len(),
{
    if m.len() > 0 && is_ws(m.last()) {
        lemma_trim_of_trim_end(m.drop_last());
        lemma_trim_drop_trailing_ws(m);
    }
}

/// Trimming the end of `p + m` only trims `m` when `p` ends with a non-whitespace character.
pub proof fn lemma_trim_end_after_solid(p: Seq<char>, m: Seq<char>)
    requires
        p.len() > 0,
        !is_ws(p.last()),
    ensures
        trim_end_seq(p + m) == p + trim_end_seq(m),
    decreases m.len(),
{
    if m.len() > 0 && is_ws(m.last()) {
        lemma_trim_end_after_solid(p, m.drop_last());
        assert((p + m).drop_last() =~= p + m.drop_last());
        assert((p + m).last() == m.last());
    } else if m.len() > 0 {
        assert((p + m).last() == m.last());
    } else {
        assert(p + m =~= p);
        assert((p + m).last() == p.last());
    }
}

/// The last component of `dir/name` is `name`, for a name that is a real component (not
/// empty, `.` or `..`, and without `/`), whatever the directory.
pub proof fn lemma_file_name_of_join(dir: Seq<char>, name: Seq<char>)
    requires
        name.len() > 0,
        !name.contains('/'),
        name != "."@,
        name != ".."@,
    ensures
        spec_file_name(dir + seq!['/'] + name) == Some(name),
{
    lemma_split_sep_then_plain(dir, name, '/');
    let ps = split_on(dir, '/').push(name);
    assert(ps.drop_last() =~= split_on(dir, '/'));
    assert(path_parts(ps) == path_parts(split_on(dir, '/')).push(name));
}

} // verus!
