//! Rows shown as pills or list entries, the fuzzy-filtered order of rows, and cursor rules
//! shared by the tmux and kitty leaders.
use vstd::prelude::*;
use crate::fuzzy::{fuzzy_match_score, spec_fuzzy_score};
use crate::text::str_eq;

verus! {

/// Tab, window, session or launcher row in the leader UI.
#[derive(Clone, Debug)]
pub struct LeaderWindowRow {
    pub id: u64,
    pub label: String,
    pub focused: bool,
    pub current: bool,
}

/// Pane row for the pane pill strip.
#[derive(Clone, Debug)]
pub struct LeaderPaneRow {
    pub pane_id: String,
    pub label: String,
    pub current: bool,
}

/// At most this many pills take part in a pill strip's cursor.
pub const PILL_STRIP_CAP: usize = 24;

pub open spec fn row_labels(rows: Seq<LeaderWindowRow>) -> Seq<Seq<char>> {
    rows.map_values(|r: LeaderWindowRow| r.label@)
}

/// Sort key of a matching row: its score, then its index.
pub open spec fn key_lt(a: (u32, int), b: (u32, int)) -> bool {
    a.0 < b.0 || (a.0 == b.0 && a.1 < b.1)
}

pub open spec fn score_of(filter: Seq<char>, labels: Seq<Seq<char>>, i: int) -> u32 {
    spec_fuzzy_score(filter, labels[i])->Some_0
}

pub open spec fn matches(filter: Seq<char>, labels: Seq<Seq<char>>, i: int) -> bool {
    spec_fuzzy_score(filter, labels[i]) is Some
}

/// `out` lists exactly the rows whose label matches `filter`, ordered by score and then by
/// row index.
pub open spec fn is_filter_order(filter: Seq<char>, labels: Seq<Seq<char>>, out: Seq<usize>) -> bool {
    &&& forall|k: int|
        0 <= k < out.len() ==> #[trigger] out[k] < labels.len() && matches(filter, labels, out[k] as int)
    &&& forall|i: int|
        0 <= i < labels.len() && #[trigger] matches(filter, labels, i) ==> out.contains(i as usize)
    &&& forall|a: int, b: int|
        0 <= a < b < out.len() ==> key_lt(
            (score_of(filter, labels, out[a] as int), out[a] as int),
            (score_of(filter, labels, out[b] as int), out[b] as int),
        )
}

/// Every index in a filtered order names a row.
pub proof fn lemma_filter_order_in_bounds(filter: Seq<char>, rows: Seq<LeaderWindowRow>, out: Seq<usize>)
    requires
        is_filter_order(filter, row_labels(rows), out),
    ensures
        forall|k: int| 0 <= k < out.len() ==> #[trigger] out[k] < rows.len(),
{
    assert(row_labels(rows).len() == rows.len());
}

proof fn lemma_increasing_at_least_index(out: Seq<usize>, k: int)
    requires
        0 <= k < out.len(),
        forall|a: int, b: int| 0 <= a < b < out.len() ==> out[a] < out[b],
    ensures
        out[k] >= k,
    decreases k,
{
    if k > 0 {
        lemma_increasing_at_least_index(out, k - 1);
    }
}

proof fn lemma_increasing_complete(out: Seq<usize>, n: int, k: int)
    requires
        0 <= k < out.len(),
        forall|j: int| 0 <= j < out.len() ==> #[trigger] out[j] < n,
        forall|i: int| 0 <= i < n ==> #[trigger] out.contains(i as usize),
        forall|a: int, b: int| 0 <= a < b < out.len() ==> out[a] < out[b],
    ensures
        out[k] == k,
    decreases k,
{
    lemma_increasing_at_least_index(out, k);
    if out[k] != k {
        assert(k < n);
        assert(out.contains(k as usize));
        let m = choose|m: int| 0 <= m < out.len() && out[m] == k as usize;
        if m < k {
            lemma_increasing_complete(out, n, m);
        } else if m > k {
            assert(out[k] < out[m]);
        }
    }
}

/// With an empty filter every row matches with score 0, so the filtered order lists all
/// rows in their own order: the filtered list and the rows coincide.
pub proof fn lemma_empty_filter_lists_all_rows(labels: Seq<Seq<char>>, out: Seq<usize>)
    requires
        labels.len() <= usize::MAX,
        is_filter_order(Seq::<char>::empty(), labels, out),
    ensures
        out.len() == labels.len(),
        forall|k: int| 0 <= k < out.len() ==> #[trigger] out[k] == k,
{
    let f = Seq::<char>::empty();
    let n = labels.len() as int;
    assert forall|i: int| 0 <= i < n implies #[trigger] out.contains(i as usize) by {
        assert(matches(f, labels, i));
    }
    assert forall|a: int, b: int| 0 <= a < b < out.len() implies out[a] < out[b] by {
        assert(key_lt(
            (score_of(f, labels, out[a] as int), out[a] as int),
            (score_of(f, labels, out[b] as int), out[b] as int),
        ));
    }
    assert forall|k: int| 0 <= k < out.len() implies #[trigger] out[k] == k by {
        lemma_increasing_complete(out, n, k);
    }
    if out.len() > n {
        assert(out[n] == n);
        assert(out[n] < labels.len());
    }
    if out.len() < n {
        assert(out.contains((n - 1) as usize));
        let m = choose|m: int| 0 <= m < out.len() && out[m] == (n - 1) as usize;
        assert(out[m] == m);
        assert(false);
    }
}

/// Index of the first row marked current.
pub open spec fn first_current(rows: Seq<LeaderWindowRow>) -> Option<int> {
    if exists|i: int| 0 <= i < rows.len() && rows[i].current {
        Some(choose|i: int| 0 <= i < rows.len() && rows[i].current && forall|k: int| 0 <= k < i ==> !rows[k].current)
    } else {
        None
    }
}

pub open spec fn first_current_pane(rows: Seq<LeaderPaneRow>) -> Option<int> {
    if exists|i: int| 0 <= i < rows.len() && rows[i].current {
        Some(choose|i: int| 0 <= i < rows.len() && rows[i].current && forall|k: int| 0 <= k < i ==> !rows[k].current)
    } else {
        None
    }
}

pub open spec fn min_nat(a: int, b: int) -> int {
    if a <= b {
        a
    } else {
        b
    }
}

/// Where a pill strip's cursor goes: onto the current row, else kept, in both cases
/// clamped to the first [`PILL_STRIP_CAP`] pills; 0 for an empty strip.
pub open spec fn spec_strip_cursor(rows_len: int, current: Option<int>, cursor: int) -> int {
    let n = min_nat(rows_len, PILL_STRIP_CAP as int);
    if n == 0 {
        0
    } else {
        match current {
            Some(i) => min_nat(i, n - 1),
            None => min_nat(cursor, n - 1),
        }
    }
}

/// A pill-strip cursor is in range: below the number of pills taking part, or 0.
pub open spec fn strip_cursor_ok(cursor: int, rows_len: int) -> bool {
    cursor == 0 || cursor < min_nat(rows_len, PILL_STRIP_CAP as int)
}

/// Move a pill strip's cursor onto the current row (see [`spec_strip_cursor`]).
pub fn pill_strip_cursor_follow(rows_len: usize, current_idx: Option<usize>, cursor: &mut usize)
    ensures
        *final(cursor) == spec_strip_cursor(
            rows_len as int,
            match current_idx {
                Some(i) => Some(i as int),
                None => None,
            },
            *old(cursor) as int,
        ),
        strip_cursor_ok(*final(cursor) as int, rows_len as int),
{
    let n = if rows_len < PILL_STRIP_CAP {
        rows_len
    } else {
        PILL_STRIP_CAP
    };
    if n == 0 {
        *cursor = 0;
        return ;
    }
    match current_idx {
        Some(i) => {
            *cursor = if i < n - 1 {
                i
            } else {
                n - 1
            };
        },
        None => {
            if *cursor > n - 1 {
                *cursor = n - 1;
            }
        },
    }
}

/// Index of the first window row marked current.
pub fn position_current(rows: &Vec<LeaderWindowRow>) -> (r: Option<usize>)
    ensures
        match r {
            Some(i) => first_current(rows@) == Some(i as int),
            None => first_current(rows@) is None,
        },
{
    let mut i: usize = 0;
    while i < rows.len()
        invariant
            0 <= i <= rows@.len(),
            forall|k: int| 0 <= k < i ==> !rows@[k].current,
        decreases rows.len() - i,
    {
        if rows[i].current {
            proof {
                let c = choose|c: int|
                    0 <= c < rows@.len() && rows@[c].current && forall|k: int|
                        0 <= k < c ==> !rows@[k].current;
                if c < i {
                } else if c > i {
                    assert(!rows@[i as int].current);
                }
            }
            return Some(i);
        }
        i = i + 1;
    }
    None
}

/// Index of the first pane row marked current.
pub fn position_current_pane(rows: &Vec<LeaderPaneRow>) -> (r: Option<usize>)
    ensures
        match r {
            Some(i) => first_current_pane(rows@) == Some(i as int),
            None => first_current_pane(rows@) is None,
        },
{
    let mut i: usize = 0;
    while i < rows.len()
        invariant
            0 <= i <= rows@.len(),
            forall|k: int| 0 <= k < i ==> !rows@[k].current,
        decreases rows.len() - i,
    {
        if rows[i].current {
            proof {
                let c = choose|c: int|
                    0 <= c < rows@.len() && rows@[c].current && forall|k: int|
                        0 <= k < c ==> !rows@[k].current;
                if c < i {
                } else if c > i {
                    assert(!rows@[i as int].current);
                }
            }
            return Some(i);
        }
        i = i + 1;
    }
    None
}

/// Indices of the rows whose label fuzzy-matches `filter`, best score first, ties in row
/// order.
pub fn filter_order(filter: &str, rows: &Vec<LeaderWindowRow>) -> (out: Vec<usize>)
    ensures
        is_filter_order(filter@, row_labels(rows@), out@),
{
    let ghost labels = row_labels(rows@);
    let ghost f = filter@;
    let mut out: Vec<usize> = Vec::new();
    let mut sc: Vec<u32> = Vec::new();
    let mut i: usize = 0;
    while i < rows.len()
        invariant
            labels == row_labels(rows@),
            f == filter@,
            0 <= i <= rows@.len(),
            out@.len() == sc@.len(),
            forall|k: int|
                0 <= k < out@.len() ==> #[trigger] out@[k] < i && matches(f, labels, out@[k] as int)
                    && sc@[k] == score_of(f, labels, out@[k] as int),
            forall|m: int| 0 <= m < i && #[trigger] matches(f, labels, m) ==> out@.contains(m as usize),
            forall|a: int, b: int|
                0 <= a < b < out@.len() ==> key_lt(
                    (sc@[a], out@[a] as int),
                    (sc@[b], out@[b] as int),
                ),
        decreases rows.len() - i,
    {
        assert(labels[i as int] == rows@[i as int].label@);
        match fuzzy_match_score(filter, rows[i].label.as_str()) {
            None => {},
            Some(s) => {
                let mut p: usize = 0;
                while p < sc.len() && sc[p] <= s
                    invariant
                        0 <= p <= sc@.len(),
                        forall|k: int| 0 <= k < p ==> sc@[k] <= s,
                    decreases sc.len() - p,
                {
                    p = p + 1;
                }
                let ghost old_out = out@;
                let ghost old_sc = sc@;
                proof {
                    assert forall|k: int| p <= k < old_sc.len() implies old_sc[k] > s by {
                        if k > p {
                            assert(key_lt((old_sc[p as int], old_out[p as int] as int), (old_sc[k], old_out[k] as int)));
                        }
                    }
                }
                out.insert(p, i);
                sc.insert(p, s);
                proof {
                    assert forall|a: int, b: int| 0 <= a < b < out@.len() implies key_lt(
                        (sc@[a], out@[a] as int),
                        (sc@[b], out@[b] as int),
                    ) by {
                        if b < p {
                            assert(key_lt((old_sc[a], old_out[a] as int), (old_sc[b], old_out[b] as int)));
                        } else if b == p {
                            assert(old_out[a] < i);
                        } else if a < p {
                            assert(old_sc[a] <= s);
                            assert(old_sc[b - 1] > s);
                        } else if a == p {
                            assert(old_sc[b - 1] > s);
                        } else {
                            assert(key_lt((old_sc[a - 1], old_out[a - 1] as int), (old_sc[b - 1], old_out[b - 1] as int)));
                        }
                    }
                    assert forall|m: int| 0 <= m < i + 1 && #[trigger] matches(f, labels, m) implies out@.contains(m as usize) by {
                        if m == i {
                            assert(out@[p as int] == i);
                        } else {
                            assert(old_out.contains(m as usize));
                            let k = choose|k: int| 0 <= k < old_out.len() && old_out[k] == m as usize;
                            if k < p {
                                assert(out@[k] == m as usize);
                            } else {
                                assert(out@[k + 1] == m as usize);
                            }
                        }
                    }
                    assert forall|k: int| 0 <= k < out@.len() implies #[trigger] out@[k] < i + 1 && matches(f, labels, out@[k] as int)
                        && sc@[k] == score_of(f, labels, out@[k] as int) by {
                        if k < p {
                            assert(out@[k] == old_out[k]);
                        } else if k > p {
                            assert(out@[k] == old_out[k - 1]);
                        }
                    }
                }
            },
        }
        i = i + 1;
    }
    proof {
        assert forall|a: int, b: int| 0 <= a < b < out@.len() implies key_lt(
            (score_of(f, labels, out@[a] as int), out@[a] as int),
            (score_of(f, labels, out@[b] as int), out@[b] as int),
        ) by {
            assert(key_lt((sc@[a], out@[a] as int), (sc@[b], out@[b] as int)));
        }
    }
    out
}

/// Position of the first filtered row whose label is `label`.
pub fn position_label_in(filtered: &Vec<usize>, rows: &Vec<LeaderWindowRow>, label: &str) -> (r:
    Option<usize>)
    requires
        forall|k: int| 0 <= k < filtered@.len() ==> #[trigger] filtered@[k] < rows@.len(),
    ensures
        match r {
            Some(p) => p < filtered@.len() && rows@[filtered@[p as int] as int].label@ == label@
                && forall|k: int| 0 <= k < p ==> rows@[#[trigger] filtered@[k] as int].label@ != label@,
            None => forall|k: int|
                0 <= k < filtered@.len() ==> rows@[#[trigger] filtered@[k] as int].label@ != label@,
        },
{
    let mut p: usize = 0;
    while p < filtered.len()
        invariant
            forall|k: int| 0 <= k < filtered@.len() ==> #[trigger] filtered@[k] < rows@.len(),
            0 <= p <= filtered@.len(),
            forall|k: int| 0 <= k < p ==> rows@[#[trigger] filtered@[k] as int].label@ != label@,
        decreases filtered.len() - p,
    {
        if str_eq(rows[filtered[p]].label.as_str(), label) {
            return Some(p);
        }
        p = p + 1;
    }
    None
}

/// Position in `filtered` of the first listed row flagged current.
pub open spec fn first_current_in(rows: Seq<LeaderWindowRow>, filtered: Seq<usize>) -> Option<int> {
    if exists|p: int| 0 <= p < filtered.len() && rows[filtered[p] as int].current {
        Some(
            choose|p: int|
                0 <= p < filtered.len() && rows[filtered[p] as int].current && forall|k: int|
                    0 <= k < p ==> !rows[filtered[k] as int].current,
        )
    } else {
        None
    }
}

/// Position in `filtered` of the first listed row labelled `label`.
pub open spec fn first_label_in(rows: Seq<LeaderWindowRow>, filtered: Seq<usize>, label: Seq<char>) -> Option<int> {
    if exists|p: int| 0 <= p < filtered.len() && rows[filtered[p] as int].label@ == label {
        Some(
            choose|p: int|
                0 <= p < filtered.len() && rows[filtered[p] as int].label@ == label && forall|k: int|
                    0 <= k < p ==> rows[filtered[k] as int].label@ != label,
        )
    } else {
        None
    }
}

/// Position in `filtered` of the first listed row flagged current.
pub fn position_current_in(filtered: &Vec<usize>, rows: &Vec<LeaderWindowRow>) -> (r: Option<usize>)
    requires
        forall|k: int| 0 <= k < filtered@.len() ==> #[trigger] filtered@[k] < rows@.len(),
    ensures
        match r {
            Some(p) => p < filtered@.len() && first_current_in(rows@, filtered@) == Some(p as int),
            None => first_current_in(rows@, filtered@) is None,
        },
{
    let mut p: usize = 0;
    while p < filtered.len()
        invariant
            forall|k: int| 0 <= k < filtered@.len() ==> #[trigger] filtered@[k] < rows@.len(),
            0 <= p <= filtered@.len(),
            forall|k: int| 0 <= k < p ==> !rows@[#[trigger] filtered@[k] as int].current,
        decreases filtered.len() - p,
    {
        if rows[filtered[p]].current {
            proof {
                let c = choose|c: int|
                    0 <= c < filtered@.len() && rows@[filtered@[c] as int].current && forall|k: int|
                        0 <= k < c ==> !rows@[filtered@[k] as int].current;
                if c < p {
                    assert(!rows@[filtered@[c] as int].current);
                } else if c > p {
                    assert(!rows@[filtered@[p as int] as int].current);
                }
            }
            return Some(p);
        }
        p = p + 1;
    }
    None
}

/// Positions in a filtered order hold different rows (their keys strictly increase).
proof fn lemma_filter_order_distinct(f: Seq<char>, labels: Seq<Seq<char>>, a: Seq<usize>, i: int, j: int)
    requires
        is_filter_order(f, labels, a),
        0 <= i < a.len(),
        0 <= j < a.len(),
        i != j,
    ensures
        a[i] != a[j],
{
    if i < j {
        assert(key_lt(
            (score_of(f, labels, a[i] as int), a[i] as int),
            (score_of(f, labels, a[j] as int), a[j] as int),
        ));
    } else {
        assert(key_lt(
            (score_of(f, labels, a[j] as int), a[j] as int),
            (score_of(f, labels, a[i] as int), a[i] as int),
        ));
    }
}

/// The filtered order of rows is determined by the filter and the labels alone: any two
/// lists that are both the filtered order are the same list.
pub proof fn lemma_filter_order_unique(f: Seq<char>, labels: Seq<Seq<char>>, a: Seq<usize>, b: Seq<usize>)
    requires
        is_filter_order(f, labels, a),
        is_filter_order(f, labels, b),
    ensures
        a == b,
{
    assert forall|k: int| 0 <= k < a.len() && k < b.len() implies a[k] == b[k] by {
        lemma_filter_order_prefix_equal(f, labels, a, b, k);
    }
    if a.len() > b.len() {
        let n = b.len() as int;
        let x = a[n];
        assert(a[n] < labels.len() && matches(f, labels, a[n] as int));
        assert(b.contains(x));
        let m = choose|m: int| 0 <= m < b.len() && b[m] == x;
        lemma_filter_order_prefix_equal(f, labels, a, b, m);
        lemma_filter_order_distinct(f, labels, a, m, n);
    } else if b.len() > a.len() {
        let n = a.len() as int;
        let x = b[n];
        assert(b[n] < labels.len() && matches(f, labels, b[n] as int));
        assert(a.contains(x));
        let m = choose|m: int| 0 <= m < a.len() && a[m] == x;
        lemma_filter_order_prefix_equal(f, labels, a, b, m);
        lemma_filter_order_distinct(f, labels, b, m, n);
    }
    assert(a =~= b);
}

proof fn lemma_filter_order_prefix_equal(f: Seq<char>, labels: Seq<Seq<char>>, a: Seq<usize>, b: Seq<usize>, k: int)
    requires
        is_filter_order(f, labels, a),
        is_filter_order(f, labels, b),
        0 <= k < a.len(),
        k < b.len(),
    ensures
        a[k] == b[k],
    decreases k,
{
    if k > 0 {
        lemma_filter_order_prefix_equal(f, labels, a, b, k - 1);
    }
    assert forall|j: int| 0 <= j < k implies a[j] == b[j] by {
        if j < k {
            lemma_filter_order_prefix_equal(f, labels, a, b, j);
        }
    }
    // a[k] sits somewhere in b, at m >= k; b[k] sits somewhere in a, at m2 >= k.
    let x = a[k];
    assert(a[k] < labels.len() && matches(f, labels, a[k] as int));
    assert(b.contains(x));
    let m = choose|m: int| 0 <= m < b.len() && b[m] == x;
    let y = b[k];
    assert(b[k] < labels.len() && matches(f, labels, b[k] as int));
    assert(a.contains(y));
    let m2 = choose|m2: int| 0 <= m2 < a.len() && a[m2] == y;
    if m < k {
        assert(a[m] == b[m]);
        lemma_filter_order_distinct(f, labels, a, m, k);
    }
    if m2 < k {
        assert(a[m2] == b[m2]);
        lemma_filter_order_distinct(f, labels, b, m2, k);
    }
    if m > k && m2 > k {
        // b[k] before b[m] = a[k] in b, and a[k] before a[m2] = b[k] in a: contradiction.
        assert(key_lt(
            (score_of(f, labels, b[k] as int), b[k] as int),
            (score_of(f, labels, b[m] as int), b[m] as int),
        ));
        assert(key_lt(
            (score_of(f, labels, a[k] as int), a[k] as int),
            (score_of(f, labels, a[m2] as int), a[m2] as int),
        ));
    }
    if m > k && m2 == k {
        assert(a[k] == b[k]);
    }
}

proof fn lemma_first_label_witness(rows: Seq<LeaderWindowRow>, filtered: Seq<usize>, label: Seq<char>, p0: int)
    requires
        0 <= p0 < filtered.len(),
        rows[filtered[p0] as int].label@ == label,
    ensures
        exists|p: int|
            0 <= p < filtered.len() && rows[filtered[p] as int].label@ == label && forall|j: int|
                0 <= j < p ==> rows[filtered[j] as int].label@ != label,
    decreases p0,
{
    if exists|j: int| 0 <= j < p0 && rows[filtered[j] as int].label@ == label {
        let j = choose|j: int| 0 <= j < p0 && rows[filtered[j] as int].label@ == label;
        lemma_first_label_witness(rows, filtered, label, j);
    } else {
        assert(forall|j: int| 0 <= j < p0 ==> rows[filtered[j] as int].label@ != label);
    }
}

/// The position that [`first_label_in`] names is a listed row with that label.
pub proof fn lemma_first_label_in_found(rows: Seq<LeaderWindowRow>, filtered: Seq<usize>, label: Seq<char>)
    requires
        first_label_in(rows, filtered, label) is Some,
    ensures
        0 <= first_label_in(rows, filtered, label)->Some_0 < filtered.len(),
        rows[filtered[first_label_in(rows, filtered, label)->Some_0] as int].label@ == label,
{
    let p0 = choose|p: int| 0 <= p < filtered.len() && rows[filtered[p] as int].label@ == label;
    lemma_first_label_witness(rows, filtered, label, p0);
}

/// Typing text that a row's label contains keeps that row listed: every row whose label
/// is `pre + filter + post` appears in the filtered list.
pub proof fn lemma_filter_lists_containing_rows(
    filter: Seq<char>,
    labels: Seq<Seq<char>>,
    out: Seq<usize>,
    i: int,
    pre: Seq<char>,
    post: Seq<char>,
)
    requires
        is_filter_order(filter, labels, out),
        0 <= i < labels.len(),
        labels[i] == pre + filter + post,
    ensures
        out.contains(i as usize),
{
    crate::fuzzy::lemma_fuzzy_substring_matches(pre, filter, post);
    assert(matches(filter, labels, i));
}

} // verus!
