//! Layout of the leader popups as plain values: key badges, label widths, pill labels,
//! section rules, the scrolled tab list, wrapped window pills and the header banner.
//! Drawing them (colours, widgets) is left to the caller.
use vstd::prelude::*;
use crate::picker::LeaderWindowRow;
use crate::text::{chars_of, dec_digits, string_of, sub_vec, u64_str};

verus! {

/// Columns of the action grid.
pub const COLS: usize = 4;

/// Width of a key badge: the widest key name is `space`.
pub const KEY_WIDTH: usize = 5;

/// Spaces after a grid slot that is not the last of its row, in the kitty leader.
pub const KITTY_SLOT_TRAILING: usize = 6;

/// Spaces after a grid slot that is not the last of its row, in the tmux leader.
pub const TMUX_SLOT_TRAILING: usize = 4;

/// `n` spaces.
pub open spec fn spaces(n: nat) -> Seq<char> {
    Seq::new(n, |i: int| ' ')
}

/// `s` right-aligned in `w` characters (`format!("{:>w$}")`).
pub open spec fn pad_left(s: Seq<char>, w: nat) -> Seq<char> {
    if s.len() < w {
        spaces((w - s.len()) as nat) + s
    } else {
        s
    }
}

/// `s` left-aligned in `w` characters (`format!("{:<w$}")`).
pub open spec fn pad_right(s: Seq<char>, w: nat) -> Seq<char> {
    if s.len() < w {
        s + spaces((w - s.len()) as nat)
    } else {
        s
    }
}

fn push_spaces(v: &mut Vec<char>, n: usize)
    ensures
        final(v)@ == old(v)@ + spaces(n as nat),
{
    let mut i: usize = 0;
    while i < n
        invariant
            0 <= i <= n,
            v@ == old(v)@ + spaces(i as nat),
        decreases n - i,
    {
        v.push(' ');
        i = i + 1;
        assert(v@ =~= old(v)@ + spaces(i as nat));
    }
}

/// The name shown for a key: `space`, `tab`, or the character.
pub open spec fn key_name(key: char) -> Seq<char> {
    if key == ' ' {
        "space"@
    } else if key == '\t' {
        "tab"@
    } else {
        seq![key]
    }
}

/// Key badge text: the key's name right-aligned in [`KEY_WIDTH`] characters.
pub fn key_display(key: char) -> (r: String)
    ensures
        r@ == pad_left(key_name(key), KEY_WIDTH as nat),
{
    let name: Vec<char> = if key == ' ' {
        chars_of("space")
    } else if key == '\t' {
        chars_of("tab")
    } else {
        let mut v: Vec<char> = Vec::new();
        v.push(key);
        assert(v@ =~= seq![key]);
        v
    };
    let mut out: Vec<char> = Vec::new();
    if name.len() < KEY_WIDTH {
        push_spaces(&mut out, KEY_WIDTH - name.len());
    }
    let r = crate::text::concat_chars(out.as_slice(), name.as_slice());
    assert(r@ =~= pad_left(key_name(key), KEY_WIDTH as nat));
    string_of(r.as_slice())
}

/// Room for a label in a grid slot: the slot (a fourth of the width) less the badge, the
/// arrow ` → ` and the trailing gap.
pub open spec fn spec_label_width(inner_width: nat, trailing: nat) -> nat {
    let slot = inner_width / (COLS as nat);
    if slot > KEY_WIDTH + 3 + trailing {
        (slot - KEY_WIDTH - 3 - trailing) as nat
    } else {
        0
    }
}

/// Room for a label in a grid slot of a popup `inner_width` wide.
pub fn label_width(inner_width: usize, trailing: usize) -> (r: usize)
    requires
        trailing <= 64,
    ensures
        r == spec_label_width(inner_width as nat, trailing as nat),
{
    let slot = inner_width / COLS;
    let used = KEY_WIDTH + 3 + trailing;
    if slot > used {
        slot - used
    } else {
        0
    }
}

/// `s` cut to `max` characters, the last one replaced by `…` when it had to be cut.
pub open spec fn spec_truncate(s: Seq<char>, max: nat) -> Seq<char> {
    if s.len() <= max {
        s
    } else {
        s.take(if max > 0 { max - 1 } else { 0 }).push('…')
    }
}

/// Cut a pill label to `max_chars` characters (with `…`).
pub fn truncate_pill_label(s: &str, max_chars: usize) -> (r: String)
    ensures
        r@ == spec_truncate(s@, max_chars as nat),
{
    let v = chars_of(s);
    if v.len() <= max_chars {
        return string_of(v.as_slice());
    }
    let keep = if max_chars > 0 {
        max_chars - 1
    } else {
        0
    };
    let mut t = sub_vec(v.as_slice(), 0, keep);
    t.push('…');
    assert(t@ =~= s@.take(keep as int).push('…'));
    string_of(t.as_slice())
}

/// Text of a grid slot after its badge: ` → `, the icon, the label (cut to the room left
/// by the icon) padded to that room, then the trailing gap unless the slot ends its row.
pub open spec fn spec_slot_text(label: Seq<char>, icon: Seq<char>, lw: nat, is_last: bool, trailing: nat) -> Seq<char> {
    let max_label: nat = if lw > icon.len() { (lw - icon.len()) as nat } else { 0 };
    " → "@ + icon + pad_right(spec_truncate(label, max_label), max_label) + spaces(
        if is_last { 0 } else { trailing },
    )
}

/// Text of a grid slot after its badge (see [`spec_slot_text`]).
pub fn slot_text(label: &str, icon: &str, lw: usize, is_last: bool, trailing: usize) -> (r: String)
    ensures
        r@ == spec_slot_text(label@, icon@, lw as nat, is_last, trailing as nat),
{
    let icon_v = chars_of(icon);
    let max_label = if lw > icon_v.len() {
        lw - icon_v.len()
    } else {
        0
    };
    let l = chars_of(truncate_pill_label(label, max_label).as_str());
    let mut out = chars_of(" → ");
    proof {
        reveal_strlit(" → ");
    }
    let mut out = crate::text::concat_chars(out.as_slice(), icon_v.as_slice());
    let mut out = crate::text::concat_chars(out.as_slice(), l.as_slice());
    if l.len() < max_label {
        push_spaces(&mut out, max_label - l.len());
    }
    if !is_last {
        push_spaces(&mut out, trailing);
    } else {
        assert(spaces(0) =~= Seq::<char>::empty());
    }
    assert(out@ =~= spec_slot_text(label@, icon@, lw as nat, is_last, trailing as nat));
    string_of(out.as_slice())
}

/// A section rule: the title framed by two spaces each side and centred between runs of
/// `─`; `None` for the rule lengths when the width leaves room for no more than the title.
pub open spec fn spec_rule(title_len: nat, width: nat) -> Option<(nat, nat)> {
    let lw = title_len + 4;
    if width <= lw + 2 {
        None
    } else {
        let rules = (width - lw) as nat;
        Some(((rules / 2) as nat, (rules - rules / 2) as nat))
    }
}

/// A section rule line: its label (`  title  `) and the lengths of the rules left and right
/// of it (`None` when only the label fits).
pub fn titled_rule_line(title: &str, width: usize) -> (r: (String, Option<(usize, usize)>))
    ensures
        r.0@ == "  "@ + title@ + "  "@,
        match r.1 {
            Some((a, b)) => spec_rule(title@.len(), width as nat) == Some((a as nat, b as nat)),
            None => spec_rule(title@.len(), width as nat) is None,
        },
{
    let a = crate::text::join_str("  ", title);
    let label = crate::text::join_str(a.as_str(), "  ");
    let n = chars_of(label.as_str()).len();
    proof {
        reveal_strlit("  ");
    }
    if width <= n || width - n <= 2 {
        return (label, None);
    }
    let rules = width - n;
    let left = rules / 2;
    (label, Some((left, rules - left)))
}

/// A line of the scrolled tab list.
#[derive(Debug)]
pub enum ListLine {
    /// Shown instead of rows when nothing matches the filter.
    NoMatches,
    /// This many listed rows are scrolled off above.
    Above(usize),
    /// A listed row: its index in the rows, whether it is selected or current, its label
    /// (cut to the width).
    Row { row: usize, selected: bool, current: bool, label: String },
    /// This many listed rows are scrolled off below.
    Below(usize),
}

/// First listed row shown: the window of `max_vis` rows keeps the cursor in its middle,
/// within the list.
pub open spec fn list_skip(n: int, cursor: int, max_vis: int) -> int {
    if n <= max_vis {
        0
    } else {
        let c = if cursor > max_vis / 2 {
            cursor - max_vis / 2
        } else {
            0
        };
        if c < n - max_vis {
            c
        } else {
            n - max_vis
        }
    }
}

/// Number of rows shown from `skip` on.
pub open spec fn list_take(n: int, skip: int, max_vis: int) -> int {
    if n - skip < max_vis {
        n - skip
    } else {
        max_vis
    }
}

/// The list lines are right: `no matches` for an empty list; else the rows of the window
/// (selected = at the cursor), with `above` / `below` counts where rows are hidden.
pub open spec fn list_lines_are(
    lines: Seq<ListLine>,
    rows: Seq<LeaderWindowRow>,
    filtered: Seq<usize>,
    cursor: int,
    max_visible: int,
    max_label_width: nat,
) -> bool {
    let n = filtered.len() as int;
    let max_vis = if max_visible < 1 { 1 } else { max_visible };
    let skip = list_skip(n, cursor, max_vis);
    let take = list_take(n, skip, max_vis);
    let head: int = if skip > 0 { 1 } else { 0 };
    let tail: int = if skip + take < n { 1 } else { 0 };
    if n == 0 {
        lines.len() == 1 && lines[0] is NoMatches
    } else {
        &&& lines.len() == head + take + tail
        &&& skip > 0 ==> lines[0] == ListLine::Above(skip as usize)
        &&& skip + take < n ==> lines[head + take] == ListLine::Below((n - skip - take) as usize)
        &&& forall|j: int|
            #![trigger lines[head + j]]
            0 <= j < take ==> (lines[head + j] matches ListLine::Row { row, selected, current, label }
                && row == filtered[skip + j] && selected == (skip + j == cursor) && current
                == rows[filtered[skip + j] as int].current && label@ == spec_truncate(
                rows[filtered[skip + j] as int].label@,
                max_label_width,
            ))
    }
}

/// The lines of the scrolled tab list; `cursor` indexes into `filtered`.
pub fn tab_list_lines(
    tab_rows: &Vec<LeaderWindowRow>,
    filtered: &Vec<usize>,
    cursor: usize,
    max_visible: usize,
    max_label_width: usize,
) -> (r: Vec<ListLine>)
    requires
        forall|k: int| 0 <= k < filtered@.len() ==> #[trigger] filtered@[k] < tab_rows@.len(),
    ensures
        list_lines_are(
            r@,
            tab_rows@,
            filtered@,
            cursor as int,
            max_visible as int,
            max_label_width as nat,
        ),
{
    let n = filtered.len();
    let mut lines: Vec<ListLine> = Vec::new();
    if n == 0 {
        lines.push(ListLine::NoMatches);
        return lines;
    }
    let max_vis = if max_visible < 1 {
        1
    } else {
        max_visible
    };
    let skip = if n <= max_vis {
        0
    } else {
        let c = if cursor > max_vis / 2 {
            cursor - max_vis / 2
        } else {
            0
        };
        if c < n - max_vis {
            c
        } else {
            n - max_vis
        }
    };
    let take = if n - skip < max_vis {
        n - skip
    } else {
        max_vis
    };
    let ghost head: int = if skip > 0 { 1 } else { 0 };
    if skip > 0 {
        lines.push(ListLine::Above(skip));
    }
    let mut j: usize = 0;
    while j < take
        invariant
            forall|k: int| 0 <= k < filtered@.len() ==> #[trigger] filtered@[k] < tab_rows@.len(),
            n == filtered@.len(),
            skip + take <= n,
            head == (if skip > 0 { 1int } else { 0int }),
            0 <= j <= take,
            lines@.len() == head + j,
            skip > 0 ==> lines@[0] == ListLine::Above(skip),
            forall|m: int|
                #![trigger lines@[head + m]]
                0 <= m < j ==> (lines@[head + m] matches ListLine::Row { row, selected, current, label }
                    && row == filtered@[skip + m] && selected == (skip + m == cursor) && current
                    == tab_rows@[filtered@[skip + m] as int].current && label@ == spec_truncate(
                    tab_rows@[filtered@[skip + m] as int].label@,
                    max_label_width as nat,
                )),
        decreases take - j,
    {
        let row_i = filtered[skip + j];
        let row = &tab_rows[row_i];
        let label = truncate_pill_label(row.label.as_str(), max_label_width);
        lines.push(ListLine::Row { row: row_i, selected: skip + j == cursor, current: row.current, label });
        assert(lines@[head + j] == lines@[lines@.len() - 1]);
        j = j + 1;
    }
    if skip + take < n {
        lines.push(ListLine::Below(n - (skip + take)));
    }
    lines
}

/// At most this many window pills are shown.
pub const MAX_WINDOW_PILLS: usize = 24;

/// A window pill: its text between the round caps, its state, and the line it goes on.
#[derive(Debug)]
pub struct WindowPill {
    pub text: String,
    pub selected: bool,
    pub focused: bool,
    pub current: bool,
    pub line: usize,
}

/// Label room of a window pill: a fifth of the line, between 6 and 22.
pub open spec fn pill_label_max(max_line_width: nat) -> nat {
    let x = max_line_width / 5;
    if x < 6 {
        6
    } else if x > 22 {
        22
    } else {
        x
    }
}

/// Text of window pill `i`: ` <i+1> <label> ` for the first nine, ` <label> ` after.
pub open spec fn window_pill_text(i: nat, label: Seq<char>, max_chars: nat) -> Seq<char> {
    let l = spec_truncate(label, max_chars);
    if i < 9 {
        " "@ + dec_digits(i + 1) + " "@ + l + " "@
    } else {
        " "@ + l + " "@
    }
}

/// Greedy wrapping of pills of widths `ws` into lines `max` wide, a one-column gap between
/// pills: the line of each pill, the pills on the last line, and the width used there.
pub open spec fn wrap(ws: Seq<nat>, max: nat) -> (Seq<nat>, nat, nat)
    decreases ws.len(),
{
    if ws.len() == 0 {
        (Seq::empty(), 0, 0)
    } else {
        let (lines, cur, used) = wrap(ws.drop_last(), max);
        let w = ws.last();
        let gap: nat = if cur == 0 { 0 } else { 1 };
        let line: nat = if lines.len() == 0 { 0 } else { lines.last() };
        if used + gap + w > max && cur > 0 {
            (lines.push(line + 1), 1, w)
        } else {
            (lines.push(line), cur + 1, used + gap + w)
        }
    }
}

proof fn lemma_wrap_len(ws: Seq<nat>, max: nat)
    ensures
        wrap(ws, max).0.len() == ws.len(),
        ws.len() > 0 ==> wrap(ws, max).1 >= 1,
        ws.len() == 0 ==> wrap(ws, max).1 == 0 && wrap(ws, max).2 == 0,
    decreases ws.len(),
{
    if ws.len() > 0 {
        lemma_wrap_len(ws.drop_last(), max);
    }
}

/// A cut pill label is never longer than the room it was cut for (one character for no
/// room at all), and a label that fits is left as it is.
pub proof fn lemma_truncate_len(s: Seq<char>, max: nat)
    ensures
        spec_truncate(s, max).len() <= if max > 0 { max } else { 1 },
        s.len() <= max ==> spec_truncate(s, max) == s,
{
}

/// The window pills are right: the first [`MAX_WINDOW_PILLS`] rows, in order, with their
/// texts, states (selected = at the cursor) and lines as [`wrap`] places them (each pill
/// two columns wider than its text, for the caps).
pub open spec fn window_pills_are(
    pills: Seq<WindowPill>,
    rows: Seq<LeaderWindowRow>,
    cursor: int,
    max_line_width: nat,
) -> bool {
    let n = if rows.len() < MAX_WINDOW_PILLS { rows.len() } else { MAX_WINDOW_PILLS as nat };
    let m = pill_label_max(max_line_width);
    let widths = Seq::new(n, |i: int| window_pill_text(i as nat, rows[i].label@, m).len() + 2);
    &&& pills.len() == n
    &&& forall|i: int|
        #![trigger pills[i]]
        0 <= i < n ==> pills[i].text@ == window_pill_text(i as nat, rows[i].label@, m)
            && pills[i].selected == (i == cursor) && pills[i].focused == rows[i].focused
            && pills[i].current == rows[i].current && pills[i].line == wrap(widths, max_line_width).0[i]
}

/// Each window pill shows its own row: it is current and focused exactly when its row is,
/// and selected exactly at the cursor. Moving the cursor changes only which pill is
/// selected: texts, lines and current / focused marks stay. At most
/// [`MAX_WINDOW_PILLS`] rows get a pill, the first ones in order.
pub proof fn lemma_pills_follow_rows(
    pills: Seq<WindowPill>,
    other: Seq<WindowPill>,
    rows: Seq<LeaderWindowRow>,
    cursor: int,
    other_cursor: int,
    max_line_width: nat,
)
    requires
        window_pills_are(pills, rows, cursor, max_line_width),
        window_pills_are(other, rows, other_cursor, max_line_width),
    ensures
        pills.len() == if rows.len() < MAX_WINDOW_PILLS { rows.len() } else { MAX_WINDOW_PILLS as nat },
        other.len() == pills.len(),
        forall|i: int|
            0 <= i < pills.len() ==> (#[trigger] pills[i]).current == rows[i].current
                && pills[i].focused == rows[i].focused && pills[i].selected == (i == cursor)
                && pills[i].text@ == other[i].text@ && pills[i].line == other[i].line
                && pills[i].current == other[i].current,
{
    assert forall|i: int| 0 <= i < pills.len() implies (#[trigger] pills[i]).current == rows[i].current
        && pills[i].focused == rows[i].focused && pills[i].selected == (i == cursor)
        && pills[i].text@ == other[i].text@ && pills[i].line == other[i].line
        && pills[i].current == other[i].current by {
        assert(pills[i].text@ == other[i].text@);
        assert(other[i].current == rows[i].current);
    }
}

/// A pill shows its row's label: a label that fits the pill's room appears whole, after
/// the pill's number `1`–`9` for the first nine pills, with one space around each part.
pub proof fn lemma_pill_shows_label(
    pills: Seq<WindowPill>,
    rows: Seq<LeaderWindowRow>,
    cursor: int,
    max_line_width: nat,
    i: int,
)
    requires
        window_pills_are(pills, rows, cursor, max_line_width),
        0 <= i < pills.len(),
        rows[i].label@.len() <= pill_label_max(max_line_width),
    ensures
        i < 9 ==> pills[i].text@ == " "@ + dec_digits((i + 1) as nat) + " "@ + rows[i].label@ + " "@,
        i >= 9 ==> pills[i].text@ == " "@ + rows[i].label@ + " "@,
{
    lemma_truncate_len(rows[i].label@, pill_label_max(max_line_width));
    assert(pills[i].text@ == window_pill_text(i as nat, rows[i].label@, pill_label_max(max_line_width)));
}

/// Window pills of the root header (see [`window_pills_are`]); how many rows were left
/// out is `rows.len() - MAX_WINDOW_PILLS` when positive.
pub fn window_pill_lines(rows: &Vec<LeaderWindowRow>, cursor: usize, max_line_width: usize) -> (r: Vec<WindowPill>)
    ensures
        window_pills_are(r@, rows@, cursor as int, max_line_width as nat),
{
    let n = if rows.len() < MAX_WINDOW_PILLS {
        rows.len()
    } else {
        MAX_WINDOW_PILLS
    };
    let x = max_line_width / 5;
    let m = if x < 6 {
        6
    } else if x > 22 {
        22
    } else {
        x
    };
    let ghost widths = Seq::new(n as nat, |i: int| window_pill_text(i as nat, rows@[i].label@, m as nat).len() + 2);
    let mut out: Vec<WindowPill> = Vec::new();
    let mut line: usize = 0;
    let mut cur: usize = 0;
    let mut used: usize = 0;
    let mut i: usize = 0;
    while i < n
        invariant
            n <= rows@.len(),
            n <= MAX_WINDOW_PILLS,
            m == pill_label_max(max_line_width as nat),
            m <= 22,
            widths == Seq::new(n as nat, |i: int| window_pill_text(i as nat, rows@[i].label@, m as nat).len() + 2),
            0 <= i <= n,
            out@.len() == i,
            (wrap(widths.take(i as int), max_line_width as nat).1 == cur as nat),
            (wrap(widths.take(i as int), max_line_width as nat).2 == used as nat),
            i > 0 ==> wrap(widths.take(i as int), max_line_width as nat).0.last() == line,
            i == 0 ==> line == 0 && cur == 0 && used == 0,
            i > 0 ==> cur >= 1,
            cur <= i,
            used <= 33 * i,
            line <= i,
            forall|k: int|
                #![trigger out@[k]]
                0 <= k < i ==> out@[k].text@ == window_pill_text(k as nat, rows@[k].label@, m as nat)
                    && out@[k].selected == (k == cursor) && out@[k].focused == rows@[k].focused
                    && out@[k].current == rows@[k].current && out@[k].line == wrap(
                    widths.take(i as int),
                    max_line_width as nat,
                ).0[k],
        decreases n - i,
    {
        proof {
            lemma_wrap_len(widths.take(i as int), max_line_width as nat);
            lemma_wrap_len(widths.take(i + 1), max_line_width as nat);
            lemma_truncate_len(rows@[i as int].label@, m as nat);
        }
        let row = &rows[i];
        let label = truncate_pill_label(row.label.as_str(), m);
        let lv = chars_of(label.as_str());
        let mut t: Vec<char> = Vec::new();
        t.push(' ');
        if i < 9 {
            let d = crate::text::dec_chars((i + 1) as u64);
            t = crate::text::concat_chars(t.as_slice(), d.as_slice());
            t.push(' ');
        }
        t = crate::text::concat_chars(t.as_slice(), lv.as_slice());
        t.push(' ');
        proof {
            reveal_strlit(" ");
        }
        assert(t@ =~= window_pill_text(i as nat, rows@[i as int].label@, m as nat));
        assert(t@.len() <= 30) by {
            assert(lv@.len() <= 22);
            if i < 9 {
                assert(dec_digits((i + 1) as nat).len() == 1);
            }
        }
        let w = t.len() + 2;
        let gap: usize = if cur == 0 {
            0
        } else {
            1
        };
        proof {
            assert(widths.take(i + 1).drop_last() =~= widths.take(i as int));
            assert(widths.take(i + 1).last() == w);
        }
        let ghost prev_lines = wrap(widths.take(i as int), max_line_width as nat).0;
        if used + gap + w > max_line_width && cur > 0 {
            line = line + 1;
            cur = 1;
            used = w;
        } else {
            cur = cur + 1;
            used = used + gap + w;
        }
        out.push(WindowPill { text: string_of(t.as_slice()), selected: i == cursor, focused: row.focused, current: row.current, line });
        proof {
            assert(wrap(widths.take(i + 1), max_line_width as nat).0 == prev_lines.push(line as nat));
        }
        i = i + 1;
    }
    assert(widths.take(n as int) =~= widths);
    out
}

/// Rows left out of the window pills.
pub fn hidden_window_count(n: usize) -> (r: usize)
    ensures
        r == if n > MAX_WINDOW_PILLS { n - MAX_WINDOW_PILLS } else { 0 },
{
    if n > MAX_WINDOW_PILLS {
        n - MAX_WINDOW_PILLS
    } else {
        0
    }
}

/// Room of each header pill, left and right: with pills on one side only, that side shares
/// the whole line; with both, the left shares half of it and the right the rest less one
/// column; never less than 18.
pub open spec fn spec_banner_widths(n_left: nat, n_right: nat, max: nat) -> (nat, nat) {
    let share = |room: nat, k: nat| {
        let gaps: nat = if k > 0 { (k - 1) as nat } else { 0 };
        let r: nat = if room > gaps { ((room - gaps) as nat / k) as nat } else { 0 };
        if r < 18 {
            18nat
        } else {
            r
        }
    };
    if n_left == 0 {
        (0, share(max, n_right))
    } else if n_right == 0 {
        (share(max, n_left), 0)
    } else {
        let half = max / 2;
        let rb: nat = if max - half > 1 { (max - half - 1) as nat } else { 0 };
        (share(half, n_left), share(rb, n_right))
    }
}

fn share_width(room: usize, k: usize) -> (r: usize)
    requires
        k > 0,
    ensures
        r == ({
            let gaps: nat = (k - 1) as nat;
            let x: nat = if room > gaps { ((room - gaps) as nat / k as nat) as nat } else { 0 };
            if x < 18 {
                18nat
            } else {
                x
            }
        }),
{
    let x = if room > k - 1 {
        (room - (k - 1)) / k
    } else {
        0
    };
    if x < 18 {
        18
    } else {
        x
    }
}

/// Room of each header pill on a line `max` wide, with `n_left` pills on the left and
/// `n_right` on the right (at least one pill in all).
pub fn banner_widths(n_left: usize, n_right: usize, max: usize) -> (r: (usize, usize))
    requires
        n_left + n_right > 0,
    ensures
        (r.0 as nat, r.1 as nat) == spec_banner_widths(n_left as nat, n_right as nat, max as nat),
{
    if n_left == 0 {
        (0, share_width(max, n_right))
    } else if n_right == 0 {
        (share_width(max, n_left), 0)
    } else {
        let half = max / 2;
        let rb = if max - half > 1 {
            max - half - 1
        } else {
            0
        };
        (share_width(half, n_left), share_width(rb, n_right))
    }
}

/// Text of a header pill (between its caps): ` <icon> <text> `, the text cut to the room
/// left in a pill `max_line_width` wide (4 columns of caps and padding, then the icon and
/// a space; at least 4 characters).
pub open spec fn spec_header_pill(icon: Seq<char>, text: Seq<char>, max_line_width: nat) -> Seq<char> {
    let a: nat = if max_line_width > 4 { (max_line_width - 4) as nat } else { 0 };
    let max_inner: nat = if a < 8 { 8 } else if a > 120 { 120 } else { a };
    let b: nat = if max_inner > icon.len() + 1 { (max_inner - icon.len() - 1) as nat } else { 0 };
    let max_text: nat = if b < 4 { 4 } else { b };
    " "@ + icon + " "@ + spec_truncate(text, max_text) + " "@
}

/// Text of a header pill.
pub fn header_pill_text(icon: &str, text: &str, max_line_width: usize) -> (r: String)
    ensures
        r@ == spec_header_pill(icon@, text@, max_line_width as nat),
{
    let a = if max_line_width > 4 {
        max_line_width - 4
    } else {
        0
    };
    let max_inner = if a < 8 {
        8
    } else if a > 120 {
        120
    } else {
        a
    };
    let ic = chars_of(icon).len();
    let b = if ic < max_inner && max_inner > ic + 1 {
        max_inner - ic - 1
    } else {
        0
    };
    let max_text = if b < 4 {
        4
    } else {
        b
    };
    let t = truncate_pill_label(text, max_text);
    let x = crate::text::join_str(" ", icon);
    let x = crate::text::join_str(x.as_str(), " ");
    let x = crate::text::join_str(x.as_str(), t.as_str());
    crate::text::join_str(x.as_str(), " ")
}

/// Which header pill.
#[derive(Debug, Clone, Copy, PartialEq, Eq, Structural)]
pub enum HeaderPillKind {
    TabTitle,
    Cwd,
    Git,
    Kube,
}

/// A header pill: what it shows and its text.
#[derive(Debug)]
pub struct HeaderPill {
    pub kind: HeaderPillKind,
    pub text: String,
}

/// The header banner: tab and cwd pills on the left, git and kube pills on the right.
#[derive(Debug)]
pub struct BannerPlan {
    pub left: Vec<HeaderPill>,
    pub right: Vec<HeaderPill>,
}

pub const TAB_TITLE_PILL_ICON: &'static str = "󰓩";
pub const CWD_PILL_ICON: &'static str = "\u{f07c}";
pub const KUBE_PILL_ICON: &'static str = "\u{e81d}";
pub const GIT_PILL_ICON: &'static str = "\u{e725}";

pub open spec fn opt_count(o: Option<&str>) -> nat {
    if o is Some { 1 } else { 0 }
}

pub open spec fn pill_view(p: HeaderPill) -> (HeaderPillKind, Seq<char>) {
    (p.kind, p.text@)
}

/// The pills of one side, from the two optional values in order.
pub open spec fn side_pills(
    a: Option<&str>,
    ka: HeaderPillKind,
    ia: Seq<char>,
    b: Option<&str>,
    kb: HeaderPillKind,
    ib: Seq<char>,
    w: nat,
) -> Seq<(HeaderPillKind, Seq<char>)> {
    let first = match a {
        Some(x) => seq![(ka, spec_header_pill(ia, x@, w))],
        None => Seq::empty(),
    };
    match b {
        Some(y) => first.push((kb, spec_header_pill(ib, y@, w))),
        None => first,
    }
}

fn push_pill(v: &mut Vec<HeaderPill>, kind: HeaderPillKind, icon: &str, text: Option<&str>, w: usize)
    ensures
        final(v)@.map_values(|p: HeaderPill| pill_view(p)) == match text {
            Some(t) => old(v)@.map_values(|p: HeaderPill| pill_view(p)).push(
                (kind, spec_header_pill(icon@, t@, w as nat)),
            ),
            None => old(v)@.map_values(|p: HeaderPill| pill_view(p)),
        },
{
    match text {
        Some(t) => {
            let ghost before = v@.map_values(|p: HeaderPill| pill_view(p));
            v.push(HeaderPill { kind, text: header_pill_text(icon, t, w) });
            assert(v@.map_values(|p: HeaderPill| pill_view(p)) =~= before.push(
                (kind, spec_header_pill(icon@, t@, w as nat)),
            ));
        },
        None => {},
    }
}

/// The header banner for the values at hand; `None` when there is none.
pub fn banner_pills_prefix_spans(
    cwd: Option<&str>,
    kube: Option<&str>,
    git: Option<&str>,
    current_tab_title: Option<&str>,
    max_line_width: usize,
) -> (r: Option<BannerPlan>)
    ensures
        match r {
            None => opt_count(cwd) + opt_count(current_tab_title) + opt_count(git) + opt_count(kube) == 0,
            Some(b) => {
                let (wl, wr) = spec_banner_widths(
                    opt_count(current_tab_title) + opt_count(cwd),
                    opt_count(git) + opt_count(kube),
                    max_line_width as nat,
                );
                &&& opt_count(cwd) + opt_count(current_tab_title) + opt_count(git) + opt_count(kube) > 0
                &&& b.left@.map_values(|p: HeaderPill| pill_view(p)) == side_pills(
                    current_tab_title,
                    HeaderPillKind::TabTitle,
                    TAB_TITLE_PILL_ICON@,
                    cwd,
                    HeaderPillKind::Cwd,
                    CWD_PILL_ICON@,
                    wl,
                )
                &&& b.right@.map_values(|p: HeaderPill| pill_view(p)) == side_pills(
                    git,
                    HeaderPillKind::Git,
                    GIT_PILL_ICON@,
                    kube,
                    HeaderPillKind::Kube,
                    KUBE_PILL_ICON@,
                    wr,
                )
            },
        },
{
    let n_left: usize = (if current_tab_title.is_some() { 1usize } else { 0usize }) + (if cwd.is_some() { 1usize } else { 0usize });
    let n_right: usize = (if git.is_some() { 1usize } else { 0usize }) + (if kube.is_some() { 1usize } else { 0usize });
    if n_left + n_right == 0 {
        return None;
    }
    let (wl, wr) = banner_widths(n_left, n_right, max_line_width);
    let mut left: Vec<HeaderPill> = Vec::new();
    push_pill(&mut left, HeaderPillKind::TabTitle, TAB_TITLE_PILL_ICON, current_tab_title, wl);
    push_pill(&mut left, HeaderPillKind::Cwd, CWD_PILL_ICON, cwd, wl);
    let mut right: Vec<HeaderPill> = Vec::new();
    push_pill(&mut right, HeaderPillKind::Git, GIT_PILL_ICON, git, wr);
    push_pill(&mut right, HeaderPillKind::Kube, KUBE_PILL_ICON, kube, wr);
    proof {
        assert(left@.map_values(|p: HeaderPill| pill_view(p)) =~= side_pills(
            current_tab_title,
            HeaderPillKind::TabTitle,
            TAB_TITLE_PILL_ICON@,
            cwd,
            HeaderPillKind::Cwd,
            CWD_PILL_ICON@,
            wl as nat,
        ));
        assert(right@.map_values(|p: HeaderPill| pill_view(p)) =~= side_pills(
            git,
            HeaderPillKind::Git,
            GIT_PILL_ICON@,
            kube,
            HeaderPillKind::Kube,
            KUBE_PILL_ICON@,
            wr as nat,
        ));
    }
    Some(BannerPlan { left, right })
}

/// Blank columns of the banner line given the drawn widths of its two sides: before the
/// right side when there is no left one (whatever is left of the line), between the sides
/// when there are both (at least one), none when there is no right side.
pub fn banner_fill(max_line_width: usize, left_width: usize, right_width: usize, has_left: bool, has_right: bool) -> (r: usize)
    ensures
        r == if !has_right {
            0
        } else if !has_left {
            if max_line_width > right_width { (max_line_width - right_width) as int } else { 0 }
        } else if max_line_width > left_width + right_width && max_line_width - left_width - right_width > 1 {
            (max_line_width - left_width - right_width) as int
        } else {
            1
        },
{
    if !has_right {
        0
    } else if !has_left {
        if max_line_width > right_width {
            max_line_width - right_width
        } else {
            0
        }
    } else if left_width <= max_line_width && right_width <= max_line_width - left_width
        && max_line_width - left_width - right_width > 1 {
        max_line_width - left_width - right_width
    } else {
        1
    }
}

/// How a pill's body is drawn.
#[derive(Debug, Clone, Copy, PartialEq, Eq, Structural)]
pub enum PillLook {
    /// Under the cursor.
    Selected,
    /// Focused in the terminal.
    Focused,
    /// The current one (recently used).
    Recent,
    Plain,
}

/// A pill's look: selection first, then focus, then current.
pub open spec fn spec_pill_look(selected: bool, term_focused: bool, recent: bool) -> PillLook {
    if selected {
        PillLook::Selected
    } else if term_focused {
        PillLook::Focused
    } else if recent {
        PillLook::Recent
    } else {
        PillLook::Plain
    }
}

/// A pill's look: selection first, then focus, then current.
pub fn pill_style(selected: bool, term_focused: bool, recent: bool) -> (r: PillLook)
    ensures
        r == spec_pill_look(selected, term_focused, recent),
{
    if selected {
        PillLook::Selected
    } else if term_focused {
        PillLook::Focused
    } else if recent {
        PillLook::Recent
    } else {
        PillLook::Plain
    }
}

/// Colour of a pill's round caps (the body's fill).
#[derive(Debug, Clone, Copy, PartialEq, Eq, Structural)]
pub enum CapFill {
    Selected,
    Current,
    Plain,
}

/// A pill's cap fill: selection first, then current.
pub open spec fn spec_cap_fill(selected: bool, current: bool) -> CapFill {
    if selected {
        CapFill::Selected
    } else if current {
        CapFill::Current
    } else {
        CapFill::Plain
    }
}

/// A pill's cap fill: selection first, then current.
pub fn pill_cap_fill_color(selected: bool, current: bool) -> (r: CapFill)
    ensures
        r == spec_cap_fill(selected, current),
{
    if selected {
        CapFill::Selected
    } else if current {
        CapFill::Current
    } else {
        CapFill::Plain
    }
}

/// The fill behind a pill's body for each look: the selection fill, the current fill, or
/// the plain fill (a focused pill is drawn on the plain fill, in its own text colour).
pub open spec fn spec_body_fill(look: PillLook) -> CapFill {
    match look {
        PillLook::Selected => CapFill::Selected,
        PillLook::Recent => CapFill::Current,
        PillLook::Focused => CapFill::Plain,
        PillLook::Plain => CapFill::Plain,
    }
}

/// The fill behind a pill's body (see [`spec_body_fill`]).
pub fn body_fill(look: PillLook) -> (r: CapFill)
    ensures
        r == spec_body_fill(look),
{
    match look {
        PillLook::Selected => CapFill::Selected,
        PillLook::Recent => CapFill::Current,
        PillLook::Focused => CapFill::Plain,
        PillLook::Plain => CapFill::Plain,
    }
}

/// A pill that is not focused has caps of the same fill as its body: selected, else
/// current, else plain.
pub proof fn lemma_caps_match_body(selected: bool, current: bool)
    ensures
        spec_body_fill(spec_pill_look(selected, false, current)) == spec_cap_fill(selected, current),
{
}

/// Pane pills of the panes group: laid out as window pills (see [`window_pills_are`]),
/// never focused.
pub fn pane_pill_lines(rows: &Vec<crate::picker::LeaderPaneRow>, cursor: usize, max_line_width: usize) -> (r: Vec<WindowPill>)
    ensures
        exists|as_rows: Seq<LeaderWindowRow>|
            #![trigger window_pills_are(r@, as_rows, cursor as int, max_line_width as nat)]
            as_rows.len() == rows@.len() && (forall|k: int|
                #![trigger as_rows[k]]
                0 <= k < as_rows.len() ==> as_rows[k].label@ == rows@[k].label@ && !as_rows[k].focused
                    && as_rows[k].current == rows@[k].current) && window_pills_are(
                r@,
                as_rows,
                cursor as int,
                max_line_width as nat,
            ),
{
    let mut as_rows: Vec<LeaderWindowRow> = Vec::new();
    let mut i: usize = 0;
    while i < rows.len()
        invariant
            0 <= i <= rows@.len(),
            as_rows@.len() == i,
            forall|k: int|
                #![trigger as_rows@[k]]
                0 <= k < i ==> as_rows@[k].label@ == rows@[k].label@ && !as_rows@[k].focused
                    && as_rows@[k].current == rows@[k].current,
        decreases rows.len() - i,
    {
        let label = string_of(chars_of(rows[i].label.as_str()).as_slice());
        as_rows.push(LeaderWindowRow { id: 0, label, focused: false, current: rows[i].current });
        i = i + 1;
    }
    let r = window_pill_lines(&as_rows, cursor, max_line_width);
    assert(window_pills_are(r@, as_rows@, cursor as int, max_line_width as nat));
    r
}

/// The tmux header: the git pill then the kube pill, each sharing the line (less one column
/// between them), never less than 12 columns.
pub open spec fn tmux_banner_width(n: nat, max: nat) -> nat {
    let gaps: nat = if n > 0 { (n - 1) as nat } else { 0 };
    let r: nat = if max > gaps && n > 0 { ((max - gaps) as nat / n) as nat } else { 0 };
    if r < 12 {
        12
    } else {
        r
    }
}

/// The tmux header pills (git, then kube); `None` when there is neither.
pub fn tmux_banner_pills(git: Option<&str>, kube: Option<&str>, max_line_width: usize) -> (r: Option<Vec<HeaderPill>>)
    ensures
        match r {
            None => git is None && kube is None,
            Some(v) => (git is Some || kube is Some) && v@.map_values(|p: HeaderPill| pill_view(p))
                == side_pills(
                git,
                HeaderPillKind::Git,
                GIT_PILL_ICON@,
                kube,
                HeaderPillKind::Kube,
                KUBE_PILL_ICON@,
                tmux_banner_width(opt_count(git) + opt_count(kube), max_line_width as nat),
            ),
        },
{
    let n: usize = (if git.is_some() { 1usize } else { 0usize }) + (if kube.is_some() { 1usize } else { 0usize });
    if n == 0 {
        return None;
    }
    let x = if max_line_width > n - 1 {
        (max_line_width - (n - 1)) / n
    } else {
        0
    };
    let w = if x < 12 {
        12
    } else {
        x
    };
    let mut v: Vec<HeaderPill> = Vec::new();
    push_pill(&mut v, HeaderPillKind::Git, GIT_PILL_ICON, git, w);
    push_pill(&mut v, HeaderPillKind::Kube, KUBE_PILL_ICON, kube, w);
    assert(v@.map_values(|p: HeaderPill| pill_view(p)) =~= side_pills(
        git,
        HeaderPillKind::Git,
        GIT_PILL_ICON@,
        kube,
        HeaderPillKind::Kube,
        KUBE_PILL_ICON@,
        w as nat,
    ));
    Some(v)
}

/// A popup area `width` × `height` at the top left of `area`, clipped to it.
#[derive(Debug, Clone, Copy, PartialEq, Eq, Structural)]
pub struct Area {
    pub x: u16,
    pub y: u16,
    pub width: u16,
    pub height: u16,
}

/// The top-left part of `area` of the given size, clipped.
pub fn top_rect(width: u16, height: u16, area: Area) -> (r: Area)
    ensures
        r == (Area {
            x: area.x,
            y: area.y,
            width: if width < area.width { width } else { area.width },
            height: if height < area.height { height } else { area.height },
        }),
{
    Area {
        x: area.x,
        y: area.y,
        width: if width < area.width {
            width
        } else {
            area.width
        },
        height: if height < area.height {
            height
        } else {
            area.height
        },
    }
}

/// A label longer than its room `max` (at least one) is cut to exactly `max` characters:
/// its first `max - 1` characters, then `…`.
pub proof fn lemma_truncate_cut(s: Seq<char>, max: nat)
    requires
        s.len() > max,
        max > 0,
    ensures
        spec_truncate(s, max).len() == max,
        spec_truncate(s, max).last() == '…',
        forall|i: int| 0 <= i < max - 1 ==> #[trigger] spec_truncate(s, max)[i] == s[i],
{
}

/// A key badge is five columns wide (`space` fills it), spaces first, the key's name last:
/// `space`, `tab`, or the key itself.
pub proof fn lemma_key_badge(key: char)
    ensures
        pad_left(key_name(key), KEY_WIDTH as nat).len() == KEY_WIDTH,
        pad_left(key_name(key), KEY_WIDTH as nat).last() == if key == ' ' {
            'e'
        } else if key == '\t' {
            'b'
        } else {
            key
        },
        key != ' ' && key != '\t' ==> forall|i: int|
            0 <= i < KEY_WIDTH - 1 ==> #[trigger] pad_left(key_name(key), KEY_WIDTH as nat)[i] == ' ',
{
    reveal_strlit("space");
    reveal_strlit("tab");
}

/// A section rule fills the width: the two runs of `─` and the framed title add up to the
/// width, the right run at most one longer than the left.
pub proof fn lemma_rule_fills_width(title_len: nat, width: nat)
    ensures
        spec_rule(title_len, width) matches Some((l, r)) ==> l + r + title_len + 4 == width && l <= r
            <= l + 1,
        spec_rule(title_len, width) is None <==> width <= title_len + 6,
{
}

} // verus!
