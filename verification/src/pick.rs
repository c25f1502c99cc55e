//! The secondary pick dialog (move a window, attach a tab): items in groups, numbered 1–9,
//! chosen with Tab / Shift-Tab and Enter or a digit.
use vstd::prelude::*;
use crate::tmux_leader::events::{KeyInput, KeyKind, cycle};

verus! {

/// One choice of a pick dialog.
#[derive(Debug)]
pub struct PickItem {
    pub label: String,
    pub focused: bool,
    pub current: bool,
}

/// A titled group of choices.
#[derive(Debug)]
pub struct PickGroup {
    pub label: String,
    pub items: Vec<PickItem>,
}

/// (group, item) of every choice, group by group, in order.
pub open spec fn spec_key_map(groups: Seq<PickGroup>) -> Seq<(usize, usize)>
    decreases groups.len(),
{
    if groups.len() == 0 {
        Seq::empty()
    } else {
        let g = (groups.len() - 1) as usize;
        spec_key_map(groups.drop_last()) + Seq::new(
            groups.last().items@.len(),
            |i: int| (g, i as usize),
        )
    }
}

/// The choices in key order: (group, item) pairs.
pub fn pick_key_map(groups: &Vec<PickGroup>) -> (r: Vec<(usize, usize)>)
    ensures
        r@ == spec_key_map(groups@),
{
    let mut out: Vec<(usize, usize)> = Vec::new();
    let mut g: usize = 0;
    while g < groups.len()
        invariant
            0 <= g <= groups@.len(),
            out@ == spec_key_map(groups@.take(g as int)),
        decreases groups.len() - g,
    {
        let ghost before = out@;
        let n = groups[g].items.len();
        let mut i: usize = 0;
        while i < n
            invariant
                g < groups@.len(),
                n == groups@[g as int].items@.len(),
                0 <= i <= n,
                out@ == before + Seq::new(i as nat, |k: int| (g, k as usize)),
            decreases n - i,
        {
            out.push((g, i));
            i = i + 1;
            assert(out@ =~= before + Seq::new(i as nat, |k: int| (g, k as usize)));
        }
        proof {
            let t = groups@.take(g + 1);
            assert(t.drop_last() =~= groups@.take(g as int));
            assert(t.last() == groups@[g as int]);
        }
        g = g + 1;
    }
    assert(groups@.take(groups@.len() as int) =~= groups@);
    out
}

/// Every key position names an item of a group.
pub proof fn lemma_key_map_bounds(groups: Seq<PickGroup>)
    requires
        groups.len() <= usize::MAX,
    ensures
        forall|p: int|
            0 <= p < spec_key_map(groups).len() ==> (#[trigger] spec_key_map(groups)[p]).0 < groups.len()
                && spec_key_map(groups)[p].1 < groups[spec_key_map(groups)[p].0 as int].items@.len(),
    decreases groups.len(),
{
    if groups.len() > 0 {
        let prev = spec_key_map(groups.drop_last());
        lemma_key_map_bounds(groups.drop_last());
        let km = spec_key_map(groups);
        assert forall|p: int| 0 <= p < km.len() implies (#[trigger] km[p]).0 < groups.len()
            && km[p].1 < groups[km[p].0 as int].items@.len() by {
            if p < prev.len() {
                assert(km[p] == prev[p]);
                assert(groups.drop_last()[prev[p].0 as int] == groups[prev[p].0 as int]);
            } else {
                assert(km[p] == ((groups.len() - 1) as usize, (p - prev.len()) as usize));
            }
        }
    }
}

/// The choice at key position `p` is focused.
pub open spec fn choice_focused(groups: Seq<PickGroup>, key_map: Seq<(usize, usize)>, p: int) -> bool {
    groups[key_map[p].0 as int].items@[key_map[p].1 as int].focused
}

/// Where the cursor starts: on the first focused choice, else on the first.
pub open spec fn spec_initial_cursor(groups: Seq<PickGroup>, key_map: Seq<(usize, usize)>) -> int {
    if exists|p: int| 0 <= p < key_map.len() && #[trigger] choice_focused(groups, key_map, p) {
        choose|p: int|
            0 <= p < key_map.len() && #[trigger] choice_focused(groups, key_map, p) && forall|k: int|
                0 <= k < p ==> !choice_focused(groups, key_map, k)
    } else {
        0
    }
}

/// Where the cursor starts (see [`spec_initial_cursor`]).
pub fn pick_initial_cursor(groups: &Vec<PickGroup>, key_map: &Vec<(usize, usize)>) -> (r: usize)
    requires
        key_map@ == spec_key_map(groups@),
    ensures
        r == spec_initial_cursor(groups@, key_map@),
{
    let n_groups: usize = groups.len();
    proof {
        assert(groups@.len() == n_groups);
        lemma_key_map_bounds(groups@);
    }
    let mut p: usize = 0;
    while p < key_map.len()
        invariant
            forall|q: int|
                0 <= q < key_map@.len() ==> (#[trigger] key_map@[q]).0 < groups@.len()
                    && key_map@[q].1 < groups@[key_map@[q].0 as int].items@.len(),
            0 <= p <= key_map@.len(),
            forall|k: int| 0 <= k < p ==> !choice_focused(groups@, key_map@, k),
        decreases key_map.len() - p,
    {
        let (g, i) = key_map[p];
        if groups[g].items[i].focused {
            proof {
                assert(choice_focused(groups@, key_map@, p as int));
                let c = choose|c: int|
                    0 <= c < key_map@.len() && #[trigger] choice_focused(groups@, key_map@, c) && forall|k: int|
                        0 <= k < c ==> !choice_focused(groups@, key_map@, k);
                if c < p {
                    assert(!choice_focused(groups@, key_map@, c));
                } else if c > p {
                    assert(!choice_focused(groups@, key_map@, p as int));
                }
            }
            return p;
        }
        p = p + 1;
    }
    proof {
        if exists|q: int| 0 <= q < key_map@.len() && #[trigger] choice_focused(groups@, key_map@, q) {
            let q = choose|q: int| 0 <= q < key_map@.len() && #[trigger] choice_focused(groups@, key_map@, q);
            assert(!choice_focused(groups@, key_map@, q));
        }
    }
    0
}

/// What the pick dialog does after a key.
#[derive(Debug, Clone, Copy, PartialEq, Eq)]
pub enum PickStep {
    Continue,
    /// Closed without a choice.
    Cancel,
    /// Closed on this (group, item).
    Picked(usize, usize),
}

/// A key in the pick dialog: Esc cancels; Enter takes the choice under the cursor; Tab /
/// Shift-Tab move the cursor (wrapping); `1`–`9` take that choice.
pub open spec fn pick_step_spec(key_map: Seq<(usize, usize)>, c0: usize, c1: usize, code: KeyInput, kind: KeyKind, r: PickStep) -> bool {
    let n = key_map.len() as int;
    if code == KeyInput::Esc {
        r == PickStep::Cancel && c1 == c0
    } else if kind != KeyKind::Press {
        r == PickStep::Continue && c1 == c0
    } else {
        match code {
            KeyInput::Enter => c1 == c0 && if c0 < n {
                r == PickStep::Picked(key_map[c0 as int].0, key_map[c0 as int].1)
            } else {
                r == PickStep::Continue
            },
            KeyInput::Tab => r == PickStep::Continue && c1 == (if n > 0 && c0 < n {
                cycle(c0 as int, n, true) as usize
            } else {
                c0
            }),
            KeyInput::BackTab => r == PickStep::Continue && c1 == (if n > 0 && c0 < n {
                cycle(c0 as int, n, false) as usize
            } else {
                c0
            }),
            KeyInput::Char(ch) => c1 == c0 && if '1' <= ch && ch <= '9' && (ch as int - '1' as int) < n {
                let k = ch as int - '1' as int;
                r == PickStep::Picked(key_map[k].0, key_map[k].1)
            } else {
                r == PickStep::Continue
            },
            _ => r == PickStep::Continue && c1 == c0,
        }
    }
}

/// Handle a key in the pick dialog.
pub fn pick_step(key_map: &Vec<(usize, usize)>, cursor: &mut usize, code: KeyInput, kind: KeyKind) -> (r: PickStep)
    ensures
        pick_step_spec(key_map@, *old(cursor), *final(cursor), code, kind, r),
{
    if code == KeyInput::Esc {
        return PickStep::Cancel;
    }
    if kind != KeyKind::Press {
        return PickStep::Continue;
    }
    let n = key_map.len();
    match code {
        KeyInput::Enter => {
            if *cursor < n {
                let (g, i) = key_map[*cursor];
                PickStep::Picked(g, i)
            } else {
                PickStep::Continue
            }
        },
        KeyInput::Tab => {
            if n > 0 && *cursor < n {
                *cursor = if *cursor + 1 >= n {
                    0
                } else {
                    *cursor + 1
                };
            }
            PickStep::Continue
        },
        KeyInput::BackTab => {
            if n > 0 && *cursor < n {
                *cursor = if *cursor == 0 {
                    n - 1
                } else {
                    *cursor - 1
                };
            }
            PickStep::Continue
        },
        KeyInput::Char(ch) => {
            if '1' <= ch && ch <= '9' {
                let k = (ch as u32 - '1' as u32) as usize;
                if k < n {
                    let (g, i) = key_map[k];
                    return PickStep::Picked(g, i);
                }
            }
            PickStep::Continue
        },
        _ => PickStep::Continue,
    }
}

/// Tab then Shift-Tab in a pick dialog puts the cursor back where it was.
pub proof fn lemma_pick_tab_backtab(key_map: Seq<(usize, usize)>, c0: usize, c1: usize, c2: usize, r1: PickStep, r2: PickStep)
    requires
        c0 < key_map.len(),
        key_map.len() <= usize::MAX,
        pick_step_spec(key_map, c0, c1, KeyInput::Tab, KeyKind::Press, r1),
        pick_step_spec(key_map, c1, c2, KeyInput::BackTab, KeyKind::Press, r2),
    ensures
        c2 == c0,
        r1 == PickStep::Continue,
        r2 == PickStep::Continue,
{
    crate::tmux_leader::events::lemma_cycle_inverse(c0 as int, key_map.len() as int);
}

} // verus!
