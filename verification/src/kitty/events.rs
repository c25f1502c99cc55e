//! One step of the kitty leader's event loop.
use vstd::prelude::*;
use crate::text::{chars_of, string_of};
use crate::tmux_leader::events::{KeyInput, KeyKind, cycle, digit_pill, is_control, spec_is_control};
use super::keymap::{KittyAction, KittyLayer, spec_kitty_nodes};
use super::state::{
    KeyPress, LeaderState, first_kitty_key, kitty_press_effect, press_key, tab_cursor_after,
};

verus! {

/// What the loop does after an event.
#[derive(Debug, Clone, Copy, PartialEq, Eq)]
pub enum KittyStep {
    /// Redraw and wait for the next event.
    Continue,
    /// Close the leader, running nothing.
    Quit,
    /// Close the leader and focus this tab.
    FocusTab(u64),
    /// Close the leader and run the launcher entry with this index.
    Launch(usize),
    /// Close the leader and run the action.
    Execute(KittyAction),
}

/// The id of the selected tab, if the cursor is on a listed one.
pub open spec fn selected_tab(s: LeaderState) -> Option<u64> {
    if s.tab_cursor < s.tab_filtered_indices@.len() {
        Some(s.tab_rows@[s.tab_filtered_indices@[s.tab_cursor as int] as int].id)
    } else {
        None
    }
}

/// `s1` is `s0` with the tab filter set to `filter` and the list rebuilt, keeping `keep`.
pub open spec fn tabs_refiltered(s0: LeaderState, s1: LeaderState, filter: Seq<char>, keep: Option<u64>) -> bool {
    &&& s1.tab_filter@ == filter
    &&& crate::picker::is_filter_order(filter, crate::picker::row_labels(s1.tab_rows@), s1.tab_filtered_indices@)
    &&& s1.tab_cursor == tab_cursor_after(s1.tab_rows@, s1.tab_filtered_indices@, keep, s0.tab_cursor as int)
    &&& s1.layer == s0.layer
    &&& s1.icon == s0.icon
    &&& s1.label == s0.label
    &&& s1.same_except_tabs(&s0)
}

/// A key handed to the key tree: a run action closes the leader, anything else redraws.
pub open spec fn kitty_key_pressed(s0: LeaderState, s1: LeaderState, key: char, r: KittyStep) -> bool {
    exists|kp: KeyPress|
        #![trigger kitty_pressed(s0, s1, key, kp)]
        kitty_pressed(s0, s1, key, kp) && r == match kp {
            KeyPress::Execute(a) => KittyStep::Execute(a),
            _ => KittyStep::Continue,
        }
}

pub open spec fn kitty_pressed(s0: LeaderState, s1: LeaderState, key: char, kp: KeyPress) -> bool {
    &&& s1.wf()
    &&& match first_kitty_key(spec_kitty_nodes(s0.layer), key) {
        None => kp == KeyPress::Unrecognised && s1 == s0,
        Some(i) => kitty_press_effect(spec_kitty_nodes(s0.layer)[i], s0, s1, kp),
    }
}

/// What a key event does (only presses count).
pub open spec fn kitty_event_spec(s0: LeaderState, s1: LeaderState, code: KeyInput, kind: KeyKind, r: KittyStep) -> bool {
    let tl = s0.layer == KittyLayer::TabList;
    let la = s0.layer == KittyLayer::Launcher;
    let nf = s0.tab_filtered_indices@.len();
    let nl = s0.launch_rows@.len();
    if kind != KeyKind::Press {
        s1 == s0 && r == KittyStep::Continue
    } else {
        match code {
            KeyInput::Esc => if tl && s0.tab_filter@.len() > 0 {
                tabs_refiltered(s0, s1, Seq::empty(), None) && r == KittyStep::Continue
            } else if tl {
                &&& r == KittyStep::Continue
                &&& s1.layer == KittyLayer::Root
                &&& s1.tab_filter@.len() == 0
                &&& s1.tab_cursor == tab_cursor_after(
                    s1.tab_rows@,
                    s1.tab_filtered_indices@,
                    None,
                    s0.tab_cursor as int,
                )
                &&& s1.same_except_tabs(&s0)
            } else {
                s1 == s0 && r == KittyStep::Quit
            },
            KeyInput::Enter => s1 == s0 && if tl && nf > 0 {
                r == KittyStep::FocusTab(s0.tab_rows@[s0.tab_filtered_indices@[s0.tab_cursor as int] as int].id)
            } else if la && nl > 0 {
                r == KittyStep::Launch(s0.launch_rows@[s0.launch_cursor as int].id as usize)
            } else {
                r == KittyStep::Continue
            },
            KeyInput::Tab => if tl && nf > 0 {
                s1 == (LeaderState { tab_cursor: cycle(s0.tab_cursor as int, nf as int, true) as usize, ..s0 })
                    && r == KittyStep::Continue
            } else if la {
                r == KittyStep::Continue && if nl > 0 {
                    s1 == (LeaderState {
                        launch_cursor: cycle(s0.launch_cursor as int, nl as int, true) as usize,
                        ..s0
                    })
                } else {
                    s1 == s0
                }
            } else if s0.layer == KittyLayer::Root {
                kitty_key_pressed(s0, s1, '\t', r)
            } else {
                s1 == s0 && r == KittyStep::Continue
            },
            KeyInput::BackTab => r == KittyStep::Continue && if tl && nf > 0 {
                s1 == (LeaderState { tab_cursor: cycle(s0.tab_cursor as int, nf as int, false) as usize, ..s0 })
            } else if la && nl > 0 {
                s1 == (LeaderState {
                    launch_cursor: cycle(s0.launch_cursor as int, nl as int, false) as usize,
                    ..s0
                })
            } else {
                s1 == s0
            },
            KeyInput::Backspace => r == KittyStep::Continue && if tl && s0.tab_rows@.len() > 0
                && s0.tab_filter@.len() > 0 {
                tabs_refiltered(s0, s1, s0.tab_filter@.drop_last(), selected_tab(s0))
            } else {
                s1 == s0
            },
            KeyInput::Char(c) => if tl && s0.tab_rows@.len() > 0 {
                if digit_pill(c) is Some && digit_pill(c)->Some_0 < nf {
                    s1 == s0 && r == KittyStep::FocusTab(
                        s0.tab_rows@[s0.tab_filtered_indices@[digit_pill(c)->Some_0] as int].id,
                    )
                } else if spec_is_control(c) {
                    s1 == s0 && r == KittyStep::Continue
                } else {
                    tabs_refiltered(s0, s1, s0.tab_filter@.push(c), selected_tab(s0)) && r
                        == KittyStep::Continue
                }
            } else if la {
                s1 == s0 && if nl > 0 && digit_pill(c) is Some && digit_pill(c)->Some_0 < nl {
                    r == KittyStep::Launch(s0.launch_rows@[digit_pill(c)->Some_0].id as usize)
                } else {
                    r == KittyStep::Continue
                }
            } else {
                kitty_key_pressed(s0, s1, c, r)
            },
            KeyInput::Other => s1 == s0 && r == KittyStep::Continue,
        }
    }
}

fn kitty_cycle(c: usize, n: usize, forward: bool) -> (r: usize)
    requires
        c < n,
    ensures
        r == cycle(c as int, n as int, forward),
        r < n,
{
    if forward {
        if c + 1 >= n {
            0
        } else {
            c + 1
        }
    } else {
        if c == 0 {
            n - 1
        } else {
            c - 1
        }
    }
}

fn kitty_press(state: &mut LeaderState, key: char) -> (r: KittyStep)
    requires
        old(state).wf(),
    ensures
        final(state).wf(),
        kitty_key_pressed(*old(state), *final(state), key, r),
{
    let ghost s0 = *state;
    let kp = press_key(state, key);
    let r = match kp {
        KeyPress::Execute(a) => KittyStep::Execute(a),
        _ => KittyStep::Continue,
    };
    assert(kitty_pressed(s0, *state, key, kp));
    r
}

/// Set the tab filter to `f`, keeping the selected tab selected when still listed.
fn set_tab_filter(state: &mut LeaderState, f: String)
    requires
        old(state).wf(),
    ensures
        final(state).wf(),
        tabs_refiltered(*old(state), *final(state), f@, selected_tab(*old(state))),
{
    let keep = state.selected_tab_id();
    state.tab_filter = f;
    state.recompute_tab_filter_keep(keep);
}

/// Handle one key event of the kitty leader.
pub fn handle_key(state: &mut LeaderState, code: KeyInput, kind: KeyKind) -> (r: KittyStep)
    requires
        old(state).wf(),
    ensures
        final(state).wf(),
        kitty_event_spec(*old(state), *final(state), code, kind, r),
{
    if kind != KeyKind::Press {
        return KittyStep::Continue;
    }
    let tl = state.layer == KittyLayer::TabList;
    let la = state.layer == KittyLayer::Launcher;
    proof {
        crate::picker::lemma_filter_order_in_bounds(state.tab_filter@, state.tab_rows@, state.tab_filtered_indices@);
    }
    match code {
        KeyInput::Esc => {
            if tl && state.tab_filter.as_str().unicode_len() > 0 {
                state.tab_filter = String::new();
                state.recompute_tab_filter_keep(None);
                return KittyStep::Continue;
            }
            if tl {
                state.return_to_root();
                return KittyStep::Continue;
            }
            KittyStep::Quit
        },
        KeyInput::Enter => {
            if tl && state.tab_filtered_indices.len() > 0 {
                let row_i = state.tab_filtered_indices[state.tab_cursor];
                return KittyStep::FocusTab(state.tab_rows[row_i].id);
            }
            if la && state.launch_rows.len() > 0 {
                return KittyStep::Launch(state.launch_rows[state.launch_cursor].id as usize);
            }
            KittyStep::Continue
        },
        KeyInput::Tab => {
            if tl && state.tab_filtered_indices.len() > 0 {
                let n = state.tab_filtered_indices.len();
                state.tab_cursor = kitty_cycle(state.tab_cursor, n, true);
                return KittyStep::Continue;
            }
            if la {
                if state.launch_rows.len() > 0 {
                    let n = state.launch_rows.len();
                    state.launch_cursor = kitty_cycle(state.launch_cursor, n, true);
                }
                return KittyStep::Continue;
            }
            if state.layer == KittyLayer::Root {
                return kitty_press(state, '\t');
            }
            KittyStep::Continue
        },
        KeyInput::BackTab => {
            if tl && state.tab_filtered_indices.len() > 0 {
                let n = state.tab_filtered_indices.len();
                state.tab_cursor = kitty_cycle(state.tab_cursor, n, false);
            } else if la && state.launch_rows.len() > 0 {
                let n = state.launch_rows.len();
                state.launch_cursor = kitty_cycle(state.launch_cursor, n, false);
            }
            KittyStep::Continue
        },
        KeyInput::Backspace => {
            if tl && state.tab_rows.len() > 0 && state.tab_filter.as_str().unicode_len() > 0 {
                let mut v = chars_of(state.tab_filter.as_str());
                v.pop();
                set_tab_filter(state, string_of(v.as_slice()));
            }
            KittyStep::Continue
        },
        KeyInput::Char(c) => {
            let d: Option<usize> = if '1' <= c && c <= '9' {
                Some((c as u32 - '1' as u32) as usize)
            } else {
                None
            };
            assert(match d {
                Some(i) => digit_pill(c) == Some(i as int),
                None => digit_pill(c) is None,
            });
            if tl && state.tab_rows.len() > 0 {
                match d {
                    Some(j) => {
                        if j < state.tab_filtered_indices.len() {
                            let row_i = state.tab_filtered_indices[j];
                            return KittyStep::FocusTab(state.tab_rows[row_i].id);
                        }
                    },
                    None => {},
                }
                if !is_control(c) {
                    let mut v = chars_of(state.tab_filter.as_str());
                    v.push(c);
                    set_tab_filter(state, string_of(v.as_slice()));
                }
                return KittyStep::Continue;
            }
            if la {
                if state.launch_rows.len() > 0 {
                    match d {
                        Some(j) => {
                            if j < state.launch_rows.len() {
                                return KittyStep::Launch(state.launch_rows[j].id as usize);
                            }
                        },
                        None => {},
                    }
                }
                return KittyStep::Continue;
            }
            kitty_press(state, c)
        },
        KeyInput::Other => KittyStep::Continue,
    }
}

/// Tab then Shift-Tab in the tab list (with something listed) leaves the state as it was.
pub proof fn lemma_kitty_tab_then_backtab_tab_list(
    s0: LeaderState,
    s1: LeaderState,
    s2: LeaderState,
    r1: KittyStep,
    r2: KittyStep,
)
    requires
        s0.wf(),
        s0.layer == KittyLayer::TabList,
        s0.tab_filtered_indices@.len() > 0,
        kitty_event_spec(s0, s1, KeyInput::Tab, KeyKind::Press, r1),
        kitty_event_spec(s1, s2, KeyInput::BackTab, KeyKind::Press, r2),
    ensures
        s2 == s0,
        r1 == KittyStep::Continue,
        r2 == KittyStep::Continue,
{
    let n = s0.tab_filtered_indices@.len() as int;
    let c1 = cycle(s0.tab_cursor as int, n, true);
    crate::tmux_leader::events::lemma_cycle_inverse(s0.tab_cursor as int, n);
    assert(s1 == (LeaderState { tab_cursor: c1 as usize, ..s0 }));
    assert(n == s0.tab_filtered_indices.len());
    assert(s1.tab_filtered_indices@.len() == n);
    assert(s2 == (LeaderState { tab_cursor: cycle(c1, n, false) as usize, ..s1 }));
    assert(s2.tab_cursor == s0.tab_cursor);
}

/// Typing a character into the tab list filter and then Backspace gives back the filter,
/// and the tabs listed, as they were.
pub proof fn lemma_kitty_type_then_backspace_tab_filter(
    s0: LeaderState,
    s1: LeaderState,
    s2: LeaderState,
    c: char,
    r1: KittyStep,
    r2: KittyStep,
)
    requires
        s0.wf(),
        s0.layer == KittyLayer::TabList,
        s0.tab_rows@.len() > 0,
        !spec_is_control(c),
        !('1' <= c && c <= '9'),
        kitty_event_spec(s0, s1, KeyInput::Char(c), KeyKind::Press, r1),
        kitty_event_spec(s1, s2, KeyInput::Backspace, KeyKind::Press, r2),
    ensures
        s2.tab_filter@ == s0.tab_filter@,
        s2.tab_rows == s0.tab_rows,
        s2.tab_filtered_indices@ == s0.tab_filtered_indices@,
        s2.layer == s0.layer,
        r1 == KittyStep::Continue,
        r2 == KittyStep::Continue,
{
    assert(s0.tab_filter@.push(c).drop_last() =~= s0.tab_filter@);
    crate::picker::lemma_filter_order_unique(
        s0.tab_filter@,
        crate::picker::row_labels(s0.tab_rows@),
        s2.tab_filtered_indices@,
        s0.tab_filtered_indices@,
    );
}

/// In the tab list (something listed), Tab selects the next listed tab and Shift-Tab the
/// previous one, wrapping around; the list itself stays.
pub proof fn lemma_kitty_tab_list_step(s0: LeaderState, s1: LeaderState, code: KeyInput, r: KittyStep)
    requires
        s0.wf(),
        s0.layer == KittyLayer::TabList,
        s0.tab_filtered_indices@.len() > 0,
        code == KeyInput::Tab || code == KeyInput::BackTab,
        kitty_event_spec(s0, s1, code, KeyKind::Press, r),
    ensures
        r == KittyStep::Continue,
        s1.tab_cursor as int == if code == KeyInput::Tab {
            (s0.tab_cursor + 1) % (s0.tab_filtered_indices@.len() as int)
        } else {
            (s0.tab_cursor + (s0.tab_filtered_indices@.len() as int) - 1) % (s0.tab_filtered_indices@.len() as int)
        },
        s1.tab_rows == s0.tab_rows,
        s1.tab_filtered_indices == s0.tab_filtered_indices,
        s1.tab_filter == s0.tab_filter,
        s1.layer == s0.layer,
{
    assert(s0.tab_filtered_indices@.len() == s0.tab_filtered_indices.len());
    crate::tmux_leader::events::lemma_step_mod(s0.tab_cursor as int, s0.tab_filtered_indices@.len() as int);
}

/// In the launcher (at least one app), Tab selects the next app and Shift-Tab the previous
/// one, wrapping around.
pub proof fn lemma_kitty_launcher_step(s0: LeaderState, s1: LeaderState, code: KeyInput, r: KittyStep)
    requires
        s0.wf(),
        s0.layer == KittyLayer::Launcher,
        s0.launch_rows@.len() > 0,
        code == KeyInput::Tab || code == KeyInput::BackTab,
        kitty_event_spec(s0, s1, code, KeyKind::Press, r),
    ensures
        r == KittyStep::Continue,
        s1.launch_cursor as int == if code == KeyInput::Tab {
            (s0.launch_cursor + 1) % (s0.launch_rows@.len() as int)
        } else {
            (s0.launch_cursor + (s0.launch_rows@.len() as int) - 1) % (s0.launch_rows@.len() as int)
        },
        s1.launch_rows == s0.launch_rows,
        s1.layer == s0.layer,
{
    assert(s0.launch_rows@.len() == s0.launch_rows.len());
    crate::tmux_leader::events::lemma_step_mod(s0.launch_cursor as int, s0.launch_rows@.len() as int);
}

/// In the tab list, Tab then Enter focuses the listed tab after the selected one
/// (wrapping around).
pub proof fn lemma_kitty_tab_then_enter(s0: LeaderState, s1: LeaderState, s2: LeaderState, r1: KittyStep, r2: KittyStep)
    requires
        s0.wf(),
        s0.layer == KittyLayer::TabList,
        s0.tab_filtered_indices@.len() > 0,
        kitty_event_spec(s0, s1, KeyInput::Tab, KeyKind::Press, r1),
        kitty_event_spec(s1, s2, KeyInput::Enter, KeyKind::Press, r2),
    ensures
        r2 == KittyStep::FocusTab(
            s0.tab_rows@[s0.tab_filtered_indices@[(s0.tab_cursor + 1) % (s0.tab_filtered_indices@.len() as int)] as int].id,
        ),
{
    lemma_kitty_tab_list_step(s0, s1, KeyInput::Tab, r1);
}

/// In the tab list, a digit `1`–`9` focuses the listed tab of that position (the first
/// listed for `1`) when that many are listed.
pub proof fn lemma_kitty_digit_focuses_tab(s0: LeaderState, s1: LeaderState, d: char, r: KittyStep)
    requires
        s0.wf(),
        s0.layer == KittyLayer::TabList,
        s0.tab_rows@.len() > 0,
        '1' <= d <= '9',
        (d as int) - ('1' as int) < s0.tab_filtered_indices@.len(),
        kitty_event_spec(s0, s1, KeyInput::Char(d), KeyKind::Press, r),
    ensures
        r == KittyStep::FocusTab(s0.tab_rows@[s0.tab_filtered_indices@[(d as int) - ('1' as int)] as int].id),
        s1 == s0,
{
}

} // verus!
