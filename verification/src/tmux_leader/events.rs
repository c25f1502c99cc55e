//! One step of the leader's event loop: what a terminal event does to the UI state, and
//! whether the leader goes on, quits, or hands something to the caller to run.
use vstd::prelude::*;
use crate::picker::{min_nat, PILL_STRIP_CAP};
use crate::text::{chars_of, string_of};
use super::dispatch::{KeyPress, first_key, press_effect, press_key};
use super::input::{EditRequest, input_after};
use super::keymap::spec_nodes;
use super::keynode::{ConfirmAction, Layer};
use super::state::{LeaderState, LeaderView, opt_view};

verus! {

/// Press, auto-repeat or release of a key.
#[derive(Debug, Clone, Copy, PartialEq, Eq, Structural)]
pub enum KeyKind {
    Press,
    Repeat,
    Release,
}

/// The keys the leader tells apart.
#[derive(Debug, Clone, Copy, PartialEq, Eq, Structural)]
pub enum KeyInput {
    Esc,
    Enter,
    Tab,
    BackTab,
    Backspace,
    Char(char),
    Other,
}

/// A terminal event: a key (with the prompt edit it stands for, if any), or anything else.
#[derive(Debug, Clone, Copy, PartialEq, Eq)]
pub enum LeaderEvent {
    Key { code: KeyInput, kind: KeyKind, edit: Option<EditRequest> },
    Other,
}

/// What the loop does after an event.
#[derive(Debug)]
pub enum Step {
    /// Redraw and wait for the next event.
    Continue,
    /// Close the leader, running nothing.
    Quit,
    /// Close the leader and run the prompt's action with the typed value.
    Confirm { confirm: ConfirmAction, value: String },
    /// Close the leader and switch the client to this session.
    FocusSession(String),
    /// Close the leader and select this pane.
    FocusPane(String),
    /// Close the leader and select this window.
    FocusWindow(u64),
    /// Close the leader and run the launcher entry with this index.
    Launch(usize),
    /// A key press the caller completes (run, prompt, close-window check, refresh).
    Press(KeyPress),
}

/// `char::is_control`: the C0 and C1 control characters.
pub open spec fn spec_is_control(c: char) -> bool {
    c <= '\u{1f}' || ('\u{7f}' <= c && c <= '\u{9f}')
}

/// `char::is_control`.
pub fn is_control(c: char) -> (b: bool)
    ensures
        b == spec_is_control(c),
{
    c <= '\u{1f}' || ('\u{7f}' <= c && c <= '\u{9f}')
}

/// Pill number of a digit key: `1`–`9` select pills 0–8.
pub open spec fn digit_pill(c: char) -> Option<int> {
    if '1' <= c && c <= '9' {
        Some(c as int - '1' as int)
    } else {
        None
    }
}

fn digit_pill_of(c: char) -> (r: Option<usize>)
    ensures
        match r {
            Some(i) => digit_pill(c) == Some(i as int),
            None => digit_pill(c) is None,
        },
{
    if '1' <= c && c <= '9' {
        Some((c as u32 - '1' as u32) as usize)
    } else {
        None
    }
}

/// The label of the selected session, if the cursor is on a listed one.
pub open spec fn selected_session(s: LeaderState) -> Option<Seq<char>> {
    if s.session_cursor < s.session_filtered_indices@.len() {
        Some(s.session_rows@[s.session_filtered_indices@[s.session_cursor as int] as int].label@)
    } else {
        None
    }
}

/// The label of the selected launcher row, if the cursor is on a listed one.
pub open spec fn selected_launch(s: LeaderState) -> Option<Seq<char>> {
    if s.launch_cursor < s.launch_filtered_indices@.len() {
        Some(s.launch_rows@[s.launch_filtered_indices@[s.launch_cursor as int] as int].label@)
    } else {
        None
    }
}

/// How a key press outcome is finished: a notice is shown, a redraw goes on, anything else
/// goes to the caller.
pub open spec fn press_outcome(kp: KeyPress, s_mid: LeaderState, s1: LeaderState, r: Step) -> bool {
    match kp {
        KeyPress::Notice(m) => s1 == (LeaderState { notice: Some(m), ..s_mid }) && r == Step::Continue,
        KeyPress::Redraw => s1 == s_mid && r == Step::Continue,
        KeyPress::Unrecognised => s1 == s_mid && r == Step::Continue,
        _ => s1 == s_mid && r == Step::Press(kp),
    }
}

/// [`press_key`] took `s0` to `s_mid` with outcome `kp`.
pub open spec fn pressed(s0: LeaderState, s_mid: LeaderState, key: char, kp: KeyPress) -> bool {
    &&& s_mid.wf()
    &&& match first_key(spec_nodes(s0.layer), key) {
        None => kp == KeyPress::Unrecognised && s_mid == s0,
        Some(i) => press_effect(spec_nodes(s0.layer)[i], s0, s_mid, kp),
    }
}

/// A key handed to the key tree, then finished.
pub open spec fn key_pressed(s0: LeaderState, s1: LeaderState, key: char, r: Step) -> bool {
    exists|m: LeaderState, kp: KeyPress| pressed(s0, m, key, kp) && press_outcome(kp, m, s1, r)
}

/// A key while the prompt is open: Esc cancels it, Enter confirms it (an empty value only
/// where the prompt allows it, else it just closes), Tab does nothing, and any other press
/// or repeat edits the line.
pub open spec fn input_key_spec(
    s0: LeaderState,
    s1: LeaderState,
    code: KeyInput,
    kind: KeyKind,
    edit: Option<EditRequest>,
    r: Step,
) -> bool {
    let p0 = s0.pending_input->Some_0;
    if code == KeyInput::Esc && kind == KeyKind::Press {
        s1 == (LeaderState { pending_input: None, view: LeaderView::Normal, ..s0 }) && r == Step::Continue
    } else if code == KeyInput::Enter && kind == KeyKind::Press {
        if p0.input.value@.len() > 0 || p0.allow_empty_confirm {
            &&& s1 == (LeaderState { pending_input: None, ..s0 })
            &&& r matches Step::Confirm { confirm, value } && confirm == p0.confirm && value@
                == p0.input.value@
        } else {
            s1 == (LeaderState { pending_input: None, view: LeaderView::Normal, ..s0 }) && r
                == Step::Continue
        }
    } else if code == KeyInput::Tab && kind == KeyKind::Press {
        s1 == s0 && r == Step::Continue
    } else if kind != KeyKind::Release && edit is Some {
        &&& r == Step::Continue
        &&& s1 == (LeaderState { pending_input: s1.pending_input, ..s0 })
        &&& s1.pending_input matches Some(p1) && p1.prompt == p0.prompt && p1.confirm == p0.confirm
            && p1.allow_empty_confirm == p0.allow_empty_confirm && (p1.input.value@, p1.input.cursor)
            == input_after(p0.input.value@, p0.input.cursor, edit->Some_0)
    } else {
        s1 == s0 && r == Step::Continue
    }
}

fn input_key(state: &mut LeaderState, code: KeyInput, kind: KeyKind, edit: Option<EditRequest>) -> (r: Step)
    requires
        old(state).wf(),
        old(state).pending_input is Some,
    ensures
        final(state).wf(),
        input_key_spec(*old(state), *final(state), code, kind, edit, r),
{
    if code == KeyInput::Esc && kind == KeyKind::Press {
        state.pending_input = None;
        state.view = LeaderView::Normal;
        return Step::Continue;
    }
    if code == KeyInput::Enter && kind == KeyKind::Press {
        let pending = state.pending_input.take();
        match pending {
            Some(p) => {
                let empty = p.input.value.as_str().unicode_len() == 0;
                if !empty || p.allow_empty_confirm {
                    return Step::Confirm { confirm: p.confirm, value: p.input.value };
                }
                state.view = LeaderView::Normal;
                return Step::Continue;
            },
            None => {
                return Step::Continue;
            },
        }
    }
    if code == KeyInput::Tab && kind == KeyKind::Press {
        return Step::Continue;
    }
    if kind != KeyKind::Release {
        match edit {
            Some(req) => {
                match &mut state.pending_input {
                    Some(p) => {
                        p.input.apply(req);
                    },
                    None => {},
                }
            },
            None => {},
        }
    }
    Step::Continue
}

/// Esc outside the prompt: clear a non-empty filter first, else leave the picker or group
/// for the root grid; on the root grid, quit.
pub open spec fn esc_spec(s0: LeaderState, s1: LeaderState, here: Option<Seq<char>>, r: Step) -> bool {
    if s0.layer == Layer::SessionList && s0.session_filter@.len() > 0 {
        LeaderState::session_refiltered(s0, s1, Seq::empty(), None) && r == Step::Continue
    } else if s0.layer == Layer::Launcher && s0.launch_filter@.len() > 0 {
        LeaderState::launch_refiltered(s0, s1, Seq::empty(), None) && r == Step::Continue
    } else if s0.layer != Layer::Root {
        LeaderState::returned_to_root(s0, s1, here) && r == Step::Continue
    } else {
        s1 == s0 && r == Step::Quit
    }
}

fn esc_pressed(state: &mut LeaderState, here: &Option<String>) -> (r: Step)
    requires
        old(state).wf(),
    ensures
        final(state).wf(),
        esc_spec(*old(state), *final(state), opt_view(*here), r),
{
    if state.layer == Layer::SessionList && state.session_filter.as_str().unicode_len() > 0 {
        state.session_filter = String::new();
        state.recompute_session_filter_keep(None);
        return Step::Continue;
    }
    if state.layer == Layer::Launcher && state.launch_filter.as_str().unicode_len() > 0 {
        state.launch_filter = String::new();
        state.recompute_launch_filter_keep(None);
        return Step::Continue;
    }
    if state.layer != Layer::Root {
        let h = match here {
            Some(h) => Some(h.clone()),
            None => None,
        };
        state.return_to_root(h);
        return Step::Continue;
    }
    Step::Quit
}

/// Enter outside the prompt: the selected session (session list), pane (panes group),
/// window (root) or launcher entry (launcher); otherwise nothing.
pub open spec fn enter_spec(s0: LeaderState, s1: LeaderState, r: Step) -> bool {
    &&& s1 == s0
    &&& if s0.layer == Layer::SessionList && s0.session_filtered_indices@.len() > 0 {
        r matches Step::FocusSession(n) && n@ == selected_session(s0)->Some_0
    } else if s0.layer == Layer::Panes && s0.pane_rows@.len() > 0 {
        let n = min_nat(s0.pane_rows@.len() as int, PILL_STRIP_CAP as int);
        r matches Step::FocusPane(p) && p@ == s0.pane_rows@[min_nat(
            s0.root_pane_cursor as int,
            n - 1,
        )].pane_id@
    } else if s0.layer == Layer::Root && s0.tab_rows@.len() > 0 {
        r == Step::FocusWindow(s0.tab_rows@[s0.root_window_cursor as int].id)
    } else if s0.layer == Layer::Launcher && s0.launch_filtered_indices@.len() > 0 {
        r == Step::Launch(
            s0.launch_rows@[s0.launch_filtered_indices@[s0.launch_cursor as int] as int].id as usize,
        )
    } else {
        r == Step::Continue
    }
}

fn enter_pressed(state: &LeaderState) -> (r: Step)
    requires
        state.wf(),
    ensures
        enter_spec(*state, *state, r),
{
    if state.layer == Layer::SessionList && state.session_filtered_indices.len() > 0 {
        match state.selected_session_name() {
            Some(name) => {
                return Step::FocusSession(name);
            },
            None => {},
        }
    }
    if state.layer == Layer::Panes && state.pane_rows.len() > 0 {
        let len = state.pane_rows.len();
        let n = if len < PILL_STRIP_CAP {
            len
        } else {
            PILL_STRIP_CAP
        };
        let i = if state.root_pane_cursor < n - 1 {
            state.root_pane_cursor
        } else {
            n - 1
        };
        let p = string_of(chars_of(state.pane_rows[i].pane_id.as_str()).as_slice());
        return Step::FocusPane(p);
    }
    if state.layer == Layer::Root && state.tab_rows.len() > 0 {
        return Step::FocusWindow(state.tab_rows[state.root_window_cursor].id);
    }
    if state.layer == Layer::Launcher && state.launch_filtered_indices.len() > 0 {
        match state.selected_launch_index() {
            Some(idx) => {
                return Step::Launch(idx);
            },
            None => {},
        }
    }
    Step::Continue
}

/// Next (`forward`) or previous position in a list of `n` entries, wrapping around.
pub open spec fn cycle(c: int, n: int, forward: bool) -> int {
    if forward {
        if c + 1 >= n {
            0
        } else {
            c + 1
        }
    } else {
        if c == 0 {
            n - 1
        } else {
            c - 1
        }
    }
}

fn cycle_exec(c: usize, n: usize, forward: bool) -> (r: usize)
    requires
        c < n,
    ensures
        r == cycle(c as int, n as int, forward),
        r < n,
{
    if forward {
        if c + 1 >= n {
            0
        } else {
            c + 1
        }
    } else {
        if c == 0 {
            n - 1
        } else {
            c - 1
        }
    }
}

/// Tab / Shift-Tab outside the prompt: move through the session list, the launcher list,
/// the pane pills or the window pills; otherwise Tab goes to the key tree.
pub open spec fn cycle_spec(s0: LeaderState, s1: LeaderState, forward: bool, r: Step) -> bool {
    let np = min_nat(s0.pane_rows@.len() as int, PILL_STRIP_CAP as int);
    let nw = min_nat(s0.tab_rows@.len() as int, PILL_STRIP_CAP as int);
    if s0.layer == Layer::SessionList && s0.session_filtered_indices@.len() > 0 {
        s1 == (LeaderState {
            session_cursor: cycle(
                s0.session_cursor as int,
                s0.session_filtered_indices@.len() as int,
                forward,
            ) as usize,
            ..s0
        }) && r == Step::Continue
    } else if s0.layer == Layer::Launcher {
        r == Step::Continue && if s0.launch_filtered_indices@.len() > 0 {
            s1 == (LeaderState {
                launch_cursor: cycle(
                    s0.launch_cursor as int,
                    s0.launch_filtered_indices@.len() as int,
                    forward,
                ) as usize,
                ..s0
            })
        } else {
            s1 == s0
        }
    } else if s0.layer == Layer::Panes && np > 0 {
        s1 == (LeaderState {
            root_pane_cursor: cycle(s0.root_pane_cursor as int, np, forward) as usize,
            ..s0
        }) && r == Step::Continue
    } else if s0.layer == Layer::Root && nw > 0 {
        s1 == (LeaderState {
            root_window_cursor: cycle(s0.root_window_cursor as int, nw, forward) as usize,
            ..s0
        }) && r == Step::Continue
    } else if forward {
        key_pressed(s0, s1, '\t', r)
    } else {
        s1 == s0 && r == Step::Continue
    }
}

/// Finish a key press outcome.
fn finish_press(state: &mut LeaderState, kp: KeyPress) -> (r: Step)
    requires
        old(state).wf(),
    ensures
        final(state).wf(),
        press_outcome(kp, *old(state), *final(state), r),
{
    match kp {
        KeyPress::Notice(m) => {
            state.notice = Some(m);
            Step::Continue
        },
        KeyPress::Redraw => Step::Continue,
        KeyPress::Unrecognised => Step::Continue,
        other => Step::Press(other),
    }
}

/// Hand `key` to the key tree and finish the outcome.
fn press_and_finish(state: &mut LeaderState, key: char) -> (r: Step)
    requires
        old(state).wf(),
    ensures
        final(state).wf(),
        key_pressed(*old(state), *final(state), key, r),
{
    let ghost s0 = *state;
    let kp = press_key(state, key);
    let ghost mid = *state;
    let ghost kpv = kp;
    let r = finish_press(state, kp);
    assert(pressed(s0, mid, key, kpv));
    assert(press_outcome(kpv, mid, *state, r));
    r
}

fn cycle_pressed(state: &mut LeaderState, forward: bool) -> (r: Step)
    requires
        old(state).wf(),
    ensures
        final(state).wf(),
        cycle_spec(*old(state), *final(state), forward, r),
{
    if state.layer == Layer::SessionList && state.session_filtered_indices.len() > 0 {
        let len = state.session_filtered_indices.len();
        state.session_cursor = cycle_exec(state.session_cursor, len, forward);
        return Step::Continue;
    }
    if state.layer == Layer::Launcher {
        if state.launch_filtered_indices.len() > 0 {
            let len = state.launch_filtered_indices.len();
            state.launch_cursor = cycle_exec(state.launch_cursor, len, forward);
        }
        return Step::Continue;
    }
    let lp = state.pane_rows.len();
    let np = if lp < PILL_STRIP_CAP {
        lp
    } else {
        PILL_STRIP_CAP
    };
    if state.layer == Layer::Panes && np > 0 {
        state.root_pane_cursor = cycle_exec(state.root_pane_cursor, np, forward);
        return Step::Continue;
    }
    let lw = state.tab_rows.len();
    let nw = if lw < PILL_STRIP_CAP {
        lw
    } else {
        PILL_STRIP_CAP
    };
    if state.layer == Layer::Root && nw > 0 {
        state.root_window_cursor = cycle_exec(state.root_window_cursor, nw, forward);
        return Step::Continue;
    }
    if forward {
        press_and_finish(state, '\t')
    } else {
        Step::Continue
    }
}

/// Backspace outside the prompt: drop the last character of a non-empty session or
/// launcher filter, keeping the selected entry selected when it is still listed.
pub open spec fn backspace_spec(s0: LeaderState, s1: LeaderState) -> bool {
    if s0.layer == Layer::SessionList && s0.session_rows@.len() > 0 && s0.session_filter@.len() > 0 {
        LeaderState::session_refiltered(
            s0,
            s1,
            s0.session_filter@.drop_last(),
            selected_session(s0),
        )
    } else if s0.layer == Layer::Launcher && s0.launch_rows@.len() > 0 && s0.launch_filter@.len()
        > 0 {
        LeaderState::launch_refiltered(s0, s1, s0.launch_filter@.drop_last(), selected_launch(s0))
    } else {
        s1 == s0
    }
}

/// Set the session filter to `f`, keeping the selected session selected when still listed.
fn set_session_filter(state: &mut LeaderState, f: String)
    requires
        old(state).wf(),
        old(state).layer == Layer::SessionList,
    ensures
        final(state).wf(),
        LeaderState::session_refiltered(*old(state), *final(state), f@, selected_session(*old(state))),
{
    let keep = state.selected_session_name();
    state.session_filter = f;
    match &keep {
        Some(k) => state.recompute_session_filter_keep(Some(k.as_str())),
        None => state.recompute_session_filter_keep(None),
    }
}

/// Set the launcher filter to `f`, keeping the selected entry selected when still listed.
fn set_launch_filter(state: &mut LeaderState, f: String)
    requires
        old(state).wf(),
    ensures
        final(state).wf(),
        LeaderState::launch_refiltered(*old(state), *final(state), f@, selected_launch(*old(state))),
{
    let keep = state.selected_launch_label();
    state.launch_filter = f;
    match &keep {
        Some(k) => state.recompute_launch_filter_keep(Some(k.as_str())),
        None => state.recompute_launch_filter_keep(None),
    }
}

fn backspace_pressed(state: &mut LeaderState)
    requires
        old(state).wf(),
    ensures
        final(state).wf(),
        backspace_spec(*old(state), *final(state)),
{
    if state.layer == Layer::SessionList && state.session_rows.len() > 0
        && state.session_filter.as_str().unicode_len() > 0 {
        let mut v = chars_of(state.session_filter.as_str());
        v.pop();
        set_session_filter(state, string_of(v.as_slice()));
        return ;
    }
    if state.layer == Layer::Launcher && state.launch_rows.len() > 0
        && state.launch_filter.as_str().unicode_len() > 0 {
        let mut v = chars_of(state.launch_filter.as_str());
        v.pop();
        set_launch_filter(state, string_of(v.as_slice()));
    }
}

/// A character key outside the prompt: typed into the session or launcher filter (control
/// characters ignored); a digit `1`–`9` selects that pane or window pill; anything else goes
/// to the key tree.
pub open spec fn char_spec(s0: LeaderState, s1: LeaderState, c: char, r: Step) -> bool {
    if s0.layer == Layer::SessionList && s0.session_rows@.len() > 0 {
        r == Step::Continue && if spec_is_control(c) {
            s1 == s0
        } else {
            LeaderState::session_refiltered(
                s0,
                s1,
                s0.session_filter@.push(c),
                selected_session(s0),
            )
        }
    } else if s0.layer == Layer::Launcher && s0.launch_rows@.len() > 0 {
        r == Step::Continue && if spec_is_control(c) {
            s1 == s0
        } else {
            LeaderState::launch_refiltered(s0, s1, s0.launch_filter@.push(c), selected_launch(s0))
        }
    } else if s0.layer == Layer::Panes && s0.pane_rows@.len() > 0 && digit_pill(c) is Some
        && digit_pill(c)->Some_0 < s0.pane_rows@.len() {
        s1 == s0 && (r matches Step::FocusPane(p) && p@ == s0.pane_rows@[digit_pill(
            c,
        )->Some_0].pane_id@)
    } else if s0.layer == Layer::Root && digit_pill(c) is Some && digit_pill(c)->Some_0
        < s0.tab_rows@.len() {
        s1 == s0 && r == Step::FocusWindow(s0.tab_rows@[digit_pill(c)->Some_0].id)
    } else {
        key_pressed(s0, s1, c, r)
    }
}

fn char_pressed(state: &mut LeaderState, c: char) -> (r: Step)
    requires
        old(state).wf(),
    ensures
        final(state).wf(),
        char_spec(*old(state), *final(state), c, r),
{
    if state.layer == Layer::SessionList && state.session_rows.len() > 0 {
        if !is_control(c) {
            let mut v = chars_of(state.session_filter.as_str());
            v.push(c);
            set_session_filter(state, string_of(v.as_slice()));
        }
        return Step::Continue;
    }
    if state.layer == Layer::Launcher && state.launch_rows.len() > 0 {
        if !is_control(c) {
            let mut v = chars_of(state.launch_filter.as_str());
            v.push(c);
            set_launch_filter(state, string_of(v.as_slice()));
        }
        return Step::Continue;
    }
    let d = digit_pill_of(c);
    if state.layer == Layer::Panes && state.pane_rows.len() > 0 {
        match d {
            Some(i) => {
                if i < state.pane_rows.len() {
                    let p = string_of(chars_of(state.pane_rows[i].pane_id.as_str()).as_slice());
                    return Step::FocusPane(p);
                }
            },
            None => {},
        }
    }
    if state.layer == Layer::Root {
        match d {
            Some(i) => {
                if i < state.tab_rows.len() {
                    return Step::FocusWindow(state.tab_rows[i].id);
                }
            },
            None => {},
        }
    }
    press_and_finish(state, c)
}

/// `s0` with the notice cleared, unless the prompt is open (a notice lasts until the next
/// event outside the prompt).
pub open spec fn notice_cleared(s0: LeaderState) -> LeaderState {
    if s0.pending_input is None {
        LeaderState { notice: None, ..s0 }
    } else {
        s0
    }
}

/// What an event does, given the state it arrives in.
pub open spec fn event_spec(s0: LeaderState, s1: LeaderState, ev: LeaderEvent, here: Option<Seq<char>>, r: Step) -> bool {
    let s = notice_cleared(s0);
    match ev {
        LeaderEvent::Other => s1 == s && r == Step::Continue,
        LeaderEvent::Key { code, kind, edit } => if s0.pending_input is Some {
            input_key_spec(s0, s1, code, kind, edit, r)
        } else if kind != KeyKind::Press {
            s1 == s && r == Step::Continue
        } else {
            match code {
                KeyInput::Esc => esc_spec(s, s1, here, r),
                KeyInput::Enter => enter_spec(s, s1, r),
                KeyInput::Tab => cycle_spec(s, s1, true, r),
                KeyInput::BackTab => cycle_spec(s, s1, false, r),
                KeyInput::Backspace => backspace_spec(s, s1) && r == Step::Continue,
                KeyInput::Char(c) => char_spec(s, s1, c, r),
                KeyInput::Other => s1 == s && r == Step::Continue,
            }
        },
    }
}

/// Handle one terminal event. `here` is the name of the session the leader's pane is in
/// (read once at startup), which the session pills follow when the leader returns to root.
pub fn handle_event(state: &mut LeaderState, ev: LeaderEvent, here: &Option<String>) -> (r: Step)
    requires
        old(state).wf(),
    ensures
        final(state).wf(),
        event_spec(*old(state), *final(state), ev, opt_view(*here), r),
{
    if state.pending_input.is_none() {
        state.notice = None;
    }
    match ev {
        LeaderEvent::Other => Step::Continue,
        LeaderEvent::Key { code, kind, edit } => {
            if state.pending_input.is_some() {
                return input_key(state, code, kind, edit);
            }
            if kind != KeyKind::Press {
                return Step::Continue;
            }
            match code {
                KeyInput::Esc => esc_pressed(state, here),
                KeyInput::Enter => enter_pressed(state),
                KeyInput::Tab => cycle_pressed(state, true),
                KeyInput::BackTab => cycle_pressed(state, false),
                KeyInput::Backspace => {
                    backspace_pressed(state);
                    Step::Continue
                },
                KeyInput::Char(c) => char_pressed(state, c),
                KeyInput::Other => Step::Continue,
            }
        },
    }
}

/// Moving forward then back (or back then forward) through a list of `n` entries returns
/// to where the cursor was.
pub proof fn lemma_cycle_inverse(c: int, n: int)
    requires
        0 <= c < n,
    ensures
        cycle(cycle(c, n, true), n, false) == c,
        cycle(cycle(c, n, false), n, true) == c,
        0 <= cycle(c, n, true) < n,
        0 <= cycle(c, n, false) < n,
{
}

/// Tab then Shift-Tab in the session list (with something listed, outside the prompt) leaves
/// the state as it was after the first event cleared the notice.
pub proof fn lemma_tab_then_backtab_session_list(
    s0: LeaderState,
    s1: LeaderState,
    s2: LeaderState,
    here: Option<Seq<char>>,
    r1: Step,
    r2: Step,
)
    requires
        s0.wf(),
        s0.pending_input is None,
        s0.layer == Layer::SessionList,
        s0.session_filtered_indices@.len() > 0,
        event_spec(s0, s1, LeaderEvent::Key { code: KeyInput::Tab, kind: KeyKind::Press, edit: None }, here, r1),
        event_spec(s1, s2, LeaderEvent::Key { code: KeyInput::BackTab, kind: KeyKind::Press, edit: None }, here, r2),
    ensures
        s2 == notice_cleared(s0),
        r1 == Step::Continue,
        r2 == Step::Continue,
{
    let n = s0.session_filtered_indices@.len() as int;
    let c = s0.session_cursor as int;
    assert(c < n);
    assert(n == s0.session_filtered_indices.len());
    lemma_cycle_inverse(c, n);
    let s = notice_cleared(s0);
    let c1 = cycle(c, n, true);
    assert(s1 == (LeaderState { session_cursor: c1 as usize, ..s }));
    assert(s1.notice is None && s1.pending_input is None);
    assert(notice_cleared(s1) == (LeaderState { notice: None, ..s1 }));
    assert((LeaderState { notice: None, ..s1 }) == s1);
    assert(s2 == (LeaderState { session_cursor: cycle(c1, n, false) as usize, ..s1 }));
    assert(s2.session_cursor == s0.session_cursor);
    assert(s2 =~= s);
}

/// Typing a character into the session list filter and then Backspace gives back the
/// filter, and the list of sessions shown, as they were.
pub proof fn lemma_type_then_backspace_session_filter(
    s0: LeaderState,
    s1: LeaderState,
    s2: LeaderState,
    c: char,
    here: Option<Seq<char>>,
    r1: Step,
    r2: Step,
)
    requires
        s0.wf(),
        s0.pending_input is None,
        s0.layer == Layer::SessionList,
        s0.session_rows@.len() > 0,
        !spec_is_control(c),
        event_spec(s0, s1, LeaderEvent::Key { code: KeyInput::Char(c), kind: KeyKind::Press, edit: None }, here, r1),
        event_spec(s1, s2, LeaderEvent::Key { code: KeyInput::Backspace, kind: KeyKind::Press, edit: None }, here, r2),
    ensures
        s2.session_filter@ == s0.session_filter@,
        s2.session_rows == s0.session_rows,
        s2.session_filtered_indices@ == s0.session_filtered_indices@,
        s2.layer == s0.layer,
{
    assert(s0.session_filter@.push(c).drop_last() =~= s0.session_filter@);
    crate::picker::lemma_filter_order_unique(
        s0.session_filter@,
        crate::picker::row_labels(s0.session_rows@),
        s2.session_filtered_indices@,
        s0.session_filtered_indices@,
    );
}

/// Typing a character into the launcher filter and then Backspace gives back the filter,
/// and the apps listed, as they were.
pub proof fn lemma_type_then_backspace_launch_filter(
    s0: LeaderState,
    s1: LeaderState,
    s2: LeaderState,
    c: char,
    here: Option<Seq<char>>,
    r1: Step,
    r2: Step,
)
    requires
        s0.wf(),
        s0.pending_input is None,
        s0.layer == Layer::Launcher,
        s0.launch_rows@.len() > 0,
        !spec_is_control(c),
        event_spec(s0, s1, LeaderEvent::Key { code: KeyInput::Char(c), kind: KeyKind::Press, edit: None }, here, r1),
        event_spec(s1, s2, LeaderEvent::Key { code: KeyInput::Backspace, kind: KeyKind::Press, edit: None }, here, r2),
    ensures
        s2.launch_filter@ == s0.launch_filter@,
        s2.launch_rows == s0.launch_rows,
        s2.launch_filtered_indices@ == s0.launch_filtered_indices@,
        s2.layer == s0.layer,
{
    assert(s0.launch_filter@.push(c).drop_last() =~= s0.launch_filter@);
    crate::picker::lemma_filter_order_unique(
        s0.launch_filter@,
        crate::picker::row_labels(s0.launch_rows@),
        s2.launch_filtered_indices@,
        s0.launch_filtered_indices@,
    );
}

/// One step forward or back through `n` entries wraps around: `(c + 1) % n` and
/// `(c + n - 1) % n`.
pub proof fn lemma_step_mod(c: int, n: int)
    requires
        0 <= c < n,
    ensures
        cycle(c, n, true) == (c + 1) % n,
        cycle(c, n, false) == (c + n - 1) % n,
{
    if c + 1 < n {
        vstd::arithmetic::div_mod::lemma_small_mod((c + 1) as nat, n as nat);
    } else {
        vstd::arithmetic::div_mod::lemma_mod_self_0(n);
    }
    if c == 0 {
        vstd::arithmetic::div_mod::lemma_small_mod((n - 1) as nat, n as nat);
    } else {
        vstd::arithmetic::div_mod::lemma_mod_add_multiples_vanish(c - 1, n);
        vstd::arithmetic::div_mod::lemma_small_mod((c - 1) as nat, n as nat);
    }
}

/// On the pane pills (panes group, at least one pane), Tab selects the next pill and
/// Shift-Tab the previous one, wrapping around the first `min(panes, 24)` pills; the panes
/// and the other cursors stay.
pub proof fn lemma_pane_pills_step(
    s0: LeaderState,
    s1: LeaderState,
    code: KeyInput,
    here: Option<Seq<char>>,
    r: Step,
)
    requires
        s0.wf(),
        s0.pending_input is None,
        s0.layer == Layer::Panes,
        s0.pane_rows@.len() > 0,
        code == KeyInput::Tab || code == KeyInput::BackTab,
        event_spec(s0, s1, LeaderEvent::Key { code, kind: KeyKind::Press, edit: None }, here, r),
    ensures
        r == Step::Continue,
        s1.root_pane_cursor as int == if code == KeyInput::Tab {
            (s0.root_pane_cursor + 1) % (min_nat(s0.pane_rows@.len() as int, PILL_STRIP_CAP as int))
        } else {
            (s0.root_pane_cursor + (min_nat(s0.pane_rows@.len() as int, PILL_STRIP_CAP as int)) - 1) % (min_nat(s0.pane_rows@.len() as int, PILL_STRIP_CAP as int))
        },
        s1.layer == s0.layer,
        s1.notice is None,
        s1.pane_rows == s0.pane_rows,
        s1.tab_rows == s0.tab_rows,
        s1.root_window_cursor == s0.root_window_cursor,
        s1.session_cursor == s0.session_cursor,
{
    lemma_step_mod(s0.root_pane_cursor as int, min_nat(s0.pane_rows@.len() as int, PILL_STRIP_CAP as int));
}

/// On the window pills (root, at least one window), Tab selects the next pill and
/// Shift-Tab the previous one, wrapping around the first `min(windows, 24)` pills; the
/// windows and the other cursors stay.
pub proof fn lemma_window_pills_step(
    s0: LeaderState,
    s1: LeaderState,
    code: KeyInput,
    here: Option<Seq<char>>,
    r: Step,
)
    requires
        s0.wf(),
        s0.pending_input is None,
        s0.layer == Layer::Root,
        s0.tab_rows@.len() > 0,
        code == KeyInput::Tab || code == KeyInput::BackTab,
        event_spec(s0, s1, LeaderEvent::Key { code, kind: KeyKind::Press, edit: None }, here, r),
    ensures
        r == Step::Continue,
        s1.root_window_cursor as int == if code == KeyInput::Tab {
            (s0.root_window_cursor + 1) % (min_nat(s0.tab_rows@.len() as int, PILL_STRIP_CAP as int))
        } else {
            (s0.root_window_cursor + (min_nat(s0.tab_rows@.len() as int, PILL_STRIP_CAP as int)) - 1) % (min_nat(s0.tab_rows@.len() as int, PILL_STRIP_CAP as int))
        },
        s1.layer == s0.layer,
        s1.notice is None,
        s1.tab_rows == s0.tab_rows,
        s1.pane_rows == s0.pane_rows,
        s1.root_pane_cursor == s0.root_pane_cursor,
        s1.session_cursor == s0.session_cursor,
{
    lemma_step_mod(s0.root_window_cursor as int, min_nat(s0.tab_rows@.len() as int, PILL_STRIP_CAP as int));
}

/// In the session list (something listed), Tab selects the next listed session and
/// Shift-Tab the previous one, wrapping around; the list itself stays.
pub proof fn lemma_session_list_step(
    s0: LeaderState,
    s1: LeaderState,
    code: KeyInput,
    here: Option<Seq<char>>,
    r: Step,
)
    requires
        s0.wf(),
        s0.pending_input is None,
        s0.layer == Layer::SessionList,
        s0.session_filtered_indices@.len() > 0,
        code == KeyInput::Tab || code == KeyInput::BackTab,
        event_spec(s0, s1, LeaderEvent::Key { code, kind: KeyKind::Press, edit: None }, here, r),
    ensures
        r == Step::Continue,
        s1.session_cursor as int == if code == KeyInput::Tab {
            (s0.session_cursor + 1) % (s0.session_filtered_indices@.len() as int)
        } else {
            (s0.session_cursor + (s0.session_filtered_indices@.len() as int) - 1) % (s0.session_filtered_indices@.len() as int)
        },
        s1.layer == s0.layer,
        s1.notice is None,
        s1.session_rows == s0.session_rows,
        s1.session_filtered_indices == s0.session_filtered_indices,
        s1.session_filter == s0.session_filter,
{
    assert(s0.session_filtered_indices@.len() == s0.session_filtered_indices.len());
    lemma_step_mod(s0.session_cursor as int, s0.session_filtered_indices@.len() as int);
}

/// In the launcher (something listed), Tab selects the next listed app and Shift-Tab
/// the previous one, wrapping around; the list itself stays.
pub proof fn lemma_launch_list_step(
    s0: LeaderState,
    s1: LeaderState,
    code: KeyInput,
    here: Option<Seq<char>>,
    r: Step,
)
    requires
        s0.wf(),
        s0.pending_input is None,
        s0.layer == Layer::Launcher,
        s0.launch_filtered_indices@.len() > 0,
        code == KeyInput::Tab || code == KeyInput::BackTab,
        event_spec(s0, s1, LeaderEvent::Key { code, kind: KeyKind::Press, edit: None }, here, r),
    ensures
        r == Step::Continue,
        s1.launch_cursor as int == if code == KeyInput::Tab {
            (s0.launch_cursor + 1) % (s0.launch_filtered_indices@.len() as int)
        } else {
            (s0.launch_cursor + (s0.launch_filtered_indices@.len() as int) - 1) % (s0.launch_filtered_indices@.len() as int)
        },
        s1.layer == s0.layer,
        s1.notice is None,
        s1.launch_rows == s0.launch_rows,
        s1.launch_filtered_indices == s0.launch_filtered_indices,
        s1.launch_filter == s0.launch_filter,
{
    assert(s0.launch_filtered_indices@.len() == s0.launch_filtered_indices.len());
    lemma_step_mod(s0.launch_cursor as int, s0.launch_filtered_indices@.len() as int);
}

/// Tab then Shift-Tab on the pane pills puts the pane cursor back where it was.
pub proof fn lemma_pane_pills_tab_then_backtab(
    s0: LeaderState,
    s1: LeaderState,
    s2: LeaderState,
    here: Option<Seq<char>>,
    r1: Step,
    r2: Step,
)
    requires
        s0.wf(),
        s0.pending_input is None,
        s0.layer == Layer::Panes,
        s0.pane_rows@.len() > 0,
        event_spec(s0, s1, LeaderEvent::Key { code: KeyInput::Tab, kind: KeyKind::Press, edit: None }, here, r1),
        s1.wf(),
        event_spec(s1, s2, LeaderEvent::Key { code: KeyInput::BackTab, kind: KeyKind::Press, edit: None }, here, r2),
    ensures
        s2.root_pane_cursor == s0.root_pane_cursor,
        s2.pane_rows == s0.pane_rows,
{
    lemma_pane_pills_step(s0, s1, KeyInput::Tab, here, r1);
    lemma_pane_pills_step(s1, s2, KeyInput::BackTab, here, r2);
    let n = min_nat(s0.pane_rows@.len() as int, PILL_STRIP_CAP as int);
    let c = s0.root_pane_cursor as int;
    assert(c < n);
    lemma_step_mod(c, n);
    lemma_step_mod(s1.root_pane_cursor as int, n);
}

/// On the root, Tab then Enter focuses the window after the selected one (wrapping
/// around the first `min(windows, 24)` pills).
pub proof fn lemma_root_tab_then_enter(
    s0: LeaderState,
    s1: LeaderState,
    s2: LeaderState,
    here: Option<Seq<char>>,
    r1: Step,
    r2: Step,
)
    requires
        s0.wf(),
        s0.pending_input is None,
        s0.layer == Layer::Root,
        s0.tab_rows@.len() > 0,
        event_spec(s0, s1, LeaderEvent::Key { code: KeyInput::Tab, kind: KeyKind::Press, edit: None }, here, r1),
        event_spec(s1, s2, LeaderEvent::Key { code: KeyInput::Enter, kind: KeyKind::Press, edit: None }, here, r2),
    ensures
        r2 == Step::FocusWindow(
            s0.tab_rows@[(s0.root_window_cursor + 1) % min_nat(s0.tab_rows@.len() as int, PILL_STRIP_CAP as int)].id,
        ),
        s2.tab_rows == s0.tab_rows,
{
    lemma_window_pills_step(s0, s1, KeyInput::Tab, here, r1);
}

/// On the root, a digit `1`–`9` focuses the window of that pill (the first window for
/// `1`), whatever pill is selected, when there are that many windows.
pub proof fn lemma_root_digit_focuses_window(
    s0: LeaderState,
    s1: LeaderState,
    d: char,
    here: Option<Seq<char>>,
    r: Step,
)
    requires
        s0.wf(),
        s0.pending_input is None,
        s0.layer == Layer::Root,
        '1' <= d <= '9',
        (d as int) - ('1' as int) < s0.tab_rows@.len(),
        event_spec(s0, s1, LeaderEvent::Key { code: KeyInput::Char(d), kind: KeyKind::Press, edit: None }, here, r),
    ensures
        r == Step::FocusWindow(s0.tab_rows@[(d as int) - ('1' as int)].id),
        s1.tab_rows == s0.tab_rows,
        s1.root_window_cursor == s0.root_window_cursor,
{
}

/// In the panes group, a digit `1`–`9` focuses the pane of that pill, when there are that
/// many panes.
pub proof fn lemma_panes_digit_focuses_pane(
    s0: LeaderState,
    s1: LeaderState,
    d: char,
    here: Option<Seq<char>>,
    r: Step,
)
    requires
        s0.wf(),
        s0.pending_input is None,
        s0.layer == Layer::Panes,
        '1' <= d <= '9',
        (d as int) - ('1' as int) < s0.pane_rows@.len(),
        event_spec(s0, s1, LeaderEvent::Key { code: KeyInput::Char(d), kind: KeyKind::Press, edit: None }, here, r),
    ensures
        r matches Step::FocusPane(p) && p@ == s0.pane_rows@[(d as int) - ('1' as int)].pane_id@,
        s1.pane_rows == s0.pane_rows,
{
}

} // verus!
