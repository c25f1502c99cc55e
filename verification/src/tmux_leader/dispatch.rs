//! What a key press does in the current layer, and how the UI state changes with it.
use vstd::prelude::*;
use super::keymap::{nodes, spec_nodes};
use super::keynode::{ActionId, ConfirmAction, InitialQuery, KeyNode, KeyNodeKind, Layer};
use super::state::LeaderState;

verus! {

/// Result of handling a single character key in the leader grid.
#[derive(Debug)]
pub enum KeyPress {
    Redraw,
    /// Close the leader and run the action.
    Execute(ActionId),
    /// Show an in-popup notice; redraw without closing the leader.
    Notice(String),
    /// Open the prompt; its initial value is read with `initial` first.
    OpenInput {
        prompt: &'static str,
        initial: InitialQuery,
        confirm: ConfirmAction,
        allow_empty_confirm: bool,
    },
    /// Close the window: count the session's windows, then ask
    /// [`close_window_keypress`](super::commands::close_window_keypress).
    CloseWindow,
    /// A group was entered whose pills come from tmux: refresh the session rows (and follow
    /// the attached session) and / or the pane rows (and follow the active pane), then redraw.
    Refresh { sessions: bool, panes: bool },
    Unrecognised,
}

/// Index of the first node bound to `key`.
pub open spec fn first_key(ns: Seq<KeyNode>, key: char) -> Option<int> {
    if exists|i: int| 0 <= i < ns.len() && ns[i].key == key {
        Some(
            choose|i: int|
                0 <= i < ns.len() && ns[i].key == key && forall|k: int| 0 <= k < i ==> ns[k].key != key,
        )
    } else {
        None
    }
}

/// What entering the group `layer` asks the caller to refresh.
pub open spec fn group_press(layer: Layer) -> KeyPress {
    if layer == Layer::Sessions || layer == Layer::AttachSession {
        KeyPress::Refresh { sessions: true, panes: false }
    } else if layer == Layer::Panes {
        KeyPress::Refresh { sessions: false, panes: true }
    } else {
        KeyPress::Redraw
    }
}

/// The effect of pressing the key of node `n`: the result, and the state before and after.
pub open spec fn press_effect(n: KeyNode, s0: LeaderState, s1: LeaderState, r: KeyPress) -> bool {
    match n.kind {
        KeyNodeKind::Action(a) => r == KeyPress::Execute(a) && s1 == s0,
        KeyNodeKind::CloseWindow => r == KeyPress::CloseWindow && s1 == s0,
        KeyNodeKind::PromptAction { prompt, initial, confirm, allow_empty_confirm } => r
            == KeyPress::OpenInput { prompt, initial, confirm, allow_empty_confirm } && s1 == s0,
        KeyNodeKind::SessionList => r == KeyPress::Redraw && s1.layer == Layer::SessionList
            && s1.session_filter@.len() == 0 && s1.session_rows == s0.session_rows
            && s1.same_windows(&s0) && s1.same_panes(&s0) && s1.same_launch(&s0),
        KeyNodeKind::Group { icon, layer } => {
            &&& r == group_press(layer)
            &&& s1.layer == layer
            &&& s1.icon == icon
            &&& s1.label == n.label
            &&& s1.view == s0.view
            &&& s1.pending_input == s0.pending_input
            &&& s1.notice == s0.notice
            &&& s1.same_sessions(&s0)
            &&& s1.same_windows(&s0)
            &&& s1.same_panes(&s0)
            &&& if layer == Layer::Launcher {
                &&& s1.launch_filter@.len() == 0
                &&& s1.launch_rows == s0.launch_rows
                &&& s1.launch_cursor == (if s1.launch_filtered_indices@.len() == 0 {
                    0
                } else if s0.launch_cursor < s1.launch_filtered_indices@.len() {
                    s0.launch_cursor as int
                } else {
                    s1.launch_filtered_indices@.len() - 1
                })
            } else {
                s1.same_launch(&s0)
            }
        },
    }
}

/// First node of `ns` bound to `key`.
fn find_key(ns: &Vec<KeyNode>, key: char) -> (r: Option<usize>)
    ensures
        match r {
            Some(i) => i < ns@.len() && first_key(ns@, key) == Some(i as int),
            None => first_key(ns@, key) is None,
        },
{
    let mut i: usize = 0;
    while i < ns.len()
        invariant
            0 <= i <= ns@.len(),
            forall|k: int| 0 <= k < i ==> ns@[k].key != key,
        decreases ns.len() - i,
    {
        if ns[i].key == key {
            proof {
                let c = choose|c: int|
                    0 <= c < ns@.len() && ns@[c].key == key && forall|k: int|
                        0 <= k < c ==> ns@[k].key != key;
                if c < i {
                    assert(ns@[c].key != key);
                } else if c > i {
                    assert(ns@[i as int].key != key);
                }
            }
            return Some(i);
        }
        i = i + 1;
    }
    None
}

/// Handle a key in the current layer: run an action, open a prompt or a picker, or enter a
/// group (the session list and the launcher start with an empty filter).
pub fn press_key(state: &mut LeaderState, key: char) -> (r: KeyPress)
    requires
        old(state).wf(),
    ensures
        final(state).wf(),
        match first_key(spec_nodes(old(state).layer), key) {
            None => r == KeyPress::Unrecognised && *final(state) == *old(state),
            Some(i) => press_effect(spec_nodes(old(state).layer)[i], *old(state), *final(state), r),
        },
{
    let ns = nodes(state.layer);
    let i = match find_key(&ns, key) {
        Some(i) => i,
        None => {
            return KeyPress::Unrecognised;
        },
    };
    let node = ns[i];
    match node.kind {
        KeyNodeKind::Action(a) => KeyPress::Execute(a),
        KeyNodeKind::CloseWindow => KeyPress::CloseWindow,
        KeyNodeKind::PromptAction { prompt, initial, confirm, allow_empty_confirm } => {
            KeyPress::OpenInput { prompt, initial, confirm, allow_empty_confirm }
        },
        KeyNodeKind::SessionList => {
            state.enter_session_list_picker();
            KeyPress::Redraw
        },
        KeyNodeKind::Group { icon, layer } => {
            assert(layer != Layer::SessionList);
            state.layer = layer;
            state.icon = icon;
            state.label = node.label;
            if layer == Layer::Launcher {
                state.launch_filter = String::new();
                state.recompute_launch_filter_keep(None);
                KeyPress::Redraw
            } else if layer == Layer::Sessions || layer == Layer::AttachSession {
                KeyPress::Refresh { sessions: true, panes: false }
            } else if layer == Layer::Panes {
                KeyPress::Refresh { sessions: false, panes: true }
            } else {
                KeyPress::Redraw
            }
        },
    }
}

} // verus!
