//! Leader keyboard layers. Root actions are ordered for the grid: non-letters first (space),
//! then a–z case-insensitively (for the same letter, lowercase before uppercase).
//!
//! Window actions and the window pill strip are on the root. Sessions live under **s**;
//! **S** opens scrollback. Session layer: pill strip plus **space** last session, **a** add,
//! **d** detach, **k** / **K** kill, **r** rename, **R** rename to cwd (basename).
//! Launcher apps (**l**) are chosen by index, typing filters them.
use vstd::prelude::*;
use super::keynode::{ActionId, ConfirmAction, InitialQuery, KeyNode, KeyNodeKind, Layer};

verus! {

pub open spec fn act(key: char, label: &'static str, a: ActionId) -> KeyNode {
    KeyNode { key, label, kind: KeyNodeKind::Action(a) }
}

pub open spec fn group(key: char, label: &'static str, icon: &'static str, layer: Layer) -> KeyNode {
    KeyNode { key, label, kind: KeyNodeKind::Group { icon, layer } }
}

pub open spec fn prompt(
    key: char,
    label: &'static str,
    p: &'static str,
    initial: InitialQuery,
    confirm: ConfirmAction,
) -> KeyNode {
    KeyNode {
        key,
        label,
        kind: KeyNodeKind::PromptAction { prompt: p, initial, confirm, allow_empty_confirm: false },
    }
}

/// The nodes of each layer, in grid order.
pub open spec fn spec_nodes(layer: Layer) -> Seq<KeyNode> {
    match layer {
        Layer::Root => seq![
            act(' ', "last window", ActionId::LastTab),
            act('a', "add window", ActionId::AddWindow),
            group('A', "attach to session", "\u{f233}", Layer::AttachSession),
            act('e', "edit command", ActionId::EditCommand),
            KeyNode { key: 'k', label: "close window", kind: KeyNodeKind::CloseWindow },
            act('K', "close other windows", ActionId::CloseOtherTabs),
            group('l', "launcher", "\u{f14de}", Layer::Launcher),
            group('p', "panes", "\u{f0db}", Layer::Panes),
            prompt('r', "rename window", "rename window:", InitialQuery::WindowName, ConfirmAction::RenameWindow),
            group('s', "sessions", "\u{f233}", Layer::Sessions),
            act('S', "scrollback", ActionId::OpenScrollback),
        ],
        Layer::Sessions => seq![
            act(' ', "last session", ActionId::LastSession),
            act('a', "add session", ActionId::AddSession),
            act('d', "detach session", ActionId::DetachSession),
            act('k', "kill session", ActionId::KillSession),
            act('K', "kill other sessions", ActionId::KillOtherSessions),
            prompt('r', "rename session", "rename session:", InitialQuery::SessionName, ConfirmAction::RenameSession),
            act('R', "rename to cwd", ActionId::RenameSessionToPaneFolder),
        ],
        Layer::Panes => seq![
            act('h', "split horizontal", ActionId::SplitPaneHorizontal),
            act('v', "split vertical", ActionId::SplitPaneVertical),
            prompt('r', "rename pane", "rename pane:", InitialQuery::PaneTitle, ConfirmAction::RenamePane),
        ],
        Layer::Launcher => seq![
            act('c', "caffeinate", ActionId::LaunchCaffeinate),
            act('g', "lazygit", ActionId::LaunchLazygit),
            act('k', "k9s", ActionId::LaunchK9s),
            act('n', "nvim", ActionId::LaunchNvim),
            act('s', "lazysql", ActionId::LaunchLazysql),
            act('w', "wiki", ActionId::LaunchWiki),
        ],
        Layer::AttachSession => Seq::<KeyNode>::empty(),
        Layer::SessionList => Seq::<KeyNode>::empty(),
    }
}

fn a(key: char, label: &'static str, id: ActionId) -> (n: KeyNode)
    ensures
        n == act(key, label, id),
{
    KeyNode { key, label, kind: KeyNodeKind::Action(id) }
}

fn g(key: char, label: &'static str, icon: &'static str, layer: Layer) -> (n: KeyNode)
    ensures
        n == group(key, label, icon, layer),
{
    KeyNode { key, label, kind: KeyNodeKind::Group { icon, layer } }
}

fn p(
    key: char,
    label: &'static str,
    pr: &'static str,
    initial: InitialQuery,
    confirm: ConfirmAction,
) -> (n: KeyNode)
    ensures
        n == prompt(key, label, pr, initial, confirm),
{
    KeyNode {
        key,
        label,
        kind: KeyNodeKind::PromptAction { prompt: pr, initial, confirm, allow_empty_confirm: false },
    }
}

/// The nodes of a layer, in grid order.
pub fn nodes(layer: Layer) -> (r: Vec<KeyNode>)
    ensures
        r@ == spec_nodes(layer),
{
    let r = match layer {
        Layer::Root => vec![
            a(' ', "last window", ActionId::LastTab),
            a('a', "add window", ActionId::AddWindow),
            g('A', "attach to session", "\u{f233}", Layer::AttachSession),
            a('e', "edit command", ActionId::EditCommand),
            KeyNode { key: 'k', label: "close window", kind: KeyNodeKind::CloseWindow },
            a('K', "close other windows", ActionId::CloseOtherTabs),
            g('l', "launcher", "\u{f14de}", Layer::Launcher),
            g('p', "panes", "\u{f0db}", Layer::Panes),
            p('r', "rename window", "rename window:", InitialQuery::WindowName, ConfirmAction::RenameWindow),
            g('s', "sessions", "\u{f233}", Layer::Sessions),
            a('S', "scrollback", ActionId::OpenScrollback),
        ],
        Layer::Sessions => vec![
            a(' ', "last session", ActionId::LastSession),
            a('a', "add session", ActionId::AddSession),
            a('d', "detach session", ActionId::DetachSession),
            a('k', "kill session", ActionId::KillSession),
            a('K', "kill other sessions", ActionId::KillOtherSessions),
            p('r', "rename session", "rename session:", InitialQuery::SessionName, ConfirmAction::RenameSession),
            a('R', "rename to cwd", ActionId::RenameSessionToPaneFolder),
        ],
        Layer::Panes => vec![
            a('h', "split horizontal", ActionId::SplitPaneHorizontal),
            a('v', "split vertical", ActionId::SplitPaneVertical),
            p('r', "rename pane", "rename pane:", InitialQuery::PaneTitle, ConfirmAction::RenamePane),
        ],
        Layer::Launcher => vec![
            a('c', "caffeinate", ActionId::LaunchCaffeinate),
            a('g', "lazygit", ActionId::LaunchLazygit),
            a('k', "k9s", ActionId::LaunchK9s),
            a('n', "nvim", ActionId::LaunchNvim),
            a('s', "lazysql", ActionId::LaunchLazysql),
            a('w', "wiki", ActionId::LaunchWiki),
        ],
        Layer::AttachSession => Vec::new(),
        Layer::SessionList => Vec::new(),
    };
    assert(r@ =~= spec_nodes(layer));
    r
}

/// Place of a key in the grid order: non-letters first, then a–z case-insensitively, the
/// lowercase letter before the uppercase one.
pub open spec fn grid_rank(c: char) -> int {
    if 'a' <= c && c <= 'z' {
        2 * (c as int - 'a' as int) + 1
    } else if 'A' <= c && c <= 'Z' {
        2 * (c as int - 'A' as int) + 2
    } else {
        0
    }
}

/// Keys in grid order: each letter after every key before it (non-letters may share the
/// front).
pub open spec fn in_grid_order(ks: Seq<char>) -> bool
    decreases ks.len(),
{
    if ks.len() < 2 {
        true
    } else {
        (grid_rank(ks[0]) < grid_rank(ks[1]) || grid_rank(ks[1]) == 0) && in_grid_order(ks.drop_first())
    }
}

pub open spec fn keys_of(ns: Seq<KeyNode>) -> Seq<char> {
    ns.map_values(|n: KeyNode| n.key)
}

/// The root and sessions layers list their keys in grid order.
pub proof fn lemma_layers_in_grid_order()
    ensures
        in_grid_order(keys_of(spec_nodes(Layer::Root))),
        in_grid_order(keys_of(spec_nodes(Layer::Sessions))),
{
    reveal_with_fuel(in_grid_order, 12);
    assert(keys_of(spec_nodes(Layer::Root)) =~= seq![' ', 'a', 'A', 'e', 'k', 'K', 'l', 'p', 'r', 's', 'S']);
    assert(keys_of(spec_nodes(Layer::Sessions)) =~= seq![' ', 'a', 'd', 'k', 'K', 'r', 'R']);
}

} // verus!
