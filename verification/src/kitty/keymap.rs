//! The kitty leader's key tree. Root actions are ordered for the grid: non-letters first
//! (space, tab), then a–z case-insensitively (lowercase before uppercase). Apps live in the
//! launcher layer, chosen by index.
use vstd::prelude::*;

verus! {

/// A layer of the key tree.
#[derive(Debug, Clone, Copy, PartialEq, Eq, Structural)]
pub enum KittyLayer {
    Root,
    /// The tab list picker (no keys; typing filters the tabs).
    TabList,
    /// Launcher apps (chosen by index).
    Launcher,
}

/// An action of the kitty leader.
#[derive(Debug, Clone, Copy, PartialEq, Eq, Structural)]
pub enum KittyAction {
    LastTab,
    AttachTab,
    CopyLink,
    DetachTab,
    EditCommand,
    NewTab,
    OpenBuffer,
    OpenLink,
    RenameTab,
    CloseTab,
    CloseOtherTabs,
    LaunchLazygit,
    LaunchK9s,
    LaunchNb,
    LaunchLazysql,
}

#[derive(Debug, Clone, Copy, PartialEq, Eq)]
pub enum KittyNodeKind {
    Action(KittyAction),
    /// Enter a layer; `icon` is shown in the header while it is active.
    Group { icon: &'static str, layer: KittyLayer },
}

/// One key of a layer.
#[derive(Debug, Clone, Copy, PartialEq, Eq)]
pub struct KittyNode {
    pub key: char,
    pub label: &'static str,
    pub kind: KittyNodeKind,
}

pub open spec fn kact(key: char, label: &'static str, a: KittyAction) -> KittyNode {
    KittyNode { key, label, kind: KittyNodeKind::Action(a) }
}

/// Header icon of the tab list.
pub const TAB_LIST_ICON: &'static str = "\u{f04e9}";

/// Header icon of the launcher.
pub const LAUNCHER_ICON: &'static str = "\u{f14de}";

/// The nodes of each layer, in grid order.
pub open spec fn spec_kitty_nodes(layer: KittyLayer) -> Seq<KittyNode> {
    match layer {
        KittyLayer::Root => seq![
            kact(' ', "last tab", KittyAction::LastTab),
            KittyNode {
                key: '\t',
                label: "tab list",
                kind: KittyNodeKind::Group { icon: TAB_LIST_ICON, layer: KittyLayer::TabList },
            },
            kact('a', "attach tab", KittyAction::AttachTab),
            kact('c', "copy link", KittyAction::CopyLink),
            kact('d', "detach tab", KittyAction::DetachTab),
            kact('e', "edit command", KittyAction::EditCommand),
            KittyNode {
                key: 'l',
                label: "launcher",
                kind: KittyNodeKind::Group { icon: LAUNCHER_ICON, layer: KittyLayer::Launcher },
            },
            kact('n', "new tab", KittyAction::NewTab),
            kact('o', "open buffer", KittyAction::OpenBuffer),
            kact('O', "open link", KittyAction::OpenLink),
            kact('r', "rename tab", KittyAction::RenameTab),
            kact('x', "close tab", KittyAction::CloseTab),
            kact('X', "close other tabs", KittyAction::CloseOtherTabs),
        ],
        KittyLayer::TabList => Seq::<KittyNode>::empty(),
        KittyLayer::Launcher => seq![
            kact('\0', "lazygit", KittyAction::LaunchLazygit),
            kact('\0', "k9s", KittyAction::LaunchK9s),
            kact('\0', "nb", KittyAction::LaunchNb),
            kact('\0', "lazysql", KittyAction::LaunchLazysql),
        ],
    }
}

fn ka(key: char, label: &'static str, a: KittyAction) -> (n: KittyNode)
    ensures
        n == kact(key, label, a),
{
    KittyNode { key, label, kind: KittyNodeKind::Action(a) }
}

/// The nodes of a layer, in grid order.
pub fn kitty_nodes(layer: KittyLayer) -> (r: Vec<KittyNode>)
    ensures
        r@ == spec_kitty_nodes(layer),
{
    let r = match layer {
        KittyLayer::Root => vec![
            ka(' ', "last tab", KittyAction::LastTab),
            KittyNode {
                key: '\t',
                label: "tab list",
                kind: KittyNodeKind::Group { icon: TAB_LIST_ICON, layer: KittyLayer::TabList },
            },
            ka('a', "attach tab", KittyAction::AttachTab),
            ka('c', "copy link", KittyAction::CopyLink),
            ka('d', "detach tab", KittyAction::DetachTab),
            ka('e', "edit command", KittyAction::EditCommand),
            KittyNode {
                key: 'l',
                label: "launcher",
                kind: KittyNodeKind::Group { icon: LAUNCHER_ICON, layer: KittyLayer::Launcher },
            },
            ka('n', "new tab", KittyAction::NewTab),
            ka('o', "open buffer", KittyAction::OpenBuffer),
            ka('O', "open link", KittyAction::OpenLink),
            ka('r', "rename tab", KittyAction::RenameTab),
            ka('x', "close tab", KittyAction::CloseTab),
            ka('X', "close other tabs", KittyAction::CloseOtherTabs),
        ],
        KittyLayer::TabList => Vec::new(),
        KittyLayer::Launcher => vec![
            ka('\0', "lazygit", KittyAction::LaunchLazygit),
            ka('\0', "k9s", KittyAction::LaunchK9s),
            ka('\0', "nb", KittyAction::LaunchNb),
            ka('\0', "lazysql", KittyAction::LaunchLazysql),
        ],
    };
    assert(r@ =~= spec_kitty_nodes(layer));
    r
}

/// The root layer lists its keys in grid order: non-letters first, then a–z
/// case-insensitively, the lowercase letter before the uppercase one.
pub proof fn lemma_root_in_grid_order()
    ensures
        crate::tmux_leader::keymap::in_grid_order(
            spec_kitty_nodes(KittyLayer::Root).map_values(|n: KittyNode| n.key),
        ),
{
    reveal_with_fuel(crate::tmux_leader::keymap::in_grid_order, 14);
    assert(spec_kitty_nodes(KittyLayer::Root).map_values(|n: KittyNode| n.key) =~= seq![
        ' ',
        '\t',
        'a',
        'c',
        'd',
        'e',
        'l',
        'n',
        'o',
        'O',
        'r',
        'x',
        'X',
    ]);
}

} // verus!
