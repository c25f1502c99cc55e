//! Key-tree types: what a key does in each layer of the tmux leader.
use vstd::prelude::*;

verus! {

/// A layer of the key tree (the set of nodes the leader currently shows).
#[derive(Debug, Clone, Copy, PartialEq, Eq, Structural)]
pub enum Layer {
    /// Root grid: window actions and the window pill strip.
    Root,
    /// **s**: session pills and session actions.
    Sessions,
    /// **p**: pane pills, splits, rename.
    Panes,
    /// **l**: launcher pills (filtered by typing).
    Launcher,
    /// **A**: session pills only.
    AttachSession,
    /// Full session list with a fuzzy filter.
    SessionList,
}

/// An action that runs tmux once the leader closes.
#[derive(Debug, Clone, Copy, PartialEq, Eq, Structural)]
pub enum ActionId {
    LastTab,
    /// Close the invoked window (after the only-window check).
    CloseWindow,
    AddWindow,
    EditCommand,
    CloseOtherTabs,
    OpenScrollback,
    LastSession,
    AddSession,
    DetachSession,
    KillSession,
    KillOtherSessions,
    RenameSessionToPaneFolder,
    SplitPaneHorizontal,
    SplitPaneVertical,
    LaunchCaffeinate,
    LaunchLazygit,
    LaunchK9s,
    LaunchNvim,
    LaunchLazysql,
    LaunchWiki,
}

/// Where a prompt's initial value comes from (read at key-press time).
#[derive(Debug, Clone, Copy, PartialEq, Eq, Structural)]
pub enum InitialQuery {
    WindowName,
    SessionName,
    PaneTitle,
}

/// What a confirmed prompt runs with the typed value.
#[derive(Debug, Clone, Copy, PartialEq, Eq, Structural)]
pub enum ConfirmAction {
    RenameWindow,
    RenameSession,
    RenamePane,
    NewSession,
}

/// What a key does.
#[derive(Debug, Clone, Copy, PartialEq, Eq)]
pub enum KeyNodeKind {
    Action(ActionId),
    /// Root **tab** — list sessions (replaces the action grid until Esc).
    SessionList,
    /// Close the current window; a notice instead if it is the only one.
    CloseWindow,
    /// Opens an inline text prompt before running the action.
    PromptAction {
        prompt: &'static str,
        /// Read at key-press time to fill the initial value.
        initial: InitialQuery,
        /// Run with the confirmed value.
        confirm: ConfirmAction,
        /// If false, Enter with an empty value cancels; if true, confirm still runs.
        allow_empty_confirm: bool,
    },
    /// Enter a sub-layer; `icon` is shown in the header while it is active.
    Group { icon: &'static str, layer: Layer },
}

/// One key in a layer.
#[derive(Debug, Clone, Copy, PartialEq, Eq)]
pub struct KeyNode {
    pub key: char,
    pub label: &'static str,
    pub kind: KeyNodeKind,
}

} // verus!
