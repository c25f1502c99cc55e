//! The kitty leader's UI state: tab rows with a fuzzy filter, launcher rows, header pills,
//! and what a key press does to them.
use vstd::prelude::*;
use crate::picker::{
    LeaderWindowRow, filter_order, first_current_in, is_filter_order, lemma_filter_order_in_bounds,
    position_current_in, row_labels,
};
use crate::text::{chars_of, string_of};
use super::keymap::{KittyAction, KittyLayer, KittyNode, KittyNodeKind, TAB_LIST_ICON, kitty_nodes, spec_kitty_nodes};
use super::model::{KittyOs, overlay_tab_rows_with_os, tab_rows_are};

verus! {

/// Header icon of the root layer (Font Awesome `bolt`).
pub const KITTY_HEADER_ICON: &'static str = "\u{f0e7}";

/// Header label of the root layer.
pub const KITTY_HEADER_LABEL: &'static str = "leader";

pub struct LeaderState {
    /// The key layer on screen.
    pub layer: KittyLayer,
    pub icon: &'static str,
    pub label: &'static str,
    /// Tabs of the OS window, snapshot when the leader opens.
    pub tab_rows: Vec<LeaderWindowRow>,
    /// Indices into `tab_rows` after the fuzzy filter (keyboard order).
    pub tab_filtered_indices: Vec<usize>,
    /// Selection in `tab_filtered_indices`.
    pub tab_cursor: usize,
    /// Fuzzy filter typed in the tab list.
    pub tab_filter: String,
    /// Launcher apps (`id` = index into the launcher layer).
    pub launch_rows: Vec<LeaderWindowRow>,
    pub launch_cursor: usize,
    /// Directory of the shell under the overlay (with `~`), snapshot at open.
    pub cwd_pill: Option<String>,
    /// Kubernetes context, snapshot at open.
    pub kube_pill: Option<String>,
    /// Git branch (or detached short commit), snapshot at open.
    pub git_pill: Option<String>,
}

/// The launcher rows: one per launcher entry, `id` its index, label its label.
pub open spec fn kitty_launch_rows_are(rows: Seq<LeaderWindowRow>) -> bool {
    &&& rows.len() == spec_kitty_nodes(KittyLayer::Launcher).len()
    &&& forall|k: int|
        #![trigger rows[k]]
        0 <= k < rows.len() ==> rows[k].id == k && rows[k].label@ == spec_kitty_nodes(
            KittyLayer::Launcher,
        )[k].label@ && !rows[k].focused && !rows[k].current
}

/// Position in `filtered` of the first listed row with id `id`.
pub open spec fn first_id_in(rows: Seq<LeaderWindowRow>, filtered: Seq<usize>, id: u64) -> Option<int> {
    if exists|p: int| 0 <= p < filtered.len() && rows[filtered[p] as int].id == id {
        Some(
            choose|p: int|
                0 <= p < filtered.len() && rows[filtered[p] as int].id == id && forall|k: int|
                    0 <= k < p ==> rows[filtered[k] as int].id != id,
        )
    } else {
        None
    }
}

/// The tab cursor after the filter changed: on the kept tab when still listed, else on the
/// first listed current tab, else clamped (0 when nothing is listed).
pub open spec fn tab_cursor_after(rows: Seq<LeaderWindowRow>, f: Seq<usize>, keep: Option<u64>, c_old: int) -> int {
    let c0 = if f.len() == 0 {
        0
    } else if c_old < f.len() {
        c_old
    } else {
        f.len() - 1
    };
    let kept = match keep {
        Some(id) => first_id_in(rows, f, id),
        None => None,
    };
    match kept {
        Some(p) => p,
        None => match first_current_in(rows, f) {
            Some(p) => p,
            None => c0,
        },
    }
}

impl LeaderState {
    pub open spec fn wf(&self) -> bool {
        &&& is_filter_order(self.tab_filter@, row_labels(self.tab_rows@), self.tab_filtered_indices@)
        &&& (self.tab_cursor == 0 || self.tab_cursor < self.tab_filtered_indices@.len())
        &&& (self.launch_cursor == 0 || self.launch_cursor < self.launch_rows@.len())
    }

    /// Everything but the tab list is as in `o`.
    pub open spec fn same_except_tabs(&self, o: &Self) -> bool {
        &&& self.tab_rows == o.tab_rows
        &&& self.launch_rows == o.launch_rows
        &&& self.launch_cursor == o.launch_cursor
        &&& self.cwd_pill == o.cwd_pill
        &&& self.kube_pill == o.kube_pill
        &&& self.git_pill == o.git_pill
    }

    /// A fresh state on the root layer from `kitten @ ls` and the header pills.
    pub fn from_kitty_ls(
        os: &Vec<KittyOs>,
        cwd_pill: Option<String>,
        kube_pill: Option<String>,
        git_pill: Option<String>,
    ) -> (s: LeaderState)
        ensures
            s.wf(),
            s.layer == KittyLayer::Root,
            s.icon == KITTY_HEADER_ICON,
            s.label == KITTY_HEADER_LABEL,
            tab_rows_are(s.tab_rows@, os@),
            s.tab_filter@.len() == 0,
            s.tab_cursor == tab_cursor_after(s.tab_rows@, s.tab_filtered_indices@, None, 0),
            kitty_launch_rows_are(s.launch_rows@),
            s.launch_cursor == 0,
            s.cwd_pill == cwd_pill,
            s.kube_pill == kube_pill,
            s.git_pill == git_pill,
    {
        let tab_rows = overlay_tab_rows_with_os(os);
        let launch_rows = leader_launch_rows();
        let mut s = LeaderState {
            layer: KittyLayer::Root,
            icon: KITTY_HEADER_ICON,
            label: KITTY_HEADER_LABEL,
            tab_rows,
            tab_filtered_indices: Vec::new(),
            tab_cursor: 0,
            tab_filter: String::new(),
            launch_rows,
            launch_cursor: 0,
            cwd_pill,
            kube_pill,
            git_pill,
        };
        s.recompute_tab_filter_keep(None);
        s
    }

    /// Rebuild `tab_filtered_indices` from the rows and the filter; clamp the cursor.
    pub fn recompute_tab_filter(&mut self)
        requires
            old(self).launch_cursor == 0 || old(self).launch_cursor < old(self).launch_rows@.len(),
        ensures
            final(self).wf(),
            final(self).tab_cursor == (if final(self).tab_filtered_indices@.len() == 0 {
                0
            } else if old(self).tab_cursor < final(self).tab_filtered_indices@.len() {
                old(self).tab_cursor as int
            } else {
                final(self).tab_filtered_indices@.len() - 1
            }),
            final(self).tab_filter == old(self).tab_filter,
            final(self).layer == old(self).layer,
            final(self).icon == old(self).icon,
            final(self).label == old(self).label,
            final(self).same_except_tabs(&*old(self)),
    {
        self.tab_filtered_indices = filter_order(self.tab_filter.as_str(), &self.tab_rows);
        let n = self.tab_filtered_indices.len();
        if n == 0 {
            self.tab_cursor = 0;
        } else if self.tab_cursor > n - 1 {
            self.tab_cursor = n - 1;
        }
    }

    /// Put the tab cursor on the first listed tab of the leader (the focused one).
    pub fn tab_cursor_follow_kitty_focus(&mut self)
        requires
            old(self).wf(),
        ensures
            final(self).wf(),
            match first_current_in(old(self).tab_rows@, old(self).tab_filtered_indices@) {
                Some(p) => final(self).tab_cursor == p,
                None => final(self).tab_cursor == old(self).tab_cursor,
            },
            final(self).tab_filtered_indices == old(self).tab_filtered_indices,
            final(self).tab_filter == old(self).tab_filter,
            final(self).layer == old(self).layer,
            final(self).icon == old(self).icon,
            final(self).label == old(self).label,
            final(self).same_except_tabs(&*old(self)),
    {
        proof {
            lemma_filter_order_in_bounds(self.tab_filter@, self.tab_rows@, self.tab_filtered_indices@);
        }
        match position_current_in(&self.tab_filtered_indices, &self.tab_rows) {
            Some(p) => {
                self.tab_cursor = p;
            },
            None => {},
        }
    }

    /// Id of the selected tab.
    pub fn selected_tab_id(&self) -> (r: Option<u64>)
        requires
            self.wf(),
        ensures
            match r {
                Some(id) => self.tab_cursor < self.tab_filtered_indices@.len() && id
                    == self.tab_rows@[self.tab_filtered_indices@[self.tab_cursor as int] as int].id,
                None => self.tab_cursor >= self.tab_filtered_indices@.len(),
            },
    {
        proof {
            lemma_filter_order_in_bounds(self.tab_filter@, self.tab_rows@, self.tab_filtered_indices@);
        }
        if self.tab_cursor < self.tab_filtered_indices.len() {
            let i = self.tab_filtered_indices[self.tab_cursor];
            Some(self.tab_rows[i].id)
        } else {
            None
        }
    }

    /// After changing `tab_filter`, keep the tab `keep_id` selected when it still matches;
    /// otherwise follow the leader's tab.
    pub fn recompute_tab_filter_keep(&mut self, keep_id: Option<u64>)
        requires
            old(self).launch_cursor == 0 || old(self).launch_cursor < old(self).launch_rows@.len(),
        ensures
            final(self).wf(),
            final(self).tab_cursor == tab_cursor_after(
                final(self).tab_rows@,
                final(self).tab_filtered_indices@,
                keep_id,
                old(self).tab_cursor as int,
            ),
            final(self).tab_filter == old(self).tab_filter,
            final(self).layer == old(self).layer,
            final(self).icon == old(self).icon,
            final(self).label == old(self).label,
            final(self).same_except_tabs(&*old(self)),
    {
        self.recompute_tab_filter();
        proof {
            lemma_filter_order_in_bounds(self.tab_filter@, self.tab_rows@, self.tab_filtered_indices@);
        }
        match keep_id {
            Some(id) => {
                match position_id_in(&self.tab_filtered_indices, &self.tab_rows, id) {
                    Some(p) => {
                        self.tab_cursor = p;
                        return ;
                    },
                    None => {},
                }
            },
            None => {},
        }
        self.tab_cursor_follow_kitty_focus();
    }

    /// Back to the root grid with the filter cleared and the leader's tab selected.
    pub fn return_to_root(&mut self)
        requires
            old(self).wf(),
        ensures
            final(self).wf(),
            final(self).layer == KittyLayer::Root,
            final(self).icon == KITTY_HEADER_ICON,
            final(self).label == KITTY_HEADER_LABEL,
            final(self).tab_filter@.len() == 0,
            final(self).tab_cursor == tab_cursor_after(
                final(self).tab_rows@,
                final(self).tab_filtered_indices@,
                None,
                old(self).tab_cursor as int,
            ),
            final(self).same_except_tabs(&*old(self)),
    {
        self.layer = KittyLayer::Root;
        self.icon = KITTY_HEADER_ICON;
        self.label = KITTY_HEADER_LABEL;
        self.tab_filter = String::new();
        self.recompute_tab_filter_keep(None);
    }

    /// Open the tab list picker with an empty filter and the leader's tab selected.
    pub fn enter_tab_list_picker(&mut self)
        requires
            old(self).wf(),
        ensures
            final(self).wf(),
            final(self).layer == KittyLayer::TabList,
            final(self).icon == TAB_LIST_ICON,
            final(self).label == "tab list",
            final(self).tab_filter@.len() == 0,
            final(self).tab_cursor == tab_cursor_after(
                final(self).tab_rows@,
                final(self).tab_filtered_indices@,
                None,
                old(self).tab_cursor as int,
            ),
            final(self).same_except_tabs(&*old(self)),
    {
        self.layer = KittyLayer::TabList;
        self.icon = TAB_LIST_ICON;
        self.label = "tab list";
        self.tab_filter = String::new();
        self.recompute_tab_filter_keep(None);
    }
}

/// Position in `filtered` of the first row with id `id`.
fn position_id_in(filtered: &Vec<usize>, rows: &Vec<LeaderWindowRow>, id: u64) -> (r: Option<usize>)
    requires
        forall|k: int| 0 <= k < filtered@.len() ==> #[trigger] filtered@[k] < rows@.len(),
    ensures
        match r {
            Some(p) => p < filtered@.len() && first_id_in(rows@, filtered@, id) == Some(p as int),
            None => first_id_in(rows@, filtered@, id) is None,
        },
{
    let mut p: usize = 0;
    while p < filtered.len()
        invariant
            forall|k: int| 0 <= k < filtered@.len() ==> #[trigger] filtered@[k] < rows@.len(),
            0 <= p <= filtered@.len(),
            forall|k: int| 0 <= k < p ==> rows@[#[trigger] filtered@[k] as int].id != id,
        decreases filtered.len() - p,
    {
        if rows[filtered[p]].id == id {
            proof {
                let c = choose|c: int|
                    0 <= c < filtered@.len() && rows@[filtered@[c] as int].id == id && forall|k: int|
                        0 <= k < c ==> rows@[filtered@[k] as int].id != id;
                if c < p {
                    assert(rows@[filtered@[c] as int].id != id);
                } else if c > p {
                    assert(rows@[filtered@[p as int] as int].id != id);
                }
            }
            return Some(p);
        }
        p = p + 1;
    }
    None
}

/// Rows for the launcher pills (`id` = index into the launcher layer).
pub fn leader_launch_rows() -> (rows: Vec<LeaderWindowRow>)
    ensures
        kitty_launch_rows_are(rows@),
{
    let ns = kitty_nodes(KittyLayer::Launcher);
    let mut rows: Vec<LeaderWindowRow> = Vec::new();
    let mut i: usize = 0;
    while i < ns.len()
        invariant
            ns@ == spec_kitty_nodes(KittyLayer::Launcher),
            0 <= i <= ns@.len(),
            rows@.len() == i,
            forall|k: int|
                #![trigger rows@[k]]
                0 <= k < i ==> rows@[k].id == k && rows@[k].label@ == ns@[k].label@
                    && !rows@[k].focused && !rows@[k].current,
        decreases ns.len() - i,
    {
        let label = string_of(chars_of(ns[i].label).as_slice());
        rows.push(LeaderWindowRow { id: i as u64, label, focused: false, current: false });
        i = i + 1;
    }
    rows
}

/// Result of a key in the kitty leader's grid.
#[derive(Debug, Clone, Copy, PartialEq, Eq)]
pub enum KeyPress {
    Redraw,
    /// Close the leader and run the action.
    Execute(KittyAction),
    Unrecognised,
}

/// Index of the first node bound to `key`.
pub open spec fn first_kitty_key(ns: Seq<KittyNode>, key: char) -> Option<int> {
    if exists|i: int| 0 <= i < ns.len() && ns[i].key == key {
        Some(
            choose|i: int|
                0 <= i < ns.len() && ns[i].key == key && forall|k: int| 0 <= k < i ==> ns[k].key != key,
        )
    } else {
        None
    }
}

fn find_kitty_key(ns: &Vec<KittyNode>, key: char) -> (r: Option<usize>)
    ensures
        match r {
            Some(i) => i < ns@.len() && first_kitty_key(ns@, key) == Some(i as int),
            None => first_kitty_key(ns@, key) is None,
        },
{
    let mut i: usize = 0;
    while i < ns.len()
        invariant
            0 <= i <= ns@.len(),
            forall|k: int| 0 <= k < i ==> ns@[k].key != key,
        decreases ns.len() - i,
    {
        if ns[i].key == key {
            proof {
                let c = choose|c: int|
                    0 <= c < ns@.len() && ns@[c].key == key && forall|k: int| 0 <= k < c ==> ns@[k].key != key;
                if c < i {
                    assert(ns@[c].key != key);
                } else if c > i {
                    assert(ns@[i as int].key != key);
                }
            }
            return Some(i);
        }
        i = i + 1;
    }
    None
}

/// What pressing the key of node `n` does.
pub open spec fn kitty_press_effect(n: KittyNode, s0: LeaderState, s1: LeaderState, r: KeyPress) -> bool {
    match n.kind {
        KittyNodeKind::Action(a) => r == KeyPress::Execute(a) && s1 == s0,
        KittyNodeKind::Group { icon, layer } => {
            &&& r == KeyPress::Redraw
            &&& if layer == KittyLayer::TabList {
                &&& s1.layer == KittyLayer::TabList
                &&& s1.icon == TAB_LIST_ICON
                &&& s1.label == "tab list"
                &&& s1.tab_filter@.len() == 0
                &&& s1.tab_cursor == tab_cursor_after(
                    s1.tab_rows@,
                    s1.tab_filtered_indices@,
                    None,
                    s0.tab_cursor as int,
                )
                &&& s1.same_except_tabs(&s0)
            } else {
                s1 == (LeaderState { layer, icon, label: n.label, ..s0 })
            }
        },
    }
}

/// Handle a key in the current layer: run an action, or enter a group (the tab list starts
/// with an empty filter and the leader's tab selected).
pub fn press_key(state: &mut LeaderState, key: char) -> (r: KeyPress)
    requires
        old(state).wf(),
    ensures
        final(state).wf(),
        match first_kitty_key(spec_kitty_nodes(old(state).layer), key) {
            None => r == KeyPress::Unrecognised && *final(state) == *old(state),
            Some(i) => kitty_press_effect(spec_kitty_nodes(old(state).layer)[i], *old(state), *final(state), r),
        },
{
    let ns = kitty_nodes(state.layer);
    let i = match find_kitty_key(&ns, key) {
        Some(i) => i,
        None => {
            return KeyPress::Unrecognised;
        },
    };
    let node = ns[i];
    match node.kind {
        KittyNodeKind::Action(a) => KeyPress::Execute(a),
        KittyNodeKind::Group { icon, layer } => {
            if layer == KittyLayer::TabList {
                state.enter_tab_list_picker();
            } else {
                state.layer = layer;
                state.icon = icon;
                state.label = node.label;
            }
            KeyPress::Redraw
        },
    }
}

/// Why a launcher index could not be run.
#[derive(Debug, Clone, Copy, PartialEq, Eq, Structural)]
pub enum LaunchError {
    /// No launcher entry has this index.
    OutOfRange { index: usize },
}

/// The action of the launcher entry at `index`.
pub fn execute_launch_at(index: usize) -> (r: Result<KittyAction, LaunchError>)
    ensures
        match r {
            Ok(a) => index < spec_kitty_nodes(KittyLayer::Launcher).len() && spec_kitty_nodes(
                KittyLayer::Launcher,
            )[index as int].kind == KittyNodeKind::Action(a),
            Err(LaunchError::OutOfRange { index: i }) => i == index && index >= spec_kitty_nodes(
                KittyLayer::Launcher,
            ).len(),
        },
{
    let ns = kitty_nodes(KittyLayer::Launcher);
    if index >= ns.len() {
        return Err(LaunchError::OutOfRange { index });
    }
    match ns[index].kind {
        KittyNodeKind::Action(a) => Ok(a),
        KittyNodeKind::Group { .. } => {
            assert(false);
            Err(LaunchError::OutOfRange { index })
        },
    }
}

/// After the tab list is rebuilt keeping tab `id`, that tab is the one selected whenever it
/// is still listed.
pub proof fn lemma_kept_tab_selected(rows: Seq<LeaderWindowRow>, f: Seq<usize>, id: u64, c_old: int)
    requires
        first_id_in(rows, f, id) is Some,
    ensures
        0 <= tab_cursor_after(rows, f, Some(id), c_old) < f.len(),
        rows[f[tab_cursor_after(rows, f, Some(id), c_old)] as int].id == id,
{
    let p0 = choose|p: int| 0 <= p < f.len() && rows[f[p] as int].id == id;
    lemma_first_id_witness(rows, f, id, p0);
}

proof fn lemma_first_id_witness(rows: Seq<LeaderWindowRow>, f: Seq<usize>, id: u64, p0: int)
    requires
        0 <= p0 < f.len(),
        rows[f[p0] as int].id == id,
    ensures
        exists|p: int|
            0 <= p < f.len() && rows[f[p] as int].id == id && forall|j: int|
                0 <= j < p ==> rows[f[j] as int].id != id,
    decreases p0,
{
    if exists|j: int| 0 <= j < p0 && rows[f[j] as int].id == id {
        let j = choose|j: int| 0 <= j < p0 && rows[f[j] as int].id == id;
        lemma_first_id_witness(rows, f, id, j);
    } else {
        assert(forall|j: int| 0 <= j < p0 ==> rows[f[j] as int].id != id);
    }
}

} // verus!
