//! Leader UI state: window / session / pane / launcher rows, filters, cursors and the prompt.
use vstd::prelude::*;
use crate::picker::{
    first_current_in, first_label_in, position_current_in,
    LeaderPaneRow, LeaderWindowRow, PILL_STRIP_CAP, filter_order, first_current, first_current_pane,
    is_filter_order, lemma_empty_filter_lists_all_rows, lemma_filter_order_in_bounds, min_nat, pill_strip_cursor_follow,
    position_current, position_current_pane, position_label_in, row_labels, spec_strip_cursor,
    strip_cursor_ok,
};
use crate::text::{
    chars_of, concat_chars, contains_chars, contains_seq, dec_chars, dec_digits, str_eq, string_of,
    trim_chars, trim_seq,
};
use crate::tmux::{PaneLine, SessionLine, WindowLine};
use super::input::LineInput;
use super::keymap::{nodes, spec_nodes};
use super::keynode::{ActionId, ConfirmAction, KeyNodeKind, Layer};

verus! {

/// Header icon of the root layer (Font Awesome `bolt`).
pub const LEADER_HEADER_ICON: &'static str = "\u{f0e7}";

/// Header label of the root layer.
pub const LEADER_HEADER_LABEL: &'static str = "tmux leader";

/// Header icon of the window actions (`tab` glyph).
pub const WINDOWS_HEADER_ICON: &'static str = "\u{f04e9}";

/// Header label of the window actions.
pub const WINDOWS_HEADER_LABEL: &'static str = "windows";

/// Which list the root shows: the action grid, or the session list picker.
#[derive(Debug, Clone, Copy, PartialEq, Eq, Structural)]
pub enum LeaderView {
    Normal,
    SessionList,
}

/// Full-width prompt within the popup (section rule, hint, bordered field).
#[derive(Debug)]
pub struct PendingInput {
    pub prompt: &'static str,
    pub input: LineInput,
    pub confirm: ConfirmAction,
    pub allow_empty_confirm: bool,
}

/// Why a launcher index could not be run.
#[derive(Debug, Clone, Copy, PartialEq, Eq, Structural)]
pub enum LaunchError {
    /// No launcher entry has this index.
    OutOfRange { index: usize },
    /// The entry is not a plain action.
    NotAnAction,
}

pub struct LeaderState {
    /// The key layer on screen.
    pub layer: Layer,
    pub icon: &'static str,
    pub label: &'static str,
    /// Windows of the leader's session (root pill strip).
    pub tab_rows: Vec<LeaderWindowRow>,
    /// Sessions (session pill strip and session list).
    pub session_rows: Vec<LeaderWindowRow>,
    /// Indices into `session_rows` after the fuzzy filter (keyboard order).
    pub session_filtered_indices: Vec<usize>,
    /// Session pill / list selection.
    pub session_cursor: usize,
    /// Fuzzy filter typed in the session list.
    pub session_filter: String,
    pub view: LeaderView,
    /// Inline text prompt, while one is open.
    pub pending_input: Option<PendingInput>,
    /// Launcher apps (pills; `id` = index into the launcher layer).
    pub launch_rows: Vec<LeaderWindowRow>,
    pub launch_filtered_indices: Vec<usize>,
    pub launch_cursor: usize,
    pub launch_filter: String,
    /// Root window pill strip selection (first 24 windows take part).
    pub root_window_cursor: usize,
    /// **p** group: pane pills.
    pub pane_rows: Vec<LeaderPaneRow>,
    pub root_pane_cursor: usize,
    pub kube_pill: Option<String>,
    pub git_pill: Option<String>,
    /// One-line message in the popup; cleared on the next key.
    pub notice: Option<String>,
}

/// Label of a window row: its name, or `window <index>` when the name is empty.
pub open spec fn window_row_label(w: WindowLine) -> Seq<char> {
    if w.name@.len() == 0 {
        "window "@ + dec_digits(w.index as nat)
    } else {
        w.name@
    }
}

/// Window rows from `list-windows` lines, in order.
pub open spec fn window_rows_are(rows: Seq<LeaderWindowRow>, lines: Seq<WindowLine>) -> bool {
    &&& rows.len() == lines.len()
    &&& forall|k: int|
        #![trigger rows[k]]
        0 <= k < rows.len() ==> rows[k].id == lines[k].id && rows[k].label@ == window_row_label(
            lines[k],
        ) && !rows[k].focused && rows[k].current == lines[k].active
}

/// Session rows from `list-sessions` lines: id is the position, the label the trimmed name.
pub open spec fn session_rows_are(rows: Seq<LeaderWindowRow>, lines: Seq<SessionLine>) -> bool {
    &&& rows.len() == lines.len()
    &&& forall|k: int|
        #![trigger rows[k]]
        0 <= k < rows.len() ==> rows[k].id == k && rows[k].label@ == trim_seq(lines[k].name@)
            && !rows[k].focused && rows[k].current == lines[k].active
}

/// A pane line shown as a pill: not the popup's own pane, not a leader.
pub open spec fn pane_kept(p: PaneLine, my_pane: Seq<char>) -> bool {
    p.pane_id@ != my_pane && !contains_seq(p.command@, "tmux-leader"@)
}

/// Pane pill label: `<index> <command>`.
pub open spec fn pane_row_label(p: PaneLine) -> Seq<char> {
    dec_digits(p.index as nat) + " "@ + p.command@
}

pub open spec fn pane_row_of(p: PaneLine) -> (Seq<char>, Seq<char>, bool) {
    (p.pane_id@, pane_row_label(p), p.active)
}

pub open spec fn pane_row_view(r: LeaderPaneRow) -> (Seq<char>, Seq<char>, bool) {
    (r.pane_id@, r.label@, r.current)
}

/// The pane pills made from `list-panes` lines: kept lines, in order.
pub open spec fn spec_pane_rows(lines: Seq<PaneLine>, my_pane: Seq<char>) -> Seq<(Seq<char>, Seq<char>, bool)>
    decreases lines.len(),
{
    if lines.len() == 0 {
        Seq::empty()
    } else {
        let acc = spec_pane_rows(lines.drop_last(), my_pane);
        if pane_kept(lines.last(), my_pane) {
            acc.push(pane_row_of(lines.last()))
        } else {
            acc
        }
    }
}

/// First row whose trimmed label is `name`.
pub open spec fn first_label_trim_eq(rows: Seq<LeaderWindowRow>, name: Seq<char>) -> Option<int> {
    if exists|i: int| 0 <= i < rows.len() && trim_seq(rows[i].label@) == name {
        Some(
            choose|i: int|
                0 <= i < rows.len() && trim_seq(rows[i].label@) == name && forall|k: int|
                    0 <= k < i ==> trim_seq(rows[k].label@) != name,
        )
    } else {
        None
    }
}

/// The session pill to select: the one named like the attached session `here` (trimmed,
/// when non-empty), else the first one flagged current.
pub open spec fn session_follow_pos(rows: Seq<LeaderWindowRow>, here: Option<Seq<char>>) -> Option<int> {
    let by_name = match here {
        Some(h) => if trim_seq(h).len() > 0 {
            first_label_trim_eq(rows, trim_seq(h))
        } else {
            None
        },
        None => None,
    };
    match by_name {
        Some(i) => Some(i),
        None => first_current(rows),
    }
}

pub open spec fn opt_view(o: Option<String>) -> Option<Seq<char>> {
    match o {
        Some(s) => Some(s@),
        None => None,
    }
}

pub open spec fn opt_str_view(o: Option<&str>) -> Option<Seq<char>> {
    match o {
        Some(s) => Some(s@),
        None => None,
    }
}

/// The launcher rows: one per launcher entry, `id` its index, label its label.
pub open spec fn launch_rows_are(rows: Seq<LeaderWindowRow>) -> bool {
    &&& rows.len() == spec_nodes(Layer::Launcher).len()
    &&& forall|k: int|
        #![trigger rows[k]]
        0 <= k < rows.len() ==> rows[k].id == k && rows[k].label@ == spec_nodes(
            Layer::Launcher,
        )[k].label@ && !rows[k].focused && !rows[k].current
}

/// Cursor after re-filtering: 0 on an empty list, else clamped to the last entry.
pub open spec fn clamp_cursor(cursor: int, n: int) -> int {
    if n == 0 {
        0
    } else {
        min_nat(cursor, n - 1)
    }
}

impl LeaderState {
    /// The session list is the fuzzy order of the session rows, with the cursor in range.
    pub open spec fn sessions_ok(&self) -> bool {
        &&& is_filter_order(
            self.session_filter@,
            row_labels(self.session_rows@),
            self.session_filtered_indices@,
        )
        &&& (self.session_cursor == 0 || self.session_cursor < self.session_filtered_indices@.len())
    }

    /// The launcher list is the fuzzy order of the launcher rows, with the cursor in range.
    pub open spec fn launch_ok(&self) -> bool {
        &&& is_filter_order(
            self.launch_filter@,
            row_labels(self.launch_rows@),
            self.launch_filtered_indices@,
        )
        &&& (self.launch_cursor == 0 || self.launch_cursor < self.launch_filtered_indices@.len())
    }

    /// Pill-strip cursors in range; the session filter is only typed in the session list.
    pub open spec fn rest_ok(&self) -> bool {
        &&& strip_cursor_ok(self.root_window_cursor as int, self.tab_rows@.len() as int)
        &&& strip_cursor_ok(self.root_pane_cursor as int, self.pane_rows@.len() as int)
        &&& (self.layer != Layer::SessionList ==> self.session_filter@.len() == 0)
        &&& self.session_rows@.len() <= usize::MAX
    }

    /// Well-formed: filtered lists are the fuzzy order of their rows, and every cursor is in
    /// range for what it selects.
    pub open spec fn wf(&self) -> bool {
        &&& self.sessions_ok()
        &&& self.launch_ok()
        &&& self.rest_ok()
    }

    pub open spec fn same_sessions(&self, o: &Self) -> bool {
        &&& self.session_rows == o.session_rows
        &&& self.session_filtered_indices == o.session_filtered_indices
        &&& self.session_cursor == o.session_cursor
        &&& self.session_filter == o.session_filter
    }

    pub open spec fn same_launch(&self, o: &Self) -> bool {
        &&& self.launch_rows == o.launch_rows
        &&& self.launch_filtered_indices == o.launch_filtered_indices
        &&& self.launch_cursor == o.launch_cursor
        &&& self.launch_filter == o.launch_filter
    }

    pub open spec fn same_windows(&self, o: &Self) -> bool {
        &&& self.tab_rows == o.tab_rows
        &&& self.root_window_cursor == o.root_window_cursor
    }

    pub open spec fn same_panes(&self, o: &Self) -> bool {
        &&& self.pane_rows == o.pane_rows
        &&& self.root_pane_cursor == o.root_pane_cursor
    }

    pub open spec fn same_header(&self, o: &Self) -> bool {
        &&& self.layer == o.layer
        &&& self.icon == o.icon
        &&& self.label == o.label
        &&& self.view == o.view
        &&& self.pending_input == o.pending_input
        &&& self.notice == o.notice
        &&& self.kube_pill == o.kube_pill
        &&& self.git_pill == o.git_pill
    }

    /// `s1` is `s0` with the session filter set to `filter` and the session list rebuilt:
    /// the session labelled `keep` stays selected when still listed, else the first listed
    /// current session, else the cursor clamped.
    pub open spec fn session_refiltered(s0: LeaderState, s1: LeaderState, filter: Seq<char>, keep: Option<Seq<char>>) -> bool {
        let f = s1.session_filtered_indices@;
        let c0 = clamp_cursor(s0.session_cursor as int, f.len() as int);
        let kept = match keep {
            Some(k) => first_label_in(s1.session_rows@, f, k),
            None => None,
        };
        &&& s1.session_filter@ == filter
        &&& s1.session_rows == s0.session_rows
        &&& is_filter_order(filter, row_labels(s1.session_rows@), f)
        &&& s1.session_cursor == match kept {
            Some(p) => p,
            None => match first_current_in(s1.session_rows@, f) {
                Some(p) => p,
                None => c0,
            },
        }
        &&& s1.same_windows(&s0)
        &&& s1.same_panes(&s0)
        &&& s1.same_launch(&s0)
        &&& s1.same_header(&s0)
    }

    /// `s1` is `s0` with the launcher filter set to `filter` and the launcher list rebuilt:
    /// the row labelled `keep` stays selected when still listed, else the cursor clamped.
    pub open spec fn launch_refiltered(s0: LeaderState, s1: LeaderState, filter: Seq<char>, keep: Option<Seq<char>>) -> bool {
        let f = s1.launch_filtered_indices@;
        let c0 = clamp_cursor(s0.launch_cursor as int, f.len() as int);
        &&& s1.launch_filter@ == filter
        &&& s1.launch_rows == s0.launch_rows
        &&& is_filter_order(filter, row_labels(s1.launch_rows@), f)
        &&& s1.launch_cursor == match keep {
            Some(k) => match first_label_in(s1.launch_rows@, f, k) {
                Some(p) => p,
                None => c0,
            },
            None => c0,
        }
        &&& s1.same_windows(&s0)
        &&& s1.same_panes(&s0)
        &&& s1.same_sessions(&s0)
        &&& s1.same_header(&s0)
    }

    /// `s1` is `s0` back on the root grid (see [`LeaderState::return_to_root`]).
    pub open spec fn returned_to_root(s0: LeaderState, s1: LeaderState, here: Option<Seq<char>>) -> bool {
        &&& s1.layer == Layer::Root
        &&& s1.icon == LEADER_HEADER_ICON
        &&& s1.label == LEADER_HEADER_LABEL
        &&& s1.view == LeaderView::Normal
        &&& s1.pending_input is None
        &&& s1.notice is None
        &&& s1.session_filter@.len() == 0
        &&& s1.launch_filter@.len() == 0
        &&& s1.session_rows == s0.session_rows
        &&& s1.launch_rows == s0.launch_rows
        &&& s1.session_cursor == spec_strip_cursor(
            s0.session_rows@.len() as int,
            session_follow_pos(s0.session_rows@, here),
            clamp_cursor(s0.session_cursor as int, s0.session_rows@.len() as int),
        )
        &&& s1.launch_cursor == clamp_cursor(
            s0.launch_cursor as int,
            s1.launch_filtered_indices@.len() as int,
        )
        &&& s1.tab_rows == s0.tab_rows
        &&& s1.root_window_cursor == spec_strip_cursor(
            s0.tab_rows@.len() as int,
            first_current(s0.tab_rows@),
            s0.root_window_cursor as int,
        )
        &&& s1.same_panes(&s0)
        &&& s1.kube_pill == s0.kube_pill
        &&& s1.git_pill == s0.git_pill
    }

    /// A fresh state on the root layer from what tmux reported at startup: windows and
    /// sessions (`None` where the query failed), the attached session's name, the panes of
    /// the window, the popup's own pane, and the header pills.
    pub fn from_tmux(
        windows: Option<Vec<WindowLine>>,
        sessions: Option<Vec<SessionLine>>,
        here: Option<String>,
        startup_panes: Vec<PaneLine>,
        my_pane: &str,
        kube_pill: Option<String>,
        git_pill: Option<String>,
    ) -> (s: LeaderState)
        requires
            match sessions {
                Some(v) => v@.len() <= usize::MAX,
                None => true,
            },
        ensures
            s.wf(),
            s.layer == Layer::Root,
            s.icon == LEADER_HEADER_ICON,
            s.label == LEADER_HEADER_LABEL,
            s.view == LeaderView::Normal,
            s.pending_input is None,
            s.notice is None,
            s.kube_pill == kube_pill,
            s.git_pill == git_pill,
            match windows {
                Some(w) => window_rows_are(s.tab_rows@, w@),
                None => s.tab_rows@.len() == 0,
            },
            match sessions {
                Some(v) => session_rows_are(s.session_rows@, v@),
                None => s.session_rows@.len() == 0,
            },
            s.session_filter@.len() == 0,
            s.launch_filter@.len() == 0,
            launch_rows_are(s.launch_rows@),
            s.launch_cursor == 0,
            s.pane_rows@.map_values(|r: LeaderPaneRow| pane_row_view(r)) == spec_pane_rows(
                startup_panes@,
                my_pane@,
            ),
            s.session_cursor == spec_strip_cursor(
                s.session_rows@.len() as int,
                session_follow_pos(s.session_rows@, opt_view(here)),
                0,
            ),
            s.root_window_cursor == spec_strip_cursor(
                s.tab_rows@.len() as int,
                first_current(s.tab_rows@),
                0,
            ),
            s.root_pane_cursor == spec_strip_cursor(
                s.pane_rows@.len() as int,
                first_current_pane(s.pane_rows@),
                0,
            ),
    {
        let tab_rows = match windows {
            Some(w) => leader_rows_from_windows(w),
            None => Vec::new(),
        };
        let session_rows = match sessions {
            Some(v) => leader_rows_from_sessions(v),
            None => Vec::new(),
        };
        let launch_rows = leader_launch_rows();
        let session_filter = String::new();
        let launch_filter = String::new();
        let session_filtered_indices = filter_order(session_filter.as_str(), &session_rows);
        let launch_filtered_indices = filter_order(launch_filter.as_str(), &launch_rows);
        let mut state = LeaderState {
            layer: Layer::Root,
            icon: LEADER_HEADER_ICON,
            label: LEADER_HEADER_LABEL,
            tab_rows,
            session_rows,
            session_filtered_indices,
            session_cursor: 0,
            session_filter,
            view: LeaderView::Normal,
            pending_input: None,
            launch_rows,
            launch_filtered_indices,
            launch_cursor: 0,
            launch_filter,
            root_window_cursor: 0,
            pane_rows: Vec::new(),
            root_pane_cursor: 0,
            kube_pill,
            git_pill,
            notice: None,
        };
        state.session_cursor_follow_active(here);
        state.root_window_cursor_follow_active();
        state.hydrate_pane_rows_from_tmux_lines(startup_panes, my_pane);
        state.root_pane_cursor_follow_active();
        state
    }

    /// Align the root window pill selection with the active window (first 24 windows only).
    pub fn root_window_cursor_follow_active(&mut self)
        requires
            old(self).wf(),
        ensures
            final(self).wf(),
            final(self).root_window_cursor == spec_strip_cursor(
                old(self).tab_rows@.len() as int,
                first_current(old(self).tab_rows@),
                old(self).root_window_cursor as int,
            ),
            final(self).tab_rows == old(self).tab_rows,
            final(self).same_sessions(&*old(self)),
            final(self).same_launch(&*old(self)),
            final(self).same_panes(&*old(self)),
            final(self).same_header(&*old(self)),
    {
        let pos = position_current(&self.tab_rows);
        let n = self.tab_rows.len();
        pill_strip_cursor_follow(n, pos, &mut self.root_window_cursor);
    }

    /// Replace the pane pills with the kept `list-panes` lines (not `my_pane`, not a leader).
    pub fn hydrate_pane_rows_from_tmux_lines(&mut self, rows: Vec<PaneLine>, my_pane: &str)
        requires
            old(self).wf(),
        ensures
            final(self).pane_rows@.map_values(|r: LeaderPaneRow| pane_row_view(r)) == spec_pane_rows(
                rows@,
                my_pane@,
            ),
            final(self).root_pane_cursor == old(self).root_pane_cursor,
            final(self).same_windows(&*old(self)),
            final(self).same_sessions(&*old(self)),
            final(self).same_launch(&*old(self)),
            final(self).same_header(&*old(self)),
            old(self).root_pane_cursor == 0 ==> final(self).wf(),
    {
        let pat = chars_of("tmux-leader");
        let mut out: Vec<LeaderPaneRow> = Vec::new();
        let mut i: usize = 0;
        assert(rows@.take(0) =~= Seq::<PaneLine>::empty());
        while i < rows.len()
            invariant
                pat@ == "tmux-leader"@,
                0 <= i <= rows@.len(),
                out@.map_values(|r: LeaderPaneRow| pane_row_view(r)) == spec_pane_rows(
                    rows@.take(i as int),
                    my_pane@,
                ),
            decreases rows.len() - i,
        {
            let r = &rows[i];
            assert(rows@.take(i + 1).drop_last() =~= rows@.take(i as int));
            assert(rows@.take(i + 1).last() == rows@[i as int]);
            let cmd = chars_of(r.command.as_str());
            if !str_eq(r.pane_id.as_str(), my_pane) && !contains_chars(
                cmd.as_slice(),
                pat.as_slice(),
            ) {
                let ghost before = out@.map_values(|r: LeaderPaneRow| pane_row_view(r));
                let idx = dec_chars(r.index);
                let sp = chars_of(" ");
                let a = concat_chars(idx.as_slice(), sp.as_slice());
                let label = concat_chars(a.as_slice(), cmd.as_slice());
                let row = LeaderPaneRow {
                    pane_id: string_of(chars_of(r.pane_id.as_str()).as_slice()),
                    label: string_of(label.as_slice()),
                    current: r.active,
                };
                out.push(row);
                assert(out@.map_values(|r: LeaderPaneRow| pane_row_view(r)) =~= before.push(
                    pane_row_of(rows@[i as int]),
                ));
            }
            i = i + 1;
        }
        assert(rows@.take(rows@.len() as int) =~= rows@);
        self.pane_rows = out;
    }

    /// Refresh the pane pills from a new `list-panes` (`None`: the query failed, no pills).
    pub fn refresh_pane_rows(&mut self, rows: Option<Vec<PaneLine>>, my_pane: &str)
        requires
            old(self).wf(),
        ensures
            match rows {
                Some(v) => final(self).pane_rows@.map_values(|r: LeaderPaneRow| pane_row_view(r))
                    == spec_pane_rows(v@, my_pane@),
                None => final(self).pane_rows@.len() == 0,
            },
            final(self).root_pane_cursor == old(self).root_pane_cursor,
            final(self).same_windows(&*old(self)),
            final(self).same_sessions(&*old(self)),
            final(self).same_launch(&*old(self)),
            final(self).same_header(&*old(self)),
    {
        match rows {
            Some(v) => self.hydrate_pane_rows_from_tmux_lines(v, my_pane),
            None => {
                self.pane_rows = Vec::new();
            },
        }
    }

    /// Refresh the session rows from a new `list-sessions` (`None`: the query failed, no
    /// rows), re-filtering them.
    pub fn refresh_session_rows(&mut self, sessions: Option<Vec<SessionLine>>)
        requires
            old(self).wf(),
            match sessions {
                Some(v) => v@.len() <= usize::MAX,
                None => true,
            },
        ensures
            final(self).wf(),
            match sessions {
                Some(v) => session_rows_are(final(self).session_rows@, v@),
                None => final(self).session_rows@.len() == 0,
            },
            final(self).session_filter == old(self).session_filter,
            final(self).session_cursor == clamp_cursor(
                old(self).session_cursor as int,
                final(self).session_filtered_indices@.len() as int,
            ),
            final(self).same_windows(&*old(self)),
            final(self).same_panes(&*old(self)),
            final(self).same_launch(&*old(self)),
            final(self).same_header(&*old(self)),
    {
        self.session_rows = match sessions {
            Some(v) => leader_rows_from_sessions(v),
            None => Vec::new(),
        };
        self.recompute_session_filter_only();
    }

    /// Align the pane pill selection with the active pane (first 24 panes only).
    pub fn root_pane_cursor_follow_active(&mut self)
        ensures
            old(self).wf() ==> final(self).wf(),
            final(self).root_pane_cursor == spec_strip_cursor(
                old(self).pane_rows@.len() as int,
                first_current_pane(old(self).pane_rows@),
                old(self).root_pane_cursor as int,
            ),
            strip_cursor_ok(final(self).root_pane_cursor as int, final(self).pane_rows@.len() as int),
            final(self).pane_rows == old(self).pane_rows,
            final(self).same_windows(&*old(self)),
            final(self).same_sessions(&*old(self)),
            final(self).same_launch(&*old(self)),
            final(self).same_header(&*old(self)),
    {
        let pos = position_current_pane(&self.pane_rows);
        let n = self.pane_rows.len();
        pill_strip_cursor_follow(n, pos, &mut self.root_pane_cursor);
    }

    /// Select the session pill of the attached session `here` (by trimmed name; session
    /// flags can be set for every attached session, so the name wins), else the first one
    /// flagged current; clamped to the first 24 pills.
    pub fn session_cursor_follow_active(&mut self, here: Option<String>)
        requires
            old(self).wf(),
            old(self).session_filter@.len() == 0,
        ensures
            final(self).wf(),
            final(self).session_cursor == spec_strip_cursor(
                old(self).session_rows@.len() as int,
                session_follow_pos(old(self).session_rows@, opt_view(here)),
                old(self).session_cursor as int,
            ),
            final(self).session_rows == old(self).session_rows,
            final(self).session_filtered_indices == old(self).session_filtered_indices,
            final(self).session_filter == old(self).session_filter,
            final(self).same_windows(&*old(self)),
            final(self).same_panes(&*old(self)),
            final(self).same_launch(&*old(self)),
            final(self).same_header(&*old(self)),
    {
        let ghost hv = opt_view(here);
        let by_name: Option<usize> = match here {
            Some(h) => {
                let t = trim_chars(chars_of(h.as_str()).as_slice());
                if t.len() > 0 {
                    position_trimmed_label(&self.session_rows, t.as_slice())
                } else {
                    None
                }
            },
            None => None,
        };
        let pos = match by_name {
            Some(i) => Some(i),
            None => position_current(&self.session_rows),
        };
        assert(match pos {
            Some(i) => session_follow_pos(self.session_rows@, hv) == Some(i as int),
            None => session_follow_pos(self.session_rows@, hv) is None,
        });
        let n = self.session_rows.len();
        pill_strip_cursor_follow(n, pos, &mut self.session_cursor);
        proof {
            assert(self.session_filter@ =~= Seq::<char>::empty());
            assert(row_labels(self.session_rows@).len() == self.session_rows@.len());
            lemma_empty_filter_lists_all_rows(row_labels(self.session_rows@), self.session_filtered_indices@);
        }
    }

    /// Name of the selected session (in the filtered order).
    pub fn selected_session_name(&self) -> (r: Option<String>)
        requires
            self.wf(),
        ensures
            match r {
                Some(s) => self.session_cursor < self.session_filtered_indices@.len() && s@
                    == self.session_rows@[self.session_filtered_indices@[self.session_cursor as int] as int].label@,
                None => self.session_cursor >= self.session_filtered_indices@.len(),
            },
    {
        if self.session_cursor < self.session_filtered_indices.len() {
            let i = self.session_filtered_indices[self.session_cursor];
            let l = &self.session_rows[i].label;
            Some(string_of(chars_of(l.as_str()).as_slice()))
        } else {
            None
        }
    }

    /// Re-filter the sessions without moving the cursor other than clamping it.
    fn recompute_session_filter_only(&mut self)
        requires
            old(self).launch_ok(),
            old(self).rest_ok(),
        ensures
            final(self).wf(),
            is_filter_order(
                final(self).session_filter@,
                row_labels(final(self).session_rows@),
                final(self).session_filtered_indices@,
            ),
            final(self).session_cursor == clamp_cursor(
                old(self).session_cursor as int,
                final(self).session_filtered_indices@.len() as int,
            ),
            final(self).session_rows == old(self).session_rows,
            final(self).session_filter == old(self).session_filter,
            final(self).same_windows(&*old(self)),
            final(self).same_panes(&*old(self)),
            final(self).same_launch(&*old(self)),
            final(self).same_header(&*old(self)),
    {
        self.session_filtered_indices = filter_order(self.session_filter.as_str(), &self.session_rows);
        let n = self.session_filtered_indices.len();
        if n == 0 {
            self.session_cursor = 0;
        } else if self.session_cursor > n - 1 {
            self.session_cursor = n - 1;
        }
    }

    /// Rebuild `session_filtered_indices` from the rows and the filter; clamp the cursor.
    /// The filter order is unique, so on a well-formed state the list and the cursor come
    /// back as they were.
    pub fn recompute_session_filter(&mut self)
        requires
            old(self).wf(),
        ensures
            final(self).wf(),
            final(self).session_cursor == clamp_cursor(
                old(self).session_cursor as int,
                final(self).session_filtered_indices@.len() as int,
            ),
            final(self).session_rows == old(self).session_rows,
            final(self).session_filter == old(self).session_filter,
            final(self).same_windows(&*old(self)),
            final(self).same_panes(&*old(self)),
            final(self).same_launch(&*old(self)),
            final(self).same_header(&*old(self)),
            final(self).session_filtered_indices@ == old(self).session_filtered_indices@,
            final(self).session_cursor == old(self).session_cursor,
    {
        let ghost before = self.session_filtered_indices@;
        self.recompute_session_filter_only();
        proof {
            crate::picker::lemma_filter_order_unique(
                self.session_filter@,
                row_labels(self.session_rows@),
                self.session_filtered_indices@,
                before,
            );
        }
    }

    /// Put the session cursor on the first listed session flagged current, if any.
    fn session_cursor_follow_current_in_list(&mut self)
        requires
            old(self).wf(),
        ensures
            final(self).wf(),
            match first_current_in(
                old(self).session_rows@,
                old(self).session_filtered_indices@,
            ) {
                Some(p) => final(self).session_cursor == p,
                None => final(self).session_cursor == old(self).session_cursor,
            },
            final(self).session_rows == old(self).session_rows,
            final(self).session_filtered_indices == old(self).session_filtered_indices,
            final(self).session_filter == old(self).session_filter,
            final(self).same_windows(&*old(self)),
            final(self).same_panes(&*old(self)),
            final(self).same_launch(&*old(self)),
            final(self).same_header(&*old(self)),
    {
        proof {
            lemma_filter_order_in_bounds(self.session_filter@, self.session_rows@, self.session_filtered_indices@);
        }
        match position_current_in(&self.session_filtered_indices, &self.session_rows) {
            Some(p) => {
                self.session_cursor = p;
            },
            None => {},
        }
    }

    /// After changing the session filter, keep the session labelled `keep_name` selected
    /// when it is still listed; otherwise select the first listed current session.
    pub fn recompute_session_filter_keep(&mut self, keep_name: Option<&str>)
        requires
            old(self).launch_ok(),
            old(self).rest_ok(),
        ensures
            final(self).wf(),
            LeaderState::session_refiltered(
                *old(self),
                *final(self),
                old(self).session_filter@,
                opt_str_view(keep_name),
            ),
            is_filter_order(
                final(self).session_filter@,
                row_labels(final(self).session_rows@),
                final(self).session_filtered_indices@,
            ),
            ({
                let f = final(self).session_filtered_indices@;
                let c0 = clamp_cursor(old(self).session_cursor as int, f.len() as int);
                let kept = match keep_name {
                    Some(k) => first_label_in(final(self).session_rows@, f, k@),
                    None => None,
                };
                final(self).session_cursor == match kept {
                    Some(p) => p,
                    None => match first_current_in(final(self).session_rows@, f) {
                        Some(p) => p,
                        None => c0,
                    },
                }
            }),
            final(self).session_rows == old(self).session_rows,
            final(self).session_filter == old(self).session_filter,
            final(self).same_windows(&*old(self)),
            final(self).same_panes(&*old(self)),
            final(self).same_launch(&*old(self)),
            final(self).same_header(&*old(self)),
    {
        self.recompute_session_filter_only();
        if let Some(name) = keep_name {
            match position_label_in(&self.session_filtered_indices, &self.session_rows, name) {
                Some(p) => {
                    proof {
                        let f = self.session_filtered_indices@;
                        let c = choose|c: int|
                            0 <= c < f.len() && self.session_rows@[f[c] as int].label@ == name@
                                && forall|k: int| 0 <= k < c ==> self.session_rows@[f[k] as int].label@ != name@;
                        if c < p {
                        } else if c > p {
                            assert(self.session_rows@[f[p as int] as int].label@ == name@);
                        }
                    }
                    self.session_cursor = p;
                    return ;
                },
                None => {},
            }
        }
        self.session_cursor_follow_current_in_list();
    }

    /// Open the session list picker with an empty filter.
    pub fn enter_session_list_picker(&mut self)
        requires
            old(self).wf(),
        ensures
            final(self).wf(),
            final(self).layer == Layer::SessionList,
            final(self).icon == "",
            final(self).label == "list sessions",
            final(self).view == LeaderView::SessionList,
            final(self).session_filter@.len() == 0,
            final(self).session_rows == old(self).session_rows,
            final(self).session_cursor == match first_current_in(
                final(self).session_rows@,
                final(self).session_filtered_indices@,
            ) {
                Some(p) => p,
                None => clamp_cursor(
                    old(self).session_cursor as int,
                    final(self).session_filtered_indices@.len() as int,
                ),
            },
            final(self).same_windows(&*old(self)),
            final(self).same_panes(&*old(self)),
            final(self).same_launch(&*old(self)),
            final(self).pending_input == old(self).pending_input,
            final(self).notice == old(self).notice,
    {
        self.layer = Layer::SessionList;
        self.icon = "";
        self.label = "list sessions";
        self.view = LeaderView::SessionList;
        self.session_filter = String::new();
        self.recompute_session_filter_keep(None);
        self.session_cursor_follow_current_in_list();
    }

    /// Rebuild `launch_filtered_indices` from the launcher rows and filter; clamp the cursor.
    pub fn recompute_launch_filter(&mut self)
        requires
            old(self).sessions_ok(),
            old(self).rest_ok(),
        ensures
            final(self).wf(),
            final(self).launch_cursor == clamp_cursor(
                old(self).launch_cursor as int,
                final(self).launch_filtered_indices@.len() as int,
            ),
            final(self).launch_rows == old(self).launch_rows,
            final(self).launch_filter == old(self).launch_filter,
            final(self).same_windows(&*old(self)),
            final(self).same_panes(&*old(self)),
            final(self).same_sessions(&*old(self)),
            final(self).same_header(&*old(self)),
    {
        self.launch_filtered_indices = filter_order(self.launch_filter.as_str(), &self.launch_rows);
        let n = self.launch_filtered_indices.len();
        if n == 0 {
            self.launch_cursor = 0;
        } else if self.launch_cursor > n - 1 {
            self.launch_cursor = n - 1;
        }
    }

    /// Launcher index (`id`) of the selected launcher row.
    pub fn selected_launch_index(&self) -> (r: Option<usize>)
        requires
            self.wf(),
        ensures
            match r {
                Some(i) => self.launch_cursor < self.launch_filtered_indices@.len() && i
                    == self.launch_rows@[self.launch_filtered_indices@[self.launch_cursor as int] as int].id as usize,
                None => self.launch_cursor >= self.launch_filtered_indices@.len(),
            },
    {
        if self.launch_cursor < self.launch_filtered_indices.len() {
            let i = self.launch_filtered_indices[self.launch_cursor];
            Some(self.launch_rows[i].id as usize)
        } else {
            None
        }
    }

    /// Label of the selected launcher row.
    pub fn selected_launch_label(&self) -> (r: Option<String>)
        requires
            self.wf(),
        ensures
            match r {
                Some(s) => self.launch_cursor < self.launch_filtered_indices@.len() && s@
                    == self.launch_rows@[self.launch_filtered_indices@[self.launch_cursor as int] as int].label@,
                None => self.launch_cursor >= self.launch_filtered_indices@.len(),
            },
    {
        if self.launch_cursor < self.launch_filtered_indices.len() {
            let i = self.launch_filtered_indices[self.launch_cursor];
            let l = &self.launch_rows[i].label;
            Some(string_of(chars_of(l.as_str()).as_slice()))
        } else {
            None
        }
    }

    /// After changing the launcher filter, keep the row labelled `keep_label` selected when
    /// it is still listed.
    pub fn recompute_launch_filter_keep(&mut self, keep_label: Option<&str>)
        requires
            old(self).sessions_ok(),
            old(self).rest_ok(),
        ensures
            final(self).wf(),
            LeaderState::launch_refiltered(
                *old(self),
                *final(self),
                old(self).launch_filter@,
                opt_str_view(keep_label),
            ),
            ({
                let f = final(self).launch_filtered_indices@;
                let c0 = clamp_cursor(old(self).launch_cursor as int, f.len() as int);
                final(self).launch_cursor == match keep_label {
                    Some(k) => match first_label_in(final(self).launch_rows@, f, k@) {
                        Some(p) => p,
                        None => c0,
                    },
                    None => c0,
                }
            }),
            final(self).launch_rows == old(self).launch_rows,
            final(self).launch_filter == old(self).launch_filter,
            final(self).same_windows(&*old(self)),
            final(self).same_panes(&*old(self)),
            final(self).same_sessions(&*old(self)),
            final(self).same_header(&*old(self)),
    {
        self.recompute_launch_filter();
        if let Some(label) = keep_label {
            match position_label_in(&self.launch_filtered_indices, &self.launch_rows, label) {
                Some(p) => {
                    proof {
                        let f = self.launch_filtered_indices@;
                        let c = choose|c: int|
                            0 <= c < f.len() && self.launch_rows@[f[c] as int].label@ == label@
                                && forall|k: int| 0 <= k < c ==> self.launch_rows@[f[k] as int].label@ != label@;
                        if c < p {
                        } else if c > p {
                            assert(self.launch_rows@[f[p as int] as int].label@ == label@);
                        }
                    }
                    self.launch_cursor = p;
                },
                None => {},
            }
        }
    }

    /// Open the inline prompt with `initial` as its value (cursor at the end); clears any
    /// notice.
    pub fn enter_input_mode(
        &mut self,
        prompt: &'static str,
        initial: String,
        confirm: ConfirmAction,
        allow_empty_confirm: bool,
    )
        requires
            old(self).wf(),
        ensures
            final(self).wf(),
            final(self).notice is None,
            final(self).pending_input matches Some(p) && p.prompt == prompt && p.input.value@
                == initial@ && p.input.cursor == initial@.len() && p.confirm == confirm
                && p.allow_empty_confirm == allow_empty_confirm,
            final(self).layer == old(self).layer,
            final(self).icon == old(self).icon,
            final(self).label == old(self).label,
            final(self).view == old(self).view,
            final(self).same_windows(&*old(self)),
            final(self).same_panes(&*old(self)),
            final(self).same_sessions(&*old(self)),
            final(self).same_launch(&*old(self)),
    {
        self.notice = None;
        self.pending_input = Some(
            PendingInput { prompt, input: LineInput::new(initial), confirm, allow_empty_confirm },
        );
    }

    /// Back to the root grid: filters cleared, prompt and notice closed, session pill on the
    /// attached session `here`, window pill on the active window.
    pub fn return_to_root(&mut self, here: Option<String>)
        requires
            old(self).wf(),
        ensures
            final(self).wf(),
            LeaderState::returned_to_root(*old(self), *final(self), opt_view(here)),
            final(self).layer == Layer::Root,
            final(self).icon == LEADER_HEADER_ICON,
            final(self).label == LEADER_HEADER_LABEL,
            final(self).view == LeaderView::Normal,
            final(self).pending_input is None,
            final(self).notice is None,
            final(self).session_filter@.len() == 0,
            final(self).launch_filter@.len() == 0,
            final(self).session_rows == old(self).session_rows,
            final(self).launch_rows == old(self).launch_rows,
            final(self).session_cursor == spec_strip_cursor(
                old(self).session_rows@.len() as int,
                session_follow_pos(old(self).session_rows@, opt_view(here)),
                clamp_cursor(old(self).session_cursor as int, old(self).session_rows@.len() as int),
            ),
            final(self).launch_cursor == clamp_cursor(
                old(self).launch_cursor as int,
                final(self).launch_filtered_indices@.len() as int,
            ),
            final(self).tab_rows == old(self).tab_rows,
            final(self).root_window_cursor == spec_strip_cursor(
                old(self).tab_rows@.len() as int,
                first_current(old(self).tab_rows@),
                old(self).root_window_cursor as int,
            ),
            final(self).same_panes(&*old(self)),
            final(self).kube_pill == old(self).kube_pill,
            final(self).git_pill == old(self).git_pill,
    {
        self.layer = Layer::Root;
        self.icon = LEADER_HEADER_ICON;
        self.label = LEADER_HEADER_LABEL;
        self.view = LeaderView::Normal;
        self.pending_input = None;
        self.notice = None;
        self.session_filter = String::new();
        self.recompute_session_filter_keep(None);
        let ghost rows = self.session_rows@;
        let ghost f = self.session_filtered_indices@;
        let ghost c1 = self.session_cursor;
        proof {
            assert(self.session_filter@ =~= Seq::<char>::empty());
            assert(row_labels(rows).len() == rows.len());
            lemma_empty_filter_lists_all_rows(row_labels(rows), f);
            lemma_follow_after_reset(rows, f, opt_view(here), old(self).session_cursor as int);
        }
        self.launch_filter = String::new();
        self.recompute_launch_filter_keep(None);
        self.session_cursor_follow_active(here);
        self.root_window_cursor_follow_active();
    }

    /// Back to the window actions (the root grid, headed `windows`): prompt and notice
    /// closed, window pill on the active window. The session list's filter, typed only in
    /// that list, is cleared.
    pub fn return_to_windows(&mut self)
        requires
            old(self).wf(),
        ensures
            final(self).wf(),
            final(self).layer == Layer::Root,
            final(self).icon == WINDOWS_HEADER_ICON,
            final(self).label == WINDOWS_HEADER_LABEL,
            final(self).pending_input is None,
            final(self).notice is None,
            final(self).view == old(self).view,
            final(self).kube_pill == old(self).kube_pill,
            final(self).git_pill == old(self).git_pill,
            final(self).tab_rows == old(self).tab_rows,
            final(self).root_window_cursor == spec_strip_cursor(
                old(self).tab_rows@.len() as int,
                first_current(old(self).tab_rows@),
                old(self).root_window_cursor as int,
            ),
            final(self).same_panes(&*old(self)),
            final(self).same_launch(&*old(self)),
            final(self).session_rows == old(self).session_rows,
            final(self).session_filter@.len() == 0,
            old(self).session_filter@.len() == 0 ==> final(self).same_sessions(&*old(self)),
            old(self).session_filter@.len() > 0 ==> final(self).session_cursor == match first_current_in(
                final(self).session_rows@,
                final(self).session_filtered_indices@,
            ) {
                Some(p) => p,
                None => clamp_cursor(
                    old(self).session_cursor as int,
                    final(self).session_filtered_indices@.len() as int,
                ),
            },
    {
        if self.session_filter.as_str().unicode_len() > 0 {
            self.session_filter = String::new();
            self.recompute_session_filter_keep(None);
        }
        self.layer = Layer::Root;
        self.icon = WINDOWS_HEADER_ICON;
        self.label = WINDOWS_HEADER_LABEL;
        self.pending_input = None;
        self.notice = None;
        self.root_window_cursor_follow_active();
    }
}

/// After the session filter is cleared the list is every row in order, so following the
/// first current row in the list and then the attached session lands where following the
/// attached session from the clamped cursor lands.
proof fn lemma_follow_after_reset(
    rows: Seq<LeaderWindowRow>,
    f: Seq<usize>,
    here: Option<Seq<char>>,
    c_old: int,
)
    requires
        f.len() == rows.len(),
        forall|k: int| 0 <= k < f.len() ==> #[trigger] f[k] == k,
    ensures
        spec_strip_cursor(
            rows.len() as int,
            session_follow_pos(rows, here),
            match first_current_in(rows, f) {
                Some(p) => p,
                None => clamp_cursor(c_old, f.len() as int),
            },
        ) == spec_strip_cursor(
            rows.len() as int,
            session_follow_pos(rows, here),
            clamp_cursor(c_old, rows.len() as int),
        ),
{
    if session_follow_pos(rows, here) is None {
        if first_current_in(rows, f) is Some {
            let p = first_current_in(rows, f)->Some_0;
            assert(f[p] == p);
            assert(rows[f[p] as int].current);
            assert(first_current(rows) is Some);
        }
    }
}

/// First row whose trimmed label equals `name`.
fn position_trimmed_label(rows: &Vec<LeaderWindowRow>, name: &[char]) -> (r: Option<usize>)
    ensures
        match r {
            Some(i) => first_label_trim_eq(rows@, name@) == Some(i as int),
            None => first_label_trim_eq(rows@, name@) is None,
        },
{
    let mut i: usize = 0;
    while i < rows.len()
        invariant
            0 <= i <= rows@.len(),
            forall|k: int| 0 <= k < i ==> trim_seq(rows@[k].label@) != name@,
        decreases rows.len() - i,
    {
        let t = trim_chars(chars_of(rows[i].label.as_str()).as_slice());
        if crate::text::chars_eq(t.as_slice(), name) {
            proof {
                let c = choose|c: int|
                    0 <= c < rows@.len() && trim_seq(rows@[c].label@) == name@ && forall|k: int|
                        0 <= k < c ==> trim_seq(rows@[k].label@) != name@;
                if c < i {
                } else if c > i {
                    assert(trim_seq(rows@[i as int].label@) == name@);
                }
            }
            return Some(i);
        }
        i = i + 1;
    }
    None
}

/// Window rows from `list-windows` lines: label is the name, or `window <index>`.
pub fn leader_rows_from_windows(lines: Vec<WindowLine>) -> (rows: Vec<LeaderWindowRow>)
    ensures
        window_rows_are(rows@, lines@),
{
    let mut rows: Vec<LeaderWindowRow> = Vec::new();
    let mut i: usize = 0;
    while i < lines.len()
        invariant
            0 <= i <= lines@.len(),
            window_rows_are(rows@, lines@.take(i as int)),
        decreases lines.len() - i,
    {
        let w = &lines[i];
        let name = chars_of(w.name.as_str());
        let label = if name.len() == 0 {
            let prefix = chars_of("window ");
            let digits = dec_chars(w.index);
            concat_chars(prefix.as_slice(), digits.as_slice())
        } else {
            name
        };
        rows.push(LeaderWindowRow { id: w.id, label: string_of(label.as_slice()), focused: false, current: w.active });
        i = i + 1;
        assert(window_rows_are(rows@, lines@.take(i as int))) by {
            assert forall|k: int| #![trigger rows@[k]] 0 <= k < rows@.len() implies rows@[k].id == lines@.take(i as int)[k].id by {
                assert(lines@.take(i as int)[k] == lines@[k]);
            }
        }
    }
    assert(lines@.take(lines@.len() as int) =~= lines@);
    rows
}

/// Session rows from `list-sessions` lines: `id` the position, label the trimmed name.
pub fn leader_rows_from_sessions(sessions: Vec<SessionLine>) -> (rows: Vec<LeaderWindowRow>)
    requires
        sessions@.len() <= usize::MAX,
    ensures
        session_rows_are(rows@, sessions@),
{
    let mut rows: Vec<LeaderWindowRow> = Vec::new();
    let mut i: usize = 0;
    while i < sessions.len()
        invariant
            0 <= i <= sessions@.len(),
            session_rows_are(rows@, sessions@.take(i as int)),
        decreases sessions.len() - i,
    {
        let s = &sessions[i];
        let t = trim_chars(chars_of(s.name.as_str()).as_slice());
        rows.push(LeaderWindowRow { id: i as u64, label: string_of(t.as_slice()), focused: false, current: s.active });
        i = i + 1;
        assert(session_rows_are(rows@, sessions@.take(i as int))) by {
            assert forall|k: int| #![trigger rows@[k]] 0 <= k < rows@.len() implies rows@[k].id == k by {
                assert(sessions@.take(i as int)[k] == sessions@[k]);
            }
        }
    }
    assert(sessions@.take(sessions@.len() as int) =~= sessions@);
    rows
}

/// Rows for the launcher pills (`id` = index into the launcher layer).
pub fn leader_launch_rows() -> (rows: Vec<LeaderWindowRow>)
    ensures
        launch_rows_are(rows@),
{
    let ns = nodes(Layer::Launcher);
    let mut rows: Vec<LeaderWindowRow> = Vec::new();
    let mut i: usize = 0;
    while i < ns.len()
        invariant
            ns@ == spec_nodes(Layer::Launcher),
            0 <= i <= ns@.len(),
            rows@.len() == i,
            forall|k: int|
                #![trigger rows@[k]]
                0 <= k < i ==> rows@[k].id == k && rows@[k].label@ == ns@[k].label@
                    && !rows@[k].focused && !rows@[k].current,
        decreases ns.len() - i,
    {
        let label = string_of(chars_of(ns[i].label).as_slice());
        rows.push(LeaderWindowRow { id: i as u64, label, focused: false, current: false });
        i = i + 1;
    }
    rows
}

/// The action of the launcher entry at `index`.
pub fn execute_launch_at(index: usize) -> (r: Result<ActionId, LaunchError>)
    ensures
        match r {
            Ok(a) => index < spec_nodes(Layer::Launcher).len() && spec_nodes(Layer::Launcher)[index as int].kind
                == KeyNodeKind::Action(a),
            Err(LaunchError::OutOfRange { index: i }) => i == index && index >= spec_nodes(
                Layer::Launcher,
            ).len(),
            Err(LaunchError::NotAnAction) => index < spec_nodes(Layer::Launcher).len() && !(
            spec_nodes(Layer::Launcher)[index as int].kind is Action),
        },
{
    let ns = nodes(Layer::Launcher);
    if index >= ns.len() {
        return Err(LaunchError::OutOfRange { index });
    }
    match ns[index].kind {
        KeyNodeKind::Action(a) => Ok(a),
        _ => Err(LaunchError::NotAnAction),
    }
}

/// After the session list is rebuilt keeping session `k`, that session is the one selected
/// whenever it is still listed.
pub proof fn lemma_kept_session_selected(s0: LeaderState, s1: LeaderState, filter: Seq<char>, k: Seq<char>)
    requires
        LeaderState::session_refiltered(s0, s1, filter, Some(k)),
        first_label_in(s1.session_rows@, s1.session_filtered_indices@, k) is Some,
    ensures
        s1.session_cursor < s1.session_filtered_indices@.len(),
        s1.session_rows@[s1.session_filtered_indices@[s1.session_cursor as int] as int].label@ == k,
{
    crate::picker::lemma_first_label_in_found(s1.session_rows@, s1.session_filtered_indices@, k);
}

/// After the launcher list is rebuilt keeping entry `k`, that entry is the one selected
/// whenever it is still listed.
pub proof fn lemma_kept_launch_selected(s0: LeaderState, s1: LeaderState, filter: Seq<char>, k: Seq<char>)
    requires
        LeaderState::launch_refiltered(s0, s1, filter, Some(k)),
        first_label_in(s1.launch_rows@, s1.launch_filtered_indices@, k) is Some,
    ensures
        s1.launch_cursor < s1.launch_filtered_indices@.len(),
        s1.launch_rows@[s1.launch_filtered_indices@[s1.launch_cursor as int] as int].label@ == k,
{
    crate::picker::lemma_first_label_in_found(s1.launch_rows@, s1.launch_filtered_indices@, k);
}

/// Window rows keep the windows' ids and order: a named window shows its name, an unnamed
/// one `window <index>`; the active window's row is current, no row is focused.
pub proof fn lemma_window_rows_show_windows(rows: Seq<LeaderWindowRow>, lines: Seq<WindowLine>)
    requires
        window_rows_are(rows, lines),
    ensures
        rows.len() == lines.len(),
        forall|k: int|
            0 <= k < rows.len() ==> (#[trigger] rows[k]).id == lines[k].id && rows[k].current == lines[k].active
                && !rows[k].focused && (lines[k].name@.len() > 0 ==> rows[k].label@ == lines[k].name@) && (
            lines[k].name@.len() == 0 ==> rows[k].label@ == "window "@ + dec_digits(lines[k].index as nat)),
{
}

/// Session rows are numbered by position and show the trimmed session names; the active
/// session's row is current.
pub proof fn lemma_session_rows_show_sessions(rows: Seq<LeaderWindowRow>, lines: Seq<SessionLine>)
    requires
        session_rows_are(rows, lines),
    ensures
        rows.len() == lines.len(),
        forall|k: int|
            0 <= k < rows.len() ==> (#[trigger] rows[k]).id == k && rows[k].label@ == trim_seq(lines[k].name@)
                && rows[k].current == lines[k].active && !rows[k].focused,
{
}

} // verus!
