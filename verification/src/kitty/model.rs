//! What `kitten @ ls` reports (OS windows, tabs, windows), and what the leader reads from it:
//! the tab under the overlay, the window the user was in, its working directory.
use vstd::prelude::*;
use crate::picker::LeaderWindowRow;
use crate::text::{
    chars_of, concat_chars, dec_digits, file_name, spec_file_name, str_eq, string_of, sub_vec,
    trim_chars, trim_seq, trim_str, u64_str,
};

verus! {

/// An OS window of kitty.
#[derive(Debug)]
pub struct KittyOs {
    pub tabs: Vec<KittyTab>,
}

/// Windows that share a slot of the layout (an overlay sits after the window it covers).
#[derive(Debug)]
pub struct KittyWindowGroup {
    pub windows: Vec<u64>,
}

#[derive(Debug)]
pub struct KittyTab {
    pub id: u64,
    pub title: String,
    pub is_focused: bool,
    pub active_window_history: Vec<u64>,
    pub groups: Vec<KittyWindowGroup>,
    pub windows: Vec<KittyWindow>,
}

#[derive(Debug)]
pub struct KittyForegroundProcess {
    pub cmdline: Vec<String>,
    pub cwd: String,
}

#[derive(Debug)]
pub struct KittyWindow {
    pub id: u64,
    pub is_self: bool,
    pub is_active: bool,
    pub title: String,
    pub cwd: String,
    pub is_focused: bool,
    pub cmdline: Vec<String>,
    pub foreground_processes: Vec<KittyForegroundProcess>,
}

/// First position of `id` in `ws`.
pub open spec fn index_of(ws: Seq<u64>, id: u64) -> int {
    choose|p: int| 0 <= p < ws.len() && ws[p] == id && forall|k: int| 0 <= k < p ==> ws[k] != id
}

/// First group holding window `id`.
pub open spec fn group_of(groups: Seq<KittyWindowGroup>, id: u64) -> Option<int> {
    if exists|g: int| 0 <= g < groups.len() && groups[g].windows@.contains(id) {
        Some(
            choose|g: int|
                0 <= g < groups.len() && groups[g].windows@.contains(id) && forall|k: int|
                    0 <= k < g ==> !groups[k].windows@.contains(id),
        )
    } else {
        None
    }
}

/// The window an overlay covers: the one before it in its layout group.
pub open spec fn spec_overlay_parent(tab: KittyTab, overlay_id: u64) -> Option<u64> {
    match group_of(tab.groups@, overlay_id) {
        Some(g) => {
            let ws = tab.groups@[g].windows@;
            let p = index_of(ws, overlay_id);
            if p > 0 {
                Some(ws[p - 1])
            } else {
                None
            }
        },
        None => None,
    }
}

fn position_of(ws: &Vec<u64>, id: u64) -> (r: Option<usize>)
    ensures
        match r {
            Some(p) => p < ws@.len() && ws@.contains(id) && index_of(ws@, id) == p,
            None => !ws@.contains(id),
        },
{
    let mut p: usize = 0;
    while p < ws.len()
        invariant
            0 <= p <= ws@.len(),
            forall|k: int| 0 <= k < p ==> ws@[k] != id,
        decreases ws.len() - p,
    {
        if ws[p] == id {
            proof {
                let c = index_of(ws@, id);
                assert(0 <= c < ws@.len() && ws@[c] == id && forall|k: int| 0 <= k < c ==> ws@[k] != id) by {
                    assert(ws@[p as int] == id);
                }
                if c < p {
                    assert(ws@[c] != id);
                } else if c > p {
                    assert(ws@[p as int] != id);
                }
            }
            return Some(p);
        }
        p = p + 1;
    }
    None
}

/// Window under an overlay in the same layout group.
pub fn overlay_parent_window_id(tab: &KittyTab, overlay_id: u64) -> (r: Option<u64>)
    ensures
        r == spec_overlay_parent(*tab, overlay_id),
{
    let mut g: usize = 0;
    while g < tab.groups.len()
        invariant
            0 <= g <= tab.groups@.len(),
            forall|k: int| 0 <= k < g ==> !(#[trigger] tab.groups@[k]).windows@.contains(overlay_id),
        decreases tab.groups.len() - g,
    {
        match position_of(&tab.groups[g].windows, overlay_id) {
            Some(pos) => {
                proof {
                    let c = choose|c: int|
                        0 <= c < tab.groups@.len() && tab.groups@[c].windows@.contains(overlay_id)
                            && forall|k: int| 0 <= k < c ==> !tab.groups@[k].windows@.contains(overlay_id);
                    if c < g {
                        assert(!tab.groups@[c].windows@.contains(overlay_id));
                    } else if c > g {
                        assert(!tab.groups@[g as int].windows@.contains(overlay_id));
                    }
                }
                if pos > 0 {
                    return Some(tab.groups[g].windows[pos - 1]);
                }
                return None;
            },
            None => {},
        }
        g = g + 1;
    }
    proof {
        if exists|j: int| 0 <= j < tab.groups@.len() && tab.groups@[j].windows@.contains(overlay_id) {
            let j = choose|j: int| 0 <= j < tab.groups@.len() && tab.groups@[j].windows@.contains(overlay_id);
            assert(!tab.groups@[j].windows@.contains(overlay_id));
        }
    }
    None
}

/// Tests on a window used to pick one.
#[derive(Debug, Clone, Copy, PartialEq, Eq, Structural)]
pub enum WinTest {
    /// The leader's own overlay.
    IsSelf,
    /// Another window that kitty reports focused.
    FocusedOther,
    /// Another window that kitty reports active.
    ActiveOther,
    /// Any window but the leader's.
    Other,
    /// The window with this id, unless it is the leader's.
    OtherWithId(u64),
}

pub open spec fn win_test(t: WinTest, w: KittyWindow) -> bool {
    match t {
        WinTest::IsSelf => w.is_self,
        WinTest::FocusedOther => !w.is_self && w.is_focused,
        WinTest::ActiveOther => !w.is_self && w.is_active,
        WinTest::Other => !w.is_self,
        WinTest::OtherWithId(id) => !w.is_self && w.id == id,
    }
}

/// First window passing `t`.
pub open spec fn first_win(ws: Seq<KittyWindow>, t: WinTest) -> Option<int> {
    if exists|i: int| 0 <= i < ws.len() && win_test(t, ws[i]) {
        Some(
            choose|i: int|
                0 <= i < ws.len() && win_test(t, ws[i]) && forall|k: int| 0 <= k < i ==> !win_test(t, ws[k]),
        )
    } else {
        None
    }
}

fn first_window(ws: &Vec<KittyWindow>, t: WinTest) -> (r: Option<usize>)
    ensures
        match r {
            Some(i) => i < ws@.len() && first_win(ws@, t) == Some(i as int),
            None => first_win(ws@, t) is None,
        },
{
    let mut i: usize = 0;
    while i < ws.len()
        invariant
            0 <= i <= ws@.len(),
            forall|k: int| 0 <= k < i ==> !win_test(t, #[trigger] ws@[k]),
        decreases ws.len() - i,
    {
        let w = &ws[i];
        let pass = match t {
            WinTest::IsSelf => w.is_self,
            WinTest::FocusedOther => !w.is_self && w.is_focused,
            WinTest::ActiveOther => !w.is_self && w.is_active,
            WinTest::Other => !w.is_self,
            WinTest::OtherWithId(id) => !w.is_self && w.id == id,
        };
        if pass {
            proof {
                let c = choose|c: int|
                    0 <= c < ws@.len() && win_test(t, ws@[c]) && forall|k: int|
                        0 <= k < c ==> !win_test(t, ws@[k]);
                if c < i {
                    assert(!win_test(t, ws@[c]));
                } else if c > i {
                    assert(!win_test(t, ws@[i as int]));
                }
            }
            return Some(i);
        }
        i = i + 1;
    }
    proof {
        if exists|j: int| 0 <= j < ws@.len() && win_test(t, ws@[j]) {
            let j = choose|j: int| 0 <= j < ws@.len() && win_test(t, ws@[j]);
            assert(!win_test(t, ws@[j]));
        }
    }
    None
}

/// `id` names a window other than the leader's.
pub open spec fn is_other(ws: Seq<KittyWindow>, id: u64) -> bool {
    exists|i: int| 0 <= i < ws.len() && !ws[i].is_self && ws[i].id == id
}

fn is_other_id(ws: &Vec<KittyWindow>, id: u64) -> (b: bool)
    ensures
        b == is_other(ws@, id),
{
    let mut i: usize = 0;
    while i < ws.len()
        invariant
            0 <= i <= ws@.len(),
            forall|k: int| 0 <= k < i ==> !(!(#[trigger] ws@[k]).is_self && ws@[k].id == id),
        decreases ws.len() - i,
    {
        if !ws[i].is_self && ws[i].id == id {
            return true;
        }
        i = i + 1;
    }
    proof {
        if is_other(ws@, id) {
            let j = choose|j: int| 0 <= j < ws@.len() && !ws@[j].is_self && ws@[j].id == id;
            assert(!(!ws@[j].is_self && ws@[j].id == id));
        }
    }
    false
}

/// The most recent window in the focus history that is not the leader's.
pub open spec fn last_other_in_history(hist: Seq<u64>, ws: Seq<KittyWindow>) -> Option<u64> {
    if exists|j: int| 0 <= j < hist.len() && is_other(ws, hist[j]) {
        Some(
            hist[choose|j: int|
                0 <= j < hist.len() && is_other(ws, hist[j]) && forall|k: int|
                    j < k < hist.len() ==> !is_other(ws, hist[k])],
        )
    } else {
        None
    }
}

/// The window that reads as current (not the leader's overlay): the one the overlay
/// covers, else the focused one, else the latest in the focus history, else the active one,
/// else the first.
pub open spec fn spec_effective_current(tab: KittyTab) -> Option<u64> {
    let ws = tab.windows@;
    let under = match first_win(ws, WinTest::IsSelf) {
        Some(i) => spec_overlay_parent(tab, ws[i].id),
        None => None,
    };
    if under is Some && is_other(ws, under->Some_0) {
        under
    } else {
        match first_win(ws, WinTest::FocusedOther) {
            Some(i) => Some(ws[i].id),
            None => match last_other_in_history(tab.active_window_history@, ws) {
                Some(id) => Some(id),
                None => match first_win(ws, WinTest::ActiveOther) {
                    Some(i) => Some(ws[i].id),
                    None => match first_win(ws, WinTest::Other) {
                        Some(i) => Some(ws[i].id),
                        None => None,
                    },
                },
            },
        }
    }
}

fn last_other_history_id(hist: &Vec<u64>, ws: &Vec<KittyWindow>) -> (r: Option<u64>)
    ensures
        r == last_other_in_history(hist@, ws@),
{
    let mut j: usize = hist.len();
    while j > 0
        invariant
            0 <= j <= hist@.len(),
            forall|k: int| j <= k < hist@.len() ==> !is_other(ws@, #[trigger] hist@[k]),
        decreases j,
    {
        if is_other_id(ws, hist[j - 1]) {
            proof {
                let c = choose|c: int|
                    0 <= c < hist@.len() && is_other(ws@, hist@[c]) && forall|k: int|
                        c < k < hist@.len() ==> !is_other(ws@, hist@[k]);
                if c < j - 1 {
                    assert(!is_other(ws@, hist@[j - 1]));
                } else if c > j - 1 {
                    assert(!is_other(ws@, hist@[c]));
                }
            }
            return Some(hist[j - 1]);
        }
        j = j - 1;
    }
    proof {
        if exists|x: int| 0 <= x < hist@.len() && is_other(ws@, hist@[x]) {
            let x = choose|x: int| 0 <= x < hist@.len() && is_other(ws@, hist@[x]);
            assert(!is_other(ws@, hist@[x]));
        }
    }
    None
}

/// Which window (not the leader's overlay) reads as current.
pub fn effective_current_window_id(tab: &KittyTab) -> (r: Option<u64>)
    ensures
        r == spec_effective_current(*tab),
{
    match first_window(&tab.windows, WinTest::IsSelf) {
        Some(i) => {
            match overlay_parent_window_id(tab, tab.windows[i].id) {
                Some(under) => {
                    if is_other_id(&tab.windows, under) {
                        return Some(under);
                    }
                },
                None => {},
            }
        },
        None => {},
    }
    match first_window(&tab.windows, WinTest::FocusedOther) {
        Some(i) => {
            return Some(tab.windows[i].id);
        },
        None => {},
    }
    match last_other_history_id(&tab.active_window_history, &tab.windows) {
        Some(id) => {
            return Some(id);
        },
        None => {},
    }
    match first_window(&tab.windows, WinTest::ActiveOther) {
        Some(i) => {
            return Some(tab.windows[i].id);
        },
        None => {},
    }
    match first_window(&tab.windows, WinTest::Other) {
        Some(i) => Some(tab.windows[i].id),
        None => None,
    }
}

/// First tab holding the leader's overlay.
pub open spec fn first_self_tab(tabs: Seq<KittyTab>) -> Option<int> {
    if exists|t: int| 0 <= t < tabs.len() && first_win(tabs[t].windows@, WinTest::IsSelf) is Some {
        Some(
            choose|t: int|
                0 <= t < tabs.len() && first_win(tabs[t].windows@, WinTest::IsSelf) is Some && forall|k: int|
                    0 <= k < t ==> first_win(tabs[k].windows@, WinTest::IsSelf) is None,
        )
    } else {
        None
    }
}

/// First OS window with a tab holding the leader's overlay.
pub open spec fn first_self_os(os: Seq<KittyOs>) -> Option<int> {
    if exists|o: int| 0 <= o < os.len() && first_self_tab(os[o].tabs@) is Some {
        Some(
            choose|o: int|
                0 <= o < os.len() && first_self_tab(os[o].tabs@) is Some && forall|k: int|
                    0 <= k < o ==> first_self_tab(os[k].tabs@) is None,
        )
    } else {
        None
    }
}

/// The tab under the leader's overlay: (OS window, tab) positions.
pub open spec fn spec_overlay_tab(os: Seq<KittyOs>) -> Option<(int, int)> {
    match first_self_os(os) {
        Some(o) => Some((o, first_self_tab(os[o].tabs@)->Some_0)),
        None => None,
    }
}

fn first_tab_with_self(tabs: &Vec<KittyTab>) -> (r: Option<usize>)
    ensures
        match r {
            Some(t) => t < tabs@.len() && first_self_tab(tabs@) == Some(t as int),
            None => first_self_tab(tabs@) is None,
        },
{
    let mut t: usize = 0;
    while t < tabs.len()
        invariant
            0 <= t <= tabs@.len(),
            forall|k: int| 0 <= k < t ==> first_win((#[trigger] tabs@[k]).windows@, WinTest::IsSelf) is None,
        decreases tabs.len() - t,
    {
        if first_window(&tabs[t].windows, WinTest::IsSelf).is_some() {
            proof {
                let c = choose|c: int|
                    0 <= c < tabs@.len() && first_win(tabs@[c].windows@, WinTest::IsSelf) is Some
                        && forall|k: int| 0 <= k < c ==> first_win(tabs@[k].windows@, WinTest::IsSelf) is None;
                if c < t {
                    assert(first_win(tabs@[c].windows@, WinTest::IsSelf) is None);
                } else if c > t {
                    assert(first_win(tabs@[t as int].windows@, WinTest::IsSelf) is None);
                }
            }
            return Some(t);
        }
        t = t + 1;
    }
    proof {
        if exists|j: int| 0 <= j < tabs@.len() && first_win(tabs@[j].windows@, WinTest::IsSelf) is Some {
            let j = choose|j: int| 0 <= j < tabs@.len() && first_win(tabs@[j].windows@, WinTest::IsSelf) is Some;
            assert(first_win(tabs@[j].windows@, WinTest::IsSelf) is None);
        }
    }
    None
}

/// The tab under the leader's overlay, as (OS window, tab) positions.
pub fn leader_overlay_tab(os: &Vec<KittyOs>) -> (r: Option<(usize, usize)>)
    ensures
        match r {
            Some((o, t)) => o < os@.len() && t < os@[o as int].tabs@.len() && spec_overlay_tab(os@)
                == Some((o as int, t as int)),
            None => spec_overlay_tab(os@) is None,
        },
{
    let mut o: usize = 0;
    while o < os.len()
        invariant
            0 <= o <= os@.len(),
            forall|k: int| 0 <= k < o ==> first_self_tab((#[trigger] os@[k]).tabs@) is None,
        decreases os.len() - o,
    {
        match first_tab_with_self(&os[o].tabs) {
            Some(t) => {
                proof {
                    let c = choose|c: int|
                        0 <= c < os@.len() && first_self_tab(os@[c].tabs@) is Some && forall|k: int|
                            0 <= k < c ==> first_self_tab(os@[k].tabs@) is None;
                    if c < o {
                        assert(first_self_tab(os@[c].tabs@) is None);
                    } else if c > o {
                        assert(first_self_tab(os@[o as int].tabs@) is None);
                    }
                }
                return Some((o, t));
            },
            None => {},
        }
        o = o + 1;
    }
    proof {
        if exists|j: int| 0 <= j < os@.len() && first_self_tab(os@[j].tabs@) is Some {
            let j = choose|j: int| 0 <= j < os@.len() && first_self_tab(os@[j].tabs@) is Some;
            assert(first_self_tab(os@[j].tabs@) is None);
        }
    }
    None
}

/// The program name in a command-line word: its last path component, without the `-`
/// that login shells put before it.
pub open spec fn spec_exe_basename(arg: Seq<char>) -> Option<Seq<char>> {
    match spec_file_name(trim_seq(arg)) {
        Some(n) => Some(
            if n.len() > 0 && n[0] == '-' {
                n.drop_first()
            } else {
                n
            },
        ),
        None => None,
    }
}

/// Program name of a foreground process argument.
pub fn foreground_exe_basename(arg: &str) -> (r: Option<String>)
    ensures
        match r {
            Some(n) => spec_exe_basename(arg@) == Some(n@),
            None => spec_exe_basename(arg@) is None,
        },
{
    let t = trim_str(arg);
    match file_name(t.as_str()) {
        Some(n) => {
            let v = chars_of(n.as_str());
            if v.len() > 0 && v[0] == '-' {
                let rest = sub_vec(v.as_slice(), 1, v.len());
                assert(rest@ =~= n@.drop_first());
                Some(string_of(rest.as_slice()))
            } else {
                Some(n)
            }
        },
        None => None,
    }
}

/// The shells whose directory the cwd pill prefers.
pub open spec fn is_shell_name(n: Seq<char>) -> bool {
    n == "zsh"@ || n == "bash"@ || n == "fish"@ || n == "nu"@ || n == "sh"@ || n == "dash"@ || n
        == "ksh"@ || n == "csh"@ || n == "tcsh"@
}

pub open spec fn arg_is_shell(arg: Seq<char>) -> bool {
    spec_exe_basename(arg) matches Some(n) && is_shell_name(n)
}

/// Some word of the command line names a shell.
pub open spec fn spec_looks_like_shell(cmdline: Seq<String>) -> bool {
    exists|i: int| 0 <= i < cmdline.len() && arg_is_shell(cmdline[i]@)
}

fn is_shell(n: &str) -> (b: bool)
    ensures
        b == is_shell_name(n@),
{
    str_eq(n, "zsh") || str_eq(n, "bash") || str_eq(n, "fish") || str_eq(n, "nu") || str_eq(n, "sh")
        || str_eq(n, "dash") || str_eq(n, "ksh") || str_eq(n, "csh") || str_eq(n, "tcsh")
}

/// Does a foreground process's command line run a shell?
pub fn foreground_looks_like_shell(cmdline: &Vec<String>) -> (b: bool)
    ensures
        b == spec_looks_like_shell(cmdline@),
{
    let mut i: usize = 0;
    while i < cmdline.len()
        invariant
            0 <= i <= cmdline@.len(),
            forall|k: int| 0 <= k < i ==> !arg_is_shell((#[trigger] cmdline@[k])@),
        decreases cmdline.len() - i,
    {
        match foreground_exe_basename(cmdline[i].as_str()) {
            Some(n) => {
                if is_shell(n.as_str()) {
                    return true;
                }
            },
            None => {},
        }
        i = i + 1;
    }
    proof {
        if spec_looks_like_shell(cmdline@) {
            let j = choose|j: int| 0 <= j < cmdline@.len() && arg_is_shell(cmdline@[j]@);
            assert(!arg_is_shell(cmdline@[j]@));
        }
    }
    false
}

pub open spec fn shell_cwd_ok(p: KittyForegroundProcess) -> bool {
    trim_seq(p.cwd@).len() > 0 && spec_looks_like_shell(p.cmdline@)
}

pub open spec fn cwd_ok(p: KittyForegroundProcess) -> bool {
    trim_seq(p.cwd@).len() > 0
}

/// First foreground process passing `shell_only ? shell_cwd_ok : cwd_ok`.
pub open spec fn first_proc(ps: Seq<KittyForegroundProcess>, shell_only: bool) -> Option<int> {
    let t = |p: KittyForegroundProcess| if shell_only {
        shell_cwd_ok(p)
    } else {
        cwd_ok(p)
    };
    if exists|i: int| 0 <= i < ps.len() && t(ps[i]) {
        Some(choose|i: int| 0 <= i < ps.len() && t(ps[i]) && forall|k: int| 0 <= k < i ==> !t(ps[k]))
    } else {
        None
    }
}

/// The directory a window's user is in: a foreground shell's, else any foreground
/// process's, else the window's own (each trimmed, when not empty).
pub open spec fn spec_best_cwd(w: KittyWindow) -> Option<Seq<char>> {
    let ps = w.foreground_processes@;
    match first_proc(ps, true) {
        Some(i) => Some(trim_seq(ps[i].cwd@)),
        None => match first_proc(ps, false) {
            Some(i) => Some(trim_seq(ps[i].cwd@)),
            None => if trim_seq(w.cwd@).len() > 0 {
                Some(trim_seq(w.cwd@))
            } else {
                None
            },
        },
    }
}

fn first_process(ps: &Vec<KittyForegroundProcess>, shell_only: bool) -> (r: Option<usize>)
    ensures
        match r {
            Some(i) => i < ps@.len() && first_proc(ps@, shell_only) == Some(i as int),
            None => first_proc(ps@, shell_only) is None,
        },
{
    let ghost t = |p: KittyForegroundProcess| if shell_only {
        shell_cwd_ok(p)
    } else {
        cwd_ok(p)
    };
    let mut i: usize = 0;
    while i < ps.len()
        invariant
            0 <= i <= ps@.len(),
            t == (|p: KittyForegroundProcess| if shell_only {
                shell_cwd_ok(p)
            } else {
                cwd_ok(p)
            }),
            forall|k: int| 0 <= k < i ==> !t(#[trigger] ps@[k]),
        decreases ps.len() - i,
    {
        let c = trim_chars(chars_of(ps[i].cwd.as_str()).as_slice());
        let pass = c.len() > 0 && (!shell_only || foreground_looks_like_shell(&ps[i].cmdline));
        assert(pass == t(ps@[i as int]));
        if pass {
            proof {
                let c = choose|c: int| 0 <= c < ps@.len() && t(ps@[c]) && forall|k: int| 0 <= k < c ==> !t(ps@[k]);
                if c < i {
                    assert(!t(ps@[c]));
                } else if c > i {
                    assert(!t(ps@[i as int]));
                }
            }
            return Some(i);
        }
        i = i + 1;
    }
    proof {
        if exists|j: int| 0 <= j < ps@.len() && t(ps@[j]) {
            let j = choose|j: int| 0 <= j < ps@.len() && t(ps@[j]);
            assert(!t(ps@[j]));
        }
    }
    None
}

/// The directory the user of window `w` is in (see [`spec_best_cwd`]).
pub fn best_cwd_from_kitty_window(w: &KittyWindow) -> (r: Option<String>)
    ensures
        match r {
            Some(c) => spec_best_cwd(*w) == Some(c@),
            None => spec_best_cwd(*w) is None,
        },
{
    match first_process(&w.foreground_processes, true) {
        Some(i) => {
            return Some(trim_str(w.foreground_processes[i].cwd.as_str()));
        },
        None => {},
    }
    match first_process(&w.foreground_processes, false) {
        Some(i) => {
            return Some(trim_str(w.foreground_processes[i].cwd.as_str()));
        },
        None => {},
    }
    let c = trim_str(w.cwd.as_str());
    if c.as_str().unicode_len() > 0 {
        Some(c)
    } else {
        None
    }
}

/// A directory as shown in the cwd pill: the home directory as `~`, paths under it as
/// `~/…`.
pub open spec fn spec_display_cwd(cwd: Seq<char>, home: Option<Seq<char>>) -> Seq<char> {
    match home {
        None => cwd,
        Some(h) => if cwd == h {
            "~"@
        } else if crate::pills::strip_prefix_seq(cwd, h + "/"@) is Some {
            "~/"@ + crate::pills::strip_prefix_seq(cwd, h + "/"@)->Some_0
        } else {
            cwd
        },
    }
}

/// Shorten a directory for the cwd pill (`home` is `$HOME` when set).
pub fn format_cwd_for_display(cwd: &str, home: Option<&str>) -> (r: String)
    ensures
        r@ == spec_display_cwd(cwd@, crate::pills::opt_str(home)),
{
    match home {
        None => string_of(chars_of(cwd).as_slice()),
        Some(h) => {
            if str_eq(cwd, h) {
                return "~".to_owned();
            }
            let prefix = crate::text::join_str(h, "/");
            let cv = chars_of(cwd);
            match crate::pills::strip_prefix_chars(cv.as_slice(), prefix.as_str()) {
                Some(rest) => {
                    let r = crate::text::join_str("~/", string_of(rest.as_slice()).as_str());
                    r
                },
                None => string_of(cv.as_slice()),
            }
        },
    }
}

/// The overlay window's own directory (trimmed), when not empty.
pub open spec fn overlay_own_cwd(ws: Seq<KittyWindow>) -> Option<Seq<char>> {
    match first_win(ws, WinTest::IsSelf) {
        Some(i) => if trim_seq(ws[i].cwd@).len() > 0 {
            Some(trim_seq(ws[i].cwd@))
        } else {
            None
        },
        None => None,
    }
}

/// The directory of the shell under the overlay: that of the current window (see
/// [`spec_effective_current`] and [`spec_best_cwd`]), falling back to the overlay's own.
pub open spec fn spec_overlay_cwd(os: Seq<KittyOs>) -> Option<Seq<char>> {
    match spec_overlay_tab(os) {
        None => None,
        Some((o, t)) => {
            let tab = os[o].tabs@[t];
            let ws = tab.windows@;
            match spec_effective_current(tab) {
                None => overlay_own_cwd(ws),
                Some(cid) => match first_win(ws, WinTest::OtherWithId(cid)) {
                    None => overlay_own_cwd(ws),
                    Some(i) => match spec_best_cwd(ws[i]) {
                        Some(c) => Some(c),
                        None => overlay_own_cwd(ws),
                    },
                },
            }
        },
    }
}

fn overlay_own_cwd_of(ws: &Vec<KittyWindow>) -> (r: Option<String>)
    ensures
        match r {
            Some(c) => overlay_own_cwd(ws@) == Some(c@),
            None => overlay_own_cwd(ws@) is None,
        },
{
    match first_window(ws, WinTest::IsSelf) {
        Some(i) => {
            let c = trim_str(ws[i].cwd.as_str());
            if c.as_str().unicode_len() > 0 {
                Some(c)
            } else {
                None
            }
        },
        None => None,
    }
}

/// The raw (untilded) directory of the shell under the overlay, if kitty reports one.
pub fn overlay_effective_cwd_raw_with_os(os: &Vec<KittyOs>) -> (r: Option<String>)
    ensures
        match r {
            Some(c) => spec_overlay_cwd(os@) == Some(c@),
            None => spec_overlay_cwd(os@) is None,
        },
{
    let (o, t) = match leader_overlay_tab(os) {
        Some(p) => p,
        None => {
            return None;
        },
    };
    let tab = &os[o].tabs[t];
    match effective_current_window_id(tab) {
        None => overlay_own_cwd_of(&tab.windows),
        Some(cid) => match first_window(&tab.windows, WinTest::OtherWithId(cid)) {
            None => overlay_own_cwd_of(&tab.windows),
            Some(i) => match best_cwd_from_kitty_window(&tab.windows[i]) {
                Some(c) => Some(c),
                None => overlay_own_cwd_of(&tab.windows),
            },
        },
    }
}

/// Label of a tab pill: its title, or `tab <id>` when the title is empty.
pub open spec fn tab_label(t: KittyTab) -> Seq<char> {
    if t.title@.len() == 0 {
        "tab "@ + dec_digits(t.id as nat)
    } else {
        t.title@
    }
}

/// The tab rows of the OS window holding the overlay: one per tab, in order; the overlay's
/// tab is the current one.
pub open spec fn tab_rows_are(rows: Seq<LeaderWindowRow>, os: Seq<KittyOs>) -> bool {
    match first_self_os(os) {
        None => rows.len() == 0,
        Some(o) => {
            let tabs = os[o].tabs@;
            &&& rows.len() == tabs.len()
            &&& forall|k: int|
                #![trigger rows[k]]
                0 <= k < rows.len() ==> rows[k].id == tabs[k].id && rows[k].label@ == tab_label(tabs[k])
                    && !rows[k].focused && rows[k].current == (first_win(
                    tabs[k].windows@,
                    WinTest::IsSelf,
                ) is Some)
        },
    }
}

/// Tab rows of the OS window holding the leader's overlay.
pub fn overlay_tab_rows_with_os(os: &Vec<KittyOs>) -> (rows: Vec<LeaderWindowRow>)
    ensures
        tab_rows_are(rows@, os@),
{
    let o = match leader_overlay_tab(os) {
        Some((o, _t)) => o,
        None => {
            return Vec::new();
        },
    };
    let tabs = &os[o].tabs;
    let mut rows: Vec<LeaderWindowRow> = Vec::new();
    let mut k: usize = 0;
    while k < tabs.len()
        invariant
            o < os@.len(),
            tabs@ == os@[o as int].tabs@,
            0 <= k <= tabs@.len(),
            rows@.len() == k,
            forall|j: int|
                #![trigger rows@[j]]
                0 <= j < k ==> rows@[j].id == tabs@[j].id && rows@[j].label@ == tab_label(tabs@[j])
                    && !rows@[j].focused && rows@[j].current == (first_win(
                    tabs@[j].windows@,
                    WinTest::IsSelf,
                ) is Some),
        decreases tabs.len() - k,
    {
        let t = &tabs[k];
        let label = if t.title.as_str().unicode_len() == 0 {
            crate::text::join_str("tab ", u64_str(t.id).as_str())
        } else {
            t.title.clone()
        };
        let current = first_window(&t.windows, WinTest::IsSelf).is_some();
        rows.push(LeaderWindowRow { id: t.id, label, focused: false, current });
        k = k + 1;
    }
    rows
}

/// Some word of the window's command line is a path to a program named `leader`.
pub open spec fn spec_runs_leader(w: KittyWindow) -> bool {
    exists|i: int| 0 <= i < w.cmdline@.len() && spec_file_name(w.cmdline@[i]@) == Some("leader"@)
}

/// Does this window run the leader binary?
pub fn window_looks_like_leader_binary(w: &KittyWindow) -> (b: bool)
    ensures
        b == spec_runs_leader(*w),
{
    let mut i: usize = 0;
    while i < w.cmdline.len()
        invariant
            0 <= i <= w.cmdline@.len(),
            forall|k: int| 0 <= k < i ==> spec_file_name((#[trigger] w.cmdline@[k])@) != Some("leader"@),
        decreases w.cmdline.len() - i,
    {
        match file_name(w.cmdline[i].as_str()) {
            Some(n) => {
                if str_eq(n.as_str(), "leader") {
                    return true;
                }
            },
            None => {},
        }
        i = i + 1;
    }
    proof {
        if spec_runs_leader(*w) {
            let j = choose|j: int| 0 <= j < w.cmdline@.len() && spec_file_name(w.cmdline@[j]@) == Some("leader"@);
            assert(spec_file_name(w.cmdline@[j]@) != Some("leader"@));
        }
    }
    false
}

/// Another window of the overlay's tab already runs the leader (the shortcut was pressed
/// twice).
pub open spec fn spec_skip_duplicate(os: Seq<KittyOs>) -> bool {
    match spec_overlay_tab(os) {
        None => false,
        Some((o, t)) => {
            let ws = os[o].tabs@[t].windows@;
            exists|i: int| 0 <= i < ws.len() && !ws[i].is_self && spec_runs_leader(ws[i])
        },
    }
}

/// Whether not to start the UI because a leader already runs in this tab.
pub fn should_skip_duplicate_leader_launch_from_os(os: &Vec<KittyOs>) -> (b: bool)
    ensures
        b == spec_skip_duplicate(os@),
{
    let (o, t) = match leader_overlay_tab(os) {
        Some(p) => p,
        None => {
            return false;
        },
    };
    any_other_leader(&os[o].tabs[t].windows)
}

/// Some window other than the leader's runs the leader.
fn any_other_leader(ws: &Vec<KittyWindow>) -> (b: bool)
    ensures
        b == exists|i: int| 0 <= i < ws@.len() && !ws@[i].is_self && spec_runs_leader(ws@[i]),
{
    let mut i: usize = 0;
    while i < ws.len()
        invariant
            0 <= i <= ws@.len(),
            forall|k: int| 0 <= k < i ==> !(!(#[trigger] ws@[k]).is_self && spec_runs_leader(ws@[k])),
        decreases ws.len() - i,
    {
        if !ws[i].is_self && window_looks_like_leader_binary(&ws[i]) {
            return true;
        }
        i = i + 1;
    }
    proof {
        if exists|j: int| 0 <= j < ws@.len() && !ws@[j].is_self && spec_runs_leader(ws@[j]) {
            let j = choose|j: int| 0 <= j < ws@.len() && !ws@[j].is_self && spec_runs_leader(ws@[j]);
            assert(!(!ws@[j].is_self && spec_runs_leader(ws@[j])));
        }
    }
    false
}

/// The home directory shows as `~`, and a directory under it as `~/` followed by the rest
/// of its path.
pub proof fn lemma_display_cwd_under_home(home: Seq<char>, rest: Seq<char>)
    ensures
        spec_display_cwd(home, Some(home)) == "~"@,
        spec_display_cwd(home + "/"@ + rest, Some(home)) == "~/"@ + rest,
{
    reveal_strlit("/");
    let c = home + "/"@ + rest;
    let pre = home + "/"@;
    assert(c != home) by {
        assert(c.len() == home.len() + 1 + rest.len());
    }
    assert(c.subrange(0, pre.len() as int) =~= pre);
    assert(c.skip(pre.len() as int) =~= rest);
}

/// A window whose command line has an argument `<dir>/leader` runs the leader binary.
pub proof fn lemma_leader_arg_detected(w: KittyWindow, i: int, dir: Seq<char>)
    requires
        0 <= i < w.cmdline@.len(),
        w.cmdline@[i]@ == dir + seq!['/'] + "leader"@,
    ensures
        spec_runs_leader(w),
{
    reveal_strlit("leader");
    reveal_strlit(".");
    reveal_strlit("..");
    assert(!"leader"@.contains('/')) by {
        if "leader"@.contains('/') {
            let j = choose|j: int| 0 <= j < "leader"@.len() && "leader"@[j] == '/';
        }
    }
    assert("leader"@ != "."@) by {
        assert("leader"@.len() != "."@.len());
    }
    assert("leader"@ != ".."@) by {
        assert("leader"@.len() != ".."@.len());
    }
    crate::text::lemma_file_name_of_join(dir, "leader"@);
}

proof fn lemma_first_win_scan(ws: Seq<KittyWindow>, t: WinTest, k: int, i0: int)
    requires
        0 <= k <= i0 < ws.len(),
        win_test(t, ws[i0]),
        forall|j: int| 0 <= j < k ==> !win_test(t, #[trigger] ws[j]),
    ensures
        exists|i: int| 0 <= i < ws.len() && win_test(t, ws[i]) && forall|j: int| 0 <= j < i ==> !win_test(t, ws[j]),
    decreases i0 - k,
{
    if win_test(t, ws[k]) {
        assert(0 <= k < ws.len() && win_test(t, ws[k]) && forall|j: int| 0 <= j < k ==> !win_test(t, ws[j]));
    } else {
        lemma_first_win_scan(ws, t, k + 1, i0);
    }
}

proof fn lemma_first_win_found(ws: Seq<KittyWindow>, t: WinTest)
    ensures
        first_win(ws, t) matches Some(i) ==> 0 <= i < ws.len() && win_test(t, ws[i]),
        (exists|i: int| 0 <= i < ws.len() && win_test(t, ws[i])) ==> first_win(ws, t) is Some,
{
    if exists|i: int| 0 <= i < ws.len() && win_test(t, ws[i]) {
        let i0 = choose|i: int| 0 <= i < ws.len() && win_test(t, ws[i]);
        lemma_first_win_scan(ws, t, 0, i0);
    }
}

proof fn lemma_history_scan(hist: Seq<u64>, ws: Seq<KittyWindow>, k: int, j0: int)
    requires
        0 <= j0 <= k < hist.len(),
        is_other(ws, hist[j0]),
        forall|j: int| k < j < hist.len() ==> !is_other(ws, #[trigger] hist[j]),
    ensures
        exists|j: int|
            0 <= j < hist.len() && is_other(ws, hist[j]) && forall|m: int| j < m < hist.len() ==> !is_other(ws, hist[m]),
    decreases k - j0,
{
    if is_other(ws, hist[k]) {
        assert(0 <= k < hist.len() && is_other(ws, hist[k]) && forall|m: int| k < m < hist.len() ==> !is_other(ws, hist[m]));
    } else {
        lemma_history_scan(hist, ws, k - 1, j0);
    }
}

proof fn lemma_history_other(hist: Seq<u64>, ws: Seq<KittyWindow>)
    ensures
        last_other_in_history(hist, ws) matches Some(id) ==> is_other(ws, id),
{
    if exists|j: int| 0 <= j < hist.len() && is_other(ws, hist[j]) {
        let j0 = choose|j: int| 0 <= j < hist.len() && is_other(ws, hist[j]);
        lemma_history_scan(hist, ws, hist.len() - 1, j0);
    }
}

/// The window the leader acts for is never the leader's own overlay: it is another window
/// of the tab; and there is one exactly when the tab has a window other than the overlay.
#[verifier::rlimit(50)]
pub proof fn lemma_effective_current_is_other(tab: KittyTab)
    ensures
        spec_effective_current(tab) matches Some(id) ==> is_other(tab.windows@, id),
        spec_effective_current(tab) is Some <==> exists|i: int|
            0 <= i < tab.windows@.len() && !(#[trigger] tab.windows@[i]).is_self,
{
    let ws = tab.windows@;
    let under = match first_win(ws, WinTest::IsSelf) {
        Some(i) => spec_overlay_parent(tab, ws[i].id),
        None => None,
    };
    let fallback = match first_win(ws, WinTest::FocusedOther) {
        Some(i) => Some(ws[i].id),
        None => match last_other_in_history(tab.active_window_history@, ws) {
            Some(id) => Some(id),
            None => match first_win(ws, WinTest::ActiveOther) {
                Some(i) => Some(ws[i].id),
                None => match first_win(ws, WinTest::Other) {
                    Some(i) => Some(ws[i].id),
                    None => None,
                },
            },
        },
    };
    assert(spec_effective_current(tab) == if under is Some && is_other(ws, under->Some_0) {
        under
    } else {
        fallback
    });
    lemma_first_win_found(ws, WinTest::FocusedOther);
    lemma_first_win_found(ws, WinTest::ActiveOther);
    lemma_first_win_found(ws, WinTest::Other);
    lemma_history_other(tab.active_window_history@, ws);
    assert(fallback matches Some(id) ==> is_other(ws, id)) by {
        match first_win(ws, WinTest::FocusedOther) {
            Some(i) => {
                assert(win_test(WinTest::FocusedOther, ws[i]));
            },
            None => {
                match first_win(ws, WinTest::ActiveOther) {
                    Some(i) => {
                        assert(win_test(WinTest::ActiveOther, ws[i]));
                    },
                    None => {
                        match first_win(ws, WinTest::Other) {
                            Some(i) => {
                                assert(win_test(WinTest::Other, ws[i]));
                            },
                            None => {},
                        }
                    },
                }
            },
        }
    }
    if exists|i: int| 0 <= i < ws.len() && !(#[trigger] ws[i]).is_self {
        let i = choose|i: int| 0 <= i < ws.len() && !(#[trigger] ws[i]).is_self;
        assert(win_test(WinTest::Other, ws[i]));
        assert(fallback is Some);
    }
    match spec_effective_current(tab) {
        Some(id) => {
            assert(is_other(ws, id));
            let k = choose|k: int| 0 <= k < ws.len() && !ws[k].is_self && ws[k].id == id;
            assert(!ws[k].is_self);
        },
        None => {},
    }
}

/// The tab rows are the tabs of the leader's OS window, in order: each shows its tab's id
/// and title (`tab <id>` for an untitled tab), and is current exactly when that tab holds
/// the leader's own window.
pub proof fn lemma_tab_rows_show_tabs(rows: Seq<LeaderWindowRow>, os: Seq<KittyOs>, o: int)
    requires
        tab_rows_are(rows, os),
        first_self_os(os) == Some(o),
    ensures
        rows.len() == os[o].tabs@.len(),
        forall|k: int|
            0 <= k < rows.len() ==> (#[trigger] rows[k]).id == os[o].tabs@[k].id && (os[o].tabs@[k].title@.len() > 0
                ==> rows[k].label@ == os[o].tabs@[k].title@) && (rows[k].current <==> exists|w: int|
                0 <= w < os[o].tabs@[k].windows@.len() && (#[trigger] os[o].tabs@[k].windows@[w]).is_self),
{
    let tabs = os[o].tabs@;
    assert forall|k: int| 0 <= k < rows.len() implies (#[trigger] rows[k]).id == tabs[k].id && (tabs[k].title@.len() > 0
        ==> rows[k].label@ == tabs[k].title@) && (rows[k].current <==> exists|w: int|
        0 <= w < tabs[k].windows@.len() && (#[trigger] tabs[k].windows@[w]).is_self) by {
        let ws = tabs[k].windows@;
        lemma_first_win_found(ws, WinTest::IsSelf);
        if exists|w: int| 0 <= w < ws.len() && (#[trigger] ws[w]).is_self {
            let w = choose|w: int| 0 <= w < ws.len() && (#[trigger] ws[w]).is_self;
            assert(win_test(WinTest::IsSelf, ws[w]));
        }
        if first_win(ws, WinTest::IsSelf) is Some {
            let i = first_win(ws, WinTest::IsSelf)->Some_0;
            assert(ws[i].is_self);
        }
    }
}

} // verus!
