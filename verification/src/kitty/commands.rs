//! What the kitty leader runs: `kitten @` calls, as argument lists, for each action.
use vstd::prelude::*;
use crate::text::{dec_digits, join_str, u64_str};
use crate::tmux_leader::commands::{args2, args3, args4, args5, args_view, push_arg};
use super::model::{KittyOs, WinTest, first_self_os, first_self_tab, first_win, leader_overlay_tab};

verus! {

/// One `kitten` run: its arguments, and whether hang-ups must be ignored first (the call
/// closes the leader's own window or tab, which would end this process).
#[derive(Debug)]
pub struct KittenCall {
    pub args: Vec<String>,
    pub ignore_hangup: bool,
}

pub open spec fn call_view(c: KittenCall) -> (Seq<Seq<char>>, bool) {
    (args_view(c.args@), c.ignore_hangup)
}

/// The calls of a plan, in order.
pub open spec fn calls_view(p: Seq<KittenCall>) -> Seq<(Seq<Seq<char>>, bool)> {
    p.map_values(|c: KittenCall| call_view(c))
}

/// `id:<id>`: a `--match` for one tab.
pub open spec fn id_match(id: u64) -> Seq<char> {
    "id:"@ + dec_digits(id as nat)
}

fn id_match_of(id: u64) -> (r: String)
    ensures
        r@ == id_match(id),
{
    join_str("id:", u64_str(id).as_str())
}

/// `kitten @ ls`: the OS windows, tabs and windows as JSON.
pub fn ls() -> (r: Vec<String>)
    ensures
        args_view(r@) == seq!["@"@, "ls"@],
{
    args2("@", "ls")
}

/// `kitten @ action <cmd>`.
pub fn send_action(cmd: &str) -> (r: KittenCall)
    ensures
        call_view(r) == (seq!["@"@, "action"@, cmd@], false),
{
    KittenCall { args: args3("@", "action", cmd), ignore_hangup: false }
}

/// `kitten @ send-text -- <code>`.
pub fn send_text(code: &str) -> (r: KittenCall)
    ensures
        call_view(r) == (seq!["@"@, "send-text"@, "--"@, code@], false),
{
    KittenCall { args: args4("@", "send-text", "--", code), ignore_hangup: false }
}

/// `kitten @ close-window --self`: close the leader's overlay.
pub fn close_window_self() -> (r: KittenCall)
    ensures
        call_view(r) == (seq!["@"@, "close-window"@, "--self"@], true),
{
    KittenCall { args: args3("@", "close-window", "--self"), ignore_hangup: true }
}

/// `kitten @ close-tab --self`: close the leader's tab.
pub fn close_tab_self() -> (r: KittenCall)
    ensures
        call_view(r) == (seq!["@"@, "close-tab"@, "--self"@], true),
{
    KittenCall { args: args3("@", "close-tab", "--self"), ignore_hangup: true }
}

/// `kitten @ focus-tab --match recent:1`: the previously active tab.
pub fn focus_tab_recent() -> (r: KittenCall)
    ensures
        call_view(r) == (seq!["@"@, "focus-tab"@, "--match"@, "recent:1"@], false),
{
    KittenCall { args: args4("@", "focus-tab", "--match", "recent:1"), ignore_hangup: false }
}

/// `kitten @ focus-tab --match id:<id>`.
pub fn focus_tab(id: u64) -> (r: KittenCall)
    ensures
        call_view(r) == (seq!["@"@, "focus-tab"@, "--match"@, id_match(id)], false),
{
    let m = id_match_of(id);
    KittenCall { args: args4("@", "focus-tab", "--match", m.as_str()), ignore_hangup: false }
}

/// `kitten @ close-tab --match id:<id>`.
pub fn close_tab_by_id(id: u64) -> (r: KittenCall)
    ensures
        call_view(r) == (seq!["@"@, "close-tab"@, "--match"@, id_match(id)], false),
{
    let m = id_match_of(id);
    KittenCall { args: args4("@", "close-tab", "--match", m.as_str()), ignore_hangup: false }
}

/// `kitten @ detach-tab --self --target-tab id:<id>`: move the leader's tab to the OS
/// window of tab `target_tab_id`.
pub fn detach_tab_self(target_tab_id: u64) -> (r: KittenCall)
    ensures
        call_view(r) == (
            seq!["@"@, "detach-tab"@, "--self"@, "--target-tab"@, id_match(target_tab_id)],
            false,
        ),
{
    let m = id_match_of(target_tab_id);
    KittenCall { args: args5("@", "detach-tab", "--self", "--target-tab", m.as_str()), ignore_hangup: false }
}

/// Close the overlay, then run `call`.
fn after_overlay(call: KittenCall) -> (r: Vec<KittenCall>)
    ensures
        calls_view(r@) == seq![(seq!["@"@, "close-window"@, "--self"@], true), call_view(call)],
{
    let mut p: Vec<KittenCall> = Vec::new();
    p.push(close_window_self());
    p.push(call);
    assert(calls_view(p@) =~= seq![(seq!["@"@, "close-window"@, "--self"@], true), call_view(call)]);
    p
}

/// The plan of an action that closes the overlay and sends one `kitten @ action`.
pub open spec fn action_plan(cmd: Seq<char>) -> Seq<(Seq<Seq<char>>, bool)> {
    seq![(seq!["@"@, "close-window"@, "--self"@], true), (seq!["@"@, "action"@, cmd], false)]
}

/// Open a URL of the screen (hints).
pub fn open_link() -> (r: Vec<KittenCall>)
    ensures
        calls_view(r@) == action_plan("open_url_with_hints"@),
{
    after_overlay(send_action("open_url_with_hints"))
}

/// Copy a URL of the screen (hints, to the clipboard).
pub fn copy_link() -> (r: Vec<KittenCall>)
    ensures
        calls_view(r@) == action_plan("kitten hints --program @"@),
{
    after_overlay(send_action("kitten hints --program @"))
}

/// Keys that make the shell open its command line in the editor (Ctrl-X Ctrl-E), as
/// `send-text` escapes.
pub const EDIT_COMMAND_KEYS: &'static str = "\\x18\\x05";

/// Edit the shell's command line in the editor.
pub fn edit_command() -> (r: Vec<KittenCall>)
    ensures
        calls_view(r@) == seq![
            (seq!["@"@, "close-window"@, "--self"@], true),
            (seq!["@"@, "send-text"@, "--"@, EDIT_COMMAND_KEYS@], false),
        ],
{
    after_overlay(send_text(EDIT_COMMAND_KEYS))
}

/// Show the scrollback.
pub fn open_buffer() -> (r: Vec<KittenCall>)
    ensures
        calls_view(r@) == action_plan("show_scrollback"@),
{
    after_overlay(send_action("show_scrollback"))
}

/// Rename the tab (kitty's prompt).
pub fn rename_tab() -> (r: Vec<KittenCall>)
    ensures
        calls_view(r@) == action_plan("set_tab_title"@),
{
    after_overlay(send_action("set_tab_title"))
}

/// A new tab.
pub fn new_tab() -> (r: Vec<KittenCall>)
    ensures
        calls_view(r@) == action_plan("launch --type=tab"@),
{
    after_overlay(send_action("launch --type=tab"))
}

/// Move the tab to a new OS window.
pub fn detach_tab() -> (r: Vec<KittenCall>)
    ensures
        calls_view(r@) == action_plan("detach_tab"@),
{
    after_overlay(send_action("detach_tab"))
}

/// Close the leader's tab.
pub fn close_tab() -> (r: Vec<KittenCall>)
    ensures
        calls_view(r@) == seq![(seq!["@"@, "close-tab"@, "--self"@], true)],
{
    let mut p: Vec<KittenCall> = Vec::new();
    p.push(close_tab_self());
    assert(calls_view(p@) =~= seq![(seq!["@"@, "close-tab"@, "--self"@], true)]);
    p
}

/// Back to the previously active tab.
pub fn last_tab() -> (r: Vec<KittenCall>)
    ensures
        calls_view(r@) == seq![
            (seq!["@"@, "close-window"@, "--self"@], true),
            (seq!["@"@, "focus-tab"@, "--match"@, "recent:1"@], false),
        ],
{
    after_overlay(focus_tab_recent())
}

/// Focus tab `id`.
pub fn focus_tab_from_leader(id: u64) -> (r: Vec<KittenCall>)
    ensures
        calls_view(r@) == seq![
            (seq!["@"@, "close-window"@, "--self"@], true),
            (seq!["@"@, "focus-tab"@, "--match"@, id_match(id)], false),
        ],
{
    after_overlay(focus_tab(id))
}

/// An app in an overlay in the current directory.
pub open spec fn launch_plan(app: Seq<char>) -> Seq<(Seq<Seq<char>>, bool)> {
    action_plan("launch --type=overlay --cwd=current "@ + app)
}

fn launch_app(app: &str) -> (r: Vec<KittenCall>)
    ensures
        calls_view(r@) == launch_plan(app@),
{
    let cmd = join_str("launch --type=overlay --cwd=current ", app);
    after_overlay(send_action(cmd.as_str()))
}

/// `lazygit` in an overlay.
pub fn launch_lazygit() -> (r: Vec<KittenCall>)
    ensures
        calls_view(r@) == launch_plan("lazygit"@),
{
    launch_app("lazygit")
}

/// `k9s` in an overlay.
pub fn launch_k9s() -> (r: Vec<KittenCall>)
    ensures
        calls_view(r@) == launch_plan("k9s"@),
{
    launch_app("k9s")
}

/// `lazysql` in an overlay.
pub fn launch_lazysql() -> (r: Vec<KittenCall>)
    ensures
        calls_view(r@) == launch_plan("lazysql"@),
{
    launch_app("lazysql")
}

/// `nb -i` in an overlay.
pub fn launch_nb() -> (r: Vec<KittenCall>)
    ensures
        calls_view(r@) == launch_plan("nb -i"@),
{
    launch_app("nb -i")
}

/// Ids of the tabs other than `id`, in order.
pub open spec fn ids_except(tabs: Seq<super::model::KittyTab>, id: u64) -> Seq<u64>
    decreases tabs.len(),
{
    if tabs.len() == 0 {
        Seq::empty()
    } else if tabs.last().id != id {
        ids_except(tabs.drop_last(), id).push(tabs.last().id)
    } else {
        ids_except(tabs.drop_last(), id)
    }
}

/// The other tabs of the OS window holding the leader.
pub open spec fn other_tab_ids(os: Seq<KittyOs>) -> Seq<u64> {
    match super::model::spec_overlay_tab(os) {
        None => Seq::empty(),
        Some((o, t)) => ids_except(os[o].tabs@, os[o].tabs@[t].id),
    }
}

/// `kitten @ close-tab --match id:<id>` for each id.
pub open spec fn close_tabs_plan(ids: Seq<u64>) -> Seq<(Seq<Seq<char>>, bool)> {
    ids.map_values(|id: u64| (seq!["@"@, "close-tab"@, "--match"@, id_match(id)], false))
}

/// Append `close-tab` for every tab but `self_id`.
fn push_close_tabs(p: &mut Vec<KittenCall>, tabs: &Vec<super::model::KittyTab>, self_id: u64)
    ensures
        calls_view(final(p)@) == calls_view(old(p)@) + close_tabs_plan(ids_except(tabs@, self_id)),
{
    let ghost start = calls_view(p@);
    let mut k: usize = 0;
    assert(close_tabs_plan(ids_except(tabs@.take(0), self_id)) =~= Seq::empty());
    assert(calls_view(p@) =~= start + close_tabs_plan(ids_except(tabs@.take(0), self_id)));
    while k < tabs.len()
        invariant
            0 <= k <= tabs@.len(),
            calls_view(p@) == start + close_tabs_plan(ids_except(tabs@.take(k as int), self_id)),
        decreases tabs.len() - k,
    {
        let ghost ids0 = ids_except(tabs@.take(k as int), self_id);
        assert(tabs@.take(k + 1).drop_last() =~= tabs@.take(k as int));
        assert(tabs@.take(k + 1).last() == tabs@[k as int]);
        if tabs[k].id != self_id {
            let x = tabs[k].id;
            assert(ids_except(tabs@.take(k + 1), self_id) == ids0.push(x));
            assert(close_tabs_plan(ids0.push(x)) =~= close_tabs_plan(ids0).push(
                (seq!["@"@, "close-tab"@, "--match"@, id_match(x)], false),
            ));
            let ghost before = calls_view(p@);
            let c = close_tab_by_id(x);
            let ghost cv = call_view(c);
            p.push(c);
            assert(calls_view(p@) =~= before.push(cv));
            assert(calls_view(p@) =~= start + close_tabs_plan(ids_except(tabs@.take(k + 1), self_id)));
        } else {
            assert(ids_except(tabs@.take(k + 1), self_id) == ids0);
        }
        k = k + 1;
    }
    assert(tabs@.take(tabs@.len() as int) =~= tabs@);
}

/// Close every other tab of the leader's OS window: close the overlay, then each tab (each
/// failure ignored).
pub fn close_other_tabs(os: &Vec<KittyOs>) -> (r: Vec<KittenCall>)
    ensures
        calls_view(r@) == seq![(seq!["@"@, "close-window"@, "--self"@], true)] + close_tabs_plan(
            other_tab_ids(os@),
        ),
{
    let mut p: Vec<KittenCall> = Vec::new();
    p.push(close_window_self());
    let ghost head = seq![(seq!["@"@, "close-window"@, "--self"@], true)];
    assert(calls_view(p@) =~= head);
    match leader_overlay_tab(os) {
        None => {
            assert(close_tabs_plan(other_tab_ids(os@)) =~= Seq::empty());
            assert(calls_view(p@) =~= head + close_tabs_plan(other_tab_ids(os@)));
        },
        Some((o, t)) => {
            let self_id = os[o].tabs[t].id;
            push_close_tabs(&mut p, &os[o].tabs, self_id);
        },
    }
    p
}

/// A tab that the leader's tab can be attached to: the focused (else first) tab of another
/// OS window, shown by its title.
#[derive(Debug)]
pub struct AttachTarget {
    pub title: String,
    pub tab_id: u64,
}

/// The focused tab of an OS window, else its first.
pub open spec fn target_tab(tabs: Seq<super::model::KittyTab>) -> Option<int> {
    if exists|t: int| 0 <= t < tabs.len() && tabs[t].is_focused {
        Some(
            choose|t: int|
                0 <= t < tabs.len() && tabs[t].is_focused && forall|k: int| 0 <= k < t ==> !tabs[k].is_focused,
        )
    } else if tabs.len() > 0 {
        Some(0)
    } else {
        None
    }
}

/// Attach targets of the first `n` OS windows (skipping the leader's own).
pub open spec fn attach_targets_upto(os: Seq<KittyOs>, n: int) -> Seq<(Seq<char>, u64)>
    decreases n,
{
    if n <= 0 {
        Seq::empty()
    } else {
        let prev = attach_targets_upto(os, n - 1);
        if first_self_os(os) == Some(n - 1) {
            prev
        } else {
            match target_tab(os[n - 1].tabs@) {
                Some(t) => prev.push((os[n - 1].tabs@[t].title@, os[n - 1].tabs@[t].id)),
                None => prev,
            }
        }
    }
}

pub open spec fn target_view(a: AttachTarget) -> (Seq<char>, u64) {
    (a.title@, a.tab_id)
}

fn target_tab_of(tabs: &Vec<super::model::KittyTab>) -> (r: Option<usize>)
    ensures
        match r {
            Some(t) => t < tabs@.len() && target_tab(tabs@) == Some(t as int),
            None => target_tab(tabs@) is None,
        },
{
    let mut t: usize = 0;
    while t < tabs.len()
        invariant
            0 <= t <= tabs@.len(),
            forall|k: int| 0 <= k < t ==> !(#[trigger] tabs@[k]).is_focused,
        decreases tabs.len() - t,
    {
        if tabs[t].is_focused {
            proof {
                let c = choose|c: int|
                    0 <= c < tabs@.len() && tabs@[c].is_focused && forall|k: int| 0 <= k < c ==> !tabs@[k].is_focused;
                if c < t {
                    assert(!tabs@[c].is_focused);
                } else if c > t {
                    assert(!tabs@[t as int].is_focused);
                }
            }
            return Some(t);
        }
        t = t + 1;
    }
    proof {
        if exists|j: int| 0 <= j < tabs@.len() && tabs@[j].is_focused {
            let j = choose|j: int| 0 <= j < tabs@.len() && tabs@[j].is_focused;
            assert(!tabs@[j].is_focused);
        }
    }
    if tabs.len() > 0 {
        Some(0)
    } else {
        None
    }
}

/// The tabs the leader's tab can be attached to, one per other OS window, in order.
pub fn attach_targets(os: &Vec<KittyOs>) -> (r: Vec<AttachTarget>)
    ensures
        r@.map_values(|a: AttachTarget| target_view(a)) == attach_targets_upto(os@, os@.len() as int),
{
    let focused: Option<usize> = match leader_overlay_tab(os) {
        Some((o, _t)) => Some(o),
        None => None,
    };
    let mut out: Vec<AttachTarget> = Vec::new();
    let mut i: usize = 0;
    while i < os.len()
        invariant
            0 <= i <= os@.len(),
            match focused {
                Some(o) => first_self_os(os@) == Some(o as int),
                None => first_self_os(os@) is None,
            },
            out@.map_values(|a: AttachTarget| target_view(a)) == attach_targets_upto(os@, i as int),
        decreases os.len() - i,
    {
        let skip = match focused {
            Some(o) => o == i,
            None => false,
        };
        if !skip {
            match target_tab_of(&os[i].tabs) {
                Some(t) => {
                    let ghost before = out@.map_values(|a: AttachTarget| target_view(a));
                    let tab = &os[i].tabs[t];
                    out.push(AttachTarget { title: tab.title.clone(), tab_id: tab.id });
                    assert(out@.map_values(|a: AttachTarget| target_view(a)) =~= before.push(
                        (os@[i as int].tabs@[t as int].title@, os@[i as int].tabs@[t as int].id),
                    ));
                },
                None => {},
            }
        }
        i = i + 1;
    }
    out
}

/// Attach the leader's tab to the picked target: close the overlay, then (when a target was
/// picked) detach the tab into that target's OS window.
pub fn attach_tab(targets: &Vec<AttachTarget>, picked: Option<usize>) -> (r: Vec<KittenCall>)
    requires
        picked matches Some(i) ==> i < targets@.len(),
    ensures
        calls_view(r@) == match picked {
            None => seq![(seq!["@"@, "close-window"@, "--self"@], true)],
            Some(i) => seq![
                (seq!["@"@, "close-window"@, "--self"@], true),
                (
                    seq![
                        "@"@,
                        "detach-tab"@,
                        "--self"@,
                        "--target-tab"@,
                        id_match(targets@[i as int].tab_id),
                    ],
                    false,
                ),
            ],
        },
{
    match picked {
        None => {
            let mut p: Vec<KittenCall> = Vec::new();
            p.push(close_window_self());
            assert(calls_view(p@) =~= seq![(seq!["@"@, "close-window"@, "--self"@], true)]);
            p
        },
        Some(i) => after_overlay(detach_tab_self(targets[i].tab_id)),
    }
}

} // verus!
