//! What the leader runs: the `tmux` argument vectors of each action, decided from the
//! invocation context and from what earlier queries returned.
//!
//! Every function here only builds argument lists; the caller runs them in order and stops
//! at the first failure, as the actions do.
use vstd::prelude::*;
use crate::text::{
    file_name, spec_file_name,
    chars_of, dec_digits, join_str, lines_seq, split_chars, split_on, strip_cr, string_of, trim_chars, trim_seq,
    trim_str, u64_str, views,
};
use crate::tmux::{LeaderContext, WindowLine, spec_window_target, window_target};
use super::dispatch::KeyPress;
use super::keynode::ActionId;

verus! {

/// The text of each argument.
pub open spec fn args_view(v: Seq<String>) -> Seq<Seq<char>> {
    v.map_values(|a: String| a@)
}

/// The text of each command of a plan.
pub open spec fn plan_view(p: Seq<Vec<String>>) -> Seq<Seq<Seq<char>>> {
    p.map_values(|c: Vec<String>| args_view(c@))
}

/// Append one argument.
pub fn push_arg(v: &mut Vec<String>, a: &str)
    ensures
        args_view(final(v)@) == args_view(old(v)@).push(a@),
{
    let s = string_of(chars_of(a).as_slice());
    v.push(s);
    proof {
        assert(args_view(v@) =~= args_view(old(v)@).push(a@));
    }
}

/// Append every argument of `more`.
pub fn push_all(v: &mut Vec<String>, more: &Vec<String>)
    ensures
        args_view(final(v)@) == args_view(old(v)@) + args_view(more@),
{
    let mut i: usize = 0;
    while i < more.len()
        invariant
            0 <= i <= more@.len(),
            args_view(v@) == args_view(old(v)@) + args_view(more@).take(i as int),
        decreases more.len() - i,
    {
        push_arg(v, more[i].as_str());
        i = i + 1;
        assert(args_view(v@) =~= args_view(old(v)@) + args_view(more@).take(i as int));
    }
    assert(args_view(more@).take(more@.len() as int) =~= args_view(more@));
}

/// One argument.
pub fn args1(a: &str) -> (r: Vec<String>)
    ensures
        args_view(r@) == seq![a@],
{
    let mut v: Vec<String> = Vec::new();
    push_arg(&mut v, a);
    assert(args_view(v@) =~= seq![a@]);
    v
}

/// Two arguments.
pub fn args2(a: &str, b: &str) -> (r: Vec<String>)
    ensures
        args_view(r@) == seq![a@, b@],
{
    let mut v = args1(a);
    push_arg(&mut v, b);
    assert(args_view(v@) =~= seq![a@, b@]);
    v
}

/// Three arguments.
pub fn args3(a: &str, b: &str, c: &str) -> (r: Vec<String>)
    ensures
        args_view(r@) == seq![a@, b@, c@],
{
    let mut v = args2(a, b);
    push_arg(&mut v, c);
    assert(args_view(v@) =~= seq![a@, b@, c@]);
    v
}

/// Four arguments.
pub fn args4(a: &str, b: &str, c: &str, d: &str) -> (r: Vec<String>)
    ensures
        args_view(r@) == seq![a@, b@, c@, d@],
{
    let mut v = args3(a, b, c);
    push_arg(&mut v, d);
    assert(args_view(v@) =~= seq![a@, b@, c@, d@]);
    v
}

/// Five arguments.
pub fn args5(a: &str, b: &str, c: &str, d: &str, e: &str) -> (r: Vec<String>)
    ensures
        args_view(r@) == seq![a@, b@, c@, d@, e@],
{
    let mut v = args4(a, b, c, d);
    push_arg(&mut v, e);
    assert(args_view(v@) =~= seq![a@, b@, c@, d@, e@]);
    v
}

/// `send-keys -t <pane> C-x C-e`: open the shell's command line in the editor.
pub fn edit_command(ctx: &LeaderContext) -> (r: Vec<String>)
    ensures
        args_view(r@) == seq!["send-keys"@, "-t"@, ctx.pane_id@, "C-x"@, "C-e"@],
{
    args5("send-keys", "-t", ctx.pane_id.as_str(), "C-x", "C-e")
}

/// The window name from `display-message -p '#{window_name}'` output (empty when the query
/// failed).
pub fn get_window_name(raw: &str) -> (r: String)
    ensures
        r@ == trim_seq(raw@),
{
    trim_str(raw)
}

/// `rename-window -t <invoked window> <name>`.
pub fn do_rename_window(ctx: &LeaderContext, name: &str) -> (r: Vec<String>)
    ensures
        args_view(r@) == seq![
            "rename-window"@,
            "-t"@,
            spec_window_target(ctx.session_id@, ctx.window_id),
            name@,
        ],
{
    let wt = window_target(ctx, ctx.window_id);
    args4("rename-window", "-t", wt.as_str(), name)
}

/// `new-window -a -t <invoked window> -c <cwd>`: the start of a new window placed after
/// the current one.
pub open spec fn new_window_after_current_args(ctx: LeaderContext, cwd: Seq<char>) -> Seq<Seq<char>> {
    seq!["new-window"@, "-a"@, "-t"@, spec_window_target(ctx.session_id@, ctx.window_id), "-c"@, cwd]
}

fn tmux_new_window_after_current(ctx: &LeaderContext, cwd: &str) -> (r: Vec<String>)
    ensures
        args_view(r@) == new_window_after_current_args(*ctx, cwd@),
{
    let wt = window_target(ctx, ctx.window_id);
    let mut v = args5("new-window", "-a", "-t", wt.as_str(), "-c");
    push_arg(&mut v, cwd);
    assert(args_view(v@) =~= new_window_after_current_args(*ctx, cwd@));
    v
}

/// A new window after the current one in `cwd`, named `name` (trimmed) unless that is empty.
pub open spec fn new_window_args(ctx: LeaderContext, cwd: Seq<char>, name: Seq<char>) -> Seq<Seq<char>> {
    let n = trim_seq(name);
    if n.len() == 0 {
        new_window_after_current_args(ctx, cwd)
    } else {
        new_window_after_current_args(ctx, cwd) + seq!["-n"@, n]
    }
}

fn do_new_window(ctx: &LeaderContext, cwd: &str, name: &str) -> (r: Vec<String>)
    ensures
        args_view(r@) == new_window_args(*ctx, cwd@, name@),
{
    let n = trim_str(name);
    let mut v = tmux_new_window_after_current(ctx, cwd);
    if n.as_str().unicode_len() > 0 {
        let ghost before = args_view(v@);
        push_arg(&mut v, "-n");
        push_arg(&mut v, n.as_str());
        assert(args_view(v@) =~= before + seq!["-n"@, n@]);
    }
    v
}

/// A new unnamed window after the current one, in the pane's directory `cwd`.
pub fn new_window(ctx: &LeaderContext, cwd: &str) -> (r: Vec<String>)
    ensures
        args_view(r@) == new_window_after_current_args(*ctx, cwd@),
{
    let r = do_new_window(ctx, cwd, "");
    proof {
        reveal_strlit("");
        assert(""@ =~= Seq::<char>::empty());
        assert(trim_seq(""@).len() == 0);
    }
    r
}

/// Same as [`new_window`] (the root **a** key).
pub fn add_window(ctx: &LeaderContext, cwd: &str) -> (r: Vec<String>)
    ensures
        args_view(r@) == new_window_after_current_args(*ctx, cwd@),
{
    new_window(ctx, cwd)
}

/// Notice shown instead of closing the only window of a session.
pub const CLOSE_WINDOW_ONLY_ONE_MSG: &'static str = "close window: only window in this session";

/// `select-window -l` (go back to the previous window), then `kill-window -t <invoked window>`.
pub fn perform_close_tab(ctx: &LeaderContext) -> (r: Vec<Vec<String>>)
    ensures
        plan_view(r@) == seq![
            seq!["select-window"@, "-l"@],
            seq!["kill-window"@, "-t"@, spec_window_target(ctx.session_id@, ctx.window_id)],
        ],
{
    let wt = window_target(ctx, ctx.window_id);
    let mut p: Vec<Vec<String>> = Vec::new();
    p.push(args2("select-window", "-l"));
    p.push(args3("kill-window", "-t", wt.as_str()));
    assert(plan_view(p@) =~= seq![
        seq!["select-window"@, "-l"@],
        seq!["kill-window"@, "-t"@, spec_window_target(ctx.session_id@, ctx.window_id)],
    ]);
    p
}

/// The close-window key, given how many windows the session has (or why they could not be
/// listed): a notice when it is the only one (or on error), else close it.
pub fn close_window_keypress(windows: Result<usize, String>) -> (r: KeyPress)
    ensures
        match windows {
            Err(e) => r matches KeyPress::Notice(m) && m@ == "close window: "@ + e@,
            Ok(n) => if n <= 1 {
                r matches KeyPress::Notice(m) && m@ == CLOSE_WINDOW_ONLY_ONE_MSG@
            } else {
                r == KeyPress::Execute(ActionId::CloseWindow)
            },
        },
{
    match windows {
        Err(e) => KeyPress::Notice(join_str("close window: ", e.as_str())),
        Ok(n) => {
            if n <= 1 {
                KeyPress::Notice(string_of(chars_of(CLOSE_WINDOW_ONLY_ONE_MSG).as_slice()))
            } else {
                KeyPress::Execute(ActionId::CloseWindow)
            }
        },
    }
}

/// `select-window -l`: the previously selected window.
pub fn last_tab() -> (r: Vec<String>)
    ensures
        args_view(r@) == seq!["select-window"@, "-l"@],
{
    args2("select-window", "-l")
}

/// `select-window -t $session:@id`.
pub fn focus_tab_from_leader(ctx: &LeaderContext, id: u64) -> (r: Vec<String>)
    ensures
        args_view(r@) == seq!["select-window"@, "-t"@, spec_window_target(ctx.session_id@, id)],
{
    let wt = window_target(ctx, id);
    args3("select-window", "-t", wt.as_str())
}

/// `select-pane -t <pane id>`.
pub fn focus_pane_from_leader(pane_id: &str) -> (r: Vec<String>)
    ensures
        args_view(r@) == seq!["select-pane"@, "-t"@, pane_id@],
{
    args3("select-pane", "-t", pane_id)
}

/// The pane title from `display-message -p '#{pane_title}'` output (empty when the query
/// failed).
pub fn get_pane_title(raw: &str) -> (r: String)
    ensures
        r@ == trim_seq(raw@),
{
    trim_str(raw)
}

/// `select-pane -t <pane> -T <name, trimmed>`.
pub fn do_rename_pane(ctx: &LeaderContext, name: &str) -> (r: Vec<String>)
    ensures
        args_view(r@) == seq!["select-pane"@, "-t"@, ctx.pane_id@, "-T"@, trim_seq(name@)],
{
    let n = trim_str(name);
    args5("select-pane", "-t", ctx.pane_id.as_str(), "-T", n.as_str())
}

/// `kill-window -t $session:@id` for every listed window but the invoked one, in list order
/// (each failure is ignored).
pub open spec fn close_others_plan(ctx: LeaderContext, ws: Seq<WindowLine>) -> Seq<Seq<Seq<char>>>
    decreases ws.len(),
{
    if ws.len() == 0 {
        Seq::empty()
    } else {
        let p = close_others_plan(ctx, ws.drop_last());
        if ws.last().id != ctx.window_id {
            p.push(seq!["kill-window"@, "-t"@, spec_window_target(ctx.session_id@, ws.last().id)])
        } else {
            p
        }
    }
}

/// Close every window of the session except the invoked one.
pub fn close_other_tabs(ctx: &LeaderContext, windows: &Vec<WindowLine>) -> (r: Vec<Vec<String>>)
    ensures
        plan_view(r@) == close_others_plan(*ctx, windows@),
{
    let mut p: Vec<Vec<String>> = Vec::new();
    let mut i: usize = 0;
    while i < windows.len()
        invariant
            0 <= i <= windows@.len(),
            plan_view(p@) == close_others_plan(*ctx, windows@.take(i as int)),
        decreases windows.len() - i,
    {
        assert(windows@.take(i + 1).drop_last() =~= windows@.take(i as int));
        if windows[i].id != ctx.window_id {
            let wt = window_target(ctx, windows[i].id);
            let ghost before = plan_view(p@);
            p.push(args3("kill-window", "-t", wt.as_str()));
            assert(plan_view(p@) =~= before.push(
                seq!["kill-window"@, "-t"@, spec_window_target(ctx.session_id@, windows@[i as int].id)],
            ));
        }
        i = i + 1;
    }
    assert(windows@.take(windows@.len() as int) =~= windows@);
    p
}

/// `split-window -h -t <pane>`: side by side.
pub fn split_pane_horizontal(ctx: &LeaderContext) -> (r: Vec<String>)
    ensures
        args_view(r@) == seq!["split-window"@, "-h"@, "-t"@, ctx.pane_id@],
{
    args4("split-window", "-h", "-t", ctx.pane_id.as_str())
}

/// `split-window -v -t <pane>`: top and bottom.
pub fn split_pane_vertical(ctx: &LeaderContext) -> (r: Vec<String>)
    ensures
        args_view(r@) == seq!["split-window"@, "-v"@, "-t"@, ctx.pane_id@],
{
    args4("split-window", "-v", "-t", ctx.pane_id.as_str())
}

/// `app` in a new window after the current one, in `cwd`, with the window named `name`.
pub open spec fn launch_args(ctx: LeaderContext, cwd: Seq<char>, name: Seq<char>, app: Seq<Seq<char>>) -> Seq<Seq<char>> {
    new_window_after_current_args(ctx, cwd) + seq!["-n"@, name] + app
}

fn launch_app_in_new_window(ctx: &LeaderContext, cwd: &str, window_name: &str, app: &Vec<String>) -> (r: Vec<String>)
    ensures
        args_view(r@) == launch_args(*ctx, cwd@, window_name@, args_view(app@)),
{
    let mut v = tmux_new_window_after_current(ctx, cwd);
    let ghost base = args_view(v@);
    push_arg(&mut v, "-n");
    push_arg(&mut v, window_name);
    assert(args_view(v@) =~= base + seq!["-n"@, window_name@]);
    push_all(&mut v, app);
    v
}

/// The caffeinate launcher's shell line.
pub const CAFFEINATE_SCRIPT: &'static str = "echo \"caffeinate -i: idle sleep disabled until this pane exits (Ctrl+C or close window).\"; exec caffeinate -i";

/// macOS: print a line, then `caffeinate -i` until the pane exits.
pub fn launch_caffeinate(ctx: &LeaderContext, cwd: &str) -> (r: Vec<String>)
    ensures
        args_view(r@) == launch_args(*ctx, cwd@, "caffeinate"@, seq!["sh"@, "-c"@, CAFFEINATE_SCRIPT@]),
{
    let app = args3("sh", "-c", CAFFEINATE_SCRIPT);
    launch_app_in_new_window(ctx, cwd, "caffeinate", &app)
}

/// `lazygit` in a new window.
pub fn launch_lazygit(ctx: &LeaderContext, cwd: &str) -> (r: Vec<String>)
    ensures
        args_view(r@) == launch_args(*ctx, cwd@, "lazygit"@, seq!["lazygit"@]),
{
    let app = args1("lazygit");
    launch_app_in_new_window(ctx, cwd, "lazygit", &app)
}

/// `k9s` in a new window.
pub fn launch_k9s(ctx: &LeaderContext, cwd: &str) -> (r: Vec<String>)
    ensures
        args_view(r@) == launch_args(*ctx, cwd@, "k9s"@, seq!["k9s"@]),
{
    let app = args1("k9s");
    launch_app_in_new_window(ctx, cwd, "k9s", &app)
}

/// `lazysql` in a new window.
pub fn launch_lazysql(ctx: &LeaderContext, cwd: &str) -> (r: Vec<String>)
    ensures
        args_view(r@) == launch_args(*ctx, cwd@, "lazysql"@, seq!["lazysql"@]),
{
    let app = args1("lazysql");
    launch_app_in_new_window(ctx, cwd, "lazysql", &app)
}

/// `nb -i` (through `sh -c`) in a new window.
pub fn launch_nb(ctx: &LeaderContext, cwd: &str) -> (r: Vec<String>)
    ensures
        args_view(r@) == launch_args(*ctx, cwd@, "nb"@, seq!["sh"@, "-c"@, "nb -i"@]),
{
    let app = args3("sh", "-c", "nb -i");
    launch_app_in_new_window(ctx, cwd, "nb", &app)
}

/// `nvim` in a new window.
pub fn launch_nvim(ctx: &LeaderContext, cwd: &str) -> (r: Vec<String>)
    ensures
        args_view(r@) == launch_args(*ctx, cwd@, "nvim"@, seq!["nvim"@]),
{
    let app = args1("nvim");
    launch_app_in_new_window(ctx, cwd, "nvim", &app)
}

/// The wiki in a new window: in `$HOME/wiki`, window `wiki`, running `zsh -ic wiki`.
pub fn launch_wiki(ctx: &LeaderContext, home: &str) -> (r: Vec<String>)
    ensures
        args_view(r@) == new_window_after_current_args(*ctx, home@ + "/wiki"@) + seq![
            "-n"@,
            "wiki"@,
            "zsh"@,
            "-ic"@,
            "wiki"@,
        ],
{
    let dir = join_str(home, "/wiki");
    let mut v = tmux_new_window_after_current(ctx, dir.as_str());
    let ghost base = args_view(v@);
    let tail = args5("-n", "wiki", "zsh", "-ic", "wiki");
    push_all(&mut v, &tail);
    v
}

/// `switch-client -l`: the previously attached session.
pub fn last_session() -> (r: Vec<String>)
    ensures
        args_view(r@) == seq!["switch-client"@, "-l"@],
{
    args2("switch-client", "-l")
}

/// `detach-client`: leave the sessions running in the background.
pub fn detach_session() -> (r: Vec<String>)
    ensures
        args_view(r@) == seq!["detach-client"@],
{
    args1("detach-client")
}

/// How a new session is made: an unnamed one (tmux picks the name), or one named after the
/// trimmed input.
#[derive(Debug)]
pub enum NewSessionPlan {
    /// Run [`unnamed_session_args`], then [`switch_to_unnamed_session`] with its output.
    Unnamed,
    /// Ask `has-session -t <name>`, then run [`named_session_plan`] with the answer.
    Named(String),
}

/// Why no session could be switched to.
#[derive(Debug, Clone, Copy, PartialEq, Eq, Structural)]
pub enum SessionError {
    /// `new-session -P` printed no name.
    EmptySessionName,
    /// The pane's directory has no last component to name the session after.
    NoFolderName,
}

/// A new session from the prompt value `name` (trimmed; empty makes an unnamed one).
pub fn do_new_session(name: &str) -> (r: NewSessionPlan)
    ensures
        trim_seq(name@).len() == 0 ==> r matches NewSessionPlan::Unnamed,
        trim_seq(name@).len() > 0 ==> (r matches NewSessionPlan::Named(n) && n@ == trim_seq(name@)),
{
    let n = trim_str(name);
    if n.as_str().unicode_len() == 0 {
        NewSessionPlan::Unnamed
    } else {
        NewSessionPlan::Named(n)
    }
}

/// A new unnamed session (the sessions **a** key).
pub fn new_session() -> (r: NewSessionPlan)
    ensures
        r matches NewSessionPlan::Unnamed,
{
    let r = do_new_session("");
    proof {
        reveal_strlit("");
        assert(""@ =~= Seq::<char>::empty());
        assert(trim_seq(""@).len() == 0);
    }
    r
}

/// Same as [`new_session`].
pub fn add_session() -> (r: NewSessionPlan)
    ensures
        r matches NewSessionPlan::Unnamed,
{
    new_session()
}

/// `new-session -d -P -F '#{session_name}'`: create a detached session, print its name.
pub fn unnamed_session_args() -> (r: Vec<String>)
    ensures
        args_view(r@) == seq!["new-session"@, "-d"@, "-P"@, "-F"@, "#{session_name}"@],
{
    args5("new-session", "-d", "-P", "-F", "#{session_name}")
}

/// `switch-client -t <name>` to the session that `new-session -P` printed.
pub fn switch_to_unnamed_session(raw: &str) -> (r: Result<Vec<String>, SessionError>)
    ensures
        trim_seq(raw@).len() == 0 <==> r matches Err(SessionError::EmptySessionName),
        trim_seq(raw@).len() > 0 ==> (r matches Ok(v) && args_view(v@) == seq![
            "switch-client"@,
            "-t"@,
            trim_seq(raw@),
        ]),
{
    let n = trim_str(raw);
    if n.as_str().unicode_len() == 0 {
        Err(SessionError::EmptySessionName)
    } else {
        Ok(args3("switch-client", "-t", n.as_str()))
    }
}

/// Create the session `name` unless it exists, then switch the client to it.
pub fn named_session_plan(name: &str, present: bool) -> (r: Vec<Vec<String>>)
    ensures
        plan_view(r@) == if present {
            seq![seq!["switch-client"@, "-t"@, name@]]
        } else {
            seq![seq!["new-session"@, "-d"@, "-s"@, name@], seq!["switch-client"@, "-t"@, name@]]
        },
{
    let mut p: Vec<Vec<String>> = Vec::new();
    if !present {
        p.push(args4("new-session", "-d", "-s", name));
    }
    p.push(args3("switch-client", "-t", name));
    if present {
        assert(plan_view(p@) =~= seq![seq!["switch-client"@, "-t"@, name@]]);
    } else {
        assert(plan_view(p@) =~= seq![
            seq!["new-session"@, "-d"@, "-s"@, name@],
            seq!["switch-client"@, "-t"@, name@],
        ]);
    }
    p
}

/// The session name from `display-message -p '#{session_name}'` (empty when the query
/// failed).
pub fn get_session_name(raw: &str) -> (r: String)
    ensures
        r@ == trim_seq(raw@),
{
    trim_str(raw)
}

/// `rename-session -t <session id> <name>`.
pub fn do_rename_session(ctx: &LeaderContext, name: &str) -> (r: Vec<String>)
    ensures
        args_view(r@) == seq!["rename-session"@, "-t"@, ctx.session_id@, name@],
{
    args4("rename-session", "-t", ctx.session_id.as_str(), name)
}

/// The session name to take from the pane's directory: its last component, trimmed, when
/// that is not empty.
pub open spec fn folder_name(cwd: Seq<char>) -> Option<Seq<char>> {
    match spec_file_name(trim_seq(cwd)) {
        Some(f) => if trim_seq(f).len() > 0 {
            Some(trim_seq(f))
        } else {
            None
        },
        None => None,
    }
}

/// Rename the session after the pane's directory `cwd` (its last component, trimmed).
pub fn rename_session_to_pane_folder(ctx: &LeaderContext, cwd: &str) -> (r: Result<Vec<String>, SessionError>)
    ensures
        match folder_name(cwd@) {
            Some(f) => r matches Ok(v) && args_view(v@) == seq!["rename-session"@, "-t"@, ctx.session_id@, f],
            None => r matches Err(SessionError::NoFolderName),
        },
{
    let t = trim_str(cwd);
    match file_name(t.as_str()) {
        Some(f) => {
            let n = trim_str(f.as_str());
            if n.as_str().unicode_len() > 0 {
                Ok(do_rename_session(ctx, n.as_str()))
            } else {
                Err(SessionError::NoFolderName)
            }
        },
        None => Err(SessionError::NoFolderName),
    }
}

/// First name in `names` other than `cur`.
pub open spec fn first_other(names: Seq<Seq<char>>, cur: Seq<char>) -> Option<Seq<char>> {
    if exists|i: int| 0 <= i < names.len() && names[i] != cur {
        Some(
            names[choose|i: int|
                0 <= i < names.len() && names[i] != cur && forall|k: int| 0 <= k < i ==> names[k] == cur],
        )
    } else {
        None
    }
}

/// Index of the first name other than `cur`.
fn find_other(all: &Vec<String>, cur: &str) -> (r: Option<usize>)
    ensures
        match r {
            Some(i) => i < all@.len() && first_other(args_view(all@), cur@) == Some(all@[i as int]@),
            None => first_other(args_view(all@), cur@) is None,
        },
{
    let ghost names = args_view(all@);
    let mut i: usize = 0;
    while i < all.len()
        invariant
            names == args_view(all@),
            0 <= i <= all@.len(),
            forall|k: int| 0 <= k < i ==> #[trigger] names[k] == cur@,
        decreases all.len() - i,
    {
        assert(names[i as int] == all@[i as int]@);
        if !crate::text::str_eq(all[i].as_str(), cur) {
            proof {
                assert(names[i as int] != cur@);
                let c = choose|c: int|
                    0 <= c < names.len() && names[c] != cur@ && forall|k: int| 0 <= k < c ==> names[k] == cur@;
                if c < i {
                    assert(names[c] == cur@);
                } else if c > i {
                    assert(names[i as int] == cur@);
                }
            }
            return Some(i);
        }
        i = i + 1;
    }
    proof {
        if exists|j: int| 0 <= j < names.len() && names[j] != cur@ {
            let j = choose|j: int| 0 <= j < names.len() && names[j] != cur@;
            assert(names[j] == cur@);
        }
    }
    None
}

/// Kill the current session `cur`, first switching the client to the first other session
/// when there is one.
pub fn kill_session(cur: &str, all: &Vec<String>) -> (r: Vec<Vec<String>>)
    ensures
        plan_view(r@) == match first_other(args_view(all@), cur@) {
            Some(o) => seq![seq!["switch-client"@, "-t"@, o], seq!["kill-session"@, "-t"@, cur@]],
            None => seq![seq!["kill-session"@, "-t"@, cur@]],
        },
{
    let mut p: Vec<Vec<String>> = Vec::new();
    match find_other(all, cur) {
        Some(i) => {
            p.push(args3("switch-client", "-t", all[i].as_str()));
            p.push(args3("kill-session", "-t", cur));
            assert(plan_view(p@) =~= seq![
                seq!["switch-client"@, "-t"@, all@[i as int]@],
                seq!["kill-session"@, "-t"@, cur@],
            ]);
        },
        None => {
            p.push(args3("kill-session", "-t", cur));
            assert(plan_view(p@) =~= seq![seq!["kill-session"@, "-t"@, cur@]]);
        },
    }
    p
}

/// `kill-session -t <name>` for every name other than `cur`, in order (each failure ignored).
pub open spec fn kill_others_plan(names: Seq<Seq<char>>, cur: Seq<char>) -> Seq<Seq<Seq<char>>>
    decreases names.len(),
{
    if names.len() == 0 {
        Seq::empty()
    } else {
        let p = kill_others_plan(names.drop_last(), cur);
        if names.last() != cur {
            p.push(seq!["kill-session"@, "-t"@, names.last()])
        } else {
            p
        }
    }
}

/// Kill every session but the current one `cur`.
pub fn kill_other_sessions(cur: &str, names: &Vec<String>) -> (r: Vec<Vec<String>>)
    ensures
        plan_view(r@) == kill_others_plan(args_view(names@), cur@),
{
    let ghost nv = args_view(names@);
    let mut p: Vec<Vec<String>> = Vec::new();
    let mut i: usize = 0;
    while i < names.len()
        invariant
            nv == args_view(names@),
            0 <= i <= names@.len(),
            plan_view(p@) == kill_others_plan(nv.take(i as int), cur@),
        decreases names.len() - i,
    {
        assert(nv.take(i + 1).drop_last() =~= nv.take(i as int));
        assert(nv.take(i + 1).last() == names@[i as int]@);
        if !crate::text::str_eq(names[i].as_str(), cur) {
            let ghost before = plan_view(p@);
            p.push(args3("kill-session", "-t", names[i].as_str()));
            assert(plan_view(p@) =~= before.push(seq!["kill-session"@, "-t"@, names@[i as int]@]));
        }
        i = i + 1;
    }
    assert(nv.take(names@.len() as int) =~= nv);
    p
}

/// `switch-client -t <name>`.
pub fn focus_session_from_leader(name: &str) -> (r: Vec<String>)
    ensures
        args_view(r@) == seq!["switch-client"@, "-t"@, name@],
{
    args3("switch-client", "-t", name)
}

/// Move the invoked window to session `name`, then switch the client there.
pub fn attach_session_from_leader(ctx: &LeaderContext, name: &str) -> (r: Vec<Vec<String>>)
    ensures
        plan_view(r@) == seq![
            seq!["move-window"@, "-s"@, spec_window_target(ctx.session_id@, ctx.window_id), "-t"@, name@],
            seq!["switch-client"@, "-t"@, name@],
        ],
{
    let wt = window_target(ctx, ctx.window_id);
    let mut p: Vec<Vec<String>> = Vec::new();
    p.push(args5("move-window", "-s", wt.as_str(), "-t", name));
    p.push(args3("switch-client", "-t", name));
    assert(plan_view(p@) =~= seq![
        seq!["move-window"@, "-s"@, spec_window_target(ctx.session_id@, ctx.window_id), "-t"@, name@],
        seq!["switch-client"@, "-t"@, name@],
    ]);
    p
}

/// Sessions other than the one the leader's pane is in (`here`), in order: where **A** can
/// move the window.
pub open spec fn other_sessions(all: Seq<Seq<char>>, here: Seq<char>) -> Seq<Seq<char>>
    decreases all.len(),
{
    if all.len() == 0 {
        all
    } else if all.last() == here {
        other_sessions(all.drop_last(), here)
    } else {
        other_sessions(all.drop_last(), here).push(all.last())
    }
}

/// The sessions a window can be moved to: every listed session but `here`.
pub fn other_session_names_for_move_window(here: &str, all: &Vec<String>) -> (r: Vec<String>)
    ensures
        args_view(r@) == other_sessions(args_view(all@), here@),
{
    let ghost nv = args_view(all@);
    let mut out: Vec<String> = Vec::new();
    let mut i: usize = 0;
    while i < all.len()
        invariant
            nv == args_view(all@),
            0 <= i <= all@.len(),
            args_view(out@) == other_sessions(nv.take(i as int), here@),
        decreases all.len() - i,
    {
        assert(nv.take(i + 1).drop_last() =~= nv.take(i as int));
        assert(nv.take(i + 1).last() == all@[i as int]@);
        if !crate::text::str_eq(all[i].as_str(), here) {
            push_arg(&mut out, all[i].as_str());
        }
        i = i + 1;
    }
    assert(nv.take(all@.len() as int) =~= nv);
    out
}

/// Move the invoked window to the picked session (`names[picked]`, as `<name>:`), then
/// switch there; `None` when nothing has that index.
pub fn attach_tab(ctx: &LeaderContext, names: &Vec<String>, picked: usize) -> (r: Option<Vec<Vec<String>>>)
    ensures
        picked >= names@.len() <==> r is None,
        r matches Some(p) ==> plan_view(p@) == seq![
            seq![
                "move-window"@,
                "-s"@,
                spec_window_target(ctx.session_id@, ctx.window_id),
                "-t"@,
                names@[picked as int]@ + ":"@,
            ],
            seq!["switch-client"@, "-t"@, names@[picked as int]@],
        ],
{
    if picked >= names.len() {
        return None;
    }
    let name = names[picked].as_str();
    let wt = window_target(ctx, ctx.window_id);
    let dst = join_str(name, ":");
    let mut p: Vec<Vec<String>> = Vec::new();
    p.push(args5("move-window", "-s", wt.as_str(), "-t", dst.as_str()));
    p.push(args3("switch-client", "-t", name));
    assert(plan_view(p@) =~= seq![
        seq![
            "move-window"@,
            "-s"@,
            spec_window_target(ctx.session_id@, ctx.window_id),
            "-t"@,
            names@[picked as int]@ + ":"@,
        ],
        seq!["switch-client"@, "-t"@, names@[picked as int]@],
    ]);
    Some(p)
}

/// Largest window index.
pub open spec fn max_index(ws: Seq<WindowLine>) -> u64
    decreases ws.len(),
{
    if ws.len() <= 1 {
        if ws.len() == 1 {
            ws[0].index
        } else {
            0
        }
    } else {
        let m = max_index(ws.drop_last());
        if ws.last().index > m {
            ws.last().index
        } else {
            m
        }
    }
}

/// `new-window -a -t $session:<last index> -c <cwd>`: a new window at the end of the
/// session's window list; `None` when the session has no windows.
pub fn tmux_new_window_after_session_last(ctx: &LeaderContext, windows: &Vec<WindowLine>, cwd: &str) -> (r: Option<Vec<String>>)
    ensures
        windows@.len() == 0 <==> r is None,
        r matches Some(v) ==> args_view(v@) == seq![
            "new-window"@,
            "-a"@,
            "-t"@,
            ctx.session_id@ + ":"@ + dec_digits(max_index(windows@) as nat),
            "-c"@,
            cwd@,
        ],
{
    if windows.len() == 0 {
        return None;
    }
    let mut m: u64 = windows[0].index;
    let mut i: usize = 1;
    assert(windows@.take(1).drop_last() =~= Seq::<WindowLine>::empty());
    while i < windows.len()
        invariant
            1 <= i <= windows@.len(),
            m == max_index(windows@.take(i as int)),
        decreases windows.len() - i,
    {
        assert(windows@.take(i + 1).drop_last() =~= windows@.take(i as int));
        if windows[i].index > m {
            m = windows[i].index;
        }
        i = i + 1;
    }
    assert(windows@.take(windows@.len() as int) =~= windows@);
    let a = join_str(ctx.session_id.as_str(), ":");
    let d = u64_str(m);
    let t = join_str(a.as_str(), d.as_str());
    let mut v = args5("new-window", "-a", "-t", t.as_str(), "-c");
    push_arg(&mut v, cwd);
    assert(args_view(v@) =~= seq![
        "new-window"@,
        "-a"@,
        "-t"@,
        ctx.session_id@ + ":"@ + dec_digits(max_index(windows@) as nat),
        "-c"@,
        cwd@,
    ]);
    Some(v)
}

/// Editor command for the scrollback window: no gutter, no wrap, read-only, at the end.
pub const NVIM_SCROLLBACK_CMD: &'static str = "+setlocal nonumber relativenumber signcolumn=no foldcolumn=0 statuscolumn= nowrap nomodifiable | silent! normal! G";

/// Open the scrollback snapshot at `path` in `nvim`, in a new window `scrollback` at the
/// end of the session's window list; `None` when the session has no windows.
pub fn open_scrollback(ctx: &LeaderContext, windows: &Vec<WindowLine>, cwd: &str, path: &str) -> (r: Option<Vec<String>>)
    ensures
        windows@.len() == 0 <==> r is None,
        r matches Some(v) ==> args_view(v@) == seq![
            "new-window"@,
            "-a"@,
            "-t"@,
            ctx.session_id@ + ":"@ + dec_digits(max_index(windows@) as nat),
            "-c"@,
            cwd@,
            "-n"@,
            "scrollback"@,
            "nvim"@,
            NVIM_SCROLLBACK_CMD@,
            path@,
        ],
{
    match tmux_new_window_after_session_last(ctx, windows, cwd) {
        None => None,
        Some(mut v) => {
            let ghost base = args_view(v@);
            let tail = args5("-n", "scrollback", "nvim", NVIM_SCROLLBACK_CMD, path);
            push_all(&mut v, &tail);
            assert(args_view(v@) =~= seq![
                "new-window"@,
                "-a"@,
                "-t"@,
                ctx.session_id@ + ":"@ + dec_digits(max_index(windows@) as nat),
                "-c"@,
                cwd@,
                "-n"@,
                "scrollback"@,
                "nvim"@,
                NVIM_SCROLLBACK_CMD@,
                path@,
            ]);
            Some(v)
        },
    }
}

/// Editor command for the buffer pane: no gutter, file-tree panels closed.
pub const NVIM_BUFFER_UI: &'static str = "autocmd VimEnter * ++once setlocal nonumber norelativenumber signcolumn=no foldcolumn=0 | silent! NvimTreeClose | silent! Neotree close | silent! NeoTree close";

/// Open the scrollback snapshot at `path` in `nvim` in a new pane below the target pane
/// (`split-window -v`: top and bottom).
pub fn open_buffer(ctx: &LeaderContext, cwd: &str, path: &str) -> (r: Vec<String>)
    ensures
        args_view(r@) == seq![
            "split-window"@,
            "-v"@,
            "-t"@,
            ctx.pane_id@,
            "-c"@,
            cwd@,
            "nvim"@,
            "-c"@,
            NVIM_BUFFER_UI@,
            path@,
        ],
{
    let mut v = args5("split-window", "-v", "-t", ctx.pane_id.as_str(), "-c");
    let tail = args5(cwd, "nvim", "-c", NVIM_BUFFER_UI, path);
    push_all(&mut v, &tail);
    assert(args_view(v@) =~= seq![
        "split-window"@,
        "-v"@,
        "-t"@,
        ctx.pane_id@,
        "-c"@,
        cwd@,
        "nvim"@,
        "-c"@,
        NVIM_BUFFER_UI@,
        path@,
    ]);
    v
}

/// A line holding only whitespace.
pub open spec fn blank_line(l: Seq<char>) -> bool {
    trim_seq(l).len() == 0
}

/// `start` is where the text begins: every line before it is blank, and the line at it
/// (if any) is not.
pub open spec fn body_start(ls: Seq<Seq<char>>, start: int) -> bool {
    &&& 0 <= start <= ls.len()
    &&& forall|k: int| 0 <= k < start ==> blank_line(#[trigger] ls[k])
    &&& (start == ls.len() || !blank_line(ls[start]))
}

/// `end` is where the text stops (after `start`): every line from it on is blank, and the
/// line before it (if after `start`) is not.
pub open spec fn body_end(ls: Seq<Seq<char>>, start: int, end: int) -> bool {
    &&& start <= end <= ls.len()
    &&& forall|k: int| end <= k < ls.len() ==> blank_line(#[trigger] ls[k])
    &&& (end == start || !blank_line(ls[end - 1]))
}

/// Lines joined with `\n` between them.
pub open spec fn join_lines(ls: Seq<Seq<char>>) -> Seq<char>
    decreases ls.len(),
{
    if ls.len() == 0 {
        Seq::empty()
    } else if ls.len() == 1 {
        ls[0]
    } else {
        join_lines(ls.drop_last()) + "\n"@ + ls.last()
    }
}

/// `capture-pane` text without its leading and trailing blank lines (the pane's padding):
/// the lines in between joined with `\n`, with a final `\n` kept when the text ended with
/// one; empty when every line is blank.
pub open spec fn trimmed_capture(text: Seq<char>) -> Seq<char> {
    let ls = lines_seq(text);
    let start = choose|s: int| body_start(ls, s);
    let end = choose|e: int| body_end(ls, start, e);
    if start >= end {
        Seq::empty()
    } else if text.len() > 0 && text.last() == '\n' {
        join_lines(ls.subrange(start, end)) + "\n"@
    } else {
        join_lines(ls.subrange(start, end))
    }
}

proof fn lemma_body_start_unique(ls: Seq<Seq<char>>, a: int, b: int)
    requires
        body_start(ls, a),
        body_start(ls, b),
    ensures
        a == b,
{
    if a < b {
        assert(blank_line(ls[a]));
    } else if b < a {
        assert(blank_line(ls[b]));
    }
}

proof fn lemma_body_end_unique(ls: Seq<Seq<char>>, s: int, a: int, b: int)
    requires
        body_end(ls, s, a),
        body_end(ls, s, b),
    ensures
        a == b,
{
    if a < b {
        assert(blank_line(ls[b - 1]));
    } else if b < a {
        assert(blank_line(ls[a - 1]));
    }
}

/// Every line that the trimmed text keeps and follows with a line break is free of a final
/// `\r` (`str::lines` would drop such a `\r` when the trimmed text is read again).
pub open spec fn trim_keeps_cr_free(text: Seq<char>) -> bool {
    let ls = lines_seq(text);
    let start = choose|s: int| body_start(ls, s);
    let end = choose|e: int| body_end(ls, start, e);
    forall|k: int|
        start <= k < end && (k < end - 1 || (text.len() > 0 && text.last() == '\n')) ==> strip_cr(
            #[trigger] ls[k],
        ) == ls[k]
}

proof fn lemma_body_start_exists(ls: Seq<Seq<char>>, i: int)
    requires
        0 <= i <= ls.len(),
        forall|k: int| 0 <= k < i ==> blank_line(#[trigger] ls[k]),
    ensures
        exists|s: int| body_start(ls, s),
    decreases ls.len() - i,
{
    if i == ls.len() || !blank_line(ls[i]) {
        assert(body_start(ls, i));
    } else {
        lemma_body_start_exists(ls, i + 1);
    }
}

proof fn lemma_body_end_exists(ls: Seq<Seq<char>>, start: int, e: int)
    requires
        0 <= start <= e <= ls.len(),
        forall|k: int| e <= k < ls.len() ==> blank_line(#[trigger] ls[k]),
    ensures
        exists|x: int| body_end(ls, start, x),
    decreases e - start,
{
    if e == start || !blank_line(ls[e - 1]) {
        assert(body_end(ls, start, e));
    } else {
        lemma_body_end_exists(ls, start, e - 1);
    }
}

/// Lines without `\n`, joined with `\n`, split back into the same lines.
proof fn lemma_split_join(ls: Seq<Seq<char>>)
    requires
        ls.len() >= 1,
        forall|k: int| 0 <= k < ls.len() ==> !(#[trigger] ls[k]).contains('\n'),
    ensures
        split_on(join_lines(ls), '\n') == ls,
    decreases ls.len(),
{
    let e = Seq::<char>::empty();
    if ls.len() == 1 {
        crate::text::lemma_split_append_plain(e, ls[0], '\n');
        assert(e + ls[0] =~= ls[0]);
        assert(split_on(e, '\n') =~= seq![e]);
        assert(split_on(join_lines(ls), '\n') =~= ls);
    } else {
        let init = ls.drop_last();
        lemma_split_join(init);
        reveal_strlit("\n");
        let a = join_lines(init) + "\n"@;
        assert(a.drop_last() =~= join_lines(init));
        assert(split_on(a, '\n') == split_on(join_lines(init), '\n').push(e));
        crate::text::lemma_split_append_plain(a, ls.last(), '\n');
        assert(e + ls.last() =~= ls.last());
        assert(join_lines(ls) == a + ls.last());
        assert(split_on(join_lines(ls), '\n') =~= ls);
    }
}

/// No line of a text holds `\n`.
proof fn lemma_lines_lack_newline(text: Seq<char>)
    ensures
        forall|k: int| 0 <= k < lines_seq(text).len() ==> !(#[trigger] lines_seq(text)[k]).contains('\n'),
{
    let p = split_on(text, '\n');
    crate::text::lemma_split_pieces_lack_sep(text, '\n');
    crate::text::lemma_split_on_nonempty(text, '\n');
    let ls = lines_seq(text);
    assert forall|k: int| 0 <= k < ls.len() implies !(#[trigger] ls[k]).contains('\n') by {
        if k < p.len() - 1 {
            let x = p[k];
            assert(!p[k].contains('\n'));
            assert(ls[k] == strip_cr(x));
            if strip_cr(x).contains('\n') {
                let j = choose|j: int| 0 <= j < strip_cr(x).len() && strip_cr(x)[j] == '\n';
                assert(x[j] == '\n');
            }
        } else {
            assert(ls[k] == p.last());
            assert(!p[p.len() - 1].contains('\n'));
        }
    }
}

proof fn lemma_join_last(ls: Seq<Seq<char>>)
    requires
        ls.len() >= 1,
        ls.last().len() > 0,
    ensures
        join_lines(ls).len() > 0,
        join_lines(ls).last() == ls.last().last(),
{
    if ls.len() > 1 {
        reveal_strlit("\n");
        let a = join_lines(ls.drop_last()) + "\n"@;
        assert(join_lines(ls) == a + ls.last());
        assert((a + ls.last()).last() == ls.last().last());
    }
}

/// Trimming the capture twice gives what trimming it once gives, for every text whose kept
/// lines followed by a line break do not end in `\r` (on such a line `str::lines` would
/// drop the `\r` on the second pass).
pub proof fn lemma_trim_scrollback_idempotent(text: Seq<char>)
    requires
        trim_keeps_cr_free(text),
    ensures
        trimmed_capture(trimmed_capture(text)) == trimmed_capture(text),
{
    let ls = lines_seq(text);
    lemma_body_start_exists(ls, 0);
    let start = choose|s: int| body_start(ls, s);
    lemma_body_end_exists(ls, start, ls.len() as int);
    let end = choose|e: int| body_end(ls, start, e);
    let t1 = trimmed_capture(text);
    let nl = text.len() > 0 && text.last() == '\n';
    let e = Seq::<char>::empty();
    if start >= end {
        assert(t1 == e);
        assert(split_on(e, '\n') =~= seq![e]);
        let l1 = lines_seq(e);
        assert(l1 =~= Seq::<Seq<char>>::empty());
        assert(body_start(l1, 0));
        lemma_body_start_unique(l1, 0, choose|s: int| body_start(l1, s));
        assert(body_end(l1, 0, 0));
        lemma_body_end_unique(l1, 0, 0, choose|x: int| body_end(l1, 0, x));
    } else {
        let body = ls.subrange(start, end);
        lemma_lines_lack_newline(text);
        assert forall|k: int| 0 <= k < body.len() implies !(#[trigger] body[k]).contains('\n') by {
            assert(body[k] == ls[start + k]);
        }
        lemma_split_join(body);
        assert(body.last() == ls[end - 1]);
        assert(!blank_line(body.last()));
        assert(body.last().len() > 0) by {
            if body.last().len() == 0 {
                crate::text::lemma_trim_idempotent(body.last());
                assert(body.last() =~= e);
            }
        }
        lemma_join_last(body);
        assert(body.last().last() != '\n') by {
            let x = body.last();
            assert(x[x.len() - 1] == x.last());
        }
        let j = join_lines(body);
        if nl {
            reveal_strlit("\n");
            assert(t1 == j + "\n"@);
            assert(t1.drop_last() =~= j);
            assert(split_on(t1, '\n') == body.push(e));
            let l1 = lines_seq(t1);
            assert(body.push(e).drop_last() =~= body);
            assert forall|k: int| 0 <= k < body.len() implies strip_cr(#[trigger] body[k]) == body[k] by {
                assert(body[k] == ls[start + k]);
            }
            assert(l1 =~= body);
            assert(t1.last() == '\n');
        } else {
            assert(t1 == j);
            let l1 = lines_seq(t1);
            assert forall|k: int| 0 <= k < body.len() - 1 implies strip_cr(#[trigger] body[k]) == body[k] by {
                assert(body[k] == ls[start + k]);
            }
            assert(l1 =~= body);
            assert(t1.last() != '\n');
        }
        let l1 = lines_seq(t1);
        assert(l1 == body);
        assert(body[0] == ls[start]);
        assert(body_start(l1, 0));
        lemma_body_start_unique(l1, 0, choose|s: int| body_start(l1, s));
        assert(body_end(l1, 0, l1.len() as int));
        lemma_body_end_unique(l1, 0, l1.len() as int, choose|x: int| body_end(l1, 0, x));
        assert(l1.subrange(0, l1.len() as int) =~= body);
    }
}

/// Remove leading and trailing whitespace-only lines from `capture-pane` output.
pub fn trim_scrollback_capture(text: &str) -> (r: String)
    ensures
        r@ == trimmed_capture(text@),
{
    let cs = chars_of(text);
    let lines = crate::text::lines_chars(cs.as_slice());
    let ghost ls = lines_seq(text@);
    assert(views(lines@) == ls);
    let n = lines.len();
    let mut start: usize = 0;
    while start < n && trim_chars(lines[start].as_slice()).len() == 0
        invariant
            n == ls.len(),
            views(lines@) == ls,
            0 <= start <= n,
            forall|k: int| 0 <= k < start ==> blank_line(#[trigger] ls[k]),
        decreases n - start,
    {
        assert(lines@[start as int]@ == ls[start as int]);
        start = start + 1;
    }
    proof {
        if start < n {
            assert(lines@[start as int]@ == ls[start as int]);
        }
        assert(body_start(ls, start as int));
        lemma_body_start_unique(ls, start as int, choose|s: int| body_start(ls, s));
    }
    let mut end: usize = n;
    while start < end && trim_chars(lines[end - 1].as_slice()).len() == 0
        invariant
            n == ls.len(),
            views(lines@) == ls,
            0 <= start <= end <= n,
            forall|k: int| end <= k < n ==> blank_line(#[trigger] ls[k]),
        decreases end,
    {
        assert(lines@[end - 1]@ == ls[end - 1]);
        end = end - 1;
    }
    proof {
        if start < end {
            assert(lines@[end - 1]@ == ls[end - 1]);
        }
        assert(body_end(ls, start as int, end as int));
        lemma_body_end_unique(ls, start as int, end as int, choose|e: int| body_end(ls, start as int, e));
    }
    if start >= end {
        return String::new();
    }
    let mut body: Vec<char> = Vec::new();
    let mut j: usize = start;
    while j < end
        invariant
            n == ls.len(),
            views(lines@) == ls,
            0 <= start < end <= n,
            start <= j <= end,
            j == start ==> body@.len() == 0,
            j > start ==> body@ == join_lines(ls.subrange(start as int, j as int)),
        decreases end - j,
    {
        let ghost prev = body@;
        assert(lines@[j as int]@ == ls[j as int]);
        if j > start {
            body.push('\n');
        }
        let next = crate::text::concat_chars(body.as_slice(), lines[j].as_slice());
        body = next;
        proof {
            let sub = ls.subrange(start as int, j + 1);
            assert(sub.drop_last() =~= ls.subrange(start as int, j as int));
            if j == start {
                assert(body@ =~= ls[j as int]);
                assert(sub.len() == 1);
            } else {
                reveal_strlit("\n");
                assert(body@ =~= prev + "\n"@ + ls[j as int]);
            }
        }
        j = j + 1;
    }
    let k = cs.len();
    if k > 0 && cs[k - 1] == '\n' {
        body.push('\n');
        proof {
            reveal_strlit("\n");
        }
        assert(body@ =~= join_lines(ls.subrange(start as int, end as int)) + "\n"@);
    }
    string_of(body.as_slice())
}

} // verus!
