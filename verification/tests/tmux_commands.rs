use leader::tmux::{LeaderContext, WindowLine};
use leader::tmux_leader::commands::{
    add_window, attach_session_from_leader, attach_tab, close_other_tabs, close_window_keypress,
    detach_session, do_new_session, do_rename_pane, do_rename_session, do_rename_window,
    edit_command, focus_pane_from_leader, focus_session_from_leader, focus_tab_from_leader,
    get_pane_title, get_session_name, get_window_name, kill_other_sessions, kill_session,
    last_session, last_tab, launch_caffeinate, launch_k9s, launch_lazygit, launch_lazysql,
    launch_nb, launch_nvim, launch_wiki, named_session_plan, new_session, new_window,
    open_buffer, open_scrollback, other_session_names_for_move_window, perform_close_tab,
    rename_session_to_pane_folder, split_pane_horizontal, split_pane_vertical,
    switch_to_unnamed_session, tmux_new_window_after_session_last, trim_scrollback_capture,
    unnamed_session_args, NewSessionPlan, SessionError, CAFFEINATE_SCRIPT,
    CLOSE_WINDOW_ONLY_ONE_MSG, NVIM_BUFFER_UI, NVIM_SCROLLBACK_CMD,
};
use leader::tmux_leader::dispatch::KeyPress;
use leader::tmux_leader::keynode::ActionId;

fn ctx() -> LeaderContext {
    LeaderContext {
        session_id: "$1".to_string(),
        window_id: 7,
        pane_id: "%3".to_string(),
        client_size: None,
    }
}

fn win(id: u64, index: u64) -> WindowLine {
    WindowLine { id, index, name: format!("w{id}"), active: false }
}

fn v(xs: &[&str]) -> Vec<String> {
    xs.iter().map(|s| s.to_string()).collect()
}

#[test]
fn simple_action_argvs() {
    let c = ctx();
    assert_eq!(edit_command(&c), v(&["send-keys", "-t", "%3", "C-x", "C-e"]));
    assert_eq!(last_tab(), v(&["select-window", "-l"]));
    assert_eq!(focus_tab_from_leader(&c, 4), v(&["select-window", "-t", "$1:@4"]));
    assert_eq!(focus_pane_from_leader("%8"), v(&["select-pane", "-t", "%8"]));
    assert_eq!(do_rename_window(&c, "logs"), v(&["rename-window", "-t", "$1:@7", "logs"]));
    assert_eq!(do_rename_pane(&c, "  top  "), v(&["select-pane", "-t", "%3", "-T", "top"]));
    assert_eq!(split_pane_horizontal(&c), v(&["split-window", "-h", "-t", "%3"]));
    assert_eq!(split_pane_vertical(&c), v(&["split-window", "-v", "-t", "%3"]));
    assert_eq!(last_session(), v(&["switch-client", "-l"]));
    assert_eq!(detach_session(), v(&["detach-client"]));
    assert_eq!(focus_session_from_leader("work"), v(&["switch-client", "-t", "work"]));
    assert_eq!(do_rename_session(&c, "new"), v(&["rename-session", "-t", "$1", "new"]));
}

#[test]
fn query_outputs_are_trimmed() {
    assert_eq!(get_window_name(" vim \n"), "vim");
    assert_eq!(get_pane_title("\tzsh\n"), "zsh");
    assert_eq!(get_session_name("main\n"), "main");
}

#[test]
fn new_windows_and_launchers() {
    let c = ctx();
    let base = v(&["new-window", "-a", "-t", "$1:@7", "-c", "/src"]);
    assert_eq!(new_window(&c, "/src"), base);
    assert_eq!(add_window(&c, "/src"), base);
    let mut lg = base.clone();
    lg.extend(v(&["-n", "lazygit", "lazygit"]));
    assert_eq!(launch_lazygit(&c, "/src"), lg);
    let mut k9 = base.clone();
    k9.extend(v(&["-n", "k9s", "k9s"]));
    assert_eq!(launch_k9s(&c, "/src"), k9);
    let mut sql = base.clone();
    sql.extend(v(&["-n", "lazysql", "lazysql"]));
    assert_eq!(launch_lazysql(&c, "/src"), sql);
    let mut nb = base.clone();
    nb.extend(v(&["-n", "nb", "sh", "-c", "nb -i"]));
    assert_eq!(launch_nb(&c, "/src"), nb);
    let mut nv = base.clone();
    nv.extend(v(&["-n", "nvim", "nvim"]));
    assert_eq!(launch_nvim(&c, "/src"), nv);
    let mut caf = base.clone();
    caf.extend(v(&["-n", "caffeinate", "sh", "-c", CAFFEINATE_SCRIPT]));
    assert_eq!(launch_caffeinate(&c, "/src"), caf);
    assert!(CAFFEINATE_SCRIPT.ends_with("exec caffeinate -i"));
    assert_eq!(
        launch_wiki(&c, "/home/u"),
        v(&["new-window", "-a", "-t", "$1:@7", "-c", "/home/u/wiki", "-n", "wiki", "zsh", "-ic", "wiki"])
    );
}

#[test]
fn close_window_needs_another_window() {
    match close_window_keypress(Ok(1)) {
        KeyPress::Notice(m) => assert_eq!(m, CLOSE_WINDOW_ONLY_ONE_MSG),
        other => panic!("unexpected {other:?}"),
    }
    match close_window_keypress(Err("no server".to_string())) {
        KeyPress::Notice(m) => assert_eq!(m, "close window: no server"),
        other => panic!("unexpected {other:?}"),
    }
    assert!(matches!(close_window_keypress(Ok(2)), KeyPress::Execute(ActionId::CloseWindow)));
    assert_eq!(
        perform_close_tab(&ctx()),
        vec![v(&["select-window", "-l"]), v(&["kill-window", "-t", "$1:@7"])]
    );
}

#[test]
fn close_other_windows_skips_the_invoked_one() {
    let ws = vec![win(2, 0), win(7, 1), win(9, 2)];
    assert_eq!(
        close_other_tabs(&ctx(), &ws),
        vec![v(&["kill-window", "-t", "$1:@2"]), v(&["kill-window", "-t", "$1:@9"])]
    );
}

#[test]
fn sessions_plans() {
    assert!(matches!(do_new_session("   "), NewSessionPlan::Unnamed));
    assert!(matches!(new_session(), NewSessionPlan::Unnamed));
    match do_new_session("  dev ") {
        NewSessionPlan::Named(n) => assert_eq!(n, "dev"),
        other => panic!("unexpected {other:?}"),
    }
    assert_eq!(unnamed_session_args(), v(&["new-session", "-d", "-P", "-F", "#{session_name}"]));
    assert_eq!(switch_to_unnamed_session(" 4\n").unwrap(), v(&["switch-client", "-t", "4"]));
    assert_eq!(switch_to_unnamed_session(" \n").unwrap_err(), SessionError::EmptySessionName);
    assert_eq!(named_session_plan("dev", true), vec![v(&["switch-client", "-t", "dev"])]);
    assert_eq!(
        named_session_plan("dev", false),
        vec![v(&["new-session", "-d", "-s", "dev"]), v(&["switch-client", "-t", "dev"])]
    );
    let all = v(&["main", "dev", "ops"]);
    assert_eq!(
        kill_session("main", &all),
        vec![v(&["switch-client", "-t", "dev"]), v(&["kill-session", "-t", "main"])]
    );
    assert_eq!(kill_session("solo", &v(&["solo"])), vec![v(&["kill-session", "-t", "solo"])]);
    assert_eq!(
        kill_other_sessions("dev", &all),
        vec![v(&["kill-session", "-t", "main"]), v(&["kill-session", "-t", "ops"])]
    );
    assert_eq!(
        attach_session_from_leader(&ctx(), "ops"),
        vec![v(&["move-window", "-s", "$1:@7", "-t", "ops"]), v(&["switch-client", "-t", "ops"])]
    );
}

#[test]
fn rename_to_folder_takes_the_last_component() {
    let c = ctx();
    assert_eq!(
        rename_session_to_pane_folder(&c, " /home/u/proj/ \n").unwrap(),
        v(&["rename-session", "-t", "$1", "proj"])
    );
    assert_eq!(rename_session_to_pane_folder(&c, "/").unwrap_err(), SessionError::NoFolderName);
    assert_eq!(rename_session_to_pane_folder(&c, "/a/..").unwrap_err(), SessionError::NoFolderName);
    assert_eq!(
        rename_session_to_pane_folder(&c, "/a/b/.").unwrap(),
        v(&["rename-session", "-t", "$1", "b"])
    );
}

#[test]
fn move_window_targets() {
    let names = other_session_names_for_move_window("dev", &v(&["main", "dev", "ops"]));
    assert_eq!(names, v(&["main", "ops"]));
    assert_eq!(
        attach_tab(&ctx(), &names, 1).unwrap(),
        vec![v(&["move-window", "-s", "$1:@7", "-t", "ops:"]), v(&["switch-client", "-t", "ops"])]
    );
    assert!(attach_tab(&ctx(), &names, 2).is_none());
}

#[test]
fn scrollback_goes_after_the_last_window() {
    let ws = vec![win(2, 3), win(7, 11), win(9, 5)];
    assert_eq!(
        tmux_new_window_after_session_last(&ctx(), &ws, "/src").unwrap(),
        v(&["new-window", "-a", "-t", "$1:11", "-c", "/src"])
    );
    assert!(tmux_new_window_after_session_last(&ctx(), &Vec::new(), "/src").is_none());
    assert_eq!(
        open_scrollback(&ctx(), &ws, "/src", "/tmp/s.txt").unwrap(),
        v(&[
            "new-window", "-a", "-t", "$1:11", "-c", "/src", "-n", "scrollback", "nvim",
            NVIM_SCROLLBACK_CMD, "/tmp/s.txt",
        ])
    );
    assert_eq!(
        open_buffer(&ctx(), "/src", "/tmp/b"),
        v(&["split-window", "-v", "-t", "%3", "-c", "/src", "nvim", "-c", NVIM_BUFFER_UI, "/tmp/b"])
    );
}

#[test]
fn scrollback_capture_loses_blank_edges() {
    assert_eq!(trim_scrollback_capture("\n  \nabc\n\ndef\n \n\n"), "abc\n\ndef\n");
    assert_eq!(trim_scrollback_capture("  \n\t\n"), "");
    assert_eq!(trim_scrollback_capture("x"), "x");
    assert_eq!(trim_scrollback_capture(" \r\nx\r\ny"), "x\ny");
}

#[test]
fn trimming_the_capture_twice_is_trimming_once() {
    for text in ["\n  \nfoo\n\nbar\n \n", "  \n\t\n", "x", " \r\nx\r\ny", "a\n\n  b  \n", ""] {
        let once = trim_scrollback_capture(text);
        assert_eq!(trim_scrollback_capture(&once), once);
    }
    assert_eq!(trim_scrollback_capture("\n  \nfoo\n\nbar\n \n"), "foo\n\nbar\n");
}
