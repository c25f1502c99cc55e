use leader::kitty::commands::{
    attach_tab, attach_targets, close_other_tabs, close_tab, copy_link, detach_tab, edit_command,
    focus_tab_from_leader, last_tab, launch_k9s, launch_lazygit, launch_lazysql, launch_nb, ls,
    new_tab, open_buffer, open_link, rename_tab, KittenCall,
};
use leader::kitty::events::{handle_key, KittyStep};
use leader::kitty::keymap::{KittyAction, KittyLayer};
use leader::kitty::model::{
    best_cwd_from_kitty_window, effective_current_window_id, foreground_exe_basename,
    foreground_looks_like_shell, format_cwd_for_display, leader_overlay_tab,
    overlay_effective_cwd_raw_with_os, overlay_parent_window_id, overlay_tab_rows_with_os,
    should_skip_duplicate_leader_launch_from_os, window_looks_like_leader_binary, KittyForegroundProcess,
    KittyOs, KittyTab, KittyWindow, KittyWindowGroup,
};
use leader::kitty::state::{execute_launch_at, leader_launch_rows, press_key, KeyPress, LeaderState};
use leader::tmux_leader::events::{KeyInput, KeyKind};

fn w(id: u64, is_self: bool) -> KittyWindow {
    KittyWindow {
        id,
        is_self,
        is_active: false,
        title: String::new(),
        cwd: String::new(),
        is_focused: false,
        cmdline: Vec::new(),
        foreground_processes: Vec::new(),
    }
}

fn tab(id: u64, title: &str, windows: Vec<KittyWindow>) -> KittyTab {
    KittyTab {
        id,
        title: title.to_string(),
        is_focused: false,
        active_window_history: Vec::new(),
        groups: Vec::new(),
        windows,
    }
}

fn proc_(cmd: &[&str], cwd: &str) -> KittyForegroundProcess {
    KittyForegroundProcess { cmdline: cmd.iter().map(|s| s.to_string()).collect(), cwd: cwd.to_string() }
}

fn os_with_overlay() -> Vec<KittyOs> {
    let mut shell = w(10, false);
    shell.foreground_processes = vec![proc_(&["-zsh"], " /home/u/src ")];
    let mut t1 = tab(1, "code", vec![shell, w(11, true)]);
    t1.groups = vec![KittyWindowGroup { windows: vec![10, 11] }];
    let t2 = tab(2, "", vec![w(20, false)]);
    let mut other_tab = tab(3, "mail", vec![w(30, false)]);
    other_tab.is_focused = true;
    vec![KittyOs { tabs: vec![t1, t2] }, KittyOs { tabs: vec![tab(4, "x", vec![]), other_tab] }]
}

fn args(c: &KittenCall) -> Vec<&str> {
    c.args.iter().map(|s| s.as_str()).collect()
}

#[test]
fn overlay_and_current_window() {
    let os = os_with_overlay();
    assert_eq!(leader_overlay_tab(&os), Some((0, 0)));
    let t = &os[0].tabs[0];
    assert_eq!(overlay_parent_window_id(t, 11), Some(10));
    assert_eq!(overlay_parent_window_id(t, 10), None);
    assert_eq!(effective_current_window_id(t), Some(10));
    assert_eq!(overlay_effective_cwd_raw_with_os(&os).as_deref(), Some("/home/u/src"));
}

#[test]
fn current_window_fallbacks() {
    let mut t = tab(1, "t", vec![w(5, false), w(6, false), w(7, true)]);
    assert_eq!(effective_current_window_id(&t), Some(5));
    t.active_window_history = vec![6, 7, 99];
    assert_eq!(effective_current_window_id(&t), Some(6));
    t.windows[0].is_focused = true;
    assert_eq!(effective_current_window_id(&t), Some(5));
}

#[test]
fn shells_and_cwds() {
    assert_eq!(foreground_exe_basename(" /bin/-zsh ").as_deref(), Some("zsh"));
    assert_eq!(foreground_exe_basename("-fish").as_deref(), Some("fish"));
    assert_eq!(foreground_exe_basename("/").as_deref(), None);
    assert!(foreground_looks_like_shell(&vec!["/usr/bin/bash".to_string()]));
    assert!(!foreground_looks_like_shell(&vec!["nvim".to_string(), "x.rs".to_string()]));
    let mut win = w(1, false);
    win.cwd = "/start".into();
    assert_eq!(best_cwd_from_kitty_window(&win).as_deref(), Some("/start"));
    win.foreground_processes = vec![proc_(&["nvim"], "/edit"), proc_(&["bash"], "/shell")];
    assert_eq!(best_cwd_from_kitty_window(&win).as_deref(), Some("/shell"));
    win.foreground_processes = vec![proc_(&["nvim"], "/edit")];
    assert_eq!(best_cwd_from_kitty_window(&win).as_deref(), Some("/edit"));
    assert_eq!(format_cwd_for_display("/home/u", Some("/home/u")), "~");
    assert_eq!(format_cwd_for_display("/home/u/src", Some("/home/u")), "~/src");
    assert_eq!(format_cwd_for_display("/home/ux", Some("/home/u")), "/home/ux");
    assert_eq!(format_cwd_for_display("/x", None), "/x");
}

#[test]
fn tab_rows_and_duplicate_leader() {
    let os = os_with_overlay();
    let rows = overlay_tab_rows_with_os(&os);
    let labels: Vec<&str> = rows.iter().map(|r| r.label.as_str()).collect();
    assert_eq!(labels, vec!["code", "tab 2"]);
    assert!(rows[0].current && !rows[1].current);
    assert!(!should_skip_duplicate_leader_launch_from_os(&os));
    let mut dup = os_with_overlay();
    dup[0].tabs[0].windows[0].cmdline = vec!["/home/u/.config/kitty/leader".into()];
    assert!(window_looks_like_leader_binary(&dup[0].tabs[0].windows[0]));
    assert!(should_skip_duplicate_leader_launch_from_os(&dup));
}

#[test]
fn kitten_plans() {
    assert_eq!(ls(), vec!["@".to_string(), "ls".to_string()]);
    let p = open_link();
    assert_eq!(args(&p[0]), vec!["@", "close-window", "--self"]);
    assert!(p[0].ignore_hangup);
    assert_eq!(args(&p[1]), vec!["@", "action", "open_url_with_hints"]);
    assert_eq!(args(&copy_link()[1]), vec!["@", "action", "kitten hints --program @"]);
    assert_eq!(args(&edit_command()[1]), vec!["@", "send-text", "--", "\\x18\\x05"]);
    assert_eq!(args(&open_buffer()[1]), vec!["@", "action", "show_scrollback"]);
    assert_eq!(args(&rename_tab()[1]), vec!["@", "action", "set_tab_title"]);
    assert_eq!(args(&new_tab()[1]), vec!["@", "action", "launch --type=tab"]);
    assert_eq!(args(&detach_tab()[1]), vec!["@", "action", "detach_tab"]);
    let c = close_tab();
    assert_eq!(c.len(), 1);
    assert_eq!(args(&c[0]), vec!["@", "close-tab", "--self"]);
    assert_eq!(args(&last_tab()[1]), vec!["@", "focus-tab", "--match", "recent:1"]);
    assert_eq!(args(&focus_tab_from_leader(42)[1]), vec!["@", "focus-tab", "--match", "id:42"]);
    assert_eq!(args(&launch_lazygit()[1]), vec!["@", "action", "launch --type=overlay --cwd=current lazygit"]);
    assert_eq!(args(&launch_k9s()[1]), vec!["@", "action", "launch --type=overlay --cwd=current k9s"]);
    assert_eq!(args(&launch_lazysql()[1]), vec!["@", "action", "launch --type=overlay --cwd=current lazysql"]);
    assert_eq!(args(&launch_nb()[1]), vec!["@", "action", "launch --type=overlay --cwd=current nb -i"]);
}

#[test]
fn close_others_and_attach() {
    let os = os_with_overlay();
    let p = close_other_tabs(&os);
    assert_eq!(p.len(), 2);
    assert_eq!(args(&p[1]), vec!["@", "close-tab", "--match", "id:2"]);
    let targets = attach_targets(&os);
    assert_eq!(targets.len(), 1);
    assert_eq!((targets[0].title.as_str(), targets[0].tab_id), ("mail", 3));
    let plan = attach_tab(&targets, Some(0));
    assert_eq!(args(&plan[1]), vec!["@", "detach-tab", "--self", "--target-tab", "id:3"]);
    assert_eq!(attach_tab(&targets, None).len(), 1);
}

#[test]
fn kitty_keys_and_tab_list() {
    let os = os_with_overlay();
    let mut s = LeaderState::from_kitty_ls(&os, Some("~/src".into()), None, None);
    assert_eq!(s.tab_cursor, 0);
    assert!(matches!(press_key(&mut s, 'x'), KeyPress::Execute(KittyAction::CloseTab)));
    assert!(matches!(press_key(&mut s, 'q'), KeyPress::Unrecognised));
    assert_eq!(handle_key(&mut s, KeyInput::Tab, KeyKind::Press), KittyStep::Continue);
    assert_eq!(s.layer, KittyLayer::TabList);
    assert_eq!(s.label, "tab list");
    assert_eq!(handle_key(&mut s, KeyInput::Char('2'), KeyKind::Press), KittyStep::FocusTab(2));
    handle_key(&mut s, KeyInput::Char('t'), KeyKind::Press);
    assert_eq!(s.tab_filter, "t");
    // only "tab 2" matches "t"
    assert_eq!(s.tab_filtered_indices, vec![1]);
    assert_eq!(handle_key(&mut s, KeyInput::Enter, KeyKind::Press), KittyStep::FocusTab(2));
    handle_key(&mut s, KeyInput::Esc, KeyKind::Press);
    assert_eq!(s.tab_filter, "");
    handle_key(&mut s, KeyInput::Esc, KeyKind::Press);
    assert_eq!(s.layer, KittyLayer::Root);
    assert_eq!(handle_key(&mut s, KeyInput::Esc, KeyKind::Press), KittyStep::Quit);
}

#[test]
fn kitty_launcher() {
    let os = os_with_overlay();
    let mut s = LeaderState::from_kitty_ls(&os, None, None, None);
    handle_key(&mut s, KeyInput::Char('l'), KeyKind::Press);
    assert_eq!(s.layer, KittyLayer::Launcher);
    assert_eq!(handle_key(&mut s, KeyInput::Char('3'), KeyKind::Press), KittyStep::Launch(2));
    handle_key(&mut s, KeyInput::BackTab, KeyKind::Press);
    assert_eq!(s.launch_cursor, 3);
    assert_eq!(handle_key(&mut s, KeyInput::Enter, KeyKind::Press), KittyStep::Launch(3));
    assert_eq!(execute_launch_at(3), Ok(KittyAction::LaunchLazysql));
    assert!(execute_launch_at(4).is_err());
    assert_eq!(leader_launch_rows().len(), 4);
    assert_eq!(handle_key(&mut s, KeyInput::Esc, KeyKind::Press), KittyStep::Quit);
}

#[test]
fn kitty_tab_list_tab_then_backtab_and_type_then_backspace() {
    let os = os_with_overlay();
    let mut s = LeaderState::from_kitty_ls(&os, None, None, None);
    handle_key(&mut s, KeyInput::Tab, KeyKind::Press);
    assert_eq!(s.layer, KittyLayer::TabList);
    let cursor = s.tab_cursor;
    assert_eq!(handle_key(&mut s, KeyInput::Tab, KeyKind::Press), KittyStep::Continue);
    assert_ne!(s.tab_cursor, cursor);
    assert_eq!(handle_key(&mut s, KeyInput::BackTab, KeyKind::Press), KittyStep::Continue);
    assert_eq!(s.tab_cursor, cursor);
    let listed = s.tab_filtered_indices.clone();
    assert_eq!(handle_key(&mut s, KeyInput::Char('c'), KeyKind::Press), KittyStep::Continue);
    assert_eq!(s.tab_filter, "c");
    assert_eq!(s.tab_filtered_indices, vec![0]);
    assert_eq!(handle_key(&mut s, KeyInput::Backspace, KeyKind::Press), KittyStep::Continue);
    assert_eq!(s.tab_filter, "");
    assert_eq!(s.tab_filtered_indices, listed);
}
