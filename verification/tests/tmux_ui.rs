use leader::tmux::{list_panes_for_target, list_sessions, list_windows_for_target, PaneLine, SessionLine, WindowLine};
use leader::tmux_leader::dispatch::{press_key, KeyPress};
use leader::tmux_leader::events::{handle_event, is_control, KeyInput, KeyKind, LeaderEvent, Step};
use leader::tmux_leader::input::EditRequest;
use leader::tmux_leader::keymap::nodes;
use leader::tmux_leader::keynode::{ActionId, ConfirmAction, InitialQuery, Layer};
use leader::tmux_leader::state::{
    execute_launch_at, leader_launch_rows, leader_rows_from_sessions, leader_rows_from_windows,
    LaunchError, LeaderState, LeaderView, LEADER_HEADER_LABEL, WINDOWS_HEADER_LABEL,
};

fn windows() -> Vec<WindowLine> {
    vec![
        WindowLine { id: 1, index: 0, name: "edit".into(), active: false },
        WindowLine { id: 4, index: 1, name: "".into(), active: true },
        WindowLine { id: 6, index: 2, name: "logs".into(), active: false },
    ]
}

fn sessions() -> Vec<SessionLine> {
    vec![
        SessionLine { name: "main ".into(), active: true },
        SessionLine { name: "dev".into(), active: true },
        SessionLine { name: "ops".into(), active: false },
    ]
}

fn panes() -> Vec<PaneLine> {
    vec![
        PaneLine { pane_id: "%1".into(), index: 0, command: "zsh".into(), active: false },
        PaneLine { pane_id: "%2".into(), index: 1, command: "tmux-leader".into(), active: false },
        PaneLine { pane_id: "%3".into(), index: 2, command: "nvim".into(), active: true },
        PaneLine { pane_id: "%9".into(), index: 3, command: "top".into(), active: false },
    ]
}

fn state() -> LeaderState {
    LeaderState::from_tmux(
        Some(windows()),
        Some(sessions()),
        Some("dev".into()),
        panes(),
        "%9",
        Some("prod".into()),
        Some("main".into()),
    )
}

fn press(code: KeyInput) -> LeaderEvent {
    LeaderEvent::Key { code, kind: KeyKind::Press, edit: None }
}

fn key(c: char) -> LeaderEvent {
    press(KeyInput::Char(c))
}

#[test]
fn startup_state_follows_tmux() {
    let s = state();
    assert_eq!(s.layer, Layer::Root);
    assert_eq!(s.label, LEADER_HEADER_LABEL);
    let labels: Vec<&str> = s.tab_rows.iter().map(|r| r.label.as_str()).collect();
    assert_eq!(labels, vec!["edit", "window 1", "logs"]);
    assert_eq!(s.root_window_cursor, 1);
    // Two sessions are flagged active; the attached one (`dev`) wins by name.
    assert_eq!(s.session_cursor, 1);
    assert_eq!(s.session_rows[0].label, "main");
    let pane_labels: Vec<&str> = s.pane_rows.iter().map(|r| r.label.as_str()).collect();
    assert_eq!(pane_labels, vec!["0 zsh", "2 nvim"]);
    assert_eq!(s.root_pane_cursor, 1);
    assert_eq!(s.session_filtered_indices, vec![0, 1, 2]);
    assert_eq!(s.launch_filtered_indices.len(), leader_launch_rows().len());
}

#[test]
fn rows_from_tmux_lines() {
    let rows = leader_rows_from_windows(windows());
    assert_eq!(rows[1].label, "window 1");
    assert!(rows[1].current);
    let srows = leader_rows_from_sessions(sessions());
    assert_eq!(srows.iter().map(|r| r.id).collect::<Vec<_>>(), vec![0, 1, 2]);
}

#[test]
fn list_output_parsing() {
    let raw = "@1\u{1f}0\u{1f}edit\u{1f}0\n@4\u{1f}1\u{1f}\u{1f}1\nbroken line\n";
    let ws = list_windows_for_target(raw).unwrap();
    assert_eq!(ws.len(), 2);
    assert_eq!((ws[1].id, ws[1].index, ws[1].active), (4, 1, true));
    assert!(list_windows_for_target("x\u{1f}0\u{1f}a\u{1f}1").is_err());
    let ps = list_panes_for_target("%1\u{1f}0\u{1f}zsh\u{1f}1\nbad\u{1f}1\u{1f}x\u{1f}0\n");
    assert_eq!(ps.len(), 1);
    assert_eq!(ps[0].pane_id, "%1");
    let ss = list_sessions("main\u{1f}1\n\u{1f}0\nops\n");
    assert_eq!(ss.len(), 2);
    assert!(ss[0].active && !ss[1].active);
}

#[test]
fn keys_of_the_root_grid() {
    let mut s = state();
    assert!(matches!(press_key(&mut s, ' '), KeyPress::Execute(ActionId::LastTab)));
    assert!(matches!(press_key(&mut s, 'k'), KeyPress::CloseWindow));
    match press_key(&mut s, 'r') {
        KeyPress::OpenInput { prompt, initial, confirm, allow_empty_confirm } => {
            assert_eq!(prompt, "rename window:");
            assert_eq!(initial, InitialQuery::WindowName);
            assert_eq!(confirm, ConfirmAction::RenameWindow);
            assert!(!allow_empty_confirm);
        }
        other => panic!("unexpected {other:?}"),
    }
    assert!(matches!(press_key(&mut s, 'z'), KeyPress::Unrecognised));
    assert_eq!(s.layer, Layer::Root);
    assert!(matches!(press_key(&mut s, 's'), KeyPress::Refresh { sessions: true, panes: false }));
    assert_eq!(s.layer, Layer::Sessions);
    assert_eq!(s.label, "sessions");
}

#[test]
fn panes_group_asks_for_pane_refresh() {
    let mut s = state();
    assert!(matches!(press_key(&mut s, 'p'), KeyPress::Refresh { sessions: false, panes: true }));
    assert_eq!(s.layer, Layer::Panes);
    assert!(matches!(press_key(&mut s, 'h'), KeyPress::Execute(ActionId::SplitPaneHorizontal)));
}

#[test]
fn launcher_by_index() {
    assert_eq!(execute_launch_at(0), Ok(ActionId::LaunchCaffeinate));
    assert_eq!(execute_launch_at(5), Ok(ActionId::LaunchWiki));
    assert_eq!(execute_launch_at(6), Err(LaunchError::OutOfRange { index: 6 }));
    assert_eq!(nodes(Layer::Launcher).len(), 6);
}

#[test]
fn enter_focuses_the_selected_window_and_digits_pick_pills() {
    let mut s = state();
    let h = Some("dev".to_string());
    assert!(matches!(handle_event(&mut s, press(KeyInput::Enter), &h), Step::FocusWindow(4)));
    assert!(matches!(handle_event(&mut s, key('3'), &h), Step::FocusWindow(6)));
    assert!(matches!(handle_event(&mut s, press(KeyInput::Tab), &h), Step::Continue));
    assert_eq!(s.root_window_cursor, 2);
    handle_event(&mut s, press(KeyInput::Tab), &h);
    assert_eq!(s.root_window_cursor, 0);
    handle_event(&mut s, press(KeyInput::BackTab), &h);
    assert_eq!(s.root_window_cursor, 2);
    assert!(matches!(handle_event(&mut s, press(KeyInput::Esc), &h), Step::Quit));
}

#[test]
fn launcher_filter_typing_and_escape() {
    let mut s = state();
    let h = Some("dev".to_string());
    handle_event(&mut s, key('l'), &h);
    assert_eq!(s.layer, Layer::Launcher);
    handle_event(&mut s, key('g'), &h);
    assert_eq!(s.launch_filter, "g");
    let labels: Vec<&str> = s.launch_filtered_indices.iter().map(|&i| s.launch_rows[i].label.as_str()).collect();
    assert_eq!(labels, vec!["lazygit"]);
    assert!(matches!(handle_event(&mut s, press(KeyInput::Enter), &h), Step::Launch(1)));
    handle_event(&mut s, press(KeyInput::Backspace), &h);
    assert_eq!(s.launch_filter, "");
    assert_eq!(s.launch_filtered_indices.len(), 6);
    handle_event(&mut s, key('k'), &h);
    handle_event(&mut s, press(KeyInput::Esc), &h);
    assert_eq!(s.launch_filter, "");
    assert_eq!(s.layer, Layer::Launcher);
    handle_event(&mut s, press(KeyInput::Esc), &h);
    assert_eq!(s.layer, Layer::Root);
    assert_eq!(s.view, LeaderView::Normal);
}

#[test]
fn prompt_edits_and_confirms() {
    let mut s = state();
    let h = None;
    s.enter_input_mode("rename window:", "ab".to_string(), ConfirmAction::RenameWindow, false);
    let ev = LeaderEvent::Key { code: KeyInput::Char('c'), kind: KeyKind::Press, edit: Some(EditRequest::InsertChar('c')) };
    handle_event(&mut s, ev, &h);
    assert_eq!(s.pending_input.as_ref().unwrap().input.value, "abc");
    let bs = LeaderEvent::Key { code: KeyInput::Backspace, kind: KeyKind::Repeat, edit: Some(EditRequest::DeletePrevChar) };
    handle_event(&mut s, bs, &h);
    assert_eq!(s.pending_input.as_ref().unwrap().input.value, "ab");
    match handle_event(&mut s, press(KeyInput::Enter), &h) {
        Step::Confirm { confirm, value } => {
            assert_eq!(confirm, ConfirmAction::RenameWindow);
            assert_eq!(value, "ab");
        }
        other => panic!("unexpected {other:?}"),
    }
    assert!(s.pending_input.is_none());
}

#[test]
fn empty_prompt_closes_unless_allowed() {
    let mut s = state();
    let h = None;
    s.enter_input_mode("rename pane:", String::new(), ConfirmAction::RenamePane, false);
    assert!(matches!(handle_event(&mut s, press(KeyInput::Enter), &h), Step::Continue));
    assert!(s.pending_input.is_none());
    s.enter_input_mode("new session:", String::new(), ConfirmAction::NewSession, true);
    assert!(matches!(handle_event(&mut s, press(KeyInput::Enter), &h), Step::Confirm { .. }));
    s.enter_input_mode("x", "y".into(), ConfirmAction::NewSession, true);
    assert!(matches!(handle_event(&mut s, press(KeyInput::Esc), &h), Step::Continue));
    assert!(s.pending_input.is_none());
}

#[test]
fn session_list_filter_keeps_the_selection() {
    let mut s = state();
    let h = Some("dev".to_string());
    s.enter_session_list_picker();
    assert_eq!(s.layer, Layer::SessionList);
    // first listed session flagged current is `main`
    assert_eq!(s.selected_session_name().as_deref(), Some("main"));
    handle_event(&mut s, press(KeyInput::Tab), &h);
    assert_eq!(s.selected_session_name().as_deref(), Some("dev"));
    handle_event(&mut s, key('d'), &h);
    assert_eq!(s.session_filter, "d");
    assert_eq!(s.selected_session_name().as_deref(), Some("dev"));
    assert!(matches!(handle_event(&mut s, press(KeyInput::Enter), &h), Step::FocusSession(ref n) if n == "dev"));
    handle_event(&mut s, key('\u{7}'), &h);
    assert_eq!(s.session_filter, "d");
    handle_event(&mut s, press(KeyInput::Esc), &h);
    assert_eq!(s.session_filter, "");
    handle_event(&mut s, press(KeyInput::Esc), &h);
    assert_eq!(s.layer, Layer::Root);
    assert_eq!(s.session_cursor, 1);
}

#[test]
fn notice_lasts_one_event() {
    let mut s = state();
    s.notice = Some("hi".into());
    handle_event(&mut s, LeaderEvent::Other, &None);
    assert!(s.notice.is_none());
}

#[test]
fn control_characters() {
    assert!(is_control('\u{0}'));
    assert!(is_control('\u{9f}'));
    assert!(!is_control('a'));
    assert!(!is_control('\u{a0}'));
}

#[test]
fn launcher_type_then_backspace_restores_the_list() {
    let mut s = state();
    let h = Some("dev".to_string());
    handle_event(&mut s, key('l'), &h);
    let before: Vec<usize> = s.launch_filtered_indices.clone();
    handle_event(&mut s, key('v'), &h);
    assert_eq!(s.launch_filter, "v");
    assert_ne!(s.launch_filtered_indices, before);
    handle_event(&mut s, press(KeyInput::Backspace), &h);
    assert_eq!(s.launch_filter, "");
    assert_eq!(s.launch_filtered_indices, before);
    assert_eq!(s.layer, Layer::Launcher);
}

#[test]
fn return_to_windows_clears_the_session_filter() {
    let mut s = state();
    let h = Some("dev".to_string());
    s.enter_session_list_picker();
    assert_eq!(s.layer, Layer::SessionList);
    handle_event(&mut s, key('o'), &h);
    assert_eq!(s.session_filter, "o");
    s.root_window_cursor = 0;
    s.return_to_windows();
    assert_eq!(s.layer, Layer::Root);
    assert_eq!(s.label, WINDOWS_HEADER_LABEL);
    assert_eq!(s.session_filter, "");
    assert_eq!(s.session_filtered_indices.len(), 3);
    assert!(s.pending_input.is_none());
    assert_eq!(s.root_window_cursor, 1);
}
