use leader::fuzzy::fuzzy_match_score;
use leader::layout::{
    banner_fill, banner_pills_prefix_spans, banner_widths, header_pill_text, hidden_window_count,
    body_fill, key_display, label_width, pane_pill_lines, pill_cap_fill_color, pill_style, slot_text,
    tab_list_lines, titled_rule_line, tmux_banner_pills, top_rect, truncate_pill_label,
    window_pill_lines, Area, CapFill, HeaderPillKind, ListLine, PillLook, KITTY_SLOT_TRAILING,
    TMUX_SLOT_TRAILING,
};
use leader::pick::{pick_initial_cursor, pick_key_map, pick_step, PickGroup, PickItem, PickStep};
use leader::picker::{filter_order, pill_strip_cursor_follow, LeaderPaneRow, LeaderWindowRow};
use leader::text::{file_name, join_str, lines_chars, str_eq, trim_str, words_chars};
use leader::theme::{parse_bg, parse_hex, palette_from_entry, ThemeColor, ThemeField, ThemeFile};
use leader::tmux_leader::events::{KeyInput, KeyKind};
use leader::tmux_leader::input::{EditRequest, LineInput};

fn row(label: &str, current: bool) -> LeaderWindowRow {
    LeaderWindowRow { id: 0, label: label.to_string(), focused: false, current }
}

#[test]
fn fuzzy_scores() {
    assert_eq!(fuzzy_match_score("", "anything"), Some(0));
    assert_eq!(fuzzy_match_score("ab", "xaxb"), Some(1 + 3));
    assert_eq!(fuzzy_match_score("AB", "xaxb"), Some(4));
    assert_eq!(fuzzy_match_score("ba", "ab"), None);
    // `İ` lowercases to two characters (i + combining dot): the haystack grows by one.
    assert_eq!(fuzzy_match_score("x", "İx"), Some(2));
}

#[test]
fn filter_orders_by_score_then_index() {
    let rows = vec![row("bxa", false), row("ab", false), row("zzz", false), row("ba", false)];
    assert_eq!(filter_order("a", &rows), vec![1, 3, 0]);
    assert_eq!(filter_order("", &rows), vec![0, 1, 2, 3]);
    assert_eq!(filter_order("q", &rows), Vec::<usize>::new());
}

#[test]
fn pill_strip_cursor() {
    let mut c = 30usize;
    pill_strip_cursor_follow(40, None, &mut c);
    assert_eq!(c, 23);
    pill_strip_cursor_follow(3, Some(2), &mut c);
    assert_eq!(c, 2);
    pill_strip_cursor_follow(0, Some(2), &mut c);
    assert_eq!(c, 0);
}

#[test]
fn text_helpers() {
    assert_eq!(trim_str("\u{a0} x \u{3000}"), "x");
    assert!(str_eq("a", "a") && !str_eq("a", "b"));
    assert_eq!(join_str("a", "b"), "ab");
    let ls: Vec<String> = lines_chars(&"a\r\nb\n".chars().collect::<Vec<_>>())
        .iter()
        .map(|l| l.iter().collect())
        .collect();
    assert_eq!(ls, vec!["a".to_string(), "b".to_string()]);
    let ws: Vec<String> = words_chars(&" a  b\tc ".chars().collect::<Vec<_>>())
        .iter()
        .map(|l| l.iter().collect())
        .collect();
    assert_eq!(ws, vec!["a", "b", "c"]);
    assert_eq!(file_name("/a/b/").as_deref(), Some("b"));
    assert_eq!(file_name("..").as_deref(), None);
    assert_eq!(file_name("./x").as_deref(), Some("x"));
}

#[test]
fn prompt_line_edits() {
    let mut l = LineInput::new("héllo".to_string());
    assert_eq!(l.cursor, 5);
    l.apply(EditRequest::GoToStart);
    l.apply(EditRequest::DeleteNextChar);
    assert_eq!(l.value, "éllo");
    l.apply(EditRequest::GoToEnd);
    l.apply(EditRequest::InsertChar('!'));
    assert_eq!(l.value, "éllo!");
    l.apply(EditRequest::DeletePrevWord);
    assert_eq!(l.value, "");
    l.apply(EditRequest::InsertChar('a'));
    l.apply(EditRequest::DeleteLine);
    assert_eq!((l.value.as_str(), l.cursor), ("", 0));
}

#[test]
fn grid_text() {
    assert_eq!(key_display(' '), "space");
    assert_eq!(key_display('\t'), "  tab");
    assert_eq!(key_display('k'), "    k");
    assert_eq!(label_width(100, KITTY_SLOT_TRAILING), 25 - 14);
    assert_eq!(label_width(100, TMUX_SLOT_TRAILING), 25 - 12);
    assert_eq!(label_width(40, KITTY_SLOT_TRAILING), 0);
    assert_eq!(slot_text("close", "", 8, true, 6), " → close   ");
    assert_eq!(slot_text("close window", "", 6, false, 2), " → close…  ");
    assert_eq!(truncate_pill_label("abcdef", 4), "abc…");
    assert_eq!(truncate_pill_label("abc", 4), "abc");
    assert_eq!(truncate_pill_label("abc", 0), "…");
}

#[test]
fn rules() {
    let (label, rules) = titled_rule_line("tabs", 20);
    assert_eq!(label, "  tabs  ");
    assert_eq!(rules, Some((6, 6)));
    assert_eq!(titled_rule_line("tabs", 10).1, None);
    assert_eq!(titled_rule_line("tabs", 11).1, Some((1, 2)));
}

#[test]
fn tab_list_scrolls_around_the_cursor() {
    let rows: Vec<LeaderWindowRow> = (0..10).map(|i| row(&format!("tab{i}"), i == 3)).collect();
    let filtered: Vec<usize> = (0..10).collect();
    let lines = tab_list_lines(&rows, &filtered, 6, 4, 20);
    assert!(matches!(lines[0], ListLine::Above(4)));
    assert_eq!(lines.len(), 6);
    match &lines[3] {
        ListLine::Row { row, selected, label, .. } => {
            assert_eq!(*row, 6);
            assert!(*selected);
            assert_eq!(label, "tab6");
        }
        other => panic!("unexpected {other:?}"),
    }
    assert!(matches!(lines[5], ListLine::Below(2)));
    let none = tab_list_lines(&rows, &Vec::new(), 0, 4, 20);
    assert!(matches!(none[0], ListLine::NoMatches));
    let top = tab_list_lines(&rows, &filtered, 0, 20, 3);
    assert_eq!(top.len(), 10);
    assert!(matches!(&top[0], ListLine::Row { label, .. } if label == "ta…"));
}

#[test]
fn window_pills_wrap() {
    let rows: Vec<LeaderWindowRow> = (0..30).map(|i| row(&format!("w{i}"), false)).collect();
    let pills = window_pill_lines(&rows, 1, 30);
    assert_eq!(pills.len(), 24);
    assert_eq!(pills[0].text, " 1 w0 ");
    assert_eq!(pills[10].text, " w10 ");
    assert!(pills[1].selected);
    // widths 8 each: three per 30-column line (8 + 1 + 8 + 1 + 8 = 26)
    assert_eq!((pills[0].line, pills[2].line, pills[3].line), (0, 0, 1));
    assert_eq!(hidden_window_count(30), 6);
    assert_eq!(hidden_window_count(3), 0);
    let panes = vec![LeaderPaneRow { pane_id: "%1".into(), label: "0 zsh".into(), current: true }];
    let pp = pane_pill_lines(&panes, 0, 80);
    assert_eq!(pp[0].text, " 1 0 zsh ");
    assert!(pp[0].current && !pp[0].focused);
}

#[test]
fn pill_looks() {
    assert_eq!(pill_style(true, true, true), PillLook::Selected);
    assert_eq!(pill_style(false, true, true), PillLook::Focused);
    assert_eq!(pill_style(false, false, true), PillLook::Recent);
    assert_eq!(pill_style(false, false, false), PillLook::Plain);
    assert_eq!(pill_cap_fill_color(false, true), CapFill::Current);
    assert_eq!(top_rect(100, 5, Area { x: 1, y: 2, width: 80, height: 24 }), Area { x: 1, y: 2, width: 80, height: 5 });
}

#[test]
fn header_banner() {
    assert_eq!(banner_widths(1, 1, 100), (50, 49));
    assert_eq!(banner_widths(2, 0, 100), (49, 0));
    assert_eq!(banner_widths(0, 2, 10), (0, 18));
    assert_eq!(header_pill_text("G", "main", 40), " G main ");
    assert_eq!(header_pill_text("G", "a-very-long-branch", 10), " G a-ver… ");
    let b = banner_pills_prefix_spans(Some("~/src"), None, Some("main"), Some("code"), 100).unwrap();
    let left: Vec<HeaderPillKind> = b.left.iter().map(|p| p.kind).collect();
    assert_eq!(left, vec![HeaderPillKind::TabTitle, HeaderPillKind::Cwd]);
    assert_eq!(b.right.len(), 1);
    assert!(banner_pills_prefix_spans(None, None, None, None, 100).is_none());
    assert_eq!(banner_fill(100, 30, 20, true, true), 50);
    assert_eq!(banner_fill(40, 30, 20, true, true), 1);
    assert_eq!(banner_fill(100, 0, 20, false, true), 80);
    assert_eq!(banner_fill(100, 30, 0, true, false), 0);
    let t = tmux_banner_pills(Some("main"), Some("prod"), 41).unwrap();
    assert_eq!(t.len(), 2);
    assert!(tmux_banner_pills(None, None, 41).is_none());
}

#[test]
fn pick_dialog() {
    let item = |l: &str, f: bool| PickItem { label: l.to_string(), focused: f, current: false };
    let groups = vec![
        PickGroup { label: "a".into(), items: vec![item("x", false)] },
        PickGroup { label: "b".into(), items: vec![item("y", false), item("z", true)] },
    ];
    let km = pick_key_map(&groups);
    assert_eq!(km, vec![(0, 0), (1, 0), (1, 1)]);
    let mut c = pick_initial_cursor(&groups, &km);
    assert_eq!(c, 2);
    assert_eq!(pick_step(&km, &mut c, KeyInput::Tab, KeyKind::Press), PickStep::Continue);
    assert_eq!(c, 0);
    assert_eq!(pick_step(&km, &mut c, KeyInput::BackTab, KeyKind::Press), PickStep::Continue);
    assert_eq!(c, 2);
    assert_eq!(pick_step(&km, &mut c, KeyInput::Enter, KeyKind::Press), PickStep::Picked(1, 1));
    assert_eq!(pick_step(&km, &mut c, KeyInput::Char('2'), KeyKind::Press), PickStep::Picked(1, 0));
    assert_eq!(pick_step(&km, &mut c, KeyInput::Char('9'), KeyKind::Press), PickStep::Continue);
    assert_eq!(pick_step(&km, &mut c, KeyInput::Esc, KeyKind::Release), PickStep::Cancel);
}

#[test]
fn theme_colours() {
    assert_eq!(parse_hex(" #ff8000 "), Some(ThemeColor::Rgb(255, 128, 0)));
    assert_eq!(parse_hex("##0A0b0C"), Some(ThemeColor::Rgb(10, 11, 12)));
    assert_eq!(parse_hex("#12345"), None);
    assert_eq!(parse_hex("#12345g"), None);
    assert_eq!(parse_bg(" Transparent "), Some(ThemeColor::Reset));
    assert_eq!(parse_bg("NONE"), Some(ThemeColor::Reset));
    assert_eq!(parse_bg("#000000"), Some(ThemeColor::Rgb(0, 0, 0)));
    let mk = |bg: &str, cyan: &str| ThemeFile {
        purple: "#bd93f9".into(),
        orange: "#ffb86c".into(),
        cyan: cyan.into(),
        green: "#50fa7b".into(),
        yellow: "#f1fa8c".into(),
        pink: "#ff79c6".into(),
        bright_cyan: "#a4ffff".into(),
        fg: "#f8f8f2".into(),
        comment: "#6272a4".into(),
        comment_bright: "#7282b4".into(),
        bg: bg.into(),
        selection: "#44475a".into(),
        pill_fg: "#282a36".into(),
    };
    let p = palette_from_entry(&mk("reset", "#8be9fd")).unwrap();
    assert_eq!(p.dracula_bg, ThemeColor::Reset);
    assert_eq!(p.teal, ThemeColor::Rgb(0x8b, 0xe9, 0xfd));
    assert_eq!(p.kube_pill_bg, ThemeColor::Rgb(0xa4, 0xff, 0xff));
    assert_eq!(palette_from_entry(&mk("reset", "teal")).unwrap_err(), ThemeField::Cyan);
    assert_eq!(palette_from_entry(&mk("blue", "teal")).unwrap_err(), ThemeField::Cyan);
    assert_eq!(palette_from_entry(&mk("blue", "#000000")).unwrap_err(), ThemeField::Bg);
}

#[test]
fn caps_match_the_body_of_unfocused_pills() {
    for sel in [false, true] {
        for cur in [false, true] {
            assert_eq!(body_fill(pill_style(sel, false, cur)), pill_cap_fill_color(sel, cur));
        }
    }
    assert_eq!(body_fill(pill_style(false, false, true)), CapFill::Current);
    assert_eq!(body_fill(PillLook::Focused), CapFill::Plain);
}

#[test]
fn window_pills_on_a_very_wide_line() {
    let rows: Vec<LeaderWindowRow> = (0..30).map(|i| row(&format!("w{i}"), false)).collect();
    let pills = window_pill_lines(&rows, 0, usize::MAX);
    assert_eq!(pills.len(), 24);
    assert!(pills.iter().all(|p| p.line == 0));
    assert_eq!(pills[0].text, " 1 w0 ");
}
