use leader::tmux::{
    client_viewport_wh, context_from_display, context_from_env_vars, ids_from_display,
    init_from_args, initial_window_id, log_file_path, log_line, notify_message, parse_argv,
    parse_targets_from_combined_e_arg, parse_window_id, session_id, target_pane, viewport_size,
    window_target, ArgvErrorKind,
};

fn chars(s: &str) -> Vec<char> {
    s.chars().collect()
}

#[test]
fn three_argv_session_window_pane() {
    let args: Vec<String> = vec!["$0".into(), "@2".into(), "%1".into()];
    let p = parse_argv(&args).unwrap();
    assert_eq!(p.session_id, "$0");
    assert_eq!(p.window_id, 2);
    assert_eq!(p.pane_id, "%1");
    assert_eq!(p.client_size, None);
}

#[test]
fn five_argv_with_client_size() {
    let args: Vec<String> = vec!["$0".into(), "@2".into(), "%1".into(), "120".into(), "40".into()];
    let p = parse_argv(&args).unwrap();
    assert_eq!(p.client_size, Some((120, 40)));
}

#[test]
fn five_argv_session_id_is_dollar_one() {
    let args: Vec<String> = vec!["$1".into(), "@2".into(), "%1".into(), "80".into(), "24".into()];
    let p = parse_argv(&args).unwrap();
    assert_eq!(p.session_id, "$1");
    assert_eq!(p.window_id, 2);
    assert_eq!(p.pane_id, "%1");
    assert_eq!(p.client_size, Some((80, 24)));
}

#[test]
fn four_argv_with_binary_path() {
    let args: Vec<String> = vec!["/opt/bin/tmux-leader".into(), "$3".into(), "@0".into(), "%5".into()];
    let p = parse_argv(&args).unwrap();
    assert_eq!(p.session_id, "$3");
    assert_eq!(p.window_id, 0);
    assert_eq!(p.pane_id, "%5");
    assert_eq!(p.client_size, None);
}

#[test]
fn six_argv_with_binary_path_and_size() {
    let args: Vec<String> = vec![
        "/opt/bin/tmux-leader".into(),
        "$3".into(),
        "@0".into(),
        "%5".into(),
        "80".into(),
        "24".into(),
    ];
    let p = parse_argv(&args).unwrap();
    assert_eq!(p.client_size, Some((80, 24)));
}

#[test]
fn one_argv_combined() {
    let args: Vec<String> = vec!["/home/u/.config/tmux/tmux-leader $0 @1 %2".into()];
    let p = parse_argv(&args).unwrap();
    assert_eq!(p.session_id, "$0");
    assert_eq!(p.window_id, 1);
    assert_eq!(p.pane_id, "%2");
    assert_eq!(p.client_size, None);
}

#[test]
fn one_argv_combined_with_size() {
    let args: Vec<String> = vec!["/home/u/.config/tmux/tmux-leader $0 @1 %2 100 30".into()];
    let p = parse_argv(&args).unwrap();
    assert_eq!(p.client_size, Some((100, 30)));
}

#[test]
fn literal_placeholder_errors() {
    let args: Vec<String> = vec!["#{session_id}".into(), "@1".into(), "%0".into()];
    assert!(parse_argv(&args).is_err());
}

#[test]
fn argv_error_kinds() {
    let two: Vec<String> = vec!["$0".into(), "@1".into()];
    assert_eq!(parse_argv(&two).unwrap_err().kind, ArgvErrorKind::ArgumentCount { count: 2 });
    let bad_window: Vec<String> = vec!["$0".into(), "@x".into(), "%1".into()];
    assert_eq!(parse_argv(&bad_window).unwrap_err().kind, ArgvErrorKind::WindowIdNotNumber);
    let zero_size: Vec<String> = vec!["$0".into(), "@1".into(), "%1".into(), "0".into(), "24".into()];
    assert_eq!(
        parse_argv(&zero_size).unwrap_err().kind,
        ArgvErrorKind::ClientSizeTooSmall { width: 0, height: 24 }
    );
    let bad_width: Vec<String> = vec!["$0".into(), "@1".into(), "%1".into(), "w".into(), "24".into()];
    assert_eq!(parse_argv(&bad_width).unwrap_err().kind, ArgvErrorKind::ClientWidthNotNumber);
    let bad_height: Vec<String> = vec!["$0".into(), "@1".into(), "%1".into(), "80".into(), "h".into()];
    assert_eq!(parse_argv(&bad_height).unwrap_err().kind, ArgvErrorKind::ClientHeightNotNumber);
    let empty_ids: Vec<String> = vec!["".into(), "@1".into(), "%1".into()];
    assert_eq!(parse_argv(&empty_ids).unwrap_err().kind, ArgvErrorKind::EmptyIds);
}

#[test]
fn combined_argument_errors() {
    assert_eq!(
        parse_targets_from_combined_e_arg(&chars("/x $0 @1")).unwrap_err().kind,
        ArgvErrorKind::TooFewTokens { count: 3 }
    );
    assert_eq!(
        parse_targets_from_combined_e_arg(&chars("/x $0 @1 2")).unwrap_err().kind,
        ArgvErrorKind::PaneIdMalformed
    );
    assert_eq!(
        parse_targets_from_combined_e_arg(&chars("/x $0 1 %2")).unwrap_err().kind,
        ArgvErrorKind::WindowIdMalformed
    );
    assert_eq!(
        parse_targets_from_combined_e_arg(&chars("/x 0 @1 %2")).unwrap_err().kind,
        ArgvErrorKind::SessionIdMalformed
    );
}

#[test]
fn combined_size_that_does_not_parse_is_left_to_the_ids() {
    // "@1 %2 x 30": the last two tokens are not a size, so `30` must be the pane id.
    let r = parse_targets_from_combined_e_arg(&chars("/x $0 @1 %2 x 30"));
    assert_eq!(r.unwrap_err().kind, ArgvErrorKind::PaneIdMalformed);
}

#[test]
fn context_accessors_and_window_target() {
    let args: Vec<String> = vec!["$4".into(), "@12".into(), "%7".into(), "100".into(), "30".into()];
    let ctx = init_from_args(&args).unwrap().unwrap();
    assert_eq!(session_id(&ctx), "$4");
    assert_eq!(target_pane(&ctx), "%7");
    assert_eq!(initial_window_id(&ctx), 12);
    assert_eq!(client_viewport_wh(&ctx), Some((100, 30)));
    assert_eq!(window_target(&ctx, 12), "$4:@12");
    assert_eq!(window_target(&ctx, 0), "$4:@0");
    let none: Vec<String> = Vec::new();
    assert!(init_from_args(&none).unwrap().is_none());
}

#[test]
fn env_context_paths() {
    let ctx = context_from_env_vars(Some(" $1 "), Some("@3"), Some("%9")).unwrap().unwrap();
    assert_eq!(ctx.session_id, "$1");
    assert_eq!(ctx.window_id, 3);
    assert_eq!(ctx.pane_id, "%9");
    assert!(context_from_env_vars(Some("#{session_id}"), Some("@3"), Some("%9")).is_none());
    assert!(context_from_env_vars(None, Some("@3"), Some("%9")).is_none());
    let e = context_from_env_vars(Some(""), Some("@3"), Some("%9")).unwrap().unwrap_err();
    assert_eq!(e.kind, ArgvErrorKind::EnvIdsEmpty);
    let (sid, wid, target) = ids_from_display("$2\t@5\n").unwrap();
    assert_eq!((sid.as_str(), wid, target.as_str()), ("$2", 5, "$2:@5"));
    // The output is trimmed before it is split, so a leading tab is gone: `@5` is then the
    // session and no window id follows.
    assert_eq!(ids_from_display("\t@5").unwrap_err().kind, ArgvErrorKind::WindowIdNotNumber);
    assert_eq!(ids_from_display("").unwrap_err().kind, ArgvErrorKind::WindowIdNotNumber);
    let c = context_from_display("$2".to_string(), 5, "$2:@5", " %3\n").unwrap();
    assert_eq!(c.pane_id, "%3");
    let e = context_from_display("$2".to_string(), 5, "$2:@5", " \n").unwrap_err();
    assert_eq!(e.kind, ArgvErrorKind::NoActivePane);
    assert_eq!(e.detail, "$2:@5");
}

#[test]
fn notice_is_flat_cut_and_escaped() {
    assert_eq!(notify_message("  a\n b  #c "), "a b ##c");
    let long = "x".repeat(205);
    let n = notify_message(&long);
    assert_eq!(n.chars().count(), 201);
    assert!(n.ends_with('…'));
}

#[test]
fn viewport_falls_back_in_order() {
    assert_eq!(viewport_size(Some((0, 40)), Some("90"), Some("30"), None), (1, 40));
    assert_eq!(viewport_size(None, Some("90"), Some("0"), Some((70, 20))), (90, 1));
    assert_eq!(viewport_size(None, Some("x"), Some("30"), Some((70, 20))), (70, 20));
    assert_eq!(viewport_size(None, None, None, None), (80, 24));
}

#[test]
fn log_path_and_line() {
    assert_eq!(log_file_path(Some("/var/tmp//")), "/var/tmp/tmux-leader-errors.log");
    assert_eq!(log_file_path(None), "/tmp/tmux-leader-errors.log");
    assert_eq!(log_line(17, "init", "ok"), "[17] [init] ok\n");
}

#[test]
fn window_target_id_reads_back() {
    let args: Vec<String> = vec!["$4".into(), "@12".into(), "%7".into()];
    let ctx = init_from_args(&args).unwrap().unwrap();
    for id in [0u64, 7, 12, 1_000_000, u64::MAX] {
        let t = window_target(&ctx, id);
        let win = t.split_once(':').unwrap().1;
        assert_eq!(parse_window_id(&chars(win)).unwrap(), id);
    }
}
