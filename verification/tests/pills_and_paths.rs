use leader::pills::{
    branch_search_bases, cli_line, current_context_from_kubeconfig, git_executable_candidates,
    gitdir_from_marker, is_inside_work_tree, join_path, kitten_path, kubeconfig_search_paths,
    leader_kube_context_display, leader_path_for_shell, parse_git_head, theme_config_paths,
};

#[test]
fn git_head_labels() {
    assert_eq!(parse_git_head("\n  ref: refs/heads/main \n").as_deref(), Some("main"));
    assert_eq!(parse_git_head("ref: refs/remotes/origin/dev").as_deref(), Some("dev"));
    assert_eq!(parse_git_head("0123456789abcdef").as_deref(), Some("0123456"));
    assert_eq!(parse_git_head("01234z6789").as_deref(), None);
    assert_eq!(parse_git_head("abc").as_deref(), None);
    assert_eq!(parse_git_head(" \n\n").as_deref(), None);
    assert_eq!(parse_git_head("ref: refs/heads/ ").as_deref(), None);
}

#[test]
fn gitdir_markers() {
    assert_eq!(gitdir_from_marker("x\n gitdir: ../.git/worktrees/a \n").as_deref(), Some("../.git/worktrees/a"));
    assert_eq!(gitdir_from_marker("gitdir:   \ngitdir: /abs").as_deref(), Some("/abs"));
    assert_eq!(gitdir_from_marker("nothing").as_deref(), None);
}

#[test]
fn paths() {
    assert_eq!(join_path("/a", "b"), "/a/b");
    assert_eq!(join_path("/a/", "b"), "/a/b");
    assert_eq!(join_path("/a", "/b"), "/b");
    assert_eq!(join_path("", "b"), "b");
    assert_eq!(leader_path_for_shell("~", Some("/home/u")), "/home/u");
    assert_eq!(leader_path_for_shell("~/src", Some("/home/u")), "/home/u/src");
    assert_eq!(leader_path_for_shell("~/src", None), "~/src");
    assert_eq!(leader_path_for_shell("/x", Some("/home/u")), "/x");
    assert_eq!(
        branch_search_bases(Some("~/p"), Some("/h"), Some("/h/p"), Some("/w")),
        vec!["/h/p".to_string(), "/w".to_string()]
    );
    assert_eq!(branch_search_bases(Some(""), None, Some(""), None), Vec::<String>::new());
}

#[test]
fn git_candidates() {
    assert_eq!(
        git_executable_candidates(false, Some("/h")),
        vec![
            "git", "/usr/bin/git", "/usr/local/bin/git", "/h/.local/share/mise/shims/git",
            "/h/.local/bin/git", "/h/.nix-profile/bin/git",
        ]
    );
    assert_eq!(git_executable_candidates(true, None).len(), 4);
    assert!(is_inside_work_tree(true, " true\n"));
    assert!(!is_inside_work_tree(false, "true"));
    assert!(!is_inside_work_tree(true, "false"));
}

#[test]
fn kube_context() {
    assert_eq!(
        kubeconfig_search_paths(Some("/a::/b"), Some("/h"), false),
        vec!["/a", "/b", "/h/.kube/config"]
    );
    assert_eq!(kubeconfig_search_paths(Some("/a;/b"), None, true), vec!["/a", "/b"]);
    assert_eq!(kubeconfig_search_paths(Some(""), None, false), Vec::<String>::new());
    let cfg = "apiVersion: v1\n  current-context: \"prod\"\nkind: Config\n";
    assert_eq!(current_context_from_kubeconfig(cfg).as_deref(), Some("prod"));
    assert_eq!(current_context_from_kubeconfig("current-context: ''\ncurrent-context: dev").as_deref(), Some("dev"));
    assert_eq!(current_context_from_kubeconfig("x: y").as_deref(), None);
    assert_eq!(cli_line(true, " ctx \n").as_deref(), Some("ctx"));
    assert_eq!(cli_line(false, "ctx").as_deref(), None);
    assert_eq!(cli_line(true, "  ").as_deref(), None);
    assert_eq!(leader_kube_context_display(false, Some("a".into()), None), None);
    assert_eq!(leader_kube_context_display(true, None, Some("b".into())).as_deref(), Some("b"));
    assert_eq!(leader_kube_context_display(true, Some("a".into()), Some("b".into())).as_deref(), Some("a"));
}

#[test]
fn config_and_path_env() {
    assert_eq!(
        theme_config_paths(Some("/t.yml"), Some("/h"), "kitty"),
        vec!["/t.yml", "/h/.config/kitty/leader_theme.yml"]
    );
    assert_eq!(kitten_path(Some("/usr/bin")), "/opt/homebrew/bin:/usr/bin");
    assert_eq!(kitten_path(None), "/opt/homebrew/bin:");
}
