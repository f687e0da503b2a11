use ghqve::plan::{
    choose_remote, remote_from_git_output, root_from_ghq_output, target_path, RemoteError,
};
use ghqve::remote::parse_remote_url;

#[test]
fn dry_run_target_for_detected_url() {
    let remote = choose_remote(
        None,
        Some("https://github.com/acme/widget.git".to_string()),
        false,
        Some("proj".to_string()),
    )
    .unwrap();
    let rel = parse_remote_url(&remote).unwrap();
    assert_eq!(target_path("/home/u/ws", &rel), "/home/u/ws/github.com/acme/widget");
}

#[test]
fn no_remote_without_force_fails() {
    assert_eq!(
        choose_remote(None, None, false, Some("proj".to_string())),
        Err(RemoteError::NotDetected)
    );
}

#[test]
fn explicit_remote_wins_over_detection() {
    let remote = choose_remote(
        Some("acme/widget".to_string()),
        Some("https://example.org/x/y.git".to_string()),
        false,
        None,
    )
    .unwrap();
    assert_eq!(remote, "acme/widget");
    assert_eq!(parse_remote_url(&remote).unwrap(), "github.com/acme/widget");
}

#[test]
fn forced_fallback_uses_directory_name() {
    assert_eq!(
        choose_remote(None, None, true, Some("proj".to_string())).unwrap(),
        "unknown/proj"
    );
    assert_eq!(choose_remote(None, None, true, None), Err(RemoteError::NoDirectoryName));
}

#[test]
fn git_output_is_trimmed() {
    assert_eq!(
        remote_from_git_output(true, "  https://github.com/a/b.git\n"),
        Some("https://github.com/a/b.git".to_string())
    );
    assert_eq!(remote_from_git_output(true, " \n"), None);
    assert_eq!(remote_from_git_output(false, "https://x/y\n"), None);
}

#[test]
fn ghq_root_output_is_trimmed() {
    assert_eq!(
        root_from_ghq_output(true, "/home/u/ghq\n"),
        Some("/home/u/ghq".to_string())
    );
    assert_eq!(root_from_ghq_output(false, "/home/u/ghq\n"), None);
}

#[test]
fn ghq_root_must_be_absolute() {
    assert_eq!(root_from_ghq_output(true, "\n"), None);
    assert_eq!(root_from_ghq_output(true, "ghq\n"), None);
}

#[test]
fn trimming_removes_unicode_white_space() {
    assert_eq!(
        remote_from_git_output(true, "\u{3000}\t acme/widget\u{a0}\r\n"),
        Some("acme/widget".to_string())
    );
    assert_eq!(remote_from_git_output(true, "\u{2028}\u{85}"), None);
}

#[test]
fn target_path_joins_with_one_separator() {
    assert_eq!(target_path("/home/u/ws/", "github.com/a/b"), "/home/u/ws/github.com/a/b");
    assert_eq!(target_path("", "github.com/a/b"), "github.com/a/b");
}
