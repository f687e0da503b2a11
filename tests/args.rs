use ghqve::args::{Args, ArgsError};

#[test]
fn test_args_with_project_path_only() {
    let args = Args::parse_from(&["ghqve", "/path/to/project"]).unwrap();
    assert_eq!(args.project_path, "/path/to/project");
    assert_eq!(args.remote, None);
    assert!(!args.force);
    assert!(!args.dry_run);
}

#[test]
fn test_args_with_remote_url() {
    let args = Args::parse_from(&[
        "ghqve",
        "/path/to/project",
        "--remote",
        "https://github.com/user/repo",
    ])
    .unwrap();
    assert_eq!(args.project_path, "/path/to/project");
    assert_eq!(
        args.remote,
        Some("https://github.com/user/repo".to_string())
    );
    assert!(!args.force);
    assert!(!args.dry_run);
}

#[test]
fn test_args_with_force_flag() {
    let args = Args::parse_from(&["ghqve", "/path/to/project", "--force"]).unwrap();
    assert_eq!(args.project_path, "/path/to/project");
    assert_eq!(args.remote, None);
    assert!(args.force);
    assert!(!args.dry_run);
}

#[test]
fn test_args_with_dry_run_flag() {
    let args = Args::parse_from(&["ghqve", "/path/to/project", "--dry-run"]).unwrap();
    assert_eq!(args.project_path, "/path/to/project");
    assert_eq!(args.remote, None);
    assert!(!args.force);
    assert!(args.dry_run);
}

#[test]
fn test_args_with_short_flags() {
    let args = Args::parse_from(&[
        "ghqve",
        "/path/to/project",
        "-r",
        "https://example.com/repo",
        "-f",
        "-d",
    ])
    .unwrap();
    assert_eq!(args.project_path, "/path/to/project");
    assert_eq!(args.remote, Some("https://example.com/repo".to_string()));
    assert!(args.force);
    assert!(args.dry_run);
}

#[test]
fn args_remote_with_equals_sign() {
    let args = Args::parse_from(&["ghqve", "--remote=acme/widget", "proj"]).unwrap();
    assert_eq!(args.project_path, "proj");
    assert_eq!(args.remote, Some("acme/widget".to_string()));
}

#[test]
fn args_missing_project_path() {
    let err = Args::parse_from(&["ghqve", "-f"]).unwrap_err();
    assert_eq!(err, ArgsError::MissingProjectPath);
    let err = Args::parse_from(&[]).unwrap_err();
    assert_eq!(err, ArgsError::MissingProjectPath);
}

#[test]
fn args_unknown_option_and_second_path() {
    let err = Args::parse_from(&["ghqve", "p", "--verbose"]).unwrap_err();
    assert_eq!(err, ArgsError::UnexpectedArgument("--verbose".to_string()));
    let err = Args::parse_from(&["ghqve", "p", "q"]).unwrap_err();
    assert_eq!(err, ArgsError::UnexpectedArgument("q".to_string()));
}

#[test]
fn args_missing_value_and_repeats() {
    let err = Args::parse_from(&["ghqve", "p", "--remote"]).unwrap_err();
    assert_eq!(err, ArgsError::MissingValue("--remote".to_string()));
    let err = Args::parse_from(&["ghqve", "p", "-f", "--force"]).unwrap_err();
    assert_eq!(err, ArgsError::Repeated("--force".to_string()));
    let err = Args::parse_from(&["ghqve", "p", "-r", "a/b", "--remote=c/d"]).unwrap_err();
    assert_eq!(err, ArgsError::Repeated("--remote=c/d".to_string()));
}

#[test]
fn args_help_and_version() {
    assert_eq!(Args::parse_from(&["ghqve", "--help"]).unwrap_err(), ArgsError::Help);
    assert_eq!(Args::parse_from(&["ghqve", "p", "-V"]).unwrap_err(), ArgsError::Version);
}

#[test]
fn args_grouped_short_options() {
    let args = Args::parse_from(&["ghqve", "-fd", "p"]).unwrap();
    assert!(args.force && args.dry_run);
    let args = Args::parse_from(&["ghqve", "-fr", "acme/widget", "p"]).unwrap();
    assert!(args.force);
    assert_eq!(args.remote, Some("acme/widget".to_string()));
    let err = Args::parse_from(&["ghqve", "p", "-ff"]).unwrap_err();
    assert_eq!(err, ArgsError::Repeated("-ff".to_string()));
    let err = Args::parse_from(&["ghqve", "p", "-fx"]).unwrap_err();
    assert_eq!(err, ArgsError::UnexpectedArgument("-fx".to_string()));
}

#[test]
fn args_attached_short_value() {
    let args = Args::parse_from(&["ghqve", "-racme/widget", "p"]).unwrap();
    assert_eq!(args.remote, Some("acme/widget".to_string()));
    let args = Args::parse_from(&["ghqve", "-r=acme/widget", "p"]).unwrap();
    assert_eq!(args.remote, Some("acme/widget".to_string()));
}

#[test]
fn args_double_dash_ends_options() {
    let args = Args::parse_from(&["ghqve", "-f", "--", "-weird-dir"]).unwrap();
    assert_eq!(args.project_path, "-weird-dir");
    assert!(args.force);
}

#[test]
fn args_value_may_not_look_like_option() {
    let err = Args::parse_from(&["ghqve", "p", "-r", "-f"]).unwrap_err();
    assert_eq!(err, ArgsError::MissingValue("-r".to_string()));
    let err = Args::parse_from(&["ghqve", "p", "--remote", "--force"]).unwrap_err();
    assert_eq!(err, ArgsError::MissingValue("--remote".to_string()));
}
