use ghqve::remote::{parse_remote_url, resolve_parsed, ParseError, UrlParts};

#[test]
fn url_with_git_suffix_resolves_to_host_owner_repo() {
    assert_eq!(
        parse_remote_url("https://github.com/acme/widget.git").unwrap(),
        "github.com/acme/widget"
    );
    assert_eq!(
        parse_remote_url("ssh://git@example.org/team/tool.git").unwrap(),
        "example.org/team/tool"
    );
}

#[test]
fn url_suffix_stripped_once_and_only_as_suffix() {
    assert_eq!(
        parse_remote_url("https://example.com/repo").unwrap(),
        "example.com/repo"
    );
    assert_eq!(
        parse_remote_url("https://h.io/a/b.git.git").unwrap(),
        "h.io/a/b.git"
    );
    assert_eq!(
        parse_remote_url("https://h.io/a/b.github").unwrap(),
        "h.io/a/b.github"
    );
}

#[test]
fn url_without_path_resolves_to_host() {
    assert_eq!(parse_remote_url("https://example.com").unwrap(), "example.com");
}

#[test]
fn url_without_host_is_invalid_host() {
    assert_eq!(parse_remote_url("file:///tmp/repo.git"), Err(ParseError::InvalidHost));
}

#[test]
fn url_with_empty_host_is_invalid_host() {
    assert_eq!(parse_remote_url("foo:///x"), Err(ParseError::InvalidHost));
    let parts = UrlParts { host: Some(String::new()), path: "/x".to_string() };
    assert_eq!(resolve_parsed("foo:///x", Some(parts)), Err(ParseError::InvalidHost));
}

#[test]
fn shorthand_always_lands_under_github() {
    assert_eq!(parse_remote_url("acme/widget").unwrap(), "github.com/acme/widget");
    assert_eq!(
        parse_remote_url("github.com/acme/widget").unwrap(),
        "github.com/acme/widget"
    );
    assert_eq!(
        parse_remote_url("gitlab.com/acme/widget").unwrap(),
        "github.com/acme/widget"
    );
}

#[test]
fn fallback_identifier_kept_unchanged() {
    assert_eq!(
        parse_remote_url("unknown/team/proj").unwrap(),
        "unknown/team/proj"
    );
    assert_eq!(parse_remote_url("unknown/").unwrap(), "unknown/");
}

#[test]
fn single_segment_fallback_kept_unchanged() {
    assert_eq!(parse_remote_url("unknown/proj").unwrap(), "unknown/proj");
    assert_eq!(parse_remote_url("unknown/a/b:c").unwrap(), "unknown/a/b:c");
}

#[test]
fn shorthand_with_colon_in_a_segment() {
    assert_eq!(parse_remote_url("acme/wid:get").unwrap(), "github.com/acme/wid:get");
    assert_eq!(parse_remote_url("github.com/a:b/c").unwrap(), "github.com/a:b/c");
}

#[test]
fn url_trailing_separator_dropped() {
    assert_eq!(parse_remote_url("https://h.io/a/b/").unwrap(), "h.io/a/b");
    assert_eq!(parse_remote_url("https://h.io/a/b.git/").unwrap(), "h.io/a/b");
}

#[test]
fn other_strings_are_unparseable_with_payload() {
    for s in ["widget", "a/b/c", "/a/b", "a//b", "", "example.org/a/b"] {
        assert_eq!(
            parse_remote_url(s),
            Err(ParseError::UnparseableRemote(s.to_string()))
        );
    }
}

#[test]
fn resolve_from_given_url_parts() {
    let parts = UrlParts { host: Some("h".to_string()), path: "/x/y.git".to_string() };
    assert_eq!(resolve_parsed("anything", Some(parts)).unwrap(), "h/x/y");
    let parts = UrlParts { host: None, path: "/x".to_string() };
    assert_eq!(resolve_parsed("anything", Some(parts)), Err(ParseError::InvalidHost));
    assert_eq!(resolve_parsed("a/b", None).unwrap(), "github.com/a/b");
    assert_eq!(
        resolve_parsed("nope", None),
        Err(ParseError::UnparseableRemote("nope".to_string()))
    );
}
