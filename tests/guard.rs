use ghqve::guard::{
    check_executable_path_conflict, check_ghq_root_conflict, check_target_path_conflict,
    CanonicalPath, ConflictError,
};

fn cp(parts: &[&str]) -> Option<CanonicalPath> {
    Some(CanonicalPath { components: parts.iter().map(|p| p.to_string()).collect() })
}

#[test]
fn guards_fail_open_on_missing_paths() {
    let p = cp(&["tmp", "proj"]);
    assert_eq!(check_executable_path_conflict(&None, &p), Ok(()));
    assert_eq!(check_executable_path_conflict(&p, &None), Ok(()));
    assert_eq!(check_ghq_root_conflict(&p, &None), Ok(()));
    assert_eq!(check_ghq_root_conflict(&None, &p), Ok(()));
    assert_eq!(check_target_path_conflict(&None, &p, &p), Ok(()));
    assert_eq!(check_target_path_conflict(&p, &None, &None), Ok(()));
}

#[test]
fn executable_check_refuses_either_direction() {
    let exe = cp(&["opt", "tool", "bin"]);
    assert_eq!(
        check_executable_path_conflict(&exe, &cp(&["opt", "tool"])),
        Err(ConflictError::ExecutableInPath)
    );
    assert_eq!(
        check_executable_path_conflict(&exe, &cp(&["opt", "tool", "bin", "sub"])),
        Err(ConflictError::ExecutableInPath)
    );
    assert_eq!(
        check_executable_path_conflict(&exe, &exe),
        Err(ConflictError::ExecutableInPath)
    );
    assert_eq!(check_executable_path_conflict(&exe, &cp(&["opt", "toolbox"])), Ok(()));
    assert_eq!(check_executable_path_conflict(&exe, &cp(&["tmp", "proj"])), Ok(()));
}

#[test]
fn root_check_containment() {
    let root = cp(&["home", "u", "ws"]);
    assert_eq!(check_ghq_root_conflict(&root, &root), Err(ConflictError::RootConflict));
    assert_eq!(
        check_ghq_root_conflict(&cp(&["home", "u", "ws", "github.com", "a"]), &root),
        Err(ConflictError::RootConflict)
    );
    assert_eq!(check_ghq_root_conflict(&cp(&["home", "u"]), &root), Ok(()));
    assert_eq!(check_ghq_root_conflict(&cp(&["home", "u", "wsx"]), &root), Ok(()));
}

#[test]
fn target_check_same_location() {
    let proj = cp(&["home", "u", "ws", "github.com", "acme"]);
    assert_eq!(
        check_target_path_conflict(&proj, &proj, &None),
        Err(ConflictError::SameLocation)
    );
    assert_eq!(
        check_target_path_conflict(&proj, &None, &proj),
        Err(ConflictError::SameLocation)
    );
    let other = cp(&["home", "u", "ws", "github.com"]);
    assert_eq!(check_target_path_conflict(&proj, &other, &proj), Ok(()));
}
