//! Safety checks run before a project directory is moved.
//!
//! Each check compares canonical paths (symlinks resolved by the caller).
//! A path that could not be canonicalized is `None`, and a check with a
//! `None` operand never blocks the move.

use vstd::prelude::*;

verus! {

/// An absolute, canonical path, held as its normal components from the root
/// down (`/home/u/ws` is `["home", "u", "ws"]`).
pub struct CanonicalPath {
    pub components: Vec<String>,
}

impl View for CanonicalPath {
    type V = Seq<Seq<char>>;

    open spec fn view(&self) -> Seq<Seq<char>> {
        self.components@.map_values(|c: String| c@)
    }
}

/// Why a move was refused.
#[derive(Debug, PartialEq, Eq, Structural)]
pub enum ConflictError {
    /// The running executable lives inside the project, or the project inside
    /// the executable's directory.
    ExecutableInPath,
    /// The project is the workspace root or lies beneath it.
    RootConflict,
    /// The project already sits where it would be moved to.
    SameLocation,
}

/// `a` is `b` or one of its ancestors.
pub open spec fn is_ancestor_or_self(a: Seq<Seq<char>>, b: Seq<Seq<char>>) -> bool {
    a.len() <= b.len() && b.subrange(0, a.len() as int) == a
}

pub open spec fn opt_view(p: Option<CanonicalPath>) -> Option<Seq<Seq<char>>> {
    match p {
        Some(c) => Some(c@),
        None => None,
    }
}

/// The executable's directory and the project lie on one line of descent.
pub open spec fn executable_conflict(exe_dir: Option<Seq<Seq<char>>>, project: Option<Seq<Seq<char>>>) -> bool {
    match (exe_dir, project) {
        (Some(e), Some(p)) => is_ancestor_or_self(p, e) || is_ancestor_or_self(e, p),
        _ => false,
    }
}

/// The project is the workspace root, or the root is one of its ancestors.
/// The direction is deliberate: a project already beneath the root is not
/// moved again, while a directory that holds the root is not refused by this
/// check.
pub open spec fn root_conflict(project: Option<Seq<Seq<char>>>, root: Option<Seq<Seq<char>>>) -> bool {
    match (project, root) {
        (Some(p), Some(r)) => is_ancestor_or_self(r, p),
        _ => false,
    }
}

/// The directory compared with the project: the target's canonical parent,
/// or the canonical target itself where the parent gave none.
pub open spec fn target_anchor(parent: Option<Seq<Seq<char>>>, target: Option<Seq<Seq<char>>>) -> Option<Seq<Seq<char>>> {
    match parent {
        Some(p) => Some(p),
        None => target,
    }
}

/// The project equals the directory the target would be created in.
pub open spec fn target_conflict(
    project: Option<Seq<Seq<char>>>,
    parent: Option<Seq<Seq<char>>>,
    target: Option<Seq<Seq<char>>>,
) -> bool {
    match (project, target_anchor(parent, target)) {
        (Some(p), Some(t)) => p == t,
        _ => false,
    }
}

/// Whether the components of `a` begin the components of `b`.
fn ancestor_or_self(a: &CanonicalPath, b: &CanonicalPath) -> (r: bool)
    ensures
        r == is_ancestor_or_self(a@, b@),
{
    let n = a.components.len();
    if n > b.components.len() {
        return false;
    }
    let mut i: usize = 0;
    while i < n
        invariant
            n == a.components.len(),
            n <= b.components.len(),
            i <= n,
            forall|k: int| 0 <= k < i ==> a@[k] == b@[k],
        decreases n - i,
    {
        if a.components[i] != b.components[i] {
            assert(b@.subrange(0, n as int)[i as int] != a@[i as int]);
            return false;
        }
        i = i + 1;
    }
    assert(b@.subrange(0, n as int) =~= a@);
    true
}

fn same_path(a: &CanonicalPath, b: &CanonicalPath) -> (r: bool)
    ensures
        r == (a@ == b@),
{
    if a.components.len() != b.components.len() {
        return false;
    }
    assert(b@.subrange(0, b@.len() as int) =~= b@);
    ancestor_or_self(a, b)
}

/// Refuses to move a directory that holds the running executable, or one
/// that lies inside the executable's directory.
pub fn check_executable_path_conflict(
    exe_dir: &Option<CanonicalPath>,
    project: &Option<CanonicalPath>,
) -> (r: Result<(), ConflictError>)
    ensures
        r == (if executable_conflict(opt_view(*exe_dir), opt_view(*project)) {
            Err::<(), ConflictError>(ConflictError::ExecutableInPath)
        } else {
            Ok(())
        }),
{
    match (exe_dir, project) {
        (Some(e), Some(p)) => {
            if ancestor_or_self(p, e) || ancestor_or_self(e, p) {
                Err(ConflictError::ExecutableInPath)
            } else {
                Ok(())
            }
        },
        _ => Ok(()),
    }
}

/// Refuses to move the workspace root itself or a directory beneath it.
pub fn check_ghq_root_conflict(
    project: &Option<CanonicalPath>,
    root: &Option<CanonicalPath>,
) -> (r: Result<(), ConflictError>)
    ensures
        r == (if root_conflict(opt_view(*project), opt_view(*root)) {
            Err::<(), ConflictError>(ConflictError::RootConflict)
        } else {
            Ok(())
        }),
{
    match (project, root) {
        (Some(p), Some(g)) => {
            if ancestor_or_self(g, p) {
                Err(ConflictError::RootConflict)
            } else {
                Ok(())
            }
        },
        _ => Ok(()),
    }
}

/// Refuses a move whose target would be created inside the project's own
/// location: `target_parent` is the canonical parent of the target, and
/// `target` the canonical target, consulted only where the parent is `None`.
pub fn check_target_path_conflict(
    project: &Option<CanonicalPath>,
    target_parent: &Option<CanonicalPath>,
    target: &Option<CanonicalPath>,
) -> (r: Result<(), ConflictError>)
    ensures
        r == (if target_conflict(opt_view(*project), opt_view(*target_parent), opt_view(*target)) {
            Err::<(), ConflictError>(ConflictError::SameLocation)
        } else {
            Ok(())
        }),
{
    let anchor = match target_parent {
        Some(p) => Some(p),
        None => match target {
            Some(t) => Some(t),
            None => None,
        },
    };
    match (project, anchor) {
        (Some(p), Some(t)) => {
            if same_path(p, t) {
                Err(ConflictError::SameLocation)
            } else {
                Ok(())
            }
        },
        _ => Ok(()),
    }
}

/// No check blocks a move when one of the paths it compares could not be
/// canonicalized: the guards fail open.
pub proof fn lemma_guards_fail_open(
    exe_dir: Option<Seq<Seq<char>>>,
    project: Option<Seq<Seq<char>>>,
    root: Option<Seq<Seq<char>>>,
    parent: Option<Seq<Seq<char>>>,
    target: Option<Seq<Seq<char>>>,
)
    ensures
        exe_dir is None || project is None ==> !executable_conflict(exe_dir, project),
        project is None || root is None ==> !root_conflict(project, root),
        project is None || target_anchor(parent, target) is None ==> !target_conflict(
            project,
            parent,
            target,
        ),
{
}

/// The root check refuses the root itself and every directory strictly
/// beneath it, and lets through a directory that strictly contains the root.
pub proof fn lemma_root_containment(project: Seq<Seq<char>>, root: Seq<Seq<char>>)
    ensures
        project == root ==> root_conflict(Some(project), Some(root)),
        is_ancestor_or_self(root, project) && root != project ==> root_conflict(
            Some(project),
            Some(root),
        ),
        is_ancestor_or_self(project, root) && project != root ==> !root_conflict(
            Some(project),
            Some(root),
        ),
{
    if project == root {
        assert(project.subrange(0, root.len() as int) =~= root);
    }
    if is_ancestor_or_self(project, root) && project != root && is_ancestor_or_self(root, project) {
        assert(project.len() == root.len());
        assert(root.subrange(0, project.len() as int) =~= root);
    }
}

/// The target check refuses exactly when the canonical project equals the
/// canonical parent of the target.
pub proof fn lemma_same_location(project: Seq<Seq<char>>, parent: Seq<Seq<char>>, target: Option<Seq<Seq<char>>>)
    ensures
        target_conflict(Some(project), Some(parent), target) <==> project == parent,
{
}

/// Where the target cannot be canonicalized when its parent cannot (an
/// absolute target whose parent is missing), the target check refuses
/// exactly when both the project and the target's parent canonicalize, to
/// the same path.
pub proof fn lemma_target_collision(
    project: Option<Seq<Seq<char>>>,
    parent: Option<Seq<Seq<char>>>,
    target: Option<Seq<Seq<char>>>,
)
    requires
        parent is None ==> target is None,
    ensures
        target_conflict(project, parent, target) <==> (project is Some && parent == project),
{
}

} // verus!
