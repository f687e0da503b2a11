//! The steps around the resolver: which remote identifier to use, what the
//! external commands' output means, and where the target path lies.

use vstd::prelude::*;
use crate::remote::{fallback_prefix, slash};
use crate::text::{join2, trim, trimmed};

verus! {

/// Why no remote identifier could be had.
#[derive(Debug, PartialEq, Eq, Structural)]
pub enum RemoteError {
    /// None was given or detected, and the fallback was not allowed.
    NotDetected,
    /// The fallback was allowed, but the project path has no final component.
    NoDirectoryName,
}

pub open spec fn opt_str(o: Option<String>) -> Option<Seq<char>> {
    match o {
        Some(s) => Some(s@),
        None => None,
    }
}

/// The identifier to use: the explicit one, else the detected one, else,
/// where `force` allows it, `unknown/<dir_name>`.
pub open spec fn chosen_remote(
    explicit: Option<Seq<char>>,
    detected: Option<Seq<char>>,
    force: bool,
    dir_name: Option<Seq<char>>,
) -> Result<Seq<char>, RemoteError> {
    match (explicit, detected) {
        (Some(e), _) => Ok(e),
        (None, Some(d)) => Ok(d),
        (None, None) => if !force {
            Err(RemoteError::NotDetected)
        } else {
            match dir_name {
                Some(n) => Ok(fallback_prefix() + n),
                None => Err(RemoteError::NoDirectoryName),
            }
        },
    }
}

/// Picks the remote identifier by precedence: `explicit` over `detected`
/// over the fallback `unknown/<dir_name>`, which only `force` permits.
pub fn choose_remote(
    explicit: Option<String>,
    detected: Option<String>,
    force: bool,
    dir_name: Option<String>,
) -> (r: Result<String, RemoteError>)
    ensures
        match r {
            Ok(s) => chosen_remote(opt_str(explicit), opt_str(detected), force, opt_str(dir_name))
                == Ok::<Seq<char>, RemoteError>(s@),
            Err(e) => chosen_remote(opt_str(explicit), opt_str(detected), force, opt_str(dir_name))
                == Err::<Seq<char>, RemoteError>(e),
        },
{
    match (explicit, detected) {
        (Some(e), _) => Ok(e),
        (None, Some(d)) => Ok(d),
        (None, None) => {
            if !force {
                Err(RemoteError::NotDetected)
            } else {
                match dir_name {
                    Some(n) => {
                        let unknown = "unknown/";
                        proof {
                            reveal_strlit("unknown/");
                        }
                        assert(unknown@ =~= fallback_prefix());
                        Ok(join2(unknown, n.as_str()))
                    },
                    None => Err(RemoteError::NoDirectoryName),
                }
            }
        },
    }
}

/// The remote URL reported by `git remote get-url origin`: its output
/// trimmed, where the command succeeded and the result is not empty.
pub fn remote_from_git_output(success: bool, stdout: &str) -> (r: Option<String>)
    ensures
        opt_str(r) == (if success && trimmed(stdout@).len() > 0 {
            Some(trimmed(stdout@))
        } else {
            None
        }),
{
    if !success {
        return None;
    }
    let url = trim(stdout);
    if url.as_str().unicode_len() == 0 {
        None
    } else {
        Some(url)
    }
}

/// A path that begins at the file system's root.
pub open spec fn is_absolute(p: Seq<char>) -> bool {
    p.len() > 0 && p[0] == '/'
}

/// The workspace root reported by `ghq root`: its output trimmed, where the
/// command succeeded and printed an absolute path.
pub fn root_from_ghq_output(success: bool, stdout: &str) -> (r: Option<String>)
    ensures
        opt_str(r) == (if success && is_absolute(trimmed(stdout@)) {
            Some(trimmed(stdout@))
        } else {
            None
        }),
{
    if !success {
        return None;
    }
    let root = trim(stdout);
    if root.as_str().unicode_len() > 0 && root.as_str().get_char(0) == '/' {
        Some(root)
    } else {
        None
    }
}

/// `rel` below `root`, with one separator between them.
pub open spec fn joined(root: Seq<char>, rel: Seq<char>) -> Seq<char> {
    if root.len() == 0 || root.last() == '/' {
        root + rel
    } else {
        root + slash() + rel
    }
}

/// The target path: the resolved relative path below the workspace root.
pub fn target_path(root: &str, rel: &str) -> (r: String)
    ensures
        r@ == joined(root@, rel@),
{
    let n = root.unicode_len();
    if n == 0 || root.get_char(n - 1) == '/' {
        join2(root, rel)
    } else {
        let sep = "/";
        proof {
            reveal_strlit("/");
        }
        assert(sep@ =~= slash());
        let r = join2(root, sep);
        join2(r.as_str(), rel)
    }
}

} // verus!
