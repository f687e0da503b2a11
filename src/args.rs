//! The command line: one project path, an optional remote identifier, and
//! the `force` and `dry-run` switches.
//!
//! Accepted tokens: `--remote <id>`, `--remote=<id>`, `--force`,
//! `--dry-run`, `--help`, `--version`; groups of the short forms `-r`, `-f`,
//! `-d`, `-h`, `-V` (`-fd`, `-fr <id>`, `-r<id>`, `-r=<id>`); `--`, after
//! which every token is positional; and one positional path. Each option may
//! appear once, and an option's value may not itself look like an option.

use vstd::prelude::*;
use crate::text::{has_prefix, equals, starts_with};

verus! {

/// The parsed command line.
#[derive(Debug)]
pub struct Args {
    /// Path to the project to move.
    pub project_path: String,
    /// Remote identifier given on the command line, if any.
    pub remote: Option<String>,
    /// Move even if no remote identifier can be detected.
    pub force: bool,
    /// Only report the destination, without moving.
    pub dry_run: bool,
}

/// Why the command line was not turned into `Args`.
#[derive(Debug, PartialEq, Eq)]
pub enum ArgsError {
    /// No project path was given.
    MissingProjectPath,
    /// An unknown option, or a second positional argument.
    UnexpectedArgument(String),
    /// An option that needs a value came last.
    MissingValue(String),
    /// An option was given twice.
    Repeated(String),
    /// Help was asked for.
    Help,
    /// The version was asked for.
    Version,
}

/// The state of a command line read so far.
pub struct ArgsModel {
    pub project_path: Option<Seq<char>>,
    pub remote: Option<Seq<char>>,
    pub force: bool,
    pub dry_run: bool,
}

pub enum ArgsFault {
    MissingProjectPath,
    UnexpectedArgument(Seq<char>),
    MissingValue(Seq<char>),
    Repeated(Seq<char>),
    Help,
    Version,
}

impl View for ArgsError {
    type V = ArgsFault;

    open spec fn view(&self) -> ArgsFault {
        match self {
            ArgsError::MissingProjectPath => ArgsFault::MissingProjectPath,
            ArgsError::UnexpectedArgument(s) => ArgsFault::UnexpectedArgument(s@),
            ArgsError::MissingValue(s) => ArgsFault::MissingValue(s@),
            ArgsError::Repeated(s) => ArgsFault::Repeated(s@),
            ArgsError::Help => ArgsFault::Help,
            ArgsError::Version => ArgsFault::Version,
        }
    }
}

pub open spec fn empty_model() -> ArgsModel {
    ArgsModel { project_path: None, remote: None, force: false, dry_run: false }
}

pub open spec fn is_remote_flag(t: Seq<char>) -> bool {
    t == "-r"@ || t == "--remote"@
}

pub open spec fn is_force_flag(t: Seq<char>) -> bool {
    t == "-f"@ || t == "--force"@
}

pub open spec fn is_dry_run_flag(t: Seq<char>) -> bool {
    t == "-d"@ || t == "--dry-run"@
}

pub open spec fn is_help_flag(t: Seq<char>) -> bool {
    t == "-h"@ || t == "--help"@
}

pub open spec fn is_version_flag(t: Seq<char>) -> bool {
    t == "-V"@ || t == "--version"@
}

/// Whether `t` reads as an option rather than a value.
pub open spec fn looks_like_option(t: Seq<char>) -> bool {
    t.len() > 1 && t[0] == '-'
}

/// The value given right after `r` in a group of short options: the rest
/// of the token, without one leading `=`.
pub open spec fn attached_value(rest: Seq<char>) -> Seq<char> {
    if rest.len() > 0 && rest[0] == '=' {
        rest.drop_first()
    } else {
        rest
    }
}

pub open spec fn token_measure(toks: Seq<Seq<char>>, i: int, k: int) -> int {
    if 0 <= i < toks.len() {
        toks[i].len() + 1 - k
    } else {
        0
    }
}

/// Reads the tokens from index `i` on, starting from state `st`. Where `k`
/// is positive, `toks[i]` is a group of short options (`-fd`) read up to its
/// `k`-th character; `raw` says that `--` was seen, after which every token
/// is positional.
pub open spec fn read_tokens(
    toks: Seq<Seq<char>>,
    i: int,
    k: int,
    raw: bool,
    st: ArgsModel,
) -> Result<ArgsModel, ArgsFault>
    decreases toks.len() - i, token_measure(toks, i, k),
{
    if i < 0 || i >= toks.len() {
        if st.project_path is None {
            Err(ArgsFault::MissingProjectPath)
        } else {
            Ok(st)
        }
    } else {
        let t = toks[i];
        if k > 0 {
            if k >= t.len() {
                read_tokens(toks, i + 1, 0, raw, st)
            } else if t[k] == 'h' {
                Err(ArgsFault::Help)
            } else if t[k] == 'V' {
                Err(ArgsFault::Version)
            } else if t[k] == 'f' {
                if st.force {
                    Err(ArgsFault::Repeated(t))
                } else {
                    read_tokens(toks, i, k + 1, raw, ArgsModel { force: true, ..st })
                }
            } else if t[k] == 'd' {
                if st.dry_run {
                    Err(ArgsFault::Repeated(t))
                } else {
                    read_tokens(toks, i, k + 1, raw, ArgsModel { dry_run: true, ..st })
                }
            } else if t[k] == 'r' {
                if st.remote is Some {
                    Err(ArgsFault::Repeated(t))
                } else if k + 1 < t.len() {
                    read_tokens(
                        toks,
                        i + 1,
                        0,
                        raw,
                        ArgsModel { remote: Some(attached_value(t.subrange(k + 1, t.len() as int))), ..st },
                    )
                } else if i + 1 >= toks.len() || looks_like_option(toks[i + 1]) {
                    Err(ArgsFault::MissingValue(t))
                } else {
                    read_tokens(toks, i + 2, 0, raw, ArgsModel { remote: Some(toks[i + 1]), ..st })
                }
            } else {
                Err(ArgsFault::UnexpectedArgument(t))
            }
        } else if !raw && t == "--"@ {
            read_tokens(toks, i + 1, 0, true, st)
        } else if !raw && t == "--help"@ {
            Err(ArgsFault::Help)
        } else if !raw && t == "--version"@ {
            Err(ArgsFault::Version)
        } else if !raw && t == "--remote"@ {
            if st.remote is Some {
                Err(ArgsFault::Repeated(t))
            } else if i + 1 >= toks.len() || looks_like_option(toks[i + 1]) {
                Err(ArgsFault::MissingValue(t))
            } else {
                read_tokens(toks, i + 2, 0, raw, ArgsModel { remote: Some(toks[i + 1]), ..st })
            }
        } else if !raw && has_prefix(t, "--remote="@) {
            if st.remote is Some {
                Err(ArgsFault::Repeated(t))
            } else {
                read_tokens(toks, i + 1, 0, raw, ArgsModel { remote: Some(t.subrange(9, t.len() as int)), ..st })
            }
        } else if !raw && t == "--force"@ {
            if st.force {
                Err(ArgsFault::Repeated(t))
            } else {
                read_tokens(toks, i + 1, 0, raw, ArgsModel { force: true, ..st })
            }
        } else if !raw && t == "--dry-run"@ {
            if st.dry_run {
                Err(ArgsFault::Repeated(t))
            } else {
                read_tokens(toks, i + 1, 0, raw, ArgsModel { dry_run: true, ..st })
            }
        } else if !raw && looks_like_option(t) && t[1] != '-' {
            read_tokens(toks, i, 1, raw, st)
        } else if !raw && looks_like_option(t) {
            Err(ArgsFault::UnexpectedArgument(t))
        } else if st.project_path is Some {
            Err(ArgsFault::UnexpectedArgument(t))
        } else {
            read_tokens(toks, i + 1, 0, raw, ArgsModel { project_path: Some(t), ..st })
        }
    }
}

/// The reading of a whole argument vector; its first element names the
/// program and is skipped.
pub open spec fn read_args(argv: Seq<Seq<char>>) -> Result<ArgsModel, ArgsFault> {
    read_tokens(argv, 1, 0, false, empty_model())
}

pub open spec fn argv_view(argv: &[&str]) -> Seq<Seq<char>> {
    argv@.map_values(|s: &str| s@)
}

pub open spec fn opt_view(o: Option<String>) -> Option<Seq<char>> {
    match o {
        Some(s) => Some(s@),
        None => None,
    }
}

/// A command line read so far.
struct Reading {
    path: Option<String>,
    remote: Option<String>,
    force: bool,
    dry_run: bool,
}

impl Reading {
    spec fn model(&self) -> ArgsModel {
        ArgsModel {
            project_path: opt_view(self.path),
            remote: opt_view(self.remote),
            force: self.force,
            dry_run: self.dry_run,
        }
    }
}

/// Reads the group of short options `argv[i]` from its second character on;
/// on success, returns the index of the next token to read.
fn read_group(argv: &[&str], i: usize, raw: bool, st: &mut Reading) -> (r: Result<usize, ArgsError>)
    requires
        i < argv@.len(),
    ensures
        match r {
            Ok(next) => i < next <= argv@.len() && read_tokens(argv_view(argv), i as int, 1, raw, old(st).model())
                == read_tokens(argv_view(argv), next as int, 0, raw, final(st).model()),
            Err(e) => read_tokens(argv_view(argv), i as int, 1, raw, old(st).model()) == Err::<ArgsModel, ArgsFault>(e@),
        },
{
    let ghost toks = argv_view(argv);
    let t = argv[i];
    assert(toks[i as int] == t@);
    let n = t.unicode_len();
    let m = argv.len();
    let mut k: usize = 1;
    while k < n
        invariant
            m == argv@.len(),
            toks == argv_view(argv),
            i < argv@.len(),
            toks[i as int] == t@,
            n == t@.len(),
            1 <= k,
            read_tokens(toks, i as int, 1, raw, old(st).model()) == read_tokens(toks, i as int, k as int, raw, st.model()),
        decreases n - k,
    {
        let c = t.get_char(k);
        if c == 'h' {
            return Err(ArgsError::Help);
        } else if c == 'V' {
            return Err(ArgsError::Version);
        } else if c == 'f' {
            if st.force {
                return Err(ArgsError::Repeated(String::from_str(t)));
            }
            st.force = true;
        } else if c == 'd' {
            if st.dry_run {
                return Err(ArgsError::Repeated(String::from_str(t)));
            }
            st.dry_run = true;
        } else if c == 'r' {
            if st.remote.is_some() {
                return Err(ArgsError::Repeated(String::from_str(t)));
            }
            if k + 1 < n {
                let rest = t.substring_char(k + 1, n);
                let value = if rest.get_char(0) == '=' {
                    rest.substring_char(1, rest.unicode_len())
                } else {
                    rest
                };
                assert(value@ == attached_value(rest@));
                st.remote = Some(String::from_str(value));
                return Ok(i + 1);
            }
            if i + 1 >= m || looks_like_option_exec(argv[i + 1]) {
                return Err(ArgsError::MissingValue(String::from_str(t)));
            }
            assert(toks[i + 1] == argv[i + 1]@);
            st.remote = Some(String::from_str(argv[i + 1]));
            return Ok(i + 2);
        } else {
            return Err(ArgsError::UnexpectedArgument(String::from_str(t)));
        }
        k = k + 1;
    }
    Ok(i + 1)
}

fn looks_like_option_exec(t: &str) -> (r: bool)
    ensures
        r == looks_like_option(t@),
{
    t.unicode_len() > 1 && t.get_char(0) == '-'
}

impl Args {
    pub open spec fn model(&self) -> ArgsModel {
        ArgsModel {
            project_path: Some(self.project_path@),
            remote: opt_view(self.remote),
            force: self.force,
            dry_run: self.dry_run,
        }
    }

    /// Reads an argument vector whose first element names the program.
    pub fn parse_from(argv: &[&str]) -> (r: Result<Args, ArgsError>)
        ensures
            match r {
                Ok(a) => read_args(argv_view(argv)) == Ok::<ArgsModel, ArgsFault>(a.model()),
                Err(e) => read_args(argv_view(argv)) == Err::<ArgsModel, ArgsFault>(e@),
            },
    {
        let ghost toks = argv_view(argv);
        let n = argv.len();
        let mut st = Reading { path: None, remote: None, force: false, dry_run: false };
        let mut raw = false;
        let mut i: usize = 1;
        while i < n
            invariant
                n == argv@.len(),
                toks == argv_view(argv),
                1 <= i,
                read_args(toks) == read_tokens(toks, i as int, 0, raw, st.model()),
            decreases n - i,
        {
            let t = argv[i];
            assert(toks[i as int] == t@);
            if !raw && equals(t, "--") {
                raw = true;
                i = i + 1;
            } else if !raw && equals(t, "--help") {
                return Err(ArgsError::Help);
            } else if !raw && equals(t, "--version") {
                return Err(ArgsError::Version);
            } else if !raw && equals(t, "--remote") {
                if st.remote.is_some() {
                    return Err(ArgsError::Repeated(String::from_str(t)));
                }
                if i + 1 >= n || looks_like_option_exec(argv[i + 1]) {
                    return Err(ArgsError::MissingValue(String::from_str(t)));
                }
                assert(toks[i + 1] == argv[i + 1]@);
                st.remote = Some(String::from_str(argv[i + 1]));
                i = i + 2;
            } else if !raw && starts_with(t, "--remote=") {
                if st.remote.is_some() {
                    return Err(ArgsError::Repeated(String::from_str(t)));
                }
                proof {
                    reveal_strlit("--remote=");
                }
                st.remote = Some(String::from_str(t.substring_char(9, t.unicode_len())));
                i = i + 1;
            } else if !raw && equals(t, "--force") {
                if st.force {
                    return Err(ArgsError::Repeated(String::from_str(t)));
                }
                st.force = true;
                i = i + 1;
            } else if !raw && equals(t, "--dry-run") {
                if st.dry_run {
                    return Err(ArgsError::Repeated(String::from_str(t)));
                }
                st.dry_run = true;
                i = i + 1;
            } else if !raw && looks_like_option_exec(t) && t.get_char(1) != '-' {
                match read_group(argv, i, raw, &mut st) {
                    Ok(next) => {
                        i = next;
                    },
                    Err(e) => {
                        return Err(e);
                    },
                }
            } else if !raw && looks_like_option_exec(t) {
                return Err(ArgsError::UnexpectedArgument(String::from_str(t)));
            } else if st.path.is_some() {
                return Err(ArgsError::UnexpectedArgument(String::from_str(t)));
            } else {
                st.path = Some(String::from_str(t));
                i = i + 1;
            }
        }
        match st.path {
            Some(p) => Ok(Args { project_path: p, remote: st.remote, force: st.force, dry_run: st.dry_run }),
            None => Err(ArgsError::MissingProjectPath),
        }
    }
}

} // verus!
