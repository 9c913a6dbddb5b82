//! Choosing the version-control tool and the command that yields a diff,
//! and reading what the command returned. Running it is the caller's part.

use vstd::prelude::*;
use crate::comment::texts;
use crate::text::{contains_seq, contains_str};

verus! {

#[derive(Debug, Clone, Copy, PartialEq, Eq, Structural)]
pub enum VcsType {
    Git,
    Mercurial,
}

#[derive(Debug, Clone, PartialEq, Eq)]
pub enum VcsError {
    /// Neither a git nor a mercurial repository is here.
    NotARepository,
    /// The repository directory of the chosen tool is missing.
    MissingRepository(VcsType),
    /// The tool ran and failed; its error output is kept.
    CommandFailed(VcsType, String),
}

/// A program to run and its arguments.
#[derive(Debug, Clone, PartialEq, Eq)]
pub struct DiffCommand {
    pub program: String,
    pub args: Vec<String>,
}

/// What a finished command gave back, its outputs already decoded as text.
#[derive(Debug, Clone, PartialEq, Eq)]
pub struct CommandOutput {
    pub success: bool,
    pub stdout: String,
    pub stderr: String,
}

pub open spec fn detected(git_dir: bool, hg_dir: bool) -> Option<VcsType> {
    if git_dir {
        Some(VcsType::Git)
    } else if hg_dir {
        Some(VcsType::Mercurial)
    } else {
        None
    }
}

/// The arguments of the diff command: for no reference the uncommitted
/// changes, for a range (`..` for git, `::` for mercurial) a comparison, and
/// for anything else the change set of that one revision.
pub open spec fn diff_args(vcs: VcsType, r: Option<Seq<char>>) -> Seq<Seq<char>> {
    match vcs {
        VcsType::Git => match r {
            None => seq!["diff"@, "HEAD"@],
            Some(s) => if contains_seq(s, ".."@) {
                seq!["diff"@, s]
            } else {
                seq!["show"@, s]
            },
        },
        VcsType::Mercurial => match r {
            None => seq!["diff"@],
            Some(s) => if contains_seq(s, "::"@) {
                seq!["log"@, "-p"@, "-r"@, s]
            } else {
                seq!["export"@, s]
            },
        },
    }
}

pub open spec fn ref_view(r: Option<&str>) -> Option<Seq<char>> {
    match r {
        Some(s) => Some(s@),
        None => None,
    }
}

impl VcsType {
    /// Git when its repository directory is here, else mercurial when its
    /// directory is, else an error.
    pub fn detect(git_dir_exists: bool, hg_dir_exists: bool) -> (r: Result<VcsType, VcsError>)
        ensures
            detected(git_dir_exists, hg_dir_exists) is Some ==> r == Ok::<VcsType, VcsError>(
                detected(git_dir_exists, hg_dir_exists)->0,
            ),
            detected(git_dir_exists, hg_dir_exists) is None ==> r == Err::<VcsType, VcsError>(
                VcsError::NotARepository,
            ),
    {
        if git_dir_exists {
            Ok(VcsType::Git)
        } else if hg_dir_exists {
            Ok(VcsType::Mercurial)
        } else {
            Err(VcsError::NotARepository)
        }
    }

    /// The directory whose presence marks a repository of this tool.
    pub fn marker_dir(&self) -> (r: String)
        ensures
            r@ == (match self {
                VcsType::Git => ".git"@,
                VcsType::Mercurial => ".hg"@,
            }),
    {
        match self {
            VcsType::Git => String::from_str(".git"),
            VcsType::Mercurial => String::from_str(".hg"),
        }
    }

    /// The command that yields the diff for `vcs_ref`, or an error when the
    /// repository directory of this tool is missing.
    pub fn diff_command(&self, repo_dir_exists: bool, vcs_ref: Option<&str>) -> (r: Result<
        DiffCommand,
        VcsError,
    >)
        ensures
            !repo_dir_exists ==> r == Err::<DiffCommand, VcsError>(VcsError::MissingRepository(*self)),
            repo_dir_exists ==> r is Ok && r->Ok_0.program@ == (match self {
                VcsType::Git => "git"@,
                VcsType::Mercurial => "hg"@,
            }) && texts(r->Ok_0.args@) == diff_args(*self, ref_view(vcs_ref)),
    {
        if !repo_dir_exists {
            return Err(VcsError::MissingRepository(*self));
        }
        let mut args: Vec<String> = Vec::new();
        let program;
        match self {
            VcsType::Git => {
                program = String::from_str("git");
                match vcs_ref {
                    None => {
                        args.push(String::from_str("diff"));
                        args.push(String::from_str("HEAD"));
                    },
                    Some(s) => {
                        if contains_str(s, "..") {
                            args.push(String::from_str("diff"));
                        } else {
                            args.push(String::from_str("show"));
                        }
                        args.push(String::from_str(s));
                    },
                }
            },
            VcsType::Mercurial => {
                program = String::from_str("hg");
                match vcs_ref {
                    None => {
                        args.push(String::from_str("diff"));
                    },
                    Some(s) => {
                        if contains_str(s, "::") {
                            args.push(String::from_str("log"));
                            args.push(String::from_str("-p"));
                            args.push(String::from_str("-r"));
                        } else {
                            args.push(String::from_str("export"));
                        }
                        args.push(String::from_str(s));
                    },
                }
            },
        }
        assert(texts(args@) =~= diff_args(*self, ref_view(vcs_ref)));
        Ok(DiffCommand { program, args })
    }

    /// The diff text that a finished diff command gave, or its error output
    /// when it failed.
    pub fn get_diff(&self, output: CommandOutput) -> (r: Result<String, VcsError>)
        ensures
            output.success ==> r == Ok::<String, VcsError>(output.stdout),
            !output.success ==> r == Err::<String, VcsError>(
                VcsError::CommandFailed(*self, output.stderr),
            ),
    {
        if output.success {
            Ok(output.stdout)
        } else {
            Err(VcsError::CommandFailed(*self, output.stderr))
        }
    }
}

} // verus!
