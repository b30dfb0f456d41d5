//! The arguments of a run and their validation.

use vstd::prelude::*;

verus! {

/// The arguments of a run.
#[derive(Clone, Debug, PartialEq, Eq)]
pub struct CliArgs {
    /// The root of the source tree.
    pub source_dir: String,
    /// The root of the target tree.
    pub target_dir: String,
    /// Leave the common paths out of what is shown and summed up.
    pub quiet: bool,
    /// How many levels below the roots are listed; all of them if `None`.
    pub depth: Option<u8>,
    /// Show every line without colour.
    pub no_color: bool,
    /// Compare the content of the files that both trees hold.
    pub files: bool,
}

/// What was found at a path that is to be the root of a tree.
#[derive(Clone, Copy, Debug, PartialEq, Eq, Structural)]
pub struct DirState {
    /// Something exists at the path.
    pub exists: bool,
    /// What exists there is a directory.
    pub is_dir: bool,
}

/// Why the arguments of a run are refused.
#[derive(Clone, Debug, PartialEq, Eq)]
pub enum CliError {
    /// Nothing exists at the path.
    DoesNotExist(String),
    /// What exists at the path is no directory.
    NotADirectory(String),
}

/// The model of a `CliError`.
pub enum CliErrorModel {
    DoesNotExist(Seq<char>),
    NotADirectory(Seq<char>),
}

impl View for CliError {
    type V = CliErrorModel;

    open spec fn view(&self) -> CliErrorModel {
        match *self {
            CliError::DoesNotExist(path) => CliErrorModel::DoesNotExist(path@),
            CliError::NotADirectory(path) => CliErrorModel::NotADirectory(path@),
        }
    }
}

/// The first fault of the arguments, if they have one: both roots have to
/// exist, and then both have to be directories; of two faults of one kind
/// that of the source root comes first.
pub open spec fn first_fault(
    source_dir: Seq<char>,
    target_dir: Seq<char>,
    source: DirState,
    target: DirState,
) -> Option<CliErrorModel> {
    if !source.exists {
        Some(CliErrorModel::DoesNotExist(source_dir))
    } else if !target.exists {
        Some(CliErrorModel::DoesNotExist(target_dir))
    } else if !source.is_dir {
        Some(CliErrorModel::NotADirectory(source_dir))
    } else if !target.is_dir {
        Some(CliErrorModel::NotADirectory(target_dir))
    } else {
        None
    }
}

/// The message of an error: the path and what is wrong with it.
pub open spec fn error_text(error: CliErrorModel) -> Seq<char> {
    match error {
        CliErrorModel::DoesNotExist(path) => path + " does not exist"@,
        CliErrorModel::NotADirectory(path) => path + " is not a directory"@,
    }
}

impl CliError {
    /// The message of the error.
    pub fn message(&self) -> (text: String)
        ensures
            text@ == error_text(self@),
    {
        match self {
            CliError::DoesNotExist(path) => {
                let mut text = path.clone();
                text.append(" does not exist");
                text
            },
            CliError::NotADirectory(path) => {
                let mut text = path.clone();
                text.append(" is not a directory");
                text
            },
        }
    }
}

/// Checks that both roots exist and are directories, given what was found at
/// each. The arguments are accepted exactly if they have no fault; else the
/// error is their first fault.
pub fn check_cli_args(args: &CliArgs, source: DirState, target: DirState) -> (checked: Result<
    (),
    CliError,
>)
    ensures
        match checked {
            Ok(_) => first_fault(args.source_dir@, args.target_dir@, source, target) is None,
            Err(error) => first_fault(args.source_dir@, args.target_dir@, source, target) == Some(
                error@,
            ),
        },
{
    if !source.exists {
        return Err(CliError::DoesNotExist(args.source_dir.clone()));
    }
    if !target.exists {
        return Err(CliError::DoesNotExist(args.target_dir.clone()));
    }
    if !source.is_dir {
        return Err(CliError::NotADirectory(args.source_dir.clone()));
    }
    if !target.is_dir {
        return Err(CliError::NotADirectory(args.target_dir.clone()));
    }
    Ok(())
}

} // verus!
