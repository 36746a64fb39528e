//! The diagnostics the tool can end with. Every failure is fatal: the
//! caller prints the message to standard error and exits non-zero.

use vstd::prelude::*;

verus! {

/// A fatal failure of one invocation.
#[derive(Debug)]
pub enum AppError {
    /// No subcommand was given.
    MissingCommand,
    /// The subcommand token was not recognized; carries the token.
    UnrecognizedCommand(String),
    /// A required argument was absent; carries the argument's name.
    MissingArgument(String),
    /// The problem id argument was not a decimal `u64`.
    InvalidProblemId,
    /// The template file could not be read; carries its path.
    TemplateUnreadable(String),
    /// The solution file already exists; carries its path.
    SolutionExists(String),
    /// A file could not be created or appended to; carries its path.
    FileWrite(String),
    /// No problem id could be read from the index's last line.
    IndexUnparsable,
}

/// The diagnostic text of each failure.
pub open spec fn message_spec(e: AppError) -> Seq<char> {
    match e {
        AppError::MissingCommand => "Must provide a valid command"@,
        AppError::UnrecognizedCommand(c) => "The command "@ + c@ + " can't be recognized"@,
        AppError::MissingArgument(n) => "Must provide the "@ + n@ + " as an argument"@,
        AppError::InvalidProblemId => "The problem id must be a valid non-negative integer"@,
        AppError::TemplateUnreadable(p) => "Could not read the template file "@ + p@,
        AppError::SolutionExists(p) => "Problem already solved: "@ + p@,
        AppError::FileWrite(p) => "Could not write "@ + p@,
        AppError::IndexUnparsable => "Could not read a problem id from the solutions index"@,
    }
}

impl AppError {
    /// Renders the diagnostic the caller prints to standard error.
    pub fn message(&self) -> (r: String)
        ensures
            r@ == message_spec(*self),
    {
        match self {
            AppError::MissingCommand => String::from_str("Must provide a valid command"),
            AppError::UnrecognizedCommand(c) => {
                let mut s = String::from_str("The command ");
                s.append(c.as_str());
                s.append(" can't be recognized");
                proof {
                    assert(("The command "@ + c@) + " can't be recognized"@ =~= message_spec(
                        *self,
                    ));
                }
                s
            },
            AppError::MissingArgument(n) => {
                let mut s = String::from_str("Must provide the ");
                s.append(n.as_str());
                s.append(" as an argument");
                proof {
                    assert(("Must provide the "@ + n@) + " as an argument"@ =~= message_spec(
                        *self,
                    ));
                }
                s
            },
            AppError::InvalidProblemId => String::from_str(
                "The problem id must be a valid non-negative integer",
            ),
            AppError::TemplateUnreadable(p) => {
                let mut s = String::from_str("Could not read the template file ");
                s.append(p.as_str());
                s
            },
            AppError::SolutionExists(p) => {
                let mut s = String::from_str("Problem already solved: ");
                s.append(p.as_str());
                s
            },
            AppError::FileWrite(p) => {
                let mut s = String::from_str("Could not write ");
                s.append(p.as_str());
                s
            },
            AppError::IndexUnparsable => String::from_str(
                "Could not read a problem id from the solutions index",
            ),
        }
    }
}

} // verus!
