//! The invocation's argument vector: the subcommand token and a cursor
//! over the arguments that follow it.

use vstd::prelude::*;
use crate::errors::AppError;

verus! {

/// The parsed-so-far state of one invocation's argument vector. The
/// caller collects the process arguments, program name first, into a
/// `Vec<String>` and hands them over whole.
#[derive(Debug)]
pub struct AppContext {
    /// The full argument vector as received, program name included.
    pub args: Vec<String>,
    /// The index of the next argument to hand out.
    pub pos: usize,
    /// The subcommand token, taken from just after the program name.
    pub command: String,
}

impl AppContext {
    /// All arguments up to the cursor have been handed out; the program
    /// name and the command came first.
    pub open spec fn wf(self) -> bool {
        &&& 2 <= self.pos <= self.args@.len()
        &&& self.args@.len() >= 2
        &&& self.command@ == self.args@[1]@
    }

    /// Takes the argument vector, discards the program name, and keeps
    /// the following token as the command. Fails when no command was
    /// given.
    pub fn new(args: Vec<String>) -> (r: Result<AppContext, AppError>)
        ensures
            match r {
                Ok(c) => {
                    &&& args@.len() >= 2
                    &&& c.args@ == args@
                    &&& c.pos == 2
                    &&& c.command@ == args@[1]@
                    &&& c.wf()
                },
                Err(e) => {
                    &&& args@.len() < 2
                    &&& e is MissingCommand
                },
            },
    {
        if args.len() < 2 {
            return Err(AppError::MissingCommand);
        }
        let command = args[1].clone();
        Ok(AppContext { args, pos: 2, command })
    }

    /// Hands out the next argument and advances the cursor; fails with
    /// a diagnostic naming `arg_name` when none is left.
    pub fn next_arg(&mut self, arg_name: &str) -> (r: Result<String, AppError>)
        ensures
            match r {
                Ok(s) => {
                    &&& old(self).pos < old(self).args@.len()
                    &&& s@ == old(self).args@[old(self).pos as int]@
                    &&& final(self).pos == old(self).pos + 1
                    &&& final(self).args == old(self).args
                    &&& final(self).command == old(self).command
                },
                Err(e) => {
                    &&& old(self).pos >= old(self).args@.len()
                    &&& e matches AppError::MissingArgument(n) && n@ == arg_name@
                    &&& *final(self) == *old(self)
                },
            },
    {
        if self.pos < self.args.len() {
            let s = self.args[self.pos].clone();
            self.pos = self.pos + 1;
            Ok(s)
        } else {
            Err(AppError::MissingArgument(String::from_str(arg_name)))
        }
    }
}

} // verus!
