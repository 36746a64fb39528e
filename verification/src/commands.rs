//! The subcommands: parsing each one's arguments out of the context,
//! and the pure effect each one decides on.
//!
//! A scaffold does not touch the filesystem itself: it returns a
//! [`ScaffoldPlan`] naming the file to create, its contents, and the
//! line to append to the index, in that order. Running a problem's
//! test does not spawn anything itself: it returns the child's command
//! line and maps the child's status to the tool's exit code.

use vstd::prelude::*;
use crate::context::AppContext;
use crate::decimal::{dec_seq, dec_val, is_u64_decimal, parse_u64_decimal, push_decimal};
use crate::errors::AppError;
use crate::template::{expanded, DataStructure, Template};

verus! {

/// The `k`-th argument still unread in `c`.
pub open spec fn arg_at(c: AppContext, k: int) -> Seq<char> {
    c.args@[c.pos + k]@
}

/// Whether at least `k` arguments are still unread in `c`.
pub open spec fn has_args(c: AppContext, k: int) -> bool {
    c.pos + k <= c.args@.len()
}

/// The test filter passed to the build tool for a problem id.
pub open spec fn test_filter_spec(n: u64) -> Seq<char> {
    "test_"@ + dec_seq(n as nat)
}

/// The relative path of the solution file for a problem id.
pub open spec fn solution_file_spec(n: u64) -> Seq<char> {
    "src/solutions/s_"@ + dec_seq(n as nat) + ".rs"@
}

/// The relative path of the solutions index file.
pub open spec fn index_path_spec() -> Seq<char> {
    "src/solutions.rs"@
}

/// The registration line a scaffold appends to the index, newline
/// included.
pub open spec fn index_line_spec(n: u64) -> Seq<char> {
    "mod s_"@ + dec_seq(n as nat) + ";\n"@
}

/// A scaffold appends exactly one line: the registration entry ends
/// with its only newline.
pub proof fn lemma_index_line_single_line(n: u64)
    ensures
        index_line_spec(n).len() >= 2,
        index_line_spec(n).last() == '\n',
        forall|i: int|
            0 <= i < index_line_spec(n).len() - 1 ==> #[trigger] index_line_spec(n)[i] != '\n',
{
    reveal_strlit("mod s_");
    reveal_strlit(";\n");
    crate::decimal::lemma_dec_seq_digits(n as nat);
    let d = dec_seq(n as nat);
    let line = index_line_spec(n);
    assert(line.len() == 6 + d.len() + 2);
    assert forall|i: int| 0 <= i < line.len() - 1 implies #[trigger] line[i] != '\n' by {
        if i < 6 {
            assert(line[i] == "mod s_"@[i]);
        } else if i < 6 + d.len() {
            assert(line[i] == d[i - 6]);
            assert(crate::decimal::is_dec_digit(d[i - 6]));
        } else {
            assert(line[i] == ";\n"@[0]);
        }
    }
    assert(line.last() == ";\n"@[1]);
}

/// The `problem` subcommand: run the test for one problem id.
#[derive(Debug)]
pub struct RunProblem {
    pub problem_id: u64,
}

/// What parsing a `problem` invocation must yield on success.
pub open spec fn run_problem_ok(c: AppContext, p: RunProblem) -> bool {
    &&& has_args(c, 1)
    &&& is_u64_decimal(arg_at(c, 0))
    &&& p.problem_id as nat == dec_val(arg_at(c, 0))
}

/// The failures parsing a `problem` invocation can end with, each tied
/// to the inputs that cause it.
pub open spec fn run_problem_err(c: AppContext, e: AppError) -> bool {
    ||| (!has_args(c, 1) && (e matches AppError::MissingArgument(n) && n@ == "problem id"@))
    ||| (has_args(c, 1) && !is_u64_decimal(arg_at(c, 0)) && e is InvalidProblemId)
}

impl RunProblem {
    /// Reads the problem id argument.
    pub fn init(context: &mut AppContext) -> (r: Result<RunProblem, AppError>)
        ensures
            match r {
                Ok(p) => run_problem_ok(*old(context), p),
                Err(e) => run_problem_err(*old(context), e),
            },
            final(context).args == old(context).args,
            final(context).command == old(context).command,
    {
        let arg = match context.next_arg("problem id") {
            Ok(a) => a,
            Err(e) => { return Err(e) },
        };
        match parse_u64_decimal(arg.as_str()) {
            Some(problem_id) => Ok(RunProblem { problem_id }),
            None => Err(AppError::InvalidProblemId),
        }
    }

    /// The filter naming this problem's tests.
    pub fn test_filter(&self) -> (r: String)
        ensures
            r@ == test_filter_spec(self.problem_id),
    {
        let mut s = String::from_str("test_");
        push_decimal(&mut s, self.problem_id);
        s
    }

    /// The child invocation: the host build tool, asked to run the
    /// tests matching this problem's filter.
    pub fn command_line(&self) -> (r: (String, Vec<String>))
        ensures
            r.0@ == "cargo"@,
            r.1@.len() == 2,
            r.1@[0]@ == "test"@,
            r.1@[1]@ == test_filter_spec(self.problem_id),
    {
        let mut args: Vec<String> = Vec::new();
        args.push(String::from_str("test"));
        args.push(self.test_filter());
        (String::from_str("cargo"), args)
    }

    /// The exit code the tool ends with once the child has finished:
    /// the child's own code, so zero exactly on success, or 1 when the
    /// child returned no code.
    pub fn exit_code(child_status: Option<i32>) -> (r: i32)
        ensures
            r == (match child_status {
                Some(c) => c,
                None => 1i32,
            }),
            child_status == Some(0i32) ==> r == 0,
    {
        match child_status {
            Some(c) => c,
            None => 1,
        }
    }
}

/// The `scaffold` subcommand: create one solution file and register it.
#[derive(Debug)]
pub struct Scaffold {
    pub problem_id: u64,
    pub ds: DataStructure,
}

/// What parsing a `scaffold` invocation must yield on success.
pub open spec fn scaffold_ok(c: AppContext, s: Scaffold) -> bool {
    &&& has_args(c, 2)
    &&& is_u64_decimal(arg_at(c, 0))
    &&& s.problem_id as nat == dec_val(arg_at(c, 0))
    &&& s.ds == DataStructure::Default
}

/// The failures parsing a `scaffold` invocation can end with, each tied
/// to the inputs that cause it.
pub open spec fn scaffold_err(c: AppContext, e: AppError) -> bool {
    ||| (!has_args(c, 1) && (e matches AppError::MissingArgument(n) && n@ == "problem id"@))
    ||| (has_args(c, 1) && !is_u64_decimal(arg_at(c, 0)) && e is InvalidProblemId)
    ||| (has_args(c, 1) && is_u64_decimal(arg_at(c, 0)) && !has_args(c, 2) && (
    e matches AppError::MissingArgument(n) && n@ == "data structure"@))
}

/// Everything a successful scaffold writes, in the order it must be
/// written: first the new solution file, then the index line.
#[derive(Debug)]
pub struct ScaffoldPlan {
    /// Where the new solution file goes.
    pub solution_path: String,
    /// The expanded template that becomes the file's contents.
    pub file_contents: String,
    /// The single line to append to the solutions index.
    pub index_line: String,
}

impl Scaffold {
    /// Reads the problem id and data-structure arguments.
    pub fn init(context: &mut AppContext) -> (r: Result<Scaffold, AppError>)
        ensures
            match r {
                Ok(s) => scaffold_ok(*old(context), s),
                Err(e) => scaffold_err(*old(context), e),
            },
            final(context).args == old(context).args,
            final(context).command == old(context).command,
    {
        let arg = match context.next_arg("problem id") {
            Ok(a) => a,
            Err(e) => { return Err(e) },
        };
        let problem_id = match parse_u64_decimal(arg.as_str()) {
            Some(v) => v,
            None => { return Err(AppError::InvalidProblemId) },
        };
        let tag = match context.next_arg("data structure") {
            Ok(a) => a,
            Err(e) => { return Err(e) },
        };
        let ds = DataStructure::from_tag(tag);
        Ok(Scaffold { problem_id, ds })
    }

    /// The path of the solution file this scaffold would create.
    pub fn solution_path(&self) -> (r: String)
        ensures
            r@ == solution_file_spec(self.problem_id),
    {
        let mut s = String::from_str("src/solutions/s_");
        push_decimal(&mut s, self.problem_id);
        s.append(".rs");
        proof {
            assert(("src/solutions/s_"@ + dec_seq(self.problem_id as nat)) + ".rs"@
                =~= solution_file_spec(self.problem_id));
        }
        s
    }

    /// The registration line this scaffold would append to the index.
    pub fn index_line(&self) -> (r: String)
        ensures
            r@ == index_line_spec(self.problem_id),
    {
        let mut s = String::from_str("mod s_");
        push_decimal(&mut s, self.problem_id);
        s.append(";\n");
        proof {
            assert(("mod s_"@ + dec_seq(self.problem_id as nat)) + ";\n"@ =~= index_line_spec(
                self.problem_id,
            ));
        }
        s
    }

    /// Decides one scaffold attempt. `template_content` is the raw
    /// text of the variant's template file; `solution_exists` says
    /// whether a file already stands at the solution path. When it
    /// does, the attempt fails and nothing — in particular no index
    /// line — is planned; otherwise the plan holds exactly one new
    /// file and exactly one index line, both for this problem id.
    pub fn plan(&self, template_content: String, solution_exists: bool) -> (r: Result<
        ScaffoldPlan,
        AppError,
    >)
        ensures
            match r {
                Ok(p) => {
                    &&& !solution_exists
                    &&& p.solution_path@ == solution_file_spec(self.problem_id)
                    &&& p.file_contents@ == expanded(template_content@, self.problem_id)
                    &&& p.index_line@ == index_line_spec(self.problem_id)
                },
                Err(e) => {
                    &&& solution_exists
                    &&& (e matches AppError::SolutionExists(p) && p@ == solution_file_spec(
                        self.problem_id,
                    ))
                },
            },
    {
        let solution_path = self.solution_path();
        if solution_exists {
            return Err(AppError::SolutionExists(solution_path));
        }
        let file_contents = Template::replace_mustache(template_content, self.problem_id);
        let index_line = self.index_line();
        Ok(ScaffoldPlan { solution_path, file_contents, index_line })
    }

    /// The relative path of the solutions index file.
    pub fn index_path() -> (r: String)
        ensures
            r@ == index_path_spec(),
    {
        String::from_str("src/solutions.rs")
    }

    /// The line a successful scaffold prints to standard output.
    pub fn success_message() -> (r: String)
        ensures
            r@ == "Solution scaffolded!"@,
    {
        String::from_str("Solution scaffolded!")
    }
}

/// One parsed invocation, ready to be carried out.
#[derive(Debug)]
pub enum Command {
    RunProblem(RunProblem),
    Scaffold(Scaffold),
    Latest,
}

fn string_is(s: &String, lit: &str) -> (r: bool)
    ensures
        r == (s@ == lit@),
{
    s.eq(&String::from_str(lit))
}

/// Selects the subcommand named by the context's command token and
/// parses its arguments.
pub fn select_command(context: AppContext) -> (r: Result<Command, AppError>)
    ensures
        context.command@ == "problem"@ ==> match r {
            Ok(cmd) => cmd matches Command::RunProblem(p) && run_problem_ok(context, p),
            Err(e) => run_problem_err(context, e),
        },
        context.command@ == "scaffold"@ ==> match r {
            Ok(cmd) => cmd matches Command::Scaffold(s) && scaffold_ok(context, s),
            Err(e) => scaffold_err(context, e),
        },
        (context.command@ == "latest"@ || context.command@ == "l"@) ==> r matches Ok(
            Command::Latest,
        ),
        (context.command@ != "problem"@ && context.command@ != "scaffold"@ && context.command@
            != "latest"@ && context.command@ != "l"@) ==> (r matches Err(
            AppError::UnrecognizedCommand(c),
        ) && c@ == context.command@),
{
    proof {
        reveal_strlit("problem");
        reveal_strlit("scaffold");
        reveal_strlit("latest");
        reveal_strlit("l");
        assert("problem"@.len() == 7);
        assert("scaffold"@.len() == 8);
        assert("latest"@.len() == 6);
        assert("l"@.len() == 1);
    }
    let mut context = context;
    if string_is(&context.command, "problem") {
        match RunProblem::init(&mut context) {
            Ok(p) => Ok(Command::RunProblem(p)),
            Err(e) => Err(e),
        }
    } else if string_is(&context.command, "scaffold") {
        match Scaffold::init(&mut context) {
            Ok(s) => Ok(Command::Scaffold(s)),
            Err(e) => Err(e),
        }
    } else if string_is(&context.command, "latest") || string_is(&context.command, "l") {
        Ok(Command::Latest)
    } else {
        Err(AppError::UnrecognizedCommand(context.command))
    }
}

} // verus!
