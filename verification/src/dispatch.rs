//! Command dispatch.
//!
//! Given a parsed command line, the dispatcher evaluates the arguments,
//! looks the command up in the builtin registry, applies the arity check,
//! and settles on a plan: either an immediate outcome (success, an arity
//! failure, a malformed exit code) or an action for the surrounding process
//! loop to carry out (change directory, terminate, spawn an external
//! command). The exit-code translation for external processes follows the
//! POSIX convention: an explicit code as is, death by signal `N` as
//! `128 + N`, and `127` where neither is available or the command could not
//! be spawned at all.

use vstd::prelude::*;

use crate::eval::eval_args;
use crate::eval::eval_args_model;
use crate::eval::strings_view;
use crate::numparse::parse_i32;
use crate::numparse::parse_i32_spec;
use crate::parser::Ast;
use crate::parser::AstModel;

verus! {

/// The commands implemented inside the interpreter.
#[derive(Clone, Copy, Debug, PartialEq, Eq, Structural)]
pub enum BuiltinKind {
    Cd,
    Exit,
}

/// A builtin registration: which builtin, and its inclusive argument-count
/// range.
#[derive(Clone, Copy, Debug, PartialEq, Eq, Structural)]
pub struct Builtin {
    pub kind: BuiltinKind,
    pub min_args: usize,
    pub max_args: usize,
}

impl BuiltinKind {
    /// The builtin's name, as it appears in commands and diagnostics.
    pub fn name(&self) -> (r: &'static str)
        ensures
            r@ == match self {
                BuiltinKind::Cd => "cd"@,
                BuiltinKind::Exit => "exit"@,
            },
    {
        match self {
            BuiltinKind::Cd => "cd",
            BuiltinKind::Exit => "exit",
        }
    }
}

/// The registry: `cd` and `exit`, each taking zero or one argument.
pub open spec fn spec_lookup_builtin(name: Seq<char>) -> Option<Builtin> {
    if name == "cd"@ {
        Some(Builtin { kind: BuiltinKind::Cd, min_args: 0, max_args: 1 })
    } else if name == "exit"@ {
        Some(Builtin { kind: BuiltinKind::Exit, min_args: 0, max_args: 1 })
    } else {
        None
    }
}

/// Looks a command name up in the builtin registry by exact match.
pub fn lookup_builtin(name: &String) -> (r: Option<Builtin>)
    ensures
        r == spec_lookup_builtin(name@),
{
    let cd: String = "cd".to_owned();
    if *name == cd {
        return Some(Builtin { kind: BuiltinKind::Cd, min_args: 0, max_args: 1 });
    }
    let exit: String = "exit".to_owned();
    if *name == exit {
        return Some(Builtin { kind: BuiltinKind::Exit, min_args: 0, max_args: 1 });
    }
    None
}

/// What one command line asks the interpreter to do.
#[derive(Clone, Debug, PartialEq, Eq)]
pub enum Plan {
    /// An empty line: nothing to do, exit code 0.
    Success,
    /// A builtin was given too few or too many arguments: exit code 1.
    ArityFailure { kind: BuiltinKind, too_many: bool },
    /// `cd` with a path: set the working directory to it.
    ChangeDirTo { path: String },
    /// `cd` with no argument: set the working directory to the home
    /// directory.
    ChangeDirHome,
    /// `exit` with a well-formed code, or none: terminate the interpreter
    /// with that code.
    Terminate { code: i32 },
    /// `exit` with a malformed code: report it, exit code 1, keep running.
    ReportBadExitCode,
    /// Not a builtin: spawn an external command with the evaluated
    /// arguments and wait for it.
    Spawn { command: String, args: Vec<String> },
}

/// The plan at the specification level: all text as character sequences.
pub enum PlanModel {
    Success,
    ArityFailure { kind: BuiltinKind, too_many: bool },
    ChangeDirTo { path: Seq<char> },
    ChangeDirHome,
    Terminate { code: int },
    ReportBadExitCode,
    Spawn { command: Seq<char>, args: Seq<Seq<char>> },
}

impl View for Plan {
    type V = PlanModel;

    open spec fn view(&self) -> PlanModel {
        match self {
            Plan::Success => PlanModel::Success,
            Plan::ArityFailure { kind, too_many } => PlanModel::ArityFailure {
                kind: *kind,
                too_many: *too_many,
            },
            Plan::ChangeDirTo { path } => PlanModel::ChangeDirTo { path: path@ },
            Plan::ChangeDirHome => PlanModel::ChangeDirHome,
            Plan::Terminate { code } => PlanModel::Terminate { code: *code as int },
            Plan::ReportBadExitCode => PlanModel::ReportBadExitCode,
            Plan::Spawn { command, args } => PlanModel::Spawn {
                command: command@,
                args: strings_view(args@),
            },
        }
    }
}

/// The plan a command tree settles on: an empty line succeeds; a builtin is
/// arity-checked and then dispatched on its own rule; anything else is an
/// external command.
pub open spec fn plan_of(ast: AstModel) -> PlanModel {
    match ast {
        AstModel::Empty => PlanModel::Success,
        AstModel::Call { command, args } => {
            let vals = eval_args_model(args);
            match spec_lookup_builtin(command) {
                Some(b) => {
                    if vals.len() < b.min_args {
                        PlanModel::ArityFailure { kind: b.kind, too_many: false }
                    } else if vals.len() > b.max_args {
                        PlanModel::ArityFailure { kind: b.kind, too_many: true }
                    } else {
                        match b.kind {
                            BuiltinKind::Cd => if vals.len() > 0 {
                                PlanModel::ChangeDirTo { path: vals[0] }
                            } else {
                                PlanModel::ChangeDirHome
                            },
                            BuiltinKind::Exit => if vals.len() > 0 {
                                match parse_i32_spec(vals[0]) {
                                    Some(code) => PlanModel::Terminate { code },
                                    None => PlanModel::ReportBadExitCode,
                                }
                            } else {
                                PlanModel::Terminate { code: 0 }
                            },
                        }
                    }
                },
                None => PlanModel::Spawn { command, args: vals },
            }
        },
    }
}

/// Evaluates the arguments and decides what the command line does.
pub fn dispatch(ast: &Ast) -> (p: Plan)
    ensures
        p@ == plan_of(ast@),
{
    match ast {
        Ast::Empty => Plan::Success,
        Ast::Call { command, args } => {
            let evaluated = eval_args(args);
            match lookup_builtin(command) {
                Some(b) => {
                    if evaluated.len() < b.min_args {
                        Plan::ArityFailure { kind: b.kind, too_many: false }
                    } else if evaluated.len() > b.max_args {
                        Plan::ArityFailure { kind: b.kind, too_many: true }
                    } else {
                        match b.kind {
                            BuiltinKind::Cd => {
                                if evaluated.len() > 0 {
                                    let path = evaluated[0].clone();
                                    Plan::ChangeDirTo { path }
                                } else {
                                    Plan::ChangeDirHome
                                }
                            },
                            BuiltinKind::Exit => {
                                if evaluated.len() > 0 {
                                    match parse_i32(&evaluated[0]) {
                                        Some(code) => Plan::Terminate { code },
                                        None => Plan::ReportBadExitCode,
                                    }
                                } else {
                                    Plan::Terminate { code: 0 }
                                }
                            },
                        }
                    }
                },
                None => Plan::Spawn { command: command.clone(), args: evaluated },
            }
        },
    }
}

/// The exit code a plan settles immediately, without touching the OS:
/// nothing to do is success, and an arity failure or a malformed exit code
/// is the builtin failure code 1.
pub open spec fn immediate_exit_code(p: PlanModel) -> Option<int> {
    match p {
        PlanModel::Success => Some(0),
        PlanModel::ArityFailure { .. } => Some(1),
        PlanModel::ReportBadExitCode => Some(1),
        _ => None,
    }
}

/// The immediately settled exit code of a plan, where it has one.
pub fn plan_exit_code(p: &Plan) -> (r: Option<i32>)
    ensures
        match r {
            Some(c) => immediate_exit_code(p@) == Some(c as int),
            None => immediate_exit_code(p@) is None,
        },
{
    match p {
        Plan::Success => Some(0),
        Plan::ArityFailure { .. } => Some(1),
        Plan::ReportBadExitCode => Some(1),
        _ => None,
    }
}

/// Settles `cd` with no argument once the home directory lookup has
/// answered: a resolved home directory is the target to change to; where
/// none can be resolved, the builtin fails with exit code 1 before touching
/// the OS (the "couldn't find home dir" diagnostic is the caller's to
/// print).
pub fn resolve_home_cd(home: Option<String>) -> (r: Result<String, i32>)
    ensures
        match r {
            Ok(dir) => home matches Some(h) && dir == h,
            Err(code) => home is None && code == 1,
        },
{
    match home {
        Some(dir) => Ok(dir),
        None => Err(1),
    }
}

/// Normalizes a builtin's OS-level outcome: success is exit code 0, any
/// reported failure is 1.
pub fn result_to_exit_code(success: bool) -> (c: i32)
    ensures
        success ==> c == 0,
        !success ==> c == 1,
{
    if success {
        0
    } else {
        1
    }
}

/// The exit code of a finished external process.
pub open spec fn status_code_model(code: Option<i32>, signal: Option<i32>) -> int {
    match code {
        Some(c) => c as int,
        None => match signal {
            Some(n) => 128 + n as int,
            None => 127,
        },
    }
}

/// Translates how an external process ended into an exit code: an explicit
/// exit code is used as is; where only a terminating signal `N` is known the
/// code is `128 + N`; where neither is available (including a command that
/// could not be spawned at all) the code is 127.
pub fn status_exit_code(code: Option<i32>, signal: Option<i32>) -> (r: i32)
    requires
        code is None ==> (signal matches Some(n) ==> n <= i32::MAX - 128),
    ensures
        r as int == status_code_model(code, signal),
{
    match code {
        Some(c) => c,
        None => match signal {
            Some(n) => 128 + n,
            None => 127,
        },
    }
}

/// A line of nothing but whitespace and line endings parses to the empty
/// command, whose plan settles immediately with exit code 0.
pub proof fn lemma_blank_input_runs_clean(s: Seq<char>)
    requires
        forall|i: int|
            0 <= i < s.len() ==> crate::lexer::is_space_char(s[i]) || crate::lexer::is_line_end(
                s[i],
            ),
    ensures
        crate::parser::parse_from(s, 0) == Ok::<(AstModel, int), crate::lexer::ParseError>(
            (AstModel::Empty, s.len() as int),
        ),
        immediate_exit_code(plan_of(AstModel::Empty)) == Some(0int),
{
    crate::parser::lemma_blank_input_parses_empty(s);
}

/// `cd` with two or more arguments is rejected as having too many, with
/// exit code 1, whatever the arguments are; with no argument at all it asks
/// for the home directory instead.
pub proof fn lemma_cd_arity(args: Seq<Seq<Seq<char>>>)
    ensures
        args.len() >= 2 ==> plan_of(AstModel::Call { command: "cd"@, args }) == (
        PlanModel::ArityFailure { kind: BuiltinKind::Cd, too_many: true }),
        args.len() >= 2 ==> immediate_exit_code(
            plan_of(AstModel::Call { command: "cd"@, args }),
        ) == Some(1int),
        args.len() == 0 ==> plan_of(AstModel::Call { command: "cd"@, args })
            == PlanModel::ChangeDirHome,
{
    assert(eval_args_model(args).len() == args.len());
}

/// `exit` with one argument terminates with exactly the code the argument
/// denotes; where the argument denotes no 32-bit integer, the interpreter
/// keeps running and the failure is reported with exit code 1.
pub proof fn lemma_exit_argument(args: Seq<Seq<Seq<char>>>)
    requires
        args.len() == 1,
    ensures
        parse_i32_spec(eval_args_model(args)[0]) matches Some(code) ==> plan_of(
            AstModel::Call { command: "exit"@, args },
        ) == (PlanModel::Terminate { code }),
        parse_i32_spec(eval_args_model(args)[0]) is None ==> plan_of(
            AstModel::Call { command: "exit"@, args },
        ) == PlanModel::ReportBadExitCode,
        parse_i32_spec(eval_args_model(args)[0]) is None ==> immediate_exit_code(
            plan_of(AstModel::Call { command: "exit"@, args }),
        ) == Some(1int),
{
    reveal_strlit("exit");
    reveal_strlit("cd");
    assert("exit"@.len() == 4 && "cd"@.len() == 2);
    assert(eval_args_model(args).len() == 1);
}

} // verus!
