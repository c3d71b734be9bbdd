//! Deciding what a parsed command does, and the uniform result record.
//!
//! The decisions are pure: where a step needs the outside world (the home
//! directory, a search-path lookup, the working directory, a process), the
//! caller performs it and hands the answer to the matching function here.
use vstd::prelude::*;
use vstd::string::{StrSliceExecFns, StringExecFns};
use crate::builtin::{Builtin, builtin_named, run_echo, run_type, cd_needs_home, cd_target, needs_home, cd_path, type_report};
use crate::text::{joined, spaced, texts, opt_text};

verus! {

/// What a command produced: a status (0 for success), and the text for
/// standard output and standard error.
pub struct CommandResult {
    pub status: u8,
    pub stdout_text: String,
    pub stderr_text: String,
}

/// The next thing the shell does for a command.
pub enum Outcome {
    /// End the session.
    Exit,
    /// Show this result.
    Reply(CommandResult),
    /// `pwd`: report the working directory through `pwd_result`.
    ReportDir,
    /// `cd` needs the home directory: hand it to `after_home`.
    NeedHome,
    /// Change the working directory to this path; report a failure through
    /// `cd_failure`.
    ChangeDir(String),
    /// `type` needs this name resolved on the search path: hand the answer
    /// to `after_type_lookup`.
    ResolveForType(String),
    /// Not a builtin: resolve this name on the search path and hand the
    /// answer to `after_command_lookup`.
    ResolveCommand(String),
    /// Launch the program at this path with the command's arguments, and
    /// hand its output to `external_result` (or a spawn error to
    /// `spawn_failure`).
    Launch(String),
}

/// A successful result with this standard output.
pub open spec fn success(r: CommandResult, out: Seq<char>) -> bool {
    r.status == 0 && r.stdout_text@ == out && r.stderr_text@.len() == 0
}

/// A failed result with this standard error.
pub open spec fn failure(r: CommandResult, err: Seq<char>) -> bool {
    r.status == 1 && r.stdout_text@.len() == 0 && r.stderr_text@ == err
}

fn ok_result(out: String) -> (r: CommandResult)
    ensures
        success(r, out@),
{
    CommandResult { status: 0, stdout_text: out, stderr_text: String::new() }
}

fn error_result(err: String) -> (r: CommandResult)
    ensures
        failure(r, err@),
{
    CommandResult { status: 1, stdout_text: String::new(), stderr_text: err }
}

/// The first step for the command `cmd` with arguments `args`.
pub fn dispatch(cmd: &str, args: &[String]) -> (r: Outcome)
    ensures
        builtin_named(cmd@) == Some(Builtin::Exit) ==> r is Exit,
        builtin_named(cmd@) == Some(Builtin::Echo) ==> r is Reply && success(r->Reply_0, spaced(texts(args@))),
        builtin_named(cmd@) == Some(Builtin::Type) && args@.len() == 0 ==> r is Reply && success(r->Reply_0, Seq::empty()),
        builtin_named(cmd@) == Some(Builtin::Type) && args@.len() > 0 ==> r is ResolveForType && r->ResolveForType_0@ == args@[0]@,
        builtin_named(cmd@) == Some(Builtin::Pwd) ==> r is ReportDir,
        builtin_named(cmd@) == Some(Builtin::Cd) && needs_home(texts(args@)) ==> r is NeedHome,
        builtin_named(cmd@) == Some(Builtin::Cd) && !needs_home(texts(args@)) ==> r is ChangeDir && r->ChangeDir_0@ == cd_path(texts(args@), Seq::empty()),
        builtin_named(cmd@) is None ==> r is ResolveCommand && r->ResolveCommand_0@ == cmd@,
{
    match Builtin::from_name(cmd) {
        Some(Builtin::Exit) => Outcome::Exit,
        Some(Builtin::Echo) => Outcome::Reply(ok_result(run_echo(args))),
        Some(Builtin::Type) => {
            if args.len() == 0 {
                Outcome::Reply(ok_result(String::new()))
            } else {
                Outcome::ResolveForType(args[0].clone())
            }
        },
        Some(Builtin::Pwd) => Outcome::ReportDir,
        Some(Builtin::Cd) => {
            if cd_needs_home(args) {
                Outcome::NeedHome
            } else {
                Outcome::ChangeDir(cd_target(args, ""))
            }
        },
        None => Outcome::ResolveCommand(String::from_str(cmd)),
    }
}

/// `cd`, once the home directory is known.
pub fn after_home(args: &[String], home: &str) -> (r: Outcome)
    ensures
        r is ChangeDir && r->ChangeDir_0@ == cd_path(texts(args@), home@),
{
    Outcome::ChangeDir(cd_target(args, home))
}

/// `type`, once the search path has answered for its first argument.
pub fn after_type_lookup(args: &[String], found: &Option<String>) -> (r: Outcome)
    requires
        args@.len() >= 1,
    ensures
        r is Reply && success(r->Reply_0, type_report(args@[0]@, opt_text(*found))),
{
    Outcome::Reply(ok_result(run_type(args, found)))
}

/// The report for a command that is neither a builtin nor on the search path.
pub open spec fn not_found_text(cmd: Seq<char>) -> Seq<char> {
    cmd + ": command not found"@
}

/// A command that is not a builtin, once the search path has answered: its
/// program is launched, or it is reported as not found.
pub fn after_command_lookup(cmd: &str, found: Option<String>) -> (r: Outcome)
    ensures
        found is Some ==> r is Launch && r->Launch_0 == found->0,
        found is None ==> r is Reply && failure(r->Reply_0, not_found_text(cmd@)),
{
    match found {
        Some(path) => Outcome::Launch(path),
        None => Outcome::Reply(error_result(joined(cmd, ": command not found"))),
    }
}

/// `s` without one trailing newline, if it ends with one.
pub open spec fn without_newline(s: Seq<char>) -> Seq<char> {
    if s.len() > 0 && s.last() == '\n' {
        s.drop_last()
    } else {
        s
    }
}

/// Removes one trailing newline.
pub fn trim_newline(s: String) -> (r: String)
    ensures
        r@ == without_newline(s@),
{
    let t = s.as_str();
    let n = t.unicode_len();
    if n > 0 && t.get_char(n - 1) == '\n' {
        String::from_str(t.substring_char(0, n - 1))
    } else {
        s
    }
}

/// The result of an external program from what it wrote: one trailing
/// newline trimmed from each stream, and status 0 exactly when nothing is
/// left on standard error.
pub fn external_result(stdout: String, stderr: String) -> (r: CommandResult)
    ensures
        r.stdout_text@ == without_newline(stdout@),
        r.stderr_text@ == without_newline(stderr@),
        r.status == (if without_newline(stderr@).len() == 0 { 0u8 } else { 1u8 }),
        r.status == 0 <==> r.stderr_text@.len() == 0,
{
    let out = trim_newline(stdout);
    let err = trim_newline(stderr);
    let status: u8 = if err.as_str().unicode_len() == 0 { 0 } else { 1 };
    CommandResult { status, stdout_text: out, stderr_text: err }
}

/// The result of a program that could not be started.
pub fn spawn_failure(message: String) -> (r: CommandResult)
    ensures
        failure(r, message@),
{
    error_result(message)
}

/// The result of `pwd` in the directory `dir`.
pub fn pwd_result(dir: String) -> (r: CommandResult)
    ensures
        success(r, dir@),
{
    ok_result(dir)
}

/// The report for a `cd` to a path that is not a directory.
pub open spec fn no_such_dir_text(path: Seq<char>) -> Seq<char> {
    path + ": No such file or directory"@
}

/// The result of a `cd` that succeeded.
pub fn cd_success() -> (r: CommandResult)
    ensures
        success(r, Seq::empty()),
{
    ok_result(String::new())
}

/// The result of a `cd` to `path` that failed.
pub fn cd_failure(path: &str) -> (r: CommandResult)
    ensures
        failure(r, no_such_dir_text(path@)),
{
    error_result(joined(path, ": No such file or directory"))
}

} // verus!
