//! The execution engine and job controller: applies the redirects, resolves
//! the command, invokes what can be invoked in-process, and restores the
//! shell's descriptors on every path.
//!
//! Work only the surrounding process may do — spawning an external program,
//! terminating the process for `exit`, scheduling a background built-in —
//! is handed back to the caller as an `ExecOutcome` value fixed by contract.

use vstd::prelude::*;
use crate::parser::{
    command_wf, redirects_view, spec_parse, strings_view, Command, ParseError,
    RedirectionTarget, RedirectionType, SpecCommand, SpecRedirect,
};
use crate::redirect::{spec_touched, RedirectHelper};
use crate::resolver::{
    echo_line, from_command, not_found_line, pwd_line, spec_exit_code, spec_is_builtin,
    spec_is_echo, spec_is_exit, spec_is_pwd, spec_lookup, CommandExecutor, Executable,
};
use crate::sys::{sys_getcwd, write_str_fd, IoError};

verus! {

/// A built-in whose run is decoupled from the command's completion.
pub enum BuiltinJob {
    Echo { args: Vec<String> },
    Pwd,
}

/// What remains for the caller after the engine has run a command as far as
/// the process boundary allows.
pub enum ExecOutcome {
    /// Everything the command asked for has happened; descriptors are
    /// restored.
    Completed,
    /// `exit`: the caller terminates the process with this code.
    ExitRequested { code: i32 },
    /// A background built-in: the caller runs the job on a unit of its own
    /// without waiting; descriptors are already restored.
    Background { job: BuiltinJob },
    /// An external program: the caller spawns `path` with `name` as typed
    /// and these arguments in an empty environment while the redirects are
    /// still applied, waits unless `dont_wait`, and then restores the
    /// returned helper with `reset_sources`.
    SpawnRequested {
        path: String,
        name: String,
        args: Vec<String>,
        dont_wait: bool,
        helper: RedirectHelper,
    },
}

/// Whether some redirect of the list touches this source descriptor.
pub open spec fn cmd_touches(rs: Seq<SpecRedirect>, f: i32) -> bool {
    exists|j: int| 0 <= j < rs.len() && (#[trigger] rs[j]).from_fd == f as int
}

proof fn lemma_touches_take_step(rs: Seq<SpecRedirect>, j: int, f: i32)
    requires
        0 <= j < rs.len(),
    ensures
        cmd_touches(rs.take(j + 1), f) == (cmd_touches(rs.take(j), f) || rs[j].from_fd == f as int),
{
    if cmd_touches(rs.take(j), f) {
        let k = choose|k: int| 0 <= k < j && (#[trigger] rs.take(j)[k]).from_fd == f as int;
        assert(rs.take(j + 1)[k].from_fd == f as int);
    }
    if rs[j].from_fd == f as int {
        assert(rs.take(j + 1)[j].from_fd == f as int);
    }
    if cmd_touches(rs.take(j + 1), f) {
        let k = choose|k: int|
            0 <= k < j + 1 && (#[trigger] rs.take(j + 1)[k]).from_fd == f as int;
        if k < j {
            assert(rs.take(j)[k].from_fd == f as int);
        }
    }
}

impl Command {
    /// Applies the redirects left to right.  On success the helper has
    /// saved exactly one original per distinct source descriptor named by
    /// the redirect list; on failure the remaps of some prefix of the list
    /// stay in effect with their saved originals recorded, so the caller
    /// can — and must — still restore.  An empty list makes no OS call and
    /// cannot fail.
    pub fn configure_redirects(&self, redirect_helper: &mut RedirectHelper) -> (r: Result<
        (),
        IoError,
    >)
        requires
            old(redirect_helper).wf(),
            old(redirect_helper)@.len() == 0,
            command_wf(self@),
        ensures
            final(redirect_helper).wf(),
            forall|f: i32|
                spec_touched(final(redirect_helper)@, f) ==> cmd_touches(self@.redirects, f),
            r is Ok ==> forall|f: i32|
                spec_touched(final(redirect_helper)@, f) == cmd_touches(self@.redirects, f),
            self@.redirects.len() == 0 ==> r is Ok,
            r is Err ==> exists|k: int|
                0 <= k <= self@.redirects.len() && (forall|f: i32|
                    spec_touched(final(redirect_helper)@, f) == cmd_touches(
                        #[trigger] self@.redirects.take(k),
                        f,
                    )),
    {
        match self {
            Command::Simple { redirects, .. } => {
                let ghost rv = redirects_view(redirects@);
                proof {
                    assert(rv == self@.redirects);
                    assert(forall|f: i32| !cmd_touches(rv.take(0), f));
                }
                let mut j: usize = 0;
                while j < redirects.len()
                    invariant
                        j <= redirects@.len(),
                        rv == redirects_view(redirects@),
                        rv == self@.redirects,
                        command_wf(self@),
                        redirect_helper.wf(),
                        forall|f: i32|
                            spec_touched(redirect_helper@, f) == cmd_touches(
                                rv.take(j as int),
                                f,
                            ),
                    decreases redirects@.len() - j,
                {
                    let rd = &redirects[j];
                    let ghost h0 = redirect_helper@;
                    proof {
                        assert(rv[j as int] == rd@);
                        assert(crate::parser::redirect_wf(rv[j as int]));
                    }
                    let step = match (&rd.kind, &rd.target) {
                        (RedirectionType::Output, RedirectionTarget::RealFile(file)) => {
                            redirect_helper.redirect_to_file(file.as_str(), rd.from_fd, false)
                        },
                        (RedirectionType::AppendOutput, RedirectionTarget::RealFile(file)) => {
                            redirect_helper.redirect_to_file(file.as_str(), rd.from_fd, true)
                        },
                        (
                            RedirectionType::RedirectToFileDescriptor(_),
                            RedirectionTarget::FileDescriptor(dest),
                        ) => { redirect_helper.redirect_to_fd(rd.from_fd, *dest) },
                        _ => {
                            proof {
                                assert(false);
                            }
                            vstd::pervasive::unreached()
                        },
                    };
                    proof {
                        assert forall|f: i32|
                            cmd_touches(rv.take(j + 1), f) == (cmd_touches(rv.take(j as int), f)
                                || rv[j as int].from_fd == f as int) by {
                            lemma_touches_take_step(rv, j as int, f);
                        }
                    }
                    match step {
                        Ok(()) => {
                            proof {
                                assert forall|f: i32|
                                    spec_touched(redirect_helper@, f) == cmd_touches(
                                        rv.take(j + 1),
                                        f,
                                    ) by {
                                    assert(spec_touched(h0, f) == cmd_touches(
                                        rv.take(j as int),
                                        f,
                                    ));
                                    lemma_touches_take_step(rv, j as int, f);
                                }
                            }
                        },
                        Err(e) => {
                            proof {
                                // the saved originals cover exactly some prefix
                                // of the redirect list: up to this redirect, or
                                // up to and including it
                                if (forall|f: i32|
                                    spec_touched(redirect_helper@, f) == spec_touched(h0, f)) {
                                    assert forall|f: i32|
                                        spec_touched(redirect_helper@, f) == cmd_touches(
                                            rv.take(j as int),
                                            f,
                                        ) by {
                                        assert(spec_touched(h0, f) == cmd_touches(
                                            rv.take(j as int),
                                            f,
                                        ));
                                    }
                                    assert(0 <= j as int <= rv.len() && (forall|f: i32|
                                        spec_touched(redirect_helper@, f) == cmd_touches(
                                            rv.take(j as int),
                                            f,
                                        )));
                                } else {
                                    assert(forall|f: i32|
                                        spec_touched(redirect_helper@, f) == (spec_touched(h0, f)
                                            || f == rd.from_fd));
                                    assert forall|f: i32|
                                        spec_touched(redirect_helper@, f) == cmd_touches(
                                            rv.take(j + 1),
                                            f,
                                        ) by {
                                        assert(spec_touched(h0, f) == cmd_touches(
                                            rv.take(j as int),
                                            f,
                                        ));
                                        lemma_touches_take_step(rv, j as int, f);
                                    }
                                    assert(0 <= j + 1 <= rv.len() && (forall|f: i32|
                                        spec_touched(redirect_helper@, f) == cmd_touches(
                                            rv.take(j + 1),
                                            f,
                                        )));
                                }
                                assert forall|f: i32|
                                    spec_touched(redirect_helper@, f) implies cmd_touches(
                                    rv,
                                    f,
                                ) by {
                                    lemma_touches_take_step(rv, j as int, f);
                                    if cmd_touches(rv.take(j + 1), f) {
                                        let k = choose|k: int|
                                            0 <= k < j + 1 && (#[trigger] rv.take(j + 1)[
                                                k
                                            ]).from_fd == f as int;
                                        assert(rv[k].from_fd == f as int);
                                    }
                                }
                            }
                            return Err(e);
                        },
                    }
                    j = j + 1;
                }
                proof {
                    assert(rv.take(rv.len() as int) =~= rv);
                }
                Ok(())
            },
        }
    }

    /// Runs the command: applies redirects, resolves, invokes what the
    /// process itself can do (`echo`, `pwd`, the not-found report), and
    /// restores descriptors before returning — except for an external
    /// spawn, whose helper is handed back still applied, as the child must
    /// inherit the remap.
    pub fn exec(&self, executables: &Vec<String>) -> (r: Result<ExecOutcome, IoError>)
        requires
            command_wf(self@),
        ensures
            r matches Ok(o) ==> outcome_matches(
                self@,
                strings_view(executables@),
                self@.redirects,
                o,
            ),
            spec_run_cannot_fail(self@, strings_view(executables@)) ==> r is Ok,
    {
        let mut redirect_helper = RedirectHelper::new();
        match self.configure_redirects(&mut redirect_helper) {
            Ok(()) => {},
            Err(e) => {
                let _ = redirect_helper.reset_sources();
                return Err(e);
            },
        }
        proof {
            // with no redirects the helper saved nothing, so the later
            // restore cannot fail either
            if self@.redirects.len() == 0 && redirect_helper@.len() > 0 {
                assert(spec_touched(redirect_helper@, redirect_helper@[0].1));
                assert(false);
            }
            crate::resolver::lemma_builtins_disjoint(self@.command_name);
        }
        let executor = from_command(self, executables);
        let CommandExecutor { target_type: _, executable, dont_wait } = executor;
        match executable {
            Executable::Echo { args } => {
                if dont_wait {
                    match redirect_helper.reset_sources() {
                        Ok(()) => Ok(ExecOutcome::Background { job: BuiltinJob::Echo { args } }),
                        Err(e) => Err(e),
                    }
                } else {
                    let line = echo_line(&args);
                    let w = write_str_fd(1, line.as_str());
                    let restored = redirect_helper.reset_sources();
                    match w {
                        Ok(()) => match restored {
                            Ok(()) => Ok(ExecOutcome::Completed),
                            Err(e) => Err(e),
                        },
                        Err(e) => Err(e),
                    }
                }
            },
            Executable::Exit { code } => {
                match redirect_helper.reset_sources() {
                    Ok(()) => Ok(ExecOutcome::ExitRequested { code }),
                    Err(e) => Err(e),
                }
            },
            Executable::Pwd => {
                if dont_wait {
                    match redirect_helper.reset_sources() {
                        Ok(()) => Ok(ExecOutcome::Background { job: BuiltinJob::Pwd }),
                        Err(e) => Err(e),
                    }
                } else {
                    let w = run_pwd_now();
                    let restored = redirect_helper.reset_sources();
                    match w {
                        Ok(()) => match restored {
                            Ok(()) => Ok(ExecOutcome::Completed),
                            Err(e) => Err(e),
                        },
                        Err(e) => Err(e),
                    }
                }
            },
            Executable::NotFound { name } => {
                let line = not_found_line(name.as_str());
                let w = write_str_fd(2, line.as_str());
                let restored = redirect_helper.reset_sources();
                match w {
                    Ok(()) => match restored {
                        Ok(()) => Ok(ExecOutcome::Completed),
                        Err(e) => Err(e),
                    },
                    Err(e) => Err(e),
                }
            },
            Executable::External { path, name, args } => {
                Ok(
                    ExecOutcome::SpawnRequested {
                        path,
                        name,
                        args,
                        dont_wait,
                        helper: redirect_helper,
                    },
                )
            },
        }
    }
}

/// The commands whose run makes no failing OS call: nothing to remap, and
/// an action the engine finishes without writing — `exit`, a background
/// built-in, or an external program handed back for spawning.  On these the
/// engine owes success.
pub open spec fn spec_run_cannot_fail(c: SpecCommand, paths: Seq<Seq<char>>) -> bool {
    c.redirects.len() == 0 && (spec_is_exit(c.command_name) || ((spec_is_echo(c.command_name)
        || spec_is_pwd(c.command_name)) && c.dont_wait) || (!spec_is_builtin(c.command_name)
        && spec_lookup(c.command_name, paths) is Some))
}

/// What an outcome must look like for a resolved command.
pub open spec fn outcome_matches(
    c: SpecCommand,
    paths: Seq<Seq<char>>,
    redirects: Seq<SpecRedirect>,
    o: ExecOutcome,
) -> bool {
    let n = c.command_name;
    &&& (spec_is_exit(n) ==> (o matches ExecOutcome::ExitRequested { code } && code as int
        == spec_exit_code(c.args)))
    &&& (spec_is_echo(n) && !c.dont_wait ==> o is Completed)
    &&& (spec_is_echo(n) && c.dont_wait ==> (o matches ExecOutcome::Background { job }
        && job matches BuiltinJob::Echo { args } && strings_view(args@) == c.args))
    &&& (spec_is_pwd(n) && !c.dont_wait ==> o is Completed)
    &&& (spec_is_pwd(n) && c.dont_wait ==> (o matches ExecOutcome::Background { job }
        && job is Pwd))
    &&& (!spec_is_builtin(n) ==> match spec_lookup(n, paths) {
        None => o is Completed,
        Some(p) => (o matches ExecOutcome::SpawnRequested { path, name, args, dont_wait, helper }
            && path@ == p && name@ == n && strings_view(args@) == c.args && dont_wait
            == c.dont_wait && helper.wf() && (forall|f: i32|
            spec_touched(helper@, f) == cmd_touches(redirects, f))),
    })
}

/// Runs `pwd` in-process: the working directory plus newline to standard
/// output.
fn run_pwd_now() -> (r: Result<(), IoError>) {
    match sys_getcwd() {
        Ok(cwd) => {
            let line = pwd_line(cwd.as_str());
            write_str_fd(1, line.as_str())
        },
        Err(e) => Err(IoError { errno: e }),
    }
}

/// Runs a background built-in to completion; the caller schedules this on a
/// unit of its own.
pub fn run_builtin_job(job: &BuiltinJob) -> (r: Result<(), IoError>) {
    match job {
        BuiltinJob::Echo { args } => {
            let line = echo_line(args);
            write_str_fd(1, line.as_str())
        },
        BuiltinJob::Pwd => run_pwd_now(),
    }
}

/// Why a line did not run.
#[derive(Clone, Copy, PartialEq, Eq, Structural, Debug)]
pub enum ShellError {
    Parse(ParseError),
    Io(IoError),
}

/// One whole line: parse, then run.  A line without tokens is `Ok(None)`
/// and no error.
pub fn execute(input: &str, executables: &Vec<String>) -> (r: Result<Option<ExecOutcome>, ShellError>)
    ensures
        ({
            match spec_parse(input@) {
                Err(e) => r == Err::<Option<ExecOutcome>, ShellError>(ShellError::Parse(e)),
                Ok(None) => r == Ok::<Option<ExecOutcome>, ShellError>(None),
                Ok(Some(c)) => ({
                    &&& match r {
                        Ok(Some(o)) => outcome_matches(
                            c,
                            strings_view(executables@),
                            c.redirects,
                            o,
                        ),
                        Ok(None) => false,
                        Err(se) => se is Io,
                    }
                    &&& (spec_run_cannot_fail(c, strings_view(executables@)) ==> r is Ok)
                }),
            }
        }),
{
    match crate::parser::try_parse_input(input) {
        Ok(Some(command)) => {
            match command.exec(executables) {
                Ok(o) => Ok(Some(o)),
                Err(e) => Err(ShellError::Io(e)),
            }
        },
        Ok(None) => Ok(None),
        Err(e) => Err(ShellError::Parse(e)),
    }
}

} // verus!
