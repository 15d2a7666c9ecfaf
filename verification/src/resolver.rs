//! The command resolver: decides built-in against external by the
//! lower-cased name, looks external names up in the supplied path snapshot,
//! and fixes everything the execution engine will need — the echo line, the
//! exit code, the resolved path and argument vector.

use vstd::prelude::*;
use vstd::string::*;
use crate::parser::{strings_view, Command};
use crate::text::{
    chars_eq, parse_i32_chars, spec_eq_ignore_ascii_case, spec_parse_i32,
    str_eq_ignore_ascii_case, str_to_chars, string_push,
};

verus! {

/// Classification of a resolved command.
pub enum TargetExecutor {
    Builtin,
    Ext,
}

/// The deferred action a command resolves to, as data the engine dispatches
/// on.
pub enum Executable {
    /// Writes the arguments space-joined plus newline to standard output.
    Echo { args: Vec<String> },
    /// Writes the current working directory plus newline to standard output.
    Pwd,
    /// Terminates the whole process with this code.
    Exit { code: i32 },
    /// Spawns the resolved path with the name as typed and the arguments,
    /// in an empty environment.
    External { path: String, name: String, args: Vec<String> },
    /// Reports "Command not found" on standard error; not a failure.
    NotFound { name: String },
}

/// A resolved command: its classification, its action, and whether the
/// caller waits for it.
pub struct CommandExecutor {
    pub target_type: TargetExecutor,
    pub executable: Executable,
    pub dont_wait: bool,
}

/// The final path component: the suffix after the last `/`.  This is the
/// plain textual suffix, with no path normalization: an entry ending in `/`
/// has the empty final component and so matches no command name (names are
/// nonempty), and `..` is taken literally.  Snapshot entries are expected to
/// be plain absolute file paths, as the PATH scanner produces them.
pub open spec fn spec_file_name(p: Seq<char>) -> Seq<char>
    decreases p.len(),
{
    if p.len() == 0 {
        Seq::empty()
    } else if p.last() == '/' {
        Seq::empty()
    } else {
        spec_file_name(p.drop_last()).push(p.last())
    }
}

/// The first path in the snapshot whose final component equals the name.
pub open spec fn spec_lookup(name: Seq<char>, paths: Seq<Seq<char>>) -> Option<Seq<char>>
    decreases paths.len(),
{
    if paths.len() == 0 {
        None
    } else if spec_file_name(paths[0]) == name {
        Some(paths[0])
    } else {
        spec_lookup(name, paths.drop_first())
    }
}

proof fn lemma_file_name_subrange(p: Seq<char>, j: int)
    requires
        0 <= j <= p.len(),
        j > 0 ==> p[j - 1] == '/',
        forall|k: int| j <= k < p.len() ==> p[k] != '/',
    ensures
        spec_file_name(p) == p.subrange(j, p.len() as int),
    decreases p.len(),
{
    if p.len() == 0 {
        assert(p.subrange(0, 0) =~= spec_file_name(p));
    } else if j == p.len() {
        assert(p.last() == '/');
        assert(p.subrange(j, p.len() as int) =~= Seq::<char>::empty());
    } else {
        assert(p.last() != '/');
        let q = p.drop_last();
        assert(forall|k: int| j <= k < q.len() ==> q[k] == p[k]);
        if j > 0 {
            assert(q[j - 1] == p[j - 1]);
        }
        lemma_file_name_subrange(q, j);
        assert(q.subrange(j, q.len() as int).push(p.last()) =~= p.subrange(j, p.len() as int));
    }
}

/// The final path component of a path, as characters.
fn file_name_chars(path: &Vec<char>) -> (r: Vec<char>)
    ensures
        r@ == spec_file_name(path@),
{
    let n: usize = path.len();
    let mut start: usize = n;
    while start > 0 && path[start - 1] != '/'
        invariant
            start <= n,
            n == path@.len(),
            forall|k: int| start <= k < n ==> path@[k] != '/',
        decreases start,
    {
        start = start - 1;
    }
    proof {
        lemma_file_name_subrange(path@, start as int);
    }
    let mut r: Vec<char> = Vec::new();
    let mut i: usize = start;
    while i < n
        invariant
            start <= i <= n,
            n == path@.len(),
            r@ == path@.subrange(start as int, i as int),
        decreases n - i,
    {
        r.push(path[i]);
        assert(path@.subrange(start as int, i + 1 as int) =~= path@.subrange(
            start as int,
            i as int,
        ).push(path@[i as int]));
        i = i + 1;
    }
    r
}

/// Exact filename lookup in the path snapshot: the first entry whose final
/// component — its textual suffix after the last `/`, see `spec_file_name`
/// — equals the name as typed.
pub fn get_executable_path(executable_name: &str, executables: &Vec<String>) -> (r: Option<
    String,
>)
    ensures
        match r {
            Some(p) => spec_lookup(executable_name@, strings_view(executables@)) == Some(p@),
            None => spec_lookup(executable_name@, strings_view(executables@)) is None,
        },
{
    let ghost sv = strings_view(executables@);
    proof {
        assert(sv.skip(0) =~= sv);
    }
    let name = str_to_chars(executable_name);
    let mut i: usize = 0;
    while i < executables.len()
        invariant
            i <= executables@.len(),
            sv == strings_view(executables@),
            name@ == executable_name@,
            spec_lookup(executable_name@, sv.skip(i as int)) == spec_lookup(
                executable_name@,
                sv,
            ),
        decreases executables@.len() - i,
    {
        proof {
            let s_i = sv.skip(i as int);
            assert(s_i[0] == sv[i as int]);
            assert(s_i.drop_first() =~= sv.skip(i + 1));
        }
        let entry = &executables[i];
        let entry_chars = str_to_chars(entry.as_str());
        let fc = file_name_chars(&entry_chars);
        if chars_eq(&fc, &name) {
            let p = entry.clone();
            return Some(p);
        }
        i = i + 1;
    }
    proof {
        assert(sv.skip(sv.len() as int) =~= Seq::<Seq<char>>::empty());
    }
    None
}

/// Arguments joined by single spaces.
pub open spec fn spec_join_args(args: Seq<Seq<char>>) -> Seq<char>
    decreases args.len(),
{
    if args.len() == 0 {
        Seq::empty()
    } else if args.len() == 1 {
        args[0]
    } else {
        args[0] + seq![' '] + spec_join_args(args.drop_first())
    }
}

/// What `echo` writes: the arguments space-joined, plus a newline.
pub open spec fn spec_echo_line(args: Seq<Seq<char>>) -> Seq<char> {
    spec_join_args(args).push('\n')
}

proof fn lemma_join_args_push(args: Seq<Seq<char>>, t: Seq<char>)
    ensures
        spec_join_args(args.push(t)) == if args.len() == 0 {
            t
        } else {
            spec_join_args(args) + seq![' '] + t
        },
    decreases args.len(),
{
    let w = args.push(t);
    if args.len() == 0 {
        assert(w.len() == 1);
        assert(w[0] == t);
    } else {
        assert(w[0] == args[0]);
        assert(w.drop_first() =~= args.drop_first().push(t));
        lemma_join_args_push(args.drop_first(), t);
        if args.len() == 1 {
            assert(args.drop_first().len() == 0);
            assert(spec_join_args(w) == args[0] + seq![' '] + t);
        } else {
            assert(args[0] + seq![' '] + (spec_join_args(args.drop_first()) + seq![' '] + t) =~= (
            args[0] + seq![' '] + spec_join_args(args.drop_first())) + seq![' '] + t);
        }
    }
}

/// The line `echo` writes for these arguments.
pub fn echo_line(args: &Vec<String>) -> (s: String)
    ensures
        s@ == spec_echo_line(strings_view(args@)),
{
    let ghost sv = strings_view(args@);
    let mut s = String::new();
    proof {
        reveal_strlit(" ");
        assert(" "@ =~= seq![' ']);
        assert(sv.take(0) =~= Seq::<Seq<char>>::empty());
    }
    let mut i: usize = 0;
    while i < args.len()
        invariant
            i <= args@.len(),
            sv == strings_view(args@),
            " "@ =~= seq![' '],
            s@ == spec_join_args(sv.take(i as int)),
        decreases args@.len() - i,
    {
        proof {
            assert(sv.take(i + 1) =~= sv.take(i as int).push(sv[i as int]));
            lemma_join_args_push(sv.take(i as int), sv[i as int]);
        }
        if i > 0 {
            s.append(" ");
        }
        s.append(args[i].as_str());
        i = i + 1;
    }
    proof {
        assert(sv.take(args@.len() as int) =~= sv);
    }
    string_push(&mut s, '\n');
    s
}

/// What resolution reports for an absent name.
pub open spec fn spec_not_found_line(name: Seq<char>) -> Seq<char> {
    "Command not found: "@ + name + "\n"@
}

/// The standard-error line for an absent name.
pub fn not_found_line(name: &str) -> (s: String)
    ensures
        s@ == spec_not_found_line(name@),
{
    let mut s = String::from_str("Command not found: ");
    s.append(name);
    s.append("\n");
    s
}

/// What `pwd` writes, given the working directory.
pub open spec fn spec_pwd_line(cwd: Seq<char>) -> Seq<char> {
    cwd + "\n"@
}

/// The line `pwd` writes for this working directory.
pub fn pwd_line(cwd: &str) -> (s: String)
    ensures
        s@ == spec_pwd_line(cwd@),
{
    let mut s = String::from_str(cwd);
    s.append("\n");
    s
}

/// The code `exit` terminates with: its first argument read as an `i32`,
/// and 0 when there is none or it does not parse.
pub open spec fn spec_exit_code(args: Seq<Seq<char>>) -> int {
    if args.len() == 0 {
        0
    } else {
        match spec_parse_i32(args[0]) {
            Some(n) => n,
            None => 0,
        }
    }
}

/// The exit code for these arguments.
pub fn exit_code_of(args: &Vec<String>) -> (code: i32)
    ensures
        code as int == spec_exit_code(strings_view(args@)),
{
    if args.len() == 0 {
        0
    } else {
        let cs = str_to_chars(args[0].as_str());
        match parse_i32_chars(&cs) {
            Some(n) => n,
            None => 0,
        }
    }
}

pub open spec fn spec_is_echo(name: Seq<char>) -> bool {
    spec_eq_ignore_ascii_case(name, "echo"@)
}

pub open spec fn spec_is_exit(name: Seq<char>) -> bool {
    spec_eq_ignore_ascii_case(name, "exit"@)
}

pub open spec fn spec_is_pwd(name: Seq<char>) -> bool {
    spec_eq_ignore_ascii_case(name, "pwd"@)
}

pub open spec fn spec_is_builtin(name: Seq<char>) -> bool {
    spec_is_echo(name) || spec_is_exit(name) || spec_is_pwd(name)
}

/// No name is two built-ins at once.
pub proof fn lemma_builtins_disjoint(name: Seq<char>)
    ensures
        !(spec_is_echo(name) && spec_is_exit(name)),
        !(spec_is_echo(name) && spec_is_pwd(name)),
        !(spec_is_exit(name) && spec_is_pwd(name)),
{
    reveal_strlit("echo");
    reveal_strlit("exit");
    reveal_strlit("pwd");
    if spec_is_echo(name) && spec_is_exit(name) {
        assert("echo"@[1] == 'c');
        assert("exit"@[1] == 'x');
        assert(crate::text::spec_lower_code(name[1]) == crate::text::spec_lower_code("echo"@[1]));
        assert(crate::text::spec_lower_code(name[1]) == crate::text::spec_lower_code("exit"@[1]));
        assert(false);
    }
}

/// A clone of a token list with the same views.
fn clone_strings(v: &Vec<String>) -> (r: Vec<String>)
    ensures
        strings_view(r@) == strings_view(v@),
{
    let mut r: Vec<String> = Vec::new();
    let mut i: usize = 0;
    while i < v.len()
        invariant
            i <= v@.len(),
            strings_view(r@) == strings_view(v@).take(i as int),
        decreases v@.len() - i,
    {
        let s = v[i].clone();
        proof {
            assert(strings_view(r@.push(s)) =~= strings_view(r@).push(s@));
            assert(strings_view(v@).take(i + 1) =~= strings_view(v@).take(i as int).push(
                strings_view(v@)[i as int],
            ));
        }
        r.push(s);
        i = i + 1;
    }
    proof {
        assert(strings_view(v@).take(v@.len() as int) =~= strings_view(v@));
    }
    r
}

/// Resolves a parsed command: `echo`, `exit` and `pwd` (lower-cased) are
/// built-ins; everything else is an external name looked up by exact final
/// path component in the snapshot, found or reported not found.
pub fn from_command(command: &Command, executables: &Vec<String>) -> (r: CommandExecutor)
    ensures
        r.dont_wait == command@.dont_wait,
        (r.target_type is Builtin) == spec_is_builtin(command@.command_name),
        spec_is_echo(command@.command_name) ==> (r.executable matches Executable::Echo { args }
            && strings_view(args@) == command@.args),
        spec_is_exit(command@.command_name) ==> (r.executable matches Executable::Exit { code }
            && code as int == spec_exit_code(command@.args)),
        spec_is_pwd(command@.command_name) ==> r.executable is Pwd,
        !spec_is_builtin(command@.command_name) ==> match spec_lookup(
            command@.command_name,
            strings_view(executables@),
        ) {
            Some(p) => (r.executable matches Executable::External { path, name, args } && path@
                == p && name@ == command@.command_name && strings_view(args@)
                == command@.args),
            None => (r.executable matches Executable::NotFound { name } && name@
                == command@.command_name),
        },
{
    proof {
        lemma_builtins_disjoint(command@.command_name);
    }
    match command {
        Command::Simple { command_name, args, redirects: _, dont_wait } => {
            let name = command_name.as_str();
            if str_eq_ignore_ascii_case(name, "echo") {
                CommandExecutor {
                    target_type: TargetExecutor::Builtin,
                    executable: Executable::Echo { args: clone_strings(args) },
                    dont_wait: *dont_wait,
                }
            } else if str_eq_ignore_ascii_case(name, "exit") {
                CommandExecutor {
                    target_type: TargetExecutor::Builtin,
                    executable: Executable::Exit { code: exit_code_of(args) },
                    dont_wait: *dont_wait,
                }
            } else if str_eq_ignore_ascii_case(name, "pwd") {
                CommandExecutor {
                    target_type: TargetExecutor::Builtin,
                    executable: Executable::Pwd,
                    dont_wait: *dont_wait,
                }
            } else {
                match get_executable_path(name, executables) {
                    Some(path) => CommandExecutor {
                        target_type: TargetExecutor::Ext,
                        executable: Executable::External {
                            path,
                            name: command_name.clone(),
                            args: clone_strings(args),
                        },
                        dont_wait: *dont_wait,
                    },
                    None => CommandExecutor {
                        target_type: TargetExecutor::Ext,
                        executable: Executable::NotFound { name: command_name.clone() },
                        dont_wait: *dont_wait,
                    },
                }
            }
        },
    }
}

} // verus!
