//! The redirection engine and the execution engine, on real descriptors.

use nix::fcntl::{open, OFlag};
use nix::sys::stat::Mode;
use nix::unistd::{close, read, unlink};
use tsh::engine::{execute, run_builtin_job, BuiltinJob, ExecOutcome, ShellError};
use tsh::parser::{try_parse_input, Command, ParseError};
use tsh::redirect::RedirectHelper;

fn read_file(path: &str) -> String {
    let fd = open(path, OFlag::O_RDONLY, Mode::empty()).expect("open for reading");
    let mut out: Vec<u8> = Vec::new();
    let mut buf = [0u8; 256];
    loop {
        let n = read(fd, &mut buf).expect("read");
        if n == 0 {
            break;
        }
        out.extend_from_slice(&buf[..n]);
    }
    close(fd).expect("close");
    String::from_utf8(out).expect("utf8")
}

fn remove_if_present(path: &str) {
    let _ = unlink(path);
}

fn parse_one(line: &str) -> Command {
    match try_parse_input(line) {
        Ok(Some(c)) => c,
        _ => panic!("expected a command"),
    }
}

#[test]
fn redirect_to_file_and_restore() {
    let path = "/tmp/tsh_test_redirect_restore.txt";
    remove_if_present(path);
    let mut helper = RedirectHelper::new();
    helper.redirect_to_file(path, 1, false).expect("redirect");
    nix::unistd::write(1, b"captured\n").expect("write through redirect");
    helper.reset_sources().expect("restore");
    // descriptor 1 is back on its pre-command target: new writes must not
    // land in the file
    nix::unistd::write(1, b"back on the original descriptor\n").expect("write after restore");
    assert_eq!(read_file(path), "captured\n");
    remove_if_present(path);
}

#[test]
fn append_redirect_keeps_earlier_content() {
    let path = "/tmp/tsh_test_append.txt";
    remove_if_present(path);
    let mut helper = RedirectHelper::new();
    helper.redirect_to_file(path, 1, false).expect("first redirect");
    nix::unistd::write(1, b"one\n").expect("write");
    helper.reset_sources().expect("restore");
    let mut helper = RedirectHelper::new();
    helper.redirect_to_file(path, 1, true).expect("append redirect");
    nix::unistd::write(1, b"two\n").expect("write");
    helper.reset_sources().expect("restore");
    assert_eq!(read_file(path), "one\ntwo\n");
    remove_if_present(path);
}

#[test]
fn overwrite_redirect_truncates() {
    let path = "/tmp/tsh_test_truncate.txt";
    remove_if_present(path);
    let mut helper = RedirectHelper::new();
    helper.redirect_to_file(path, 1, false).expect("redirect");
    nix::unistd::write(1, b"something long\n").expect("write");
    helper.reset_sources().expect("restore");
    let mut helper = RedirectHelper::new();
    helper.redirect_to_file(path, 1, false).expect("redirect again");
    nix::unistd::write(1, b"short\n").expect("write");
    helper.reset_sources().expect("restore");
    assert_eq!(read_file(path), "short\n");
    remove_if_present(path);
}

#[test]
fn duplicate_descriptor_redirect_on_scratch_descriptors() {
    let path_a = "/tmp/tsh_test_dup_a.txt";
    let path_b = "/tmp/tsh_test_dup_b.txt";
    remove_if_present(path_a);
    remove_if_present(path_b);
    let fa = open(path_a, OFlag::O_CREAT | OFlag::O_RDWR, Mode::from_bits_truncate(0o644))
        .expect("open a");
    let fb = open(path_b, OFlag::O_CREAT | OFlag::O_RDWR, Mode::from_bits_truncate(0o644))
        .expect("open b");
    let mut helper = RedirectHelper::new();
    // fa now goes where fb went; fb itself is closed as the redundant one
    helper.redirect_to_fd(fa, fb).expect("duplicate");
    nix::unistd::write(fa, b"into b\n").expect("write");
    helper.reset_sources().expect("restore");
    nix::unistd::write(fa, b"into a\n").expect("write after restore");
    close(fa).expect("close");
    assert_eq!(read_file(path_a), "into a\n");
    assert_eq!(read_file(path_b), "into b\n");
    remove_if_present(path_a);
    remove_if_present(path_b);
}

#[test]
fn two_redirects_on_one_descriptor_record_one_entry() {
    let path_a = "/tmp/tsh_test_two_a.txt";
    let path_b = "/tmp/tsh_test_two_b.txt";
    remove_if_present(path_a);
    remove_if_present(path_b);
    let line = format!("cmd > {} > {}", path_a, path_b);
    let c = parse_one(&line);
    let mut helper = RedirectHelper::new();
    c.configure_redirects(&mut helper).expect("apply");
    // exactly one saved-original entry for the one touched descriptor
    assert_eq!(helper.saved_count(), 1);
    nix::unistd::write(1, b"latest wins\n").expect("write");
    helper.reset_sources().expect("restore");
    assert_eq!(helper.saved_count(), 0);
    // the later redirect overrode the earlier one
    assert_eq!(read_file(path_a), "");
    assert_eq!(read_file(path_b), "latest wins\n");
    // and descriptor 1 is back on its pre-command target, not on a file
    nix::unistd::write(1, b"descriptor one speaking\n").expect("write after restore");
    assert_eq!(read_file(path_a), "");
    assert_eq!(read_file(path_b), "latest wins\n");
    remove_if_present(path_a);
    remove_if_present(path_b);
}

#[test]
fn echo_execution_writes_joined_line() {
    let path = "/tmp/tsh_test_echo_exec.txt";
    remove_if_present(path);
    let line = format!("echo a 'b c' d > {}", path);
    let c = parse_one(&line);
    let snapshot: Vec<String> = Vec::new();
    let outcome = c.exec(&snapshot).expect("exec");
    assert!(matches!(outcome, ExecOutcome::Completed));
    assert_eq!(read_file(path), "a b c d\n");
    remove_if_present(path);
}

#[test]
fn pwd_execution_writes_working_directory() {
    let path = "/tmp/tsh_test_pwd.txt";
    remove_if_present(path);
    let c = parse_one(&format!("pwd > {}", path));
    let snapshot: Vec<String> = Vec::new();
    let outcome = c.exec(&snapshot).expect("exec");
    assert!(matches!(outcome, ExecOutcome::Completed));
    let cwd = nix::unistd::getcwd().expect("getcwd");
    let expected = format!("{}\n", cwd.to_str().expect("utf8"));
    assert_eq!(read_file(path), expected);
    remove_if_present(path);
}

#[test]
fn execute_runs_a_whole_line() {
    let path = "/tmp/tsh_test_execute_line.txt";
    remove_if_present(path);
    let snapshot: Vec<String> = Vec::new();
    let line = format!("echo one two > {}", path);
    match execute(&line, &snapshot) {
        Ok(Some(ExecOutcome::Completed)) => {},
        _ => panic!("the echo line must complete"),
    }
    assert_eq!(read_file(path), "one two\n");
    remove_if_present(path);
}

#[test]
fn exit_requests_termination_with_parsed_code() {
    let snapshot: Vec<String> = Vec::new();
    match execute("exit 7", &snapshot) {
        Ok(Some(ExecOutcome::ExitRequested { code })) => assert_eq!(code, 7),
        _ => panic!("exit must request termination"),
    }
    match execute("exit notanumber", &snapshot) {
        Ok(Some(ExecOutcome::ExitRequested { code })) => assert_eq!(code, 0),
        _ => panic!("exit must request termination"),
    }
}

#[test]
fn absent_command_completes_without_spawning() {
    let snapshot: Vec<String> = Vec::new();
    let path = "/tmp/tsh_test_notfound.txt";
    remove_if_present(path);
    // the report goes to standard error, here redirected to a file
    let line = format!("nosuchcommand 2> {}", path);
    let c = parse_one(&line);
    let outcome = c.exec(&snapshot).expect("exec");
    assert!(matches!(outcome, ExecOutcome::Completed), "nothing may be spawned");
    assert_eq!(read_file(path), "Command not found: nosuchcommand\n");
    remove_if_present(path);
}

#[test]
fn present_command_requests_a_spawn_with_redirects_applied() {
    let snapshot = vec!["/usr/bin/cat".to_string()];
    let c = parse_one("cat f1 f2");
    match c.exec(&snapshot).expect("exec") {
        ExecOutcome::SpawnRequested { path, name, args, dont_wait, mut helper } => {
            assert_eq!(path, "/usr/bin/cat");
            assert_eq!(name, "cat");
            assert_eq!(args, vec!["f1".to_string(), "f2".to_string()]);
            assert!(!dont_wait);
            helper.reset_sources().expect("restore");
        },
        _ => panic!("a resolvable external command must request a spawn"),
    }
}

#[test]
fn background_builtin_returns_a_job_with_descriptors_restored() {
    let c = match parse_one("echo bg") {
        Command::Simple { command_name, args, redirects, .. } => Command::Simple {
            command_name,
            args,
            redirects,
            dont_wait: true,
        },
    };
    let snapshot: Vec<String> = Vec::new();
    match c.exec(&snapshot).expect("exec") {
        ExecOutcome::Background { job } => {
            assert!(matches!(job, BuiltinJob::Echo { .. }));
            // the caller runs the job on a unit of its own; running it here
            // completes it
            run_builtin_job(&job).expect("job runs");
        },
        _ => panic!("a background builtin must come back as a job"),
    }
}

#[test]
fn execute_reports_parse_errors_and_empty_lines() {
    let snapshot: Vec<String> = Vec::new();
    assert!(matches!(execute("   ", &snapshot), Ok(None)));
    match execute("cmd >", &snapshot) {
        Err(e) => assert_eq!(e, ShellError::Parse(ParseError::DanglingRedirect)),
        Ok(_) => panic!("a dangling redirect must be a parse error"),
    }
}
