//! Resolution: builtin dispatch, path lookup, exit codes, message lines.

use tsh::resolver::{
    echo_line, exit_code_of, from_command, get_executable_path, not_found_line, pwd_line,
    CommandExecutor, Executable, TargetExecutor,
};
use tsh::parser::Command;

fn simple(name: &str, args: &[&str]) -> Command {
    Command::Simple {
        command_name: name.to_string(),
        args: args.iter().map(|a| a.to_string()).collect(),
        redirects: Vec::new(),
        dont_wait: false,
    }
}

fn strings(v: &[&str]) -> Vec<String> {
    v.iter().map(|a| a.to_string()).collect()
}

#[test]
fn echo_line_joins_with_single_spaces() {
    assert_eq!(echo_line(&strings(&["a", "b c", "d"])), "a b c d\n");
    assert_eq!(echo_line(&strings(&["a"])), "a\n");
    assert_eq!(echo_line(&strings(&[])), "\n");
}

#[test]
fn pwd_and_not_found_lines() {
    assert_eq!(pwd_line("/home/u"), "/home/u\n");
    assert_eq!(not_found_line("nosuch"), "Command not found: nosuch\n");
}

#[test]
fn exit_code_reads_first_argument() {
    assert_eq!(exit_code_of(&strings(&["7"])), 7);
    assert_eq!(exit_code_of(&strings(&["-3"])), -3);
    assert_eq!(exit_code_of(&strings(&["+12", "ignored"])), 12);
    assert_eq!(exit_code_of(&strings(&["notanumber"])), 0);
    assert_eq!(exit_code_of(&strings(&["99999999999"])), 0);
    assert_eq!(exit_code_of(&strings(&[])), 0);
    assert_eq!(exit_code_of(&strings(&["-2147483648"])), i32::MIN);
    assert_eq!(exit_code_of(&strings(&["2147483647"])), i32::MAX);
    assert_eq!(exit_code_of(&strings(&["-2147483649"])), 0);
}

#[test]
fn builtin_dispatch_is_case_insensitive() {
    let snapshot: Vec<String> = Vec::new();
    let r = from_command(&simple("EcHo", &["x"]), &snapshot);
    assert!(matches!(r.target_type, TargetExecutor::Builtin));
    match r.executable {
        Executable::Echo { args } => assert_eq!(args, strings(&["x"])),
        _ => panic!("expected the echo builtin"),
    }
    let r = from_command(&simple("EXIT", &["7"]), &snapshot);
    match r.executable {
        Executable::Exit { code } => assert_eq!(code, 7),
        _ => panic!("expected the exit builtin"),
    }
    let r = from_command(&simple("Pwd", &[]), &snapshot);
    assert!(matches!(r.executable, Executable::Pwd));
}

#[test]
fn lookup_matches_final_component_only() {
    let snapshot = strings(&["/bin/ls", "/usr/bin/cat"]);
    assert_eq!(get_executable_path("ls", &snapshot), Some("/bin/ls".to_string()));
    assert_eq!(get_executable_path("cat", &snapshot), Some("/usr/bin/cat".to_string()));
    assert_eq!(get_executable_path("s", &snapshot), None);
    assert_eq!(get_executable_path("bin", &snapshot), None);
    assert_eq!(get_executable_path("nosuch", &snapshot), None);
}

#[test]
fn lookup_takes_the_first_match() {
    let snapshot = strings(&["/a/x", "/b/x"]);
    assert_eq!(get_executable_path("x", &snapshot), Some("/a/x".to_string()));
}

#[test]
fn absent_name_resolves_to_not_found_and_nothing_to_spawn() {
    let snapshot = strings(&["/bin/ls"]);
    let r: CommandExecutor = from_command(&simple("nosuch", &["a"]), &snapshot);
    assert!(matches!(r.target_type, TargetExecutor::Ext));
    match r.executable {
        Executable::NotFound { name } => assert_eq!(name, "nosuch"),
        _ => panic!("an absent name must resolve to the not-found report"),
    }
}

#[test]
fn present_name_resolves_to_external_with_name_as_typed() {
    let snapshot = strings(&["/usr/bin/cat"]);
    let r = from_command(&simple("cat", &["f1", "f2"]), &snapshot);
    assert!(matches!(r.target_type, TargetExecutor::Ext));
    match r.executable {
        Executable::External { path, name, args } => {
            assert_eq!(path, "/usr/bin/cat");
            assert_eq!(name, "cat");
            assert_eq!(args, strings(&["f1", "f2"]));
        },
        _ => panic!("expected an external resolution"),
    }
}

#[test]
fn background_flag_is_carried_through() {
    let snapshot: Vec<String> = Vec::new();
    let c = Command::Simple {
        command_name: "echo".to_string(),
        args: Vec::new(),
        redirects: Vec::new(),
        dont_wait: true,
    };
    let r = from_command(&c, &snapshot);
    assert!(r.dont_wait);
}
