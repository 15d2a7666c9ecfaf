//! Parsing: tokens, quoting, and the three redirect forms.

use tsh::parser::{Command, ParseError, Redirect, RedirectionTarget, RedirectionType};

fn parse_command(line: &str) -> Command {
    match tsh::parser::try_parse_input(line) {
        Ok(Some(c)) => c,
        other => panic!("expected a command, got {:?}", other.is_ok()),
    }
}

fn parts(c: &Command) -> (String, Vec<String>, &Vec<Redirect>) {
    match c {
        Command::Simple { command_name, args, redirects, .. } => {
            (command_name.clone(), args.clone(), redirects)
        },
    }
}

#[test]
fn whitespace_only_is_no_command() {
    assert!(matches!(tsh::parser::try_parse_input(""), Ok(None)));
    assert!(matches!(tsh::parser::try_parse_input("   "), Ok(None)));
    assert!(matches!(tsh::parser::try_parse_input(" \t \n"), Ok(None)));
}

#[test]
fn unicode_whitespace_only_is_no_command() {
    // vertical tab, form feed, next line, no-break space, ideographic space:
    // everything `str::trim` strips parses to "no command"
    assert!(matches!(tsh::parser::try_parse_input("\u{000B}"), Ok(None)));
    assert!(matches!(tsh::parser::try_parse_input("\u{000C}\u{0085}"), Ok(None)));
    assert!(matches!(tsh::parser::try_parse_input("\u{00A0}\u{2003}\u{3000}"), Ok(None)));
}

#[test]
fn plus_prefixed_descriptor_token() {
    // +2 fully parses as an integer, so it names the source descriptor
    let c = parse_command("cmd +2>f");
    let (name, args, redirects) = parts(&c);
    assert_eq!(name, "cmd");
    assert!(args.is_empty(), "the descriptor token must be consumed");
    assert_eq!(redirects.len(), 1);
    assert_eq!(redirects[0].from_fd, 2);
    // a negative token is no source descriptor: descriptors are nonnegative
    let c = parse_command("cmd -2>f");
    let (_, args, redirects) = parts(&c);
    assert_eq!(args, vec!["-2".to_string()]);
    assert_eq!(redirects[0].from_fd, 1);
}

#[test]
fn echo_with_quoted_argument() {
    let c = parse_command("echo a 'b c' d");
    let (name, args, redirects) = parts(&c);
    assert_eq!(name, "echo");
    assert_eq!(args, vec!["a".to_string(), "b c".to_string(), "d".to_string()]);
    assert!(redirects.is_empty());
}

#[test]
fn double_quotes_and_concatenation() {
    let c = parse_command("echo \"a b\"' c'");
    let (name, args, _) = parts(&c);
    assert_eq!(name, "echo");
    assert_eq!(args, vec!["a b c".to_string()]);
}

#[test]
fn quote_inside_other_quote_is_literal() {
    let c = parse_command("echo \"don't\"");
    let (_, args, _) = parts(&c);
    assert_eq!(args, vec!["don't".to_string()]);
}

#[test]
fn overwrite_redirect_defaults_to_stdout() {
    let c = parse_command("cmd > out.txt");
    let (name, args, redirects) = parts(&c);
    assert_eq!(name, "cmd");
    assert!(args.is_empty());
    assert_eq!(redirects.len(), 1);
    assert_eq!(redirects[0].from_fd, 1);
    assert!(matches!(redirects[0].kind, RedirectionType::Output));
    match &redirects[0].target {
        RedirectionTarget::RealFile(p) => assert_eq!(p, "out.txt"),
        other => panic!("expected a file target, got a descriptor: {:?}", other),
    }
}

#[test]
fn append_redirect_on_descriptor_two() {
    let c = parse_command("cmd 2>> err.log");
    let (name, args, redirects) = parts(&c);
    assert_eq!(name, "cmd");
    assert!(args.is_empty(), "the descriptor token must be consumed");
    assert_eq!(redirects.len(), 1);
    assert_eq!(redirects[0].from_fd, 2);
    assert!(matches!(redirects[0].kind, RedirectionType::AppendOutput));
    match &redirects[0].target {
        RedirectionTarget::RealFile(p) => assert_eq!(p, "err.log"),
        other => panic!("expected a file target, got a descriptor: {:?}", other),
    }
}

#[test]
fn duplicate_descriptor_redirect() {
    let c = parse_command("cmd 1>@2");
    let (name, args, redirects) = parts(&c);
    assert_eq!(name, "cmd");
    assert!(args.is_empty());
    assert_eq!(redirects.len(), 1);
    assert_eq!(redirects[0].from_fd, 1);
    match redirects[0].kind {
        RedirectionType::RedirectToFileDescriptor(t) => assert_eq!(t, 2),
        ref other => panic!("expected the duplicate kind, got {:?}", other),
    }
    match redirects[0].target {
        RedirectionTarget::FileDescriptor(t) => assert_eq!(t, 2),
        ref other => panic!("no file path may be produced, got {:?}", other),
    }
}

#[test]
fn duplicate_redirect_with_default_source() {
    let c = parse_command("cmd >@7");
    let (_, _, redirects) = parts(&c);
    assert_eq!(redirects.len(), 1);
    assert_eq!(redirects[0].from_fd, 1);
    assert!(matches!(redirects[0].kind, RedirectionType::RedirectToFileDescriptor(7)));
}

#[test]
fn quoted_redirect_target() {
    let c = parse_command("cmd > 'my file.txt'");
    let (_, _, redirects) = parts(&c);
    assert_eq!(redirects.len(), 1);
    match &redirects[0].target {
        RedirectionTarget::RealFile(p) => assert_eq!(p, "my file.txt"),
        other => panic!("expected a file target, got a descriptor: {:?}", other),
    }
}

#[test]
fn two_redirects_recorded_in_order() {
    let c = parse_command("cmd > a.txt 2>>b.txt");
    let (_, _, redirects) = parts(&c);
    assert_eq!(redirects.len(), 2);
    assert_eq!(redirects[0].from_fd, 1);
    assert!(matches!(redirects[0].kind, RedirectionType::Output));
    assert_eq!(redirects[1].from_fd, 2);
    assert!(matches!(redirects[1].kind, RedirectionType::AppendOutput));
}

#[test]
fn non_numeric_token_before_redirect_stays_an_argument() {
    let c = parse_command("cmd abc >out");
    let (name, args, redirects) = parts(&c);
    assert_eq!(name, "cmd");
    assert_eq!(args, vec!["abc".to_string()]);
    assert_eq!(redirects.len(), 1);
    assert_eq!(redirects[0].from_fd, 1);
}

#[test]
fn oversized_descriptor_token_is_not_a_descriptor() {
    let c = parse_command("cmd 99999999999>f");
    let (_, args, redirects) = parts(&c);
    assert_eq!(args, vec!["99999999999".to_string()]);
    assert_eq!(redirects.len(), 1);
    assert_eq!(redirects[0].from_fd, 1);
}

#[test]
fn trailing_redirect_is_an_error() {
    assert_eq!(tsh::parser::try_parse_input("cmd >").unwrap_err(), ParseError::DanglingRedirect);
    assert_eq!(tsh::parser::try_parse_input("cmd >>").unwrap_err(), ParseError::DanglingRedirect);
    assert_eq!(tsh::parser::try_parse_input("cmd > ").unwrap_err(), ParseError::DanglingRedirect);
}

#[test]
fn duplicate_redirect_without_digits_is_an_error() {
    assert_eq!(
        tsh::parser::try_parse_input("cmd >@").unwrap_err(),
        ParseError::MissingDuplicateDescriptor
    );
    assert_eq!(
        tsh::parser::try_parse_input("cmd >@x").unwrap_err(),
        ParseError::MissingDuplicateDescriptor
    );
}

#[test]
fn oversized_duplicate_descriptor_is_an_error() {
    assert_eq!(
        tsh::parser::try_parse_input("cmd 1>@99999999999").unwrap_err(),
        ParseError::DescriptorOutOfRange
    );
}

#[test]
fn round_trip_of_parsed_arguments() {
    // `echo a 'b c' d`, rendered with each character in its own quotes as
    // the round-trip law renders it, parses back to the same name and
    // arguments.
    let first = parse_command("echo a 'b c' d");
    let rendered = "'e''c''h''o' 'a' 'b'' ''c' 'd'";
    let second = parse_command(rendered);
    let (n1, a1, _) = parts(&first);
    let (n2, a2, _) = parts(&second);
    assert_eq!(n1, n2);
    assert_eq!(a1, a2);
}

#[test]
fn round_trip_with_a_single_quote_in_an_argument() {
    let first = parse_command("echo \"don't\"");
    // the token don't renders as 'd''o''n'"'"'t'
    let second = parse_command("'e''c''h''o' 'd''o''n'\"'\"'t'");
    let (n1, a1, _) = parts(&first);
    let (n2, a2, _) = parts(&second);
    assert_eq!(n1, n2);
    assert_eq!(a1, a2);
}

#[test]
fn redirect_tokens_are_consumed_by_round_trip() {
    let first = parse_command("cmd x > out.txt 2>@1");
    let (n1, a1, redirects) = parts(&first);
    assert_eq!(redirects.len(), 2);
    // rendering keeps only name and arguments
    let second = parse_command("'c''m''d' 'x'");
    let (n2, a2, r2) = parts(&second);
    assert_eq!(n1, n2);
    assert_eq!(a1, a2);
    assert!(r2.is_empty());
}
