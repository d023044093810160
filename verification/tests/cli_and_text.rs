use hale::cli::{cli_request, command_of, read_error_message, token_line, unknown_command_message, usage_lines, CliCommand};
use hale::decimal::{i64_text, u64_text};

#[test]
fn decimal_text() {
    assert_eq!(u64_text(0), "0");
    assert_eq!(u64_text(1234567890), "1234567890");
    assert_eq!(u64_text(u64::MAX), u64::MAX.to_string());
    assert_eq!(i64_text(-7), "-7");
    assert_eq!(i64_text(i64::MIN), i64::MIN.to_string());
    assert_eq!(i64_text(i64::MAX), i64::MAX.to_string());
}

#[test]
fn token_lines_are_padded() {
    assert_eq!(token_line(1, 2, "Ident(\"x\")"), format!("{:>4}:{:<3} {}", 1, 2, "Ident(\"x\")"));
    assert_eq!(token_line(12345, 6789, "Eof"), "12345:6789 Eof");
    assert_eq!(token_line(10, 100, "Semi"), "  10:100 Semi");
}

#[test]
fn too_few_arguments_ask_for_usage() {
    let args = vec!["lotus".to_string(), "lex".to_string()];
    assert_eq!(cli_request(&args), None);
    let args = vec!["lotus".to_string(), "lex".to_string(), "a.lt".to_string()];
    assert_eq!(cli_request(&args), Some((&args[1], &args[2])));
}

#[test]
fn commands() {
    assert_eq!(command_of(&"lex".to_string()), Some(CliCommand::Lex));
    assert_eq!(command_of(&"parse".to_string()), Some(CliCommand::Parse));
    assert_eq!(command_of(&"run".to_string()), None);
    assert_eq!(unknown_command_message("run"), "unknown command: run");
    assert_eq!(read_error_message("a.lt", "No such file"), "could not read a.lt: No such file");
}

#[test]
fn usage_text() {
    let lines = usage_lines();
    assert_eq!(lines.len(), 5);
    assert_eq!(lines[2], "Usage:");
    assert_eq!(lines[3], "    lotus lex   <file.lt>     tokenize and print tokens");
}
