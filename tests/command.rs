use radb::command::{shell_escape_arg, AdbCommand};
use std::borrow::Cow;

#[test]
fn test_single_command() {
    let cmd = AdbCommand::from("test");
    assert_eq!(cmd.get_command(), "test");
}

#[test]
fn test_multiple_command() {
    let cmd = AdbCommand::from(vec!["adb", "shell", "ls"]);
    assert_eq!(cmd.get_command(), "adb shell ls");
}

#[test]
fn test_command_with_spaces() {
    let cmd = AdbCommand::from(vec!["echo", "hello world"]);
    assert_eq!(cmd.get_command(), "echo \"hello world\"");
}

#[test]
fn test_command_with_quotes() {
    let cmd = AdbCommand::from(vec!["echo", "say \"hello\""]);
    assert_eq!(cmd.get_command(), "echo \"say \\\"hello\\\"\"");
}

#[test]
fn test_empty_argument() {
    let cmd = AdbCommand::from(vec!["test", ""]);
    assert_eq!(cmd.get_command(), "test \"\"");
}

#[test]
fn test_shell_escape_simple() {
    assert_eq!(shell_escape_arg("simple"), "simple");
    assert_eq!(shell_escape_arg(""), "\"\"");
    assert_eq!(shell_escape_arg("hello world"), "\"hello world\"");
    assert_eq!(shell_escape_arg("test\"quote"), "\"test\\\"quote\"");
}

#[test]
fn test_array_conversion() {
    let cmd = AdbCommand::from(["echo", "test"]);
    assert_eq!(cmd.get_command(), "echo test");

    let arr = ["echo", "hello world"];
    let cmd = AdbCommand::from(&arr);
    assert_eq!(cmd.get_command(), "echo \"hello world\"");
}

#[test]
fn test_cow_optimization() {
    let cmd = AdbCommand::single("test");
    match cmd.get_command_cow() {
        Cow::Borrowed(s) => assert_eq!(s, "test"),
        Cow::Owned(_) => panic!("Should be borrowed"),
    }

    let cmd = AdbCommand::multiple(&vec!["echo", "test"]);
    match cmd.get_command_cow() {
        Cow::Owned(s) => assert_eq!(s, "echo test"),
        Cow::Borrowed(_) => panic!("Should be owned"),
    }
}

#[test]
fn escape_examples_of_the_protocol() {
    assert_eq!(AdbCommand::from(vec!["echo", "hello world"]).get_command(), "echo \"hello world\"");
    assert_eq!(AdbCommand::from(vec![""]).get_command(), "\"\"");
    assert_eq!(AdbCommand::from(vec!["a\"b"]).get_command(), "\"a\\\"b\"");
}

#[test]
fn escape_dollar_backtick_and_backslash() {
    assert_eq!(shell_escape_arg("$HOME"), "\"\\$HOME\"");
    assert_eq!(shell_escape_arg("a`b`"), "\"a\\`b\\`\"");
    assert_eq!(shell_escape_arg("a\\b"), "\"a\\\\b\"");
    assert_eq!(shell_escape_arg("it's"), "\"it's\"");
    assert_eq!(shell_escape_arg("a|b"), "\"a|b\"");
    assert_eq!(shell_escape_arg("tab\there"), "\"tab\there\"");
    assert_eq!(shell_escape_arg("x~"), "\"x~\"");
}

#[test]
fn single_command_is_sent_verbatim() {
    assert_eq!(AdbCommand::single("ls -l \"$X\"").get_command(), "ls -l \"$X\"");
}
