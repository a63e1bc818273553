//! Tests of the help renderer: column widths and full rendered text.

use practicestuff::args::definition::{Arg, ArgKind};
use practicestuff::args::help::{
    build, calculate_first_column_width, longest_line_length, Command, Options, GAP_WIDTH,
    INDENT_WIDTH, LONG_NAME_PREFIX, SHORT_NAME_WIDTH,
};
use practicestuff::ArgValue;

#[test]
fn option_with_short_name_only() {
    let options = [Arg::builder()
        .id("arg1")
        .short_name('s')
        .kind(ArgKind::Flag)
        .default_value(ArgValue::Bool(false))
        .build()];

    assert_eq!(
        calculate_first_column_width(&options, &[]),
        INDENT_WIDTH + SHORT_NAME_WIDTH + GAP_WIDTH
    );
}

#[test]
fn option_with_long_name_only() {
    let name = "long-name";
    let options = [Arg::builder()
        .id("arg1")
        .long_name(name)
        .kind(ArgKind::Flag)
        .default_value(ArgValue::Bool(false))
        .build()];

    assert_eq!(
        calculate_first_column_width(&options, &[]),
        INDENT_WIDTH + SHORT_NAME_WIDTH + LONG_NAME_PREFIX + name.len() + GAP_WIDTH
    ); // Space for short name is always taken into consideration
}

#[test]
fn option_with_short_and_long_names() {
    let name = "long-name";
    let options = [Arg::builder()
        .id("arg1")
        .short_name('s')
        .long_name(name)
        .kind(ArgKind::Flag)
        .default_value(ArgValue::Bool(false))
        .build()];

    assert_eq!(
        calculate_first_column_width(&options, &[]),
        INDENT_WIDTH + SHORT_NAME_WIDTH + LONG_NAME_PREFIX + name.len() + GAP_WIDTH
    );
}

#[test]
fn multiple_options_with_short_names_only() {
    let options = [
        Arg::builder()
            .id("arg1")
            .short_name('s')
            .kind(ArgKind::Flag)
            .default_value(ArgValue::Bool(false))
            .build(),
        Arg::builder()
            .id("arg2")
            .short_name('x')
            .kind(ArgKind::Flag)
            .default_value(ArgValue::Bool(false))
            .build(),
    ];

    assert_eq!(
        calculate_first_column_width(&options, &[]),
        INDENT_WIDTH + SHORT_NAME_WIDTH + GAP_WIDTH
    );
}

#[test]
fn multiple_options() {
    let name1 = "long-name";
    let name2 = "even-longer-name";
    let name3 = "the-loooooooongest-name";
    let options = [
        Arg::builder()
            .id("arg1")
            .short_name('s')
            .long_name(name1)
            .kind(ArgKind::Flag)
            .default_value(ArgValue::Bool(false))
            .build(),
        Arg::builder()
            .id("arg2")
            .short_name('s')
            .long_name(name2)
            .kind(ArgKind::Flag)
            .default_value(ArgValue::Bool(false))
            .build(),
        Arg::builder()
            .id("arg3")
            .short_name('s')
            .long_name(name3)
            .kind(ArgKind::Flag)
            .default_value(ArgValue::Bool(false))
            .build(),
    ];

    assert_eq!(
        calculate_first_column_width(&options, &[]),
        INDENT_WIDTH + SHORT_NAME_WIDTH + LONG_NAME_PREFIX + name3.len() + GAP_WIDTH
    );
}

#[test]
fn multiple_commands() {
    let name1 = "shortest";
    let name2 = "looooongest-command";
    let name3 = "in-between";
    let commands = [
        Command::new(name1, "desc1"),
        Command::new(name2, "desc2"),
        Command::new(name3, "desc3"),
    ];

    assert_eq!(
        calculate_first_column_width(&[], &commands),
        INDENT_WIDTH + name2.len() + GAP_WIDTH
    );
}

#[test]
fn mix_command_longer_than_option() {
    let command_name = "the-looooongest-command-you-can-imagine";
    let commands = [Command::new(command_name, "desc")];
    let long_name = "opt-long-name";
    let options = [Arg::builder()
        .id("arg")
        .long_name(long_name)
        .kind(ArgKind::Flag)
        .default_value(ArgValue::Bool(false))
        .build()];

    assert_eq!(
        calculate_first_column_width(&options, &commands),
        INDENT_WIDTH + command_name.len() + GAP_WIDTH
    );
}

#[test]
fn mix_command_shorter_than_option() {
    let command_name = "cmd";
    let commands = [Command::new(command_name, "desc")];
    let long_name = "very-long-command-name";
    let options = [Arg::builder()
        .id("arg")
        .long_name(long_name)
        .kind(ArgKind::Flag)
        .default_value(ArgValue::Bool(false))
        .build()];

    assert_eq!(
        calculate_first_column_width(&options, &commands),
        INDENT_WIDTH + SHORT_NAME_WIDTH + LONG_NAME_PREFIX + long_name.len() + GAP_WIDTH
    );
}

#[test]
fn only_options() {
    let definitions = [Arg::builder()
        .id("arg")
        .long_name("some-name")
        .kind(ArgKind::Flag)
        .default_value(ArgValue::Bool(false))
        .build()];
    let options = Options::new("Options", &definitions);

    let result = build("Usage: something something", None, &options, &[]);
    assert!(result.contains("Usage: something something"));
    assert!(result.contains("Options:"));
    assert!(result.contains("--some-name"));
    assert!(!result.contains("Commands:"));
}

#[test]
fn only_commands() {
    let commands = [Command::new("cmd", "desc")];

    let result = build(
        "Usage: something something",
        None,
        &Options::new("Options", &[]),
        &commands,
    );
    assert!(result.contains("Usage: something something"));
    assert!(!result.contains("Options:"));
    assert!(result.contains("Commands:"));
    assert!(result.contains("cmd"));
    assert!(result.contains("desc"));
}

#[test]
fn include_additional_info() {
    let usage = "Some usage";
    let additional_info = "Some additional info";

    let result = build(usage, Some(additional_info), &Options::new("Options", &[]), &[]);

    assert!(result.contains(usage));
    assert!(result.contains(additional_info));
}

#[test]
fn full_help() {
    let definitions = [
        Arg::builder()
            .id("arg1")
            .short_name('a')
            .long_name("first-name")
            .kind(ArgKind::Flag)
            .default_value(ArgValue::Bool(false))
            .description(vec!["one-line description".to_string()])
            .build(),
        Arg::builder()
            .id("arg2")
            .short_name('b')
            .kind(ArgKind::Flag)
            .default_value(ArgValue::Bool(false))
            // no description
            .build(),
        Arg::builder()
            .id("arg3")
            .long_name("third-name")
            .kind(ArgKind::Flag)
            .default_value(ArgValue::Bool(false))
            .description(vec![
                "first description line".to_string(),
                "second line".to_string(),
            ])
            .build(),
        Arg::builder()
            .id("arg4")
            .short_name('d')
            .kind(ArgKind::Flag)
            .default_value(ArgValue::Bool(false))
            .description(vec!["another short description".to_string()])
            .build(),
    ];

    let usage = "Usage: some text";
    let additional_info = "Some additional info";
    let options = Options::new("Custom options header", &definitions);
    let commands = [
        Command::new("first-command", ""),
        Command::new("second", "This one has a description."),
    ];

    let mut expected = String::new();
    expected.push_str("Usage: some text\n");
    expected.push_str("Some additional info\n");
    expected.push('\n');
    expected.push_str("Custom options header:\n");
    expected.push_str("  -a, --first-name   one-line description\n");
    expected.push_str("  -b,                \n");
    expected.push_str("      --third-name   first description line\n");
    expected.push_str("                     second line\n");
    expected.push_str("  -d,                another short description\n");
    expected.push('\n');
    expected.push_str("Commands:\n");
    expected.push_str("  first-command      \n");
    expected.push_str("  second             This one has a description.\n");

    assert_eq!(build(usage, Some(additional_info), &options, &commands), expected);
}

#[test]
fn longest_line_of_rendered_help() {
    let definitions = [Arg::builder()
        .id("arg")
        .short_name('a')
        .long_name("name")
        .kind(ArgKind::Flag)
        .default_value(ArgValue::Bool(false))
        .description(vec!["a description".to_string()])
        .build()];
    let options = Options::new("Options", &definitions);
    let rendered = build("Usage: short", None, &options, &[]);
    // 2 + 4 + "--name" + 3 + description
    assert_eq!(longest_line_length(&rendered), 2 + 4 + 6 + 3 + 13);
    assert!(longest_line_length(&rendered) <= 80);
    assert_eq!(longest_line_length(""), 0);
    assert_eq!(longest_line_length("ab\ncdef\n"), 4);
}
