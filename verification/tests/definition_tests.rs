//! Tests of option declarations and lookup by name.

use practicestuff::args::definition::{match_arg, Arg, ArgKind, ValueKind};
use practicestuff::ArgValue;

#[test]
fn build_arg_definition() {
    let arg_definition = Arg::builder()
        .id("some_arg")
        .short_name('s')
        .long_name("some-arg")
        .description(vec!["some description".to_string()])
        .kind(ArgKind::Flag)
        .stop_parsing(true)
        .default_value(ArgValue::Bool(false))
        .build();

    assert_eq!(arg_definition.id, "some_arg");
    assert_eq!(arg_definition.short_name, Some('s'));
    assert_eq!(arg_definition.long_name, Some("some-arg".to_string()));
    assert_eq!(
        arg_definition.description,
        vec!["some description".to_string()]
    );
    assert_eq!(arg_definition.kind, ArgKind::Flag);
    assert!(arg_definition.stop_parsing);
    assert_eq!(arg_definition.default_value, ArgValue::Bool(false));
}

#[test]
fn arg_not_matching_any_definition() {
    let arg = "my_arg";
    let arg_name = "my_arg_name";
    let arg_definition_list = [
        Arg::builder()
            .id("another_arg")
            .short_name('s')
            .long_name("different_name")
            .kind(ArgKind::Flag)
            .default_value(ArgValue::Bool(false))
            .build(),
        Arg::builder()
            .id("different_arg")
            .short_name('a')
            .long_name("another_name")
            .kind(ArgKind::Value(ValueKind::UnsignedInt))
            .default_value(ArgValue::UnsignedInt(42))
            .build(),
    ];

    let result = match_arg(arg, arg_name, false, &arg_definition_list);
    assert!(result.is_err());
}

#[test]
fn arg_matching_by_short_name() {
    let arg = "my_arg";
    let arg_name = "a";
    let arg_definition_list = [
        Arg::builder()
            .id("another_arg")
            .short_name('s')
            .long_name("different_name")
            .kind(ArgKind::Flag)
            .default_value(ArgValue::Bool(false))
            .build(),
        Arg::builder()
            .id("different_arg")
            .short_name('a')
            .long_name("another_name")
            .kind(ArgKind::Value(ValueKind::Int))
            .default_value(ArgValue::Int(42))
            .build(),
    ];

    let result = match_arg(arg, arg_name, false, &arg_definition_list);
    assert!(result.is_ok());
}

#[test]
fn arg_matching_by_long_name() {
    let arg = "my_arg";
    let arg_name = "long_name";
    let arg_definition_list = [
        Arg::builder()
            .id("another_arg")
            .short_name('s')
            .long_name("long_name")
            .kind(ArgKind::Flag)
            .default_value(ArgValue::Bool(false))
            .build(),
        Arg::builder()
            .id("different_arg")
            .short_name('a')
            .long_name("another_name")
            .kind(ArgKind::Value(ValueKind::UnsignedInt))
            .default_value(ArgValue::UnsignedInt(42))
            .build(),
    ];

    let result = match_arg(arg, arg_name, true, &arg_definition_list);
    assert!(result.is_ok());
}

#[test]
fn match_arg_reports_unrecognised_token() {
    let result = match_arg("--what", "what", true, &[]);
    assert_eq!(result.unwrap_err(), "unrecognised option: '--what'");
}
