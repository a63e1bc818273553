//! Tests of the tokenizer/validator and the list parser.

use practicestuff::args::definition::{Arg, ArgKind, ValueKind};
use practicestuff::args::parser::{
    decompose_and_validate_arg_structure, parse_and_validate_arg, parse_and_validate_arg_list,
    parse_i32, parse_u32, validate_and_create_arg, validate_one_of_str,
};
use practicestuff::{ArgValue, ArgValuePair};

#[test]
fn u32_parsing() {
    let u32_max = u32::MAX.to_string();
    let correct = [
        (u32_max.as_str(), u32::MAX),
        ("0", 0),
        ("42", 42),
        ("1234567", 1_234_567),
    ];

    for (value, expected) in &correct {
        assert_eq!(parse_u32(value).expect("test failed"), *expected);
    }

    let u32_max_plus_1 = (u64::from(u32::MAX) + 1).to_string();
    let incorrect = [
        u32_max_plus_1.as_str(),
        "-1",
        "qwerty",
        "a123a",
        "-123456",
        "12a",
        "a12",
    ];

    for value in incorrect {
        assert!(parse_u32(value).is_err());
    }
}

#[test]
fn i32_parsing() {
    assert_eq!(parse_i32("-2147483648").expect("test failed"), i32::MIN);
    assert_eq!(parse_i32("2147483647").expect("test failed"), i32::MAX);
    assert_eq!(parse_i32("-1").expect("test failed"), -1);
    assert_eq!(parse_i32("1880").expect("test failed"), 1880);
    assert!(parse_i32("2147483648").is_err());
    assert!(parse_i32("-2147483649").is_err());
    assert!(parse_i32("").is_err());
    assert!(parse_i32("-").is_err());
    assert!(parse_i32("1a").is_err());
}

#[test]
fn one_of_strings() {
    let value = "hehe";
    let possible_values = ["hihi".to_string(), "hehe".to_string(), "haha".to_string()];

    let res = validate_one_of_str(value, &possible_values);
    assert_eq!(res.expect("test failed"), value);

    let possible_values = ["hihi".to_string(), "haha".to_string()];
    let res = validate_one_of_str(value, &possible_values);
    assert!(res.is_err());

    let possible_values = [];
    let res = validate_one_of_str(value, &possible_values);
    assert!(res.is_err());
}

#[test]
fn one_of_strings_error_names_the_allowed_set() {
    let possible_values = ["hihi".to_string(), "haha".to_string()];
    let res = validate_one_of_str("hehe", &possible_values);
    assert_eq!(
        res.unwrap_err(),
        "invalid option argument: 'hehe'. Valid arguments are: hihi, haha"
    );
}

#[test]
fn validate_and_create_bool_arg() {
    let arg = "--some_flag";
    let arg_value = None;
    let arg_definition = Arg::builder()
        .id(arg)
        .short_name('s')
        .kind(ArgKind::Flag)
        .default_value(ArgValue::Bool(false))
        .build();

    let expected = ArgValuePair::new(arg, ArgValue::Bool(true));
    let arg_value_pair =
        validate_and_create_arg(arg, arg_value, &arg_definition).expect("test failed");
    assert_eq!(arg_value_pair, expected);
}

#[test]
fn validate_and_create_u32_arg() {
    let arg = "--some_arg";
    let value = 42;
    let arg_value = Some(42.to_string());
    let arg_definition = Arg::builder()
        .id(arg)
        .short_name('s')
        .kind(ArgKind::Value(ValueKind::UnsignedInt))
        .default_value(ArgValue::UnsignedInt(0))
        .build();

    let expected = ArgValuePair::new(arg, ArgValue::UnsignedInt(value));
    let arg_value_pair =
        validate_and_create_arg(arg, arg_value.as_deref(), &arg_definition).expect("test failed");
    assert_eq!(arg_value_pair, expected);
}

#[test]
fn validate_and_create_string_arg() {
    let arg = "--some_arg";
    let value = "val";
    let arg_value = Some(value);
    let arg_definition = Arg::builder()
        .id(arg)
        .short_name('s')
        .kind(ArgKind::Value(ValueKind::OneOfStr(vec![
            "val".to_string(),
            "another_val".to_string(),
        ])))
        .default_value(ArgValue::Str("default".to_string()))
        .build();

    let expected = ArgValuePair::new(arg, ArgValue::Str(value.to_string()));
    let arg_value_pair =
        validate_and_create_arg(arg, arg_value, &arg_definition).expect("test failed");
    assert_eq!(arg_value_pair, expected);
}

#[test]
fn short_arg_decomposed() {
    let result = decompose_and_validate_arg_structure("-a").expect("test failed");
    assert!(!result.0); // false == short arg
    assert_eq!(result.1, "a");
    assert!(result.2.is_none()); // no value
}

#[test]
fn long_arg_decomposed() {
    let result = decompose_and_validate_arg_structure("--long-arg=value").expect("test failed");
    assert!(result.0); // true == long arg
    assert_eq!(result.1, "long-arg");
    assert_eq!(result.2.expect("test failed"), "value");
}

#[test]
fn malformed_tokens_are_invalid_options() {
    assert_eq!(
        decompose_and_validate_arg_structure("-a=42").unwrap_err(),
        "invalid option: '-a=42'"
    );
    assert_eq!(
        decompose_and_validate_arg_structure("a=42").unwrap_err(),
        "invalid option: 'a=42'"
    );
    assert_eq!(
        decompose_and_validate_arg_structure("-short").unwrap_err(),
        "invalid option: '-short'"
    );
    assert_eq!(
        decompose_and_validate_arg_structure("--long=").unwrap_err(),
        "option '--long=' requires an argument"
    );
}

#[test]
fn validate_short_arg_correctly() {
    let arg_value = 65;
    let arg_list = ["-s".to_string(), arg_value.to_string()];
    let arg_definition_list = [Arg::builder()
        .id("short")
        .short_name('s')
        .kind(ArgKind::Value(ValueKind::UnsignedInt))
        .default_value(ArgValue::UnsignedInt(42))
        .build()];

    let parsed_arg = parse_and_validate_arg(&arg_list, &arg_definition_list).unwrap();
    let expected_arg = ArgValuePair::new("short", ArgValue::UnsignedInt(arg_value));

    assert_eq!(parsed_arg.0, expected_arg);
    assert_eq!(parsed_arg.1, 2); // consumed args
}

#[test]
fn validate_long_arg_with_value_correctly() {
    let arg_list = ["--long=65".to_string()];
    let arg_definition_list = [Arg::builder()
        .id("long")
        .long_name("long")
        .kind(ArgKind::Value(ValueKind::UnsignedInt))
        .default_value(ArgValue::UnsignedInt(42))
        .build()];

    let parsed_arg = parse_and_validate_arg(&arg_list, &arg_definition_list).unwrap();
    let expected_arg = ArgValuePair::new("long", ArgValue::UnsignedInt(65));

    assert_eq!(parsed_arg.0, expected_arg);
    assert_eq!(parsed_arg.1, 1); // consumed args
}

#[test]
fn validate_long_arg_without_value_correctly() {
    let arg_list = ["--long".to_string()];
    let arg_definition_list = [Arg::builder()
        .id("long")
        .long_name("long")
        .kind(ArgKind::Flag)
        .default_value(ArgValue::Bool(false))
        .build()];

    let parsed_arg = parse_and_validate_arg(&arg_list, &arg_definition_list).unwrap();
    let expected_arg = ArgValuePair::new("long", ArgValue::Bool(true));

    assert_eq!(parsed_arg.0, expected_arg);
    assert_eq!(parsed_arg.1, 1); // consumed args
}

fn full_arg_definition_list(stop_on_long_flag: bool) -> Vec<Arg> {
    vec![
        Arg::builder()
            .id("long_u32")
            .short_name('u')
            .long_name("long-u32")
            .kind(ArgKind::Value(ValueKind::UnsignedInt))
            .default_value(ArgValue::UnsignedInt(666))
            .build(),
        Arg::builder()
            .id("long_flag")
            .short_name('l')
            .long_name("long-flag")
            .kind(ArgKind::Flag)
            .stop_parsing(stop_on_long_flag)
            .default_value(ArgValue::Bool(false))
            .build(),
        Arg::builder()
            .id("short_with_value")
            .short_name('s')
            .long_name("short-with-value")
            .kind(ArgKind::Value(ValueKind::OneOfStr(vec![
                "valid_string".to_string(),
                "another_valid_string".to_string(),
            ])))
            .default_value(ArgValue::Str("default".to_string()))
            .build(),
        Arg::builder()
            .id("short_flag")
            .short_name('f')
            .long_name("short-flag")
            .kind(ArgKind::Flag)
            .default_value(ArgValue::Bool(false))
            .build(),
    ]
}

#[test]
fn parse_full_arg_list_correctly() {
    let arg_list = [
        "--long-u32=42".to_string(),
        "--long-flag".to_string(),
        "-s".to_string(),
        "valid_string".to_string(),
        "-f".to_string(),
    ];
    let arg_definition_list = full_arg_definition_list(false);

    let parsed_args =
        parse_and_validate_arg_list(&arg_list, &arg_definition_list).expect("test failed");
    let expected_args = vec![
        ArgValuePair::new("long_u32", ArgValue::UnsignedInt(42)),
        ArgValuePair::new("long_flag", ArgValue::Bool(true)),
        ArgValuePair::new(
            "short_with_value",
            ArgValue::Str("valid_string".to_string()),
        ),
        ArgValuePair::new("short_flag", ArgValue::Bool(true)),
    ];
    assert_eq!(parsed_args, expected_args);
}

#[test]
fn stop_parsing_at_certain_arg() {
    let arg_list = [
        "--long-u32=42".to_string(),
        "--long-flag".to_string(),
        "-s".to_string(),
        "valid_string".to_string(),
        "-f".to_string(),
        "some_invalid_garbage".to_string(),
        "--another_invalid=".to_string(),
    ];
    let arg_definition_list = full_arg_definition_list(true);

    let parsed_args =
        parse_and_validate_arg_list(&arg_list, &arg_definition_list).expect("test failed");
    let expected_args = vec![
        ArgValuePair::new("long_u32", ArgValue::UnsignedInt(42)),
        ArgValuePair::new("long_flag", ArgValue::Bool(true)),
    ];
    assert_eq!(parsed_args, expected_args);
}

#[test]
fn duplicated_arg_but_the_value_matches() {
    let arg_list = [
        "--long-u32=42".to_string(),
        "--long-flag".to_string(),
        "-s".to_string(),
        "valid_string".to_string(),
        "-f".to_string(),
        "-u".to_string(), // repeated argument...
        "42".to_string(), // ...but with the same value
    ];
    let arg_definition_list = full_arg_definition_list(false);

    let parsed_args =
        parse_and_validate_arg_list(&arg_list, &arg_definition_list).expect("test failed");
    let expected_args = vec![
        ArgValuePair::new("long_u32", ArgValue::UnsignedInt(42)),
        ArgValuePair::new("long_flag", ArgValue::Bool(true)),
        ArgValuePair::new(
            "short_with_value",
            ArgValue::Str("valid_string".to_string()),
        ),
        ArgValuePair::new("short_flag", ArgValue::Bool(true)),
    ];
    assert_eq!(parsed_args, expected_args);
}

#[test]
fn conflicting_duplicates_are_rejected() {
    // the same option repeated with a different value fails...
    let arg_list = [
        "-u".to_string(),
        "42".to_string(),
        "-u".to_string(),
        "43".to_string(),
    ];
    let arg_definition_list = full_arg_definition_list(false);
    let err = parse_and_validate_arg_list(&arg_list, &arg_definition_list).unwrap_err();
    assert_eq!(err, "conflicting arguments for duplicated option: '-u'");

    // ...while an identical repeat is accepted silently, with one entry
    let arg_list = [
        "-u".to_string(),
        "42".to_string(),
        "-u".to_string(),
        "42".to_string(),
    ];
    let parsed_args =
        parse_and_validate_arg_list(&arg_list, &arg_definition_list).expect("test failed");
    assert_eq!(
        parsed_args,
        vec![ArgValuePair::new("long_u32", ArgValue::UnsignedInt(42))]
    );
}

#[test]
fn long_flag_with_inline_value_is_rejected() {
    let arg_list = ["--long-flag=anything".to_string()];
    let arg_definition_list = full_arg_definition_list(false);
    let err = parse_and_validate_arg_list(&arg_list, &arg_definition_list).unwrap_err();
    assert_eq!(err, "option '--long-flag=anything' doesn't allow an argument");
}

#[test]
fn stop_parsing_scenario_ignores_garbage() {
    // a stop-parsing flag short-circuits a tail that could never parse
    let arg_list = [
        "--a=1".to_string(),
        "--stop-flag".to_string(),
        "--garbage".to_string(),
        "-x".to_string(),
    ];
    let arg_definition_list = [
        Arg::builder()
            .id("a")
            .long_name("a")
            .kind(ArgKind::Value(ValueKind::UnsignedInt))
            .default_value(ArgValue::UnsignedInt(0))
            .build(),
        Arg::builder()
            .id("stop_flag")
            .long_name("stop-flag")
            .kind(ArgKind::Flag)
            .stop_parsing(true)
            .default_value(ArgValue::Bool(false))
            .build(),
    ];
    let parsed_args =
        parse_and_validate_arg_list(&arg_list, &arg_definition_list).expect("test failed");
    assert_eq!(
        parsed_args,
        vec![
            ArgValuePair::new("a", ArgValue::UnsignedInt(1)),
            ArgValuePair::new("stop_flag", ArgValue::Bool(true)),
        ]
    );
}

#[test]
fn repeating_the_whole_vector_changes_nothing() {
    let arg_list = [
        "-u".to_string(),
        "7".to_string(),
        "-f".to_string(),
        "-u".to_string(),
        "7".to_string(),
        "-f".to_string(),
    ];
    let arg_definition_list = full_arg_definition_list(false);
    let parsed_args =
        parse_and_validate_arg_list(&arg_list, &arg_definition_list).expect("test failed");
    assert_eq!(
        parsed_args,
        vec![
            ArgValuePair::new("long_u32", ArgValue::UnsignedInt(7)),
            ArgValuePair::new("short_flag", ArgValue::Bool(true)),
        ]
    );
}

#[test]
fn u32_values_round_trip_exactly() {
    for n in [0u32, 1, 9, 10, 20, 4294967295] {
        let text = n.to_string();
        assert_eq!(parse_u32(&text).expect("test failed"), n);
    }
}
