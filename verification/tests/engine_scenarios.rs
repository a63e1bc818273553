//! End-to-end scenarios of the argument engine, as a caller would wire it.

use practicestuff::args::definition::{Arg, ArgKind, ValueKind};
use practicestuff::args::parser::parse_and_validate_arg_list;
use practicestuff::args::set_value::SetFromArg;
use practicestuff::config::NumberOfQuestions;
use practicestuff::{ArgValue, ArgValuePair};

fn example_definitions() -> Vec<Arg> {
    vec![
        Arg::builder()
            .id("help")
            .short_name('h')
            .long_name("help")
            .kind(ArgKind::Flag)
            .stop_parsing(true)
            .default_value(ArgValue::Bool(false))
            .build(),
        Arg::builder()
            .id("n")
            .short_name('n')
            .long_name("number-of-questions")
            .kind(ArgKind::Value(ValueKind::UnsignedInt))
            .default_value(ArgValue::UnsignedInt(20))
            .build(),
    ]
}

#[test]
fn zero_questions_maps_to_the_infinite_sentinel() {
    let defs = example_definitions();
    let args = ["--number-of-questions=0".to_string()];
    let parsed = parse_and_validate_arg_list(&args, &defs).expect("should parse");
    assert_eq!(
        parsed,
        vec![ArgValuePair::new("n", ArgValue::UnsignedInt(0))]
    );

    let n = u32::set_value_from_arg_or_default("n", &parsed, &defs);
    let number_of_questions = if n == 0 {
        NumberOfQuestions::Infinite
    } else {
        NumberOfQuestions::Limited(n)
    };
    assert_eq!(number_of_questions, NumberOfQuestions::Infinite);
}

#[test]
fn absent_option_falls_back_to_its_default() {
    let defs = example_definitions();
    let parsed = parse_and_validate_arg_list(&[], &defs).expect("should parse");
    assert!(parsed.is_empty());
    let n = u32::set_value_from_arg_or_default("n", &parsed, &defs);
    assert_eq!(n, 20);
}

#[test]
fn missing_values_are_reported() {
    let defs = example_definitions();

    // a short valued option as the last token has no value to consume
    let args = ["-n".to_string()];
    assert_eq!(
        parse_and_validate_arg_list(&args, &defs).unwrap_err(),
        "option '-n' requires an argument"
    );

    // a long valued option supplies its value only via `=value`
    let args = ["--number-of-questions".to_string(), "5".to_string()];
    assert_eq!(
        parse_and_validate_arg_list(&args, &defs).unwrap_err(),
        "option '--number-of-questions' requires an argument"
    );
}

#[test]
fn unrecognised_options_are_reported() {
    let defs = example_definitions();
    let args = ["--nope".to_string()];
    assert_eq!(
        parse_and_validate_arg_list(&args, &defs).unwrap_err(),
        "unrecognised option: '--nope'"
    );
}

#[test]
fn help_stops_a_malformed_command_line() {
    let defs = example_definitions();
    let args = [
        "-h".to_string(),
        "definitely not an option".to_string(),
        "--=".to_string(),
    ];
    let parsed = parse_and_validate_arg_list(&args, &defs).expect("should parse");
    assert_eq!(parsed, vec![ArgValuePair::new("help", ArgValue::Bool(true))]);
}
