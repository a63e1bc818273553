//! Tests of the powers skill.

use practicestuff::skill::powers::Powers;
use practicestuff::skill::Base;

#[test]
fn build_powers_defaults() {
    let args = [];
    let powers = Powers::build(&args).expect("Should build correctly with no args");
    assert!(!powers.show_help());
    assert_eq!(powers.base(), 2);
    assert_eq!(powers.lower_boundary(), 1);
    assert_eq!(powers.upper_boundary(), 16);
}

#[test]
fn build_powers_incorrect_args_are_rejected() {
    let args = ["-b".to_string(), "hehe".to_string(), "-what".to_string()];
    assert!(Powers::build(&args)
        .unwrap_err()
        .contains("invalid option argument"));
}

#[test]
fn build_powers_with_args() {
    let args = [
        "-b".to_string(),
        "5".to_string(),
        "--lower-boundary=4".to_string(),
        "-u".to_string(),
        "7".to_string(),
    ];
    let powers = Powers::build(&args).expect("Should build correctly with args");
    assert!(!powers.show_help());
    assert_eq!(powers.base(), 5);
    assert_eq!(powers.lower_boundary(), 4);
    assert_eq!(powers.upper_boundary(), 7);
}

#[test]
fn build_powers_mismatched_boundaries_are_rejected() {
    let args = [
        "-l".to_string(),
        "5".to_string(),
        "-u".to_string(),
        "4".to_string(),
    ];
    assert!(Powers::build(&args)
        .unwrap_err()
        .contains("lower boundary must be less than or equal to upper boundary"));
}

#[test]
fn build_powers_overflow_is_rejected() {
    let args = [
        "-b".to_string(),
        "2".to_string(),
        "-u".to_string(),
        "64".to_string(),
    ];
    let err = Powers::build(&args).unwrap_err();
    assert!(err.contains("exceeds maximum allowed value"));
    assert!(err.contains("Maximum exponent for base 2 is 63"));
}

#[test]
fn powers_error_message() {
    let err = Some("something extraordinarily wrong happened".to_string());
    let message = Powers::build_err_message(err);
    assert!(message.contains("practicestuff"));
    assert!(message.contains("powers"));
    assert!(message.contains("something extraordinarily wrong happened"));
    assert!(message.contains("Usage"));
    assert!(message.contains("for more information"));

    let err = None;
    let message = Powers::build_err_message(err);
    assert!(message.contains("practicestuff"));
    assert!(message.contains("powers"));
    assert!(message.contains("Usage"));
    assert!(message.contains("for more information"));
}

#[test]
fn max_exponent() {
    assert_eq!(Powers::calculate_max_exponent(2, 64), 63);
    assert_eq!(Powers::calculate_max_exponent(5, 40), 27);
    assert_eq!(Powers::calculate_max_exponent(17, 100), 15);
    assert_eq!(Powers::calculate_max_exponent(101, 21), 9);
}

#[test]
fn powers_question_generation() {
    let args = ["-u".to_string(), "1".to_string()];
    let powers = Powers::build(&args).expect("Should build correctly");
    let question = powers.generate_question();
    assert_eq!(question.question(), "2^1");
    assert_eq!(question.correct_answer(), "2");
    assert!(question.is_answer_correct("2"));
}

#[test]
fn powers_multiple_question_generation() {
    let args = ["--base=3".to_string()];
    let powers = Powers::build(&args).expect("Should build correctly");
    let questions = powers.generate_questions(10);
    assert_eq!(questions.len(), 10);
    assert!(questions
        .iter()
        .all(|question| question.question().starts_with("3^")));
}

#[test]
fn powers_print_help_only() {
    let args = [];
    let powers = Powers::build(&args).expect("Should build correctly");
    assert!(!powers.wants_to_print_help());

    let args = [
        "-b".to_string(),
        "4".to_string(),
        "-h".to_string(),
        "--upper-boundary=10".to_string(),
    ];
    let powers = Powers::build(&args).expect("Should build correctly");
    assert!(powers.wants_to_print_help());
}

#[test]
fn powers_help_text() {
    let args = ["-h".to_string()];
    let powers = Powers::build(&args).expect("Should build correctly");
    let help_text = powers.get_help_text();
    assert!(help_text.contains("Powers options"));
    assert!(help_text.contains("Usage"));

    // Ensure all flags are included
    assert!(help_text.contains("-h, --help"));
    assert!(help_text.contains("-b, --base"));
    assert!(help_text.contains("-l, --lower-boundary"));
    assert!(help_text.contains("-u, --upper-boundary"));
    assert!(help_text.lines().all(|l| l.len() <= 80));
}
