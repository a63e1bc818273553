//! Tests of the times-table skill.

use practicestuff::skill::times_table::TimesTable;
use practicestuff::skill::Base;

#[test]
fn build_times_table_defaults() {
    let args = [];
    let times_table = TimesTable::build(&args).expect("Should build correctly with no args");
    assert!(!times_table.show_help());
    assert_eq!(times_table.lower_boundary_1(), 1);
    assert_eq!(times_table.upper_boundary_1(), 10);
    assert_eq!(times_table.lower_boundary_2(), 1);
    assert_eq!(times_table.upper_boundary_2(), 10);
}

#[test]
fn build_times_table_incorrect_args_are_rejected() {
    let args = [
        "--upper-boundary-1=yay".to_string(),
        "hehe".to_string(),
        "-what".to_string(),
    ];
    assert!(TimesTable::build(&args)
        .unwrap_err()
        .contains("invalid option argument"));
}

#[test]
fn build_times_table_with_args() {
    let args = [
        "--lower-boundary-1=4".to_string(),
        "--upper-boundary-1=7".to_string(),
        "--lower-boundary-2=5".to_string(),
        "--upper-boundary-2=8".to_string(),
    ];
    let times_table = TimesTable::build(&args).expect("Should build correctly with args");
    assert!(!times_table.show_help());
    assert_eq!(times_table.lower_boundary_1(), 4);
    assert_eq!(times_table.upper_boundary_1(), 7);
    assert_eq!(times_table.lower_boundary_2(), 5);
    assert_eq!(times_table.upper_boundary_2(), 8);
}

#[test]
fn build_times_table_mismatched_boundaries_are_rejected() {
    let args = [
        "--lower-boundary-1=5".to_string(),
        "--upper-boundary-1=4".to_string(),
    ];
    assert!(TimesTable::build(&args)
        .unwrap_err()
        .contains("lower boundary must be less than or equal to upper boundary"));

    let args = [
        "--lower-boundary-2=5".to_string(),
        "--upper-boundary-2=4".to_string(),
    ];
    assert!(TimesTable::build(&args)
        .unwrap_err()
        .contains("lower boundary must be less than or equal to upper boundary"));
}

#[test]
fn build_times_table_overflowing_boundary_is_rejected() {
    // factors are u32; the parser won't accept u32::MAX + 1 and larger
    let args = ["--upper-boundary-1=4294967296".to_string()];
    assert!(TimesTable::build(&args)
        .unwrap_err()
        .contains("invalid option argument"));
}

#[test]
fn times_table_error_message() {
    let err = Some("something extraordinarily wrong happened".to_string());
    let message = TimesTable::build_err_message(err);
    assert!(message.contains("practicestuff"));
    assert!(message.contains("times_table"));
    assert!(message.contains("something extraordinarily wrong happened"));
    assert!(message.contains("Usage"));
    assert!(message.contains("for more information"));

    let err = None;
    let message = TimesTable::build_err_message(err);
    assert!(message.contains("practicestuff"));
    assert!(message.contains("times_table"));
    assert!(message.contains("Usage"));
    assert!(message.contains("for more information"));
}

#[test]
fn times_table_question_generation() {
    let args = [
        "--upper-boundary-1=1".to_string(),
        "--upper-boundary-2=1".to_string(),
    ];
    let times_table = TimesTable::build(&args).expect("Should build correctly");
    let question = times_table.generate_question();
    assert_eq!(question.question(), "1*1");
    assert_eq!(question.correct_answer(), "1");
    assert!(question.is_answer_correct("1"));
}

#[test]
fn times_table_multiple_question_generation() {
    let args = [
        "--lower-boundary-1=3".to_string(),
        "--upper-boundary-1=3".to_string(),
        "--lower-boundary-2=3".to_string(),
        "--upper-boundary-2=3".to_string(),
    ];
    let times_table = TimesTable::build(&args).expect("Should build correctly");
    let questions = times_table.generate_questions(10);
    assert_eq!(questions.len(), 10);
    assert!(questions
        .iter()
        .all(|question| question.question().contains("3*3")));
}

#[test]
fn times_table_print_help_only() {
    let args = [];
    let times_table = TimesTable::build(&args).expect("Should build correctly");
    assert!(!times_table.wants_to_print_help());

    let args = [
        "--lower-boundary-1=4".to_string(),
        "-h".to_string(),
        "--upper-boundary-2=10".to_string(),
    ];
    let times_table = TimesTable::build(&args).expect("Should build correctly");
    assert!(times_table.wants_to_print_help());
}

#[test]
fn times_table_help_text() {
    let args = ["-h".to_string()];
    let times_table = TimesTable::build(&args).expect("Should build correctly");
    let help_text = times_table.get_help_text();
    assert!(help_text.contains("Times table options"));
    assert!(help_text.contains("Usage"));

    // Ensure all flags are included
    assert!(help_text.contains("-h, --help"));
    assert!(help_text.contains("--lower-boundary-1"));
    assert!(help_text.contains("--upper-boundary-1"));
    assert!(help_text.contains("--lower-boundary-2"));
    assert!(help_text.contains("--upper-boundary-2"));
    assert!(help_text.lines().all(|l| l.len() <= 80));
}
