//! Tests of the doomsday skill and its date questions.

use chrono::Datelike;
use practicestuff::question::Question;
use practicestuff::skill::doomsday_algorithm::Doomsday;
use practicestuff::skill::Base;

#[test]
fn build_doomsday_defaults() {
    let args = [];
    let doomsday = Doomsday::build(&args).expect("Should build correctly with no args");
    assert!(!doomsday.show_help());
    assert_eq!(doomsday.lower_boundary(), 1880);
    assert_eq!(doomsday.upper_boundary(), 2115);
}

#[test]
fn build_doomsday_with_args() {
    let args = [
        "--lower-boundary=1990".to_string(),
        "-u".to_string(),
        "2000".to_string(),
    ];
    let doomsday = Doomsday::build(&args).expect("Should build correctly with args");
    assert_eq!(doomsday.lower_boundary(), 1990);
    assert_eq!(doomsday.upper_boundary(), 2000);
}

#[test]
fn build_doomsday_rejects_bad_boundaries() {
    let args = [
        "-l".to_string(),
        "2000".to_string(),
        "-u".to_string(),
        "1990".to_string(),
    ];
    assert!(Doomsday::build(&args)
        .unwrap_err()
        .contains("lower boundary must be less than or equal to upper boundary"));

    let args = ["-l".to_string(), "1500".to_string()];
    assert!(Doomsday::build(&args)
        .unwrap_err()
        .contains("year boundary too low"));

    let args = [
        "-l".to_string(),
        "1990".to_string(),
        "-u".to_string(),
        "300000".to_string(),
    ];
    assert!(Doomsday::build(&args)
        .unwrap_err()
        .contains("year boundaries cannot exceed 262143"));
}

#[test]
fn doomsday_error_message() {
    let message = Doomsday::build_err_message(Some("oops".to_string()));
    assert!(message.contains("practicestuff"));
    assert!(message.contains("doomsday"));
    assert!(message.contains("oops"));
    assert!(message.contains("Usage"));
    assert!(message.contains("for more information"));
}

#[test]
fn question_from_known_date() {
    // 2024-01-01 was a Monday
    let date = chrono::NaiveDate::from_ymd_opt(2024, 1, 1).unwrap();
    let question = Question::from_date(date.num_days_from_ce());
    assert_eq!(question.question(), "What is the weekday of 2024-01-01?");
    assert_eq!(question.correct_answer(), "monday");
    assert!(question.is_answer_correct("Monday"));
    assert!(question.is_answer_correct("Mon"));
    assert!(question.is_answer_correct("mo"));
    assert!(question.is_answer_correct("1"));
    assert!(!question.is_answer_correct("tuesday"));

    // 2000-03-05 was a Sunday; both 0 and 7 are accepted
    let date = chrono::NaiveDate::from_ymd_opt(2000, 3, 5).unwrap();
    let question = Question::from_date(date.num_days_from_ce());
    assert_eq!(question.question(), "What is the weekday of 2000-03-05?");
    assert_eq!(question.correct_answer(), "sunday");
    assert!(question.is_answer_correct("0"));
    assert!(question.is_answer_correct("7"));
}

#[test]
fn doomsday_question_generation() {
    let args = [
        "-l".to_string(),
        "1999".to_string(),
        "-u".to_string(),
        "1999".to_string(),
    ];
    let doomsday = Doomsday::build(&args).expect("Should build correctly");
    let questions = doomsday.generate_questions(5);
    assert_eq!(questions.len(), 5);
    for question in &questions {
        assert!(question.question().starts_with("What is the weekday of 1999-"));
    }
}

#[test]
fn doomsday_help_text() {
    let args = ["-h".to_string()];
    let doomsday = Doomsday::build(&args).expect("Should build correctly");
    assert!(doomsday.wants_to_print_help());
    let help_text = doomsday.get_help_text();
    assert!(help_text.contains("Usage"));
    assert!(help_text.contains("-h, --help"));
    assert!(help_text.contains("-l, --lower-boundary"));
    assert!(help_text.contains("-u, --upper-boundary"));
    assert!(help_text.lines().all(|l| l.len() <= 80));
}
