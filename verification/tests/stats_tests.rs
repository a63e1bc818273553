//! Tests of session statistics: counters, accuracy and summaries.

use practicestuff::config::NumberOfQuestions;
use practicestuff::stats::{Lock, Stats};

#[test]
fn build_and_verify_stats_limited_questions() {
    let stats = Lock::new();
    stats.start(NumberOfQuestions::Limited(10));
    assert_eq!(stats.get_number_of_correct_answers(), "0/0");
    assert_eq!(stats.get_number_of_remaining_questions(), 10);
    assert_eq!(stats.get_total_accuracy(), "0.00%");
    assert_eq!(stats.get_current_accuracy(), "0.00%");
}

#[test]
fn build_and_verify_stats_unlimited_questions() {
    let stats = Lock::new();
    stats.start(NumberOfQuestions::Infinite);
    assert_eq!(stats.get_number_of_correct_answers(), "0/0");
    assert_eq!(
        stats.get_number_of_remaining_questions(),
        0,
        "Should always return 0 for infinite mode"
    );
    assert_eq!(stats.get_total_accuracy(), "0.00%");
    assert_eq!(stats.get_current_accuracy(), "0.00%");
}

#[test]
fn start_and_answer_some_questions_limited_questions() {
    let stats = Lock::new();
    stats.start(NumberOfQuestions::Limited(10));

    // 3 correct answers
    for _ in 0..3 {
        stats.start_new_question();
        stats.answer_question(true);
    }

    assert_eq!(stats.get_number_of_answered_questions(), 3);

    // 3 incorrect answers
    for _ in 0..3 {
        stats.start_new_question();
        stats.answer_question(false);
    }

    assert_eq!(stats.get_number_of_answered_questions(), 6);

    assert_eq!(stats.get_number_of_correct_answers(), "3/6");
    assert_eq!(stats.get_number_of_remaining_questions(), 4);
    assert_eq!(stats.get_total_accuracy(), "30.00%");
    assert_eq!(stats.get_current_accuracy(), "50.00%");

    let summary = stats.get_summary();
    assert!(summary.contains("Questions total: 10"));
    assert!(summary.contains("answers: 6"));
    assert!(summary.contains("skipped: 4"));
}

#[test]
fn start_and_answer_some_questions_unlimited_questions() {
    let stats = Lock::new();
    stats.start(NumberOfQuestions::Infinite);

    // 3 correct answers
    for _ in 0..3 {
        stats.start_new_question();
        stats.answer_question(true);
    }

    assert_eq!(stats.get_number_of_answered_questions(), 3);

    // 3 incorrect answers
    for _ in 0..3 {
        stats.start_new_question();
        stats.answer_question(false);
    }

    assert_eq!(stats.get_number_of_answered_questions(), 6);

    assert_eq!(stats.get_number_of_correct_answers(), "3/6");
    assert_eq!(
        stats.get_number_of_remaining_questions(),
        0,
        "Should always return 0 for infinite mode"
    );
    assert_eq!(
        stats.get_total_accuracy(),
        "0.00%",
        "Should always return 0.00% for infinite mode"
    );
    assert_eq!(stats.get_current_accuracy(), "50.00%");

    let summary = stats.get_summary();
    assert!(summary.contains("Questions total: 6"));
}

#[test]
fn repeating_wrong_answer_limited_questions() {
    let stats = Lock::new();
    stats.start(NumberOfQuestions::Limited(10));

    // 3 correct answers
    for _ in 0..3 {
        stats.start_new_question();
        stats.answer_question(true);
    }

    assert_eq!(stats.get_number_of_answered_questions(), 3);

    // Answering incorrectly first (Repeat mode)
    stats.start_new_question();
    stats.answer_question(false);
    assert_eq!(stats.get_number_of_answered_questions(), 4);
    stats.answer_question(false);
    assert_eq!(stats.get_number_of_answered_questions(), 4);
    stats.answer_question(false);
    assert_eq!(stats.get_number_of_answered_questions(), 4);
    stats.answer_question(true);
    assert_eq!(stats.get_number_of_answered_questions(), 4);

    assert_eq!(
        stats.get_number_of_correct_answers(),
        "3/4",
        "Answering incorrectly for the first time == incorrect answer"
    );
    assert_eq!(stats.get_number_of_remaining_questions(), 6);
    assert_eq!(stats.get_total_accuracy(), "30.00%");
    assert_eq!(stats.get_current_accuracy(), "75.00%");

    let summary = stats.get_summary();
    assert!(summary.contains("Questions total: 10"));
    assert!(summary.contains("answers: 4"));
    assert!(summary.contains("skipped: 6"));
}

#[test]
fn repeating_wrong_answer_unlimited_questions() {
    let stats = Lock::new();
    stats.start(NumberOfQuestions::Infinite);

    // 3 correct answers
    for _ in 0..3 {
        stats.start_new_question();
        stats.answer_question(true);
    }

    assert_eq!(stats.get_number_of_answered_questions(), 3);

    // Answering incorrectly first (Repeat mode)
    stats.start_new_question();
    stats.answer_question(false);
    assert_eq!(stats.get_number_of_answered_questions(), 4);
    stats.answer_question(false);
    assert_eq!(stats.get_number_of_answered_questions(), 4);
    stats.answer_question(false);
    assert_eq!(stats.get_number_of_answered_questions(), 4);
    stats.answer_question(true);
    assert_eq!(stats.get_number_of_answered_questions(), 4);

    assert_eq!(
        stats.get_number_of_correct_answers(),
        "3/4",
        "Answering incorrectly for the first time == incorrect answer"
    );
    assert_eq!(stats.get_current_accuracy(), "75.00%");

    let summary = stats.get_summary();
    assert!(summary.contains("Questions total: 4"));
}

#[test]
fn duration_formatting() {
    assert_eq!(Stats::format_duration(0), "0.0s");
    assert_eq!(Stats::format_duration(200), "0.2s");
    assert_eq!(Stats::format_duration(1_500), "1.5s");
    assert_eq!(Stats::format_duration(61_000), "1m 1.0s");
    assert_eq!(Stats::format_duration(3_661_250), "1h 1m 1.25s");
}

#[test]
fn trailing_zeros_are_truncated() {
    assert_eq!(Stats::truncate_trailing_zeros(0), "0");
    assert_eq!(Stats::truncate_trailing_zeros(500), "5");
    assert_eq!(Stats::truncate_trailing_zeros(250), "25");
    assert_eq!(Stats::truncate_trailing_zeros(205), "205");
}
