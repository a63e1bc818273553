//! Tests of questions, answer matching and the question generator.

use std::sync::RwLock;

use practicestuff::config::NumberOfQuestions;
use practicestuff::question::{Question, QuestionGenerator};
use practicestuff::skill::Base;

#[test]
fn question_builder() {
    let question = Question::builder()
        .question("Question")
        .answer("Answer")
        .alternative_answers(&["Alt1".to_string(), "Alt2".to_string()])
        .allow_any_case(true)
        .build();

    assert_eq!(question.question, "Question");
    assert_eq!(question.answer, "Answer");
    assert_eq!(
        question.alternative_answers,
        vec!["Alt1".to_string(), "Alt2".to_string()]
    );
    assert!(question.allow_any_case);
}

#[test]
fn returns_question_and_answer() {
    let question = Question::builder()
        .question("Question")
        .answer("Answer")
        .build();

    assert_eq!(question.question(), "Question");
    assert_eq!(question.correct_answer(), "Answer");
}

#[test]
fn answer_verification() {
    let question = Question::builder()
        .question("Question")
        .answer("Answer")
        .build();

    assert!(question.is_answer_correct("Answer"));
    assert!(!question.is_answer_correct("Wrong"));

    let question = Question::builder()
        .question("Question")
        .answer("Answer")
        .alternative_answers(&["Alt1".to_string(), "Alt2".to_string()])
        .build();

    assert!(question.is_answer_correct("Answer"));
    assert!(question.is_answer_correct("Alt1"));
    assert!(question.is_answer_correct("Alt2"));
    assert!(!question.is_answer_correct("Alt3"));
    assert!(!question.is_answer_correct("alt1"));
    assert!(!question.is_answer_correct("answer"));

    let question = Question::builder()
        .question("Question")
        .answer("Answer")
        .alternative_answers(&["Alt1".to_string(), "Alt2".to_string()])
        .allow_any_case(true)
        .build();

    assert!(question.is_answer_correct("Answer"));
    assert!(question.is_answer_correct("Alt1"));
    assert!(question.is_answer_correct("Alt2"));
    assert!(!question.is_answer_correct("Alt3"));
    assert!(question.is_answer_correct("alt1"));
    assert!(question.is_answer_correct("answer"));
}

#[derive(Debug)]
struct SkillMock {
    generate_questions_calls: RwLock<u32>,
}

impl Base for SkillMock {
    fn wants_to_print_help(&self) -> bool {
        false
    }

    fn get_help_text(&self) -> String {
        String::new()
    }

    fn generate_questions(&self, count: u32) -> Vec<Question> {
        *self
            .generate_questions_calls
            .write()
            .expect("Test: poisoned lock (write)") += 1;
        let mut questions = Vec::new();
        for _ in 0..count {
            questions.push(
                Question::builder()
                    .question("Question")
                    .answer("Answer")
                    .build(),
            );
        }
        questions
    }
}

impl SkillMock {
    pub fn new() -> Self {
        Self {
            generate_questions_calls: RwLock::new(0),
        }
    }

    pub fn generate_questions_calls(&self) -> u32 {
        *self
            .generate_questions_calls
            .read()
            .expect("Test: poisoned lock (read)")
    }
}

#[test]
fn generator_pregeneration() {
    let number_of_questions = 5;
    let skill_mock = SkillMock::new();
    let mut generator =
        QuestionGenerator::new(NumberOfQuestions::Limited(number_of_questions), &skill_mock);
    for _ in 0..number_of_questions {
        assert!(generator.has_next_question());
        let result = generator.next_question();
        assert!(result.is_ok());
    }
    assert_eq!(skill_mock.generate_questions_calls(), 1);

    assert!(!generator.has_next_question());
    let result = generator.next_question();
    assert!(result.is_err());
}

#[test]
fn generator_infinite_mode() {
    let number_of_questions = 10;
    let skill_mock = SkillMock::new();
    let mut generator = QuestionGenerator::new(NumberOfQuestions::Infinite, &skill_mock);
    for i in 0..number_of_questions {
        assert!(generator.has_next_question());
        let result = generator.next_question();
        assert!(result.is_ok());
        assert_eq!(skill_mock.generate_questions_calls(), i + 1);
    }
    assert!(generator.has_next_question());
}
