//! Questions and answers: an immutable question record with accepted
//! alternative answers and optional case folding, a builder enforcing its
//! invariant, and a generator that pre-generates a limited run of
//! questions or produces them one by one in infinite mode.

use crate::config::NumberOfQuestions;
use crate::skill::Base;
use crate::text;
use vstd::prelude::*;
use vstd::string::StrSliceExecFns;
use vstd::string::StringExecFns;

verus! {

/// Model of a [`Question`].
pub struct QuestionModel {
    pub question: Seq<char>,
    pub answer: Seq<char>,
    pub alternative_answers: Seq<Seq<char>>,
    pub allow_any_case: bool,
}

/// One question: the prompt, the canonical answer, accepted alternative
/// answers, and whether answers are matched ignoring ASCII case.
#[derive(Debug)]
pub struct Question {
    pub question: String,
    pub answer: String,
    pub alternative_answers: Vec<String>,
    pub allow_any_case: bool,
}

impl View for Question {
    type V = QuestionModel;

    open spec fn view(&self) -> QuestionModel {
        QuestionModel {
            question: self.question@,
            answer: self.answer@,
            alternative_answers: crate::args::models_of(self.alternative_answers@),
            allow_any_case: self.allow_any_case,
        }
    }
}

/// When an answer counts as correct: equal to the canonical answer or to
/// one of the alternatives, after ASCII case folding if the question
/// allows any case.
pub open spec fn spec_answer_accepted(q: QuestionModel, answer: Seq<char>) -> bool {
    if q.allow_any_case {
        ||| text::lower_seq(answer) == text::lower_seq(q.answer)
        ||| exists|i: int|
            0 <= i < q.alternative_answers.len() && text::lower_seq(answer) == text::lower_seq(
                q.alternative_answers[i],
            )
    } else {
        ||| answer == q.answer
        ||| exists|i: int|
            0 <= i < q.alternative_answers.len() && answer == q.alternative_answers[i]
    }
}

impl Question {
    pub fn builder() -> (r: QuestionBuilder)
        ensures
            r.question@ == Seq::<char>::empty(),
            r.answer@ == Seq::<char>::empty(),
            r.alternative_answers@ == Seq::<String>::empty(),
            r.allow_any_case == false,
    {
        QuestionBuilder {
            question: String::new(),
            answer: String::new(),
            alternative_answers: Vec::new(),
            allow_any_case: false,
        }
    }

    pub fn question(&self) -> (r: &String)
        ensures
            r@ == self@.question,
    {
        &self.question
    }

    pub fn correct_answer(&self) -> (r: &String)
        ensures
            r@ == self@.answer,
    {
        &self.answer
    }

    /// Decides whether `answer` is accepted for this question.
    pub fn is_answer_correct(&self, answer: &str) -> (r: bool)
        ensures
            r == spec_answer_accepted(self@, answer@),
    {
        if self.allow_any_case {
            let low = text::str_to_lowercase(answer);
            let ans_low = text::str_to_lowercase(self.answer.as_str());
            if low == ans_low {
                return true;
            }
            let mut i: usize = 0;
            while i < self.alternative_answers.len()
                invariant
                    i <= self.alternative_answers.len(),
                    self@.allow_any_case,
                    low@ == text::lower_seq(answer@),
                    low@ != text::lower_seq(self@.answer),
                    forall|j: int|
                        0 <= j < i ==> low@ != text::lower_seq(self@.alternative_answers[j]),
                decreases self.alternative_answers.len() - i,
            {
                let alt_low = text::str_to_lowercase(self.alternative_answers[i].as_str());
                if low == alt_low {
                    proof {
                        assert(text::lower_seq(answer@) == text::lower_seq(
                            self@.alternative_answers[i as int],
                        ));
                    }
                    return true;
                }
                i += 1;
            }
            false
        } else {
            if text::str_eq(answer, self.answer.as_str()) {
                return true;
            }
            let mut i: usize = 0;
            while i < self.alternative_answers.len()
                invariant
                    i <= self.alternative_answers.len(),
                    !self@.allow_any_case,
                    answer@ != self@.answer,
                    forall|j: int| 0 <= j < i ==> answer@ != self@.alternative_answers[j],
                decreases self.alternative_answers.len() - i,
            {
                if text::str_eq(answer, self.alternative_answers[i].as_str()) {
                    proof {
                        assert(answer@ == self@.alternative_answers[i as int]);
                    }
                    return true;
                }
                i += 1;
            }
            false
        }
    }
}

impl Clone for Question {
    fn clone(&self) -> (r: Self)
        ensures
            r@ == self@,
    {
        let mut alternative_answers: Vec<String> = Vec::new();
        let mut i: usize = 0;
        while i < self.alternative_answers.len()
            invariant
                i <= self.alternative_answers.len(),
                alternative_answers@.len() == i,
                forall|j: int|
                    0 <= j < i ==> alternative_answers@[j]@ == self.alternative_answers@[j]@,
            decreases self.alternative_answers.len() - i,
        {
            alternative_answers.push(self.alternative_answers[i].clone());
            i += 1;
        }
        proof {
            assert(crate::args::models_of(alternative_answers@) =~= crate::args::models_of(
                self.alternative_answers@,
            ));
        }
        Question {
            question: self.question.clone(),
            answer: self.answer.clone(),
            alternative_answers,
            allow_any_case: self.allow_any_case,
        }
    }
}

/// Step-by-step construction of a [`Question`].
#[derive(Debug)]
pub struct QuestionBuilder {
    pub question: String,
    pub answer: String,
    pub alternative_answers: Vec<String>,
    pub allow_any_case: bool,
}

impl QuestionBuilder {
    pub fn question(self, question: &str) -> (r: Self)
        ensures
            r == (Self { question: r.question, ..self }),
            r.question@ == question@,
    {
        Self { question: String::from_str(question), ..self }
    }

    pub fn answer(self, answer: &str) -> (r: Self)
        ensures
            r == (Self { answer: r.answer, ..self }),
            r.answer@ == answer@,
    {
        Self { answer: String::from_str(answer), ..self }
    }

    pub fn alternative_answers(self, alternative_answers: &[String]) -> (r: Self)
        ensures
            r == (Self { alternative_answers: r.alternative_answers, ..self }),
            crate::args::models_of(r.alternative_answers@) == crate::args::models_of(
                alternative_answers@,
            ),
    {
        let mut copy: Vec<String> = Vec::new();
        let mut i: usize = 0;
        while i < alternative_answers.len()
            invariant
                i <= alternative_answers.len(),
                copy@.len() == i,
                forall|j: int| 0 <= j < i ==> copy@[j]@ == alternative_answers@[j]@,
            decreases alternative_answers.len() - i,
        {
            copy.push(alternative_answers[i].clone());
            i += 1;
        }
        proof {
            assert(crate::args::models_of(copy@) =~= crate::args::models_of(
                alternative_answers@,
            ));
        }
        Self { alternative_answers: copy, ..self }
    }

    pub fn allow_any_case(self, allow_any_case: bool) -> (r: Self)
        ensures
            r == (Self { allow_any_case, ..self }),
    {
        Self { allow_any_case, ..self }
    }

    /// Produces the question. An empty question or answer is a caller bug
    /// and is excluded by precondition.
    pub fn build(self) -> (r: Question)
        requires
            self.question@.len() > 0,
            self.answer@.len() > 0,
        ensures
            r@ == (QuestionModel {
                question: self.question@,
                answer: self.answer@,
                alternative_answers: crate::args::models_of(self.alternative_answers@),
                allow_any_case: self.allow_any_case,
            }),
    {
        Question {
            question: self.question,
            answer: self.answer,
            alternative_answers: self.alternative_answers,
            allow_any_case: self.allow_any_case,
        }
    }
}

/// Serves questions one at a time: pre-generates the whole run in limited
/// mode, generates on demand in infinite mode.
pub struct QuestionGenerator<'a, S: Base> {
    pub number_of_questions: NumberOfQuestions,
    pub current_question: u32,
    pub skill: &'a S,
    pub cache: Option<Vec<Question>>,
}

/// The generator's invariant: in limited mode the cache, once filled,
/// holds exactly the declared number of questions, and the cursor never
/// passes the end.
pub open spec fn generator_wf<S: Base>(g: QuestionGenerator<S>) -> bool {
    match g.number_of_questions {
        NumberOfQuestions::Infinite => true,
        NumberOfQuestions::Limited(num) => (g.cache matches Some(c) ==> c@.len() == num)
            && g.current_question <= num,
    }
}

impl<'a, S: Base> QuestionGenerator<'a, S> {
    pub fn new(number_of_questions: NumberOfQuestions, skill: &'a S) -> (r: Self)
        ensures
            r.number_of_questions == number_of_questions,
            r.current_question == 0,
            r.cache is None,
            generator_wf(r),
    {
        QuestionGenerator { number_of_questions, current_question: 0, skill, cache: None }
    }

    /// Returns the next question: always one in infinite mode; in limited
    /// mode exactly as long as questions remain, then an error.
    pub fn next_question(&mut self) -> (r: Result<Question, String>)
        requires
            generator_wf(*old(self)),
        ensures
            generator_wf(*final(self)),
            final(self).number_of_questions == old(self).number_of_questions,
            match old(self).number_of_questions {
                NumberOfQuestions::Infinite => r is Ok && final(self).current_question
                    == old(self).current_question,
                NumberOfQuestions::Limited(num) => {
                    if old(self).current_question < num {
                        r is Ok && final(self).current_question == old(self).current_question + 1
                    } else {
                        (r matches Err(e) && e@ == "No questions left"@)
                            && final(self).current_question == old(self).current_question
                    }
                },
            },
    {
        match self.number_of_questions {
            NumberOfQuestions::Infinite => {
                let questions = self.skill.generate_questions(1);
                Ok(questions[0].clone())
            },
            NumberOfQuestions::Limited(num) => {
                if self.current_question >= num {
                    return Err(String::from_str("No questions left"));
                }
                self.current_question = self.current_question + 1;
                if self.cache.is_none() {
                    let questions = self.skill.generate_questions(num);
                    self.cache = Some(questions);
                }
                match &self.cache {
                    Some(questions) => {
                        let idx = (self.current_question - 1) as usize;
                        Ok(questions[idx].clone())
                    },
                    None => vstd::pervasive::unreached(),
                }
            },
        }
    }

    /// Whether another question will be served.
    pub fn has_next_question(&self) -> (r: bool)
        ensures
            r == (match self.number_of_questions {
                NumberOfQuestions::Infinite => true,
                NumberOfQuestions::Limited(num) => self.current_question < num,
            }),
    {
        match self.number_of_questions {
            NumberOfQuestions::Infinite => true,
            NumberOfQuestions::Limited(num) => self.current_question < num,
        }
    }
}

} // verus!
