//! Session statistics: answered and correct counts, per-question times,
//! accuracy and duration formatting, behind a reader/writer lock so the
//! game loop and an interrupt handler can share them.

use crate::config::NumberOfQuestions;
use crate::text;
use vstd::prelude::*;
use vstd::rwlock::RwLock;
use vstd::string::StringExecFns;

verus! {

/// Relies on std's `SystemTime::now` and `duration_since`: the current
/// wall-clock time in milliseconds since the Unix epoch, or zero when the
/// clock reads earlier than the epoch. Nothing is promised of the value.
#[verifier::external_body]
fn now_millis() -> u64 {
    match std::time::SystemTime::now().duration_since(std::time::UNIX_EPOCH) {
        Ok(d) => d.as_millis() as u64,
        Err(_) => 0,
    }
}

/// The raw statistics record.
pub struct Stats {
    pub number_of_questions: NumberOfQuestions,
    pub number_of_answered_questions: u32,
    pub number_of_correct_answers: u32,
    pub start_time: u64,
    pub current_question_start_time: u64,
    pub current_question_answered: bool,
    pub time_per_question: Vec<u64>,
}

/// The record's invariant: one recorded time per answered question, never
/// more correct answers than answered ones.
pub open spec fn stats_wf(s: Stats) -> bool {
    &&& s.number_of_correct_answers <= s.number_of_answered_questions
    &&& s.time_per_question@.len() == s.number_of_answered_questions
    &&& s.current_question_answered ==> s.number_of_answered_questions > 0
}

// ---------------------------------------------------------------------
// Rendered texts
// ---------------------------------------------------------------------
/// `dec` with trailing zeros removed, at least one digit kept.
pub open spec fn strip_zeros(s: Seq<char>) -> Seq<char>
    decreases s.len(),
{
    if s.len() > 1 && s.last() == '0' {
        strip_zeros(s.drop_last())
    } else {
        s
    }
}

/// The displayed duration: hours and minutes when non-zero, then seconds
/// with the millisecond digits stripped of trailing zeros.
pub open spec fn spec_duration_text(ms: u64) -> Seq<char> {
    let secs = ms / 1000;
    let hours = secs / 60 / 60;
    let minutes = (secs / 60) % 60;
    let seconds = secs % 60;
    let millis = ms % 1000;
    (if hours > 0 {
        text::dec_nat(hours as nat) + "h "@
    } else {
        Seq::empty()
    }) + (if minutes > 0 {
        text::dec_nat(minutes as nat) + "m "@
    } else {
        Seq::empty()
    }) + text::dec_nat(seconds as nat) + "."@ + strip_zeros(text::dec_nat(millis as nat)) + "s"@
}

/// Accuracy in basis points (hundredths of a percent), rounded half up;
/// zero when the divisor is zero.
pub open spec fn spec_accuracy_points(correct: u32, divisor: u32) -> int {
    if divisor == 0 {
        0
    } else {
        (correct * 20000 + divisor) / (2 * divisor)
    }
}

/// A number padded to two digits.
pub open spec fn two_digit_text(f: int) -> Seq<char> {
    if f < 10 {
        "0"@ + text::dec_nat(f as nat)
    } else {
        text::dec_nat(f as nat)
    }
}

/// The displayed accuracy: the basis points as a percentage with two
/// decimal places.
pub open spec fn spec_accuracy_text(correct: u32, divisor: u32) -> Seq<char> {
    let v = spec_accuracy_points(correct, divisor);
    text::dec_nat((v / 100) as nat) + "."@ + two_digit_text(v % 100) + "%"@
}

/// The questions that remain: zero in infinite mode, never negative.
pub open spec fn spec_remaining(s: Stats) -> u32 {
    match s.number_of_questions {
        NumberOfQuestions::Infinite => 0,
        NumberOfQuestions::Limited(total) => if s.number_of_answered_questions <= total {
            (total - s.number_of_answered_questions) as u32
        } else {
            0
        },
    }
}

/// The session summary line.
pub open spec fn spec_summary(s: Stats) -> Seq<char> {
    match s.number_of_questions {
        NumberOfQuestions::Infinite => "Questions total: "@ + text::dec_nat(
            s.number_of_answered_questions as nat,
        ),
        NumberOfQuestions::Limited(total) => "Questions total: "@ + text::dec_nat(total as nat)
            + ", answers: "@ + text::dec_nat(s.number_of_answered_questions as nat)
            + ", skipped: "@ + text::dec_nat(spec_remaining(s) as nat),
    }
}

/// The minimum of the recorded times, zero when none.
pub open spec fn seq_min(s: Seq<u64>) -> u64
    decreases s.len(),
{
    if s.len() == 0 {
        0
    } else if s.len() == 1 {
        s[0]
    } else {
        let rest = seq_min(s.drop_last());
        if s.last() < rest {
            s.last()
        } else {
            rest
        }
    }
}

/// The maximum of the recorded times, zero when none.
pub open spec fn seq_max(s: Seq<u64>) -> u64
    decreases s.len(),
{
    if s.len() == 0 {
        0
    } else {
        let rest = seq_max(s.drop_last());
        if s.last() > rest {
            s.last()
        } else {
            rest
        }
    }
}

/// The sum of the recorded times.
pub open spec fn seq_sum(s: Seq<u64>) -> int
    decreases s.len(),
{
    if s.len() == 0 {
        0
    } else {
        seq_sum(s.drop_last()) + s.last()
    }
}

impl Stats {
    /// Begins a session: fixes the number of questions and restarts the
    /// total-time clock. Counters are not reset.
    pub fn start(&mut self, number_of_questions: NumberOfQuestions)
        requires
            stats_wf(*old(self)),
        ensures
            stats_wf(*final(self)),
            final(self).number_of_questions == number_of_questions,
            final(self).number_of_answered_questions == old(self).number_of_answered_questions,
            final(self).number_of_correct_answers == old(self).number_of_correct_answers,
            final(self).time_per_question == old(self).time_per_question,
            final(self).current_question_answered == old(self).current_question_answered,
    {
        self.number_of_questions = number_of_questions;
        self.start_time = now_millis();
    }

    /// Begins a question: restarts the per-question clock and clears the
    /// answered flag.
    pub fn start_new_question(&mut self)
        requires
            stats_wf(*old(self)),
        ensures
            stats_wf(*final(self)),
            final(self).number_of_questions == old(self).number_of_questions,
            final(self).number_of_answered_questions == old(self).number_of_answered_questions,
            final(self).number_of_correct_answers == old(self).number_of_correct_answers,
            final(self).time_per_question == old(self).time_per_question,
            final(self).current_question_answered == false,
    {
        self.current_question_start_time = now_millis();
        self.current_question_answered = false;
    }

    /// Records an answer. The first answer to a question counts it as
    /// answered (and correct, if so); repeated answers to the same
    /// question only refresh its recorded time, so answering incorrectly
    /// first and correctly later never counts as correct. The answered
    /// counter saturates at `u32::MAX`.
    pub fn answer_question(&mut self, correct: bool)
        requires
            stats_wf(*old(self)),
        ensures
            stats_wf(*final(self)),
            final(self).number_of_questions == old(self).number_of_questions,
            if old(self).current_question_answered {
                &&& final(self).number_of_answered_questions
                    == old(self).number_of_answered_questions
                &&& final(self).number_of_correct_answers
                    == old(self).number_of_correct_answers
                &&& final(self).current_question_answered
                &&& final(self).time_per_question@.len() == old(self).time_per_question@.len()
            } else if old(self).number_of_answered_questions < u32::MAX {
                &&& final(self).number_of_answered_questions
                    == old(self).number_of_answered_questions + 1
                &&& final(self).number_of_correct_answers
                    == old(self).number_of_correct_answers + (if correct {
                    1int
                } else {
                    0int
                })
                &&& final(self).current_question_answered
            } else {
                *final(self) == *old(self)
            },
    {
        let now = now_millis();
        let elapsed: u64 = if now >= self.current_question_start_time {
            now - self.current_question_start_time
        } else {
            0
        };
        if self.current_question_answered {
            // a repeated attempt: refresh the recorded time only
            let _last = self.time_per_question.pop();
            self.time_per_question.push(elapsed);
        } else {
            if self.number_of_answered_questions < u32::MAX {
                self.time_per_question.push(elapsed);
                self.number_of_answered_questions = self.number_of_answered_questions + 1;
                if correct {
                    self.number_of_correct_answers = self.number_of_correct_answers + 1;
                }
                self.current_question_answered = true;
            }
        }
    }

    pub fn get_summary(&self) -> (r: String)
        requires
            stats_wf(*self),
        ensures
            r@ == spec_summary(*self),
    {
        match self.number_of_questions {
            NumberOfQuestions::Infinite => {
                let mut s = String::from_str("Questions total: ");
                let n = text::u32_to_string(self.number_of_answered_questions);
                s.append(n.as_str());
                s
            },
            NumberOfQuestions::Limited(total) => {
                let mut s = String::from_str("Questions total: ");
                let t = text::u32_to_string(total);
                s.append(t.as_str());
                s.append(", answers: ");
                let a = text::u32_to_string(self.number_of_answered_questions);
                s.append(a.as_str());
                s.append(", skipped: ");
                let k = text::u32_to_string(self.get_number_of_remaining_questions());
                s.append(k.as_str());
                s
            },
        }
    }

    /// The `correct/answered` counter text.
    pub fn get_number_of_correct_answers(&self) -> (r: String)
        ensures
            r@ == text::dec_nat(self.number_of_correct_answers as nat) + "/"@ + text::dec_nat(
                self.number_of_answered_questions as nat,
            ),
    {
        let mut s = text::u32_to_string(self.number_of_correct_answers);
        s.append("/");
        let a = text::u32_to_string(self.number_of_answered_questions);
        s.append(a.as_str());
        s
    }

    /// How many questions have been answered (and so timed) so far.
    pub fn get_number_of_answered_questions(&self) -> (r: u32)
        ensures
            r == self.number_of_answered_questions,
    {
        self.number_of_answered_questions
    }

    pub fn get_number_of_remaining_questions(&self) -> (r: u32)
        ensures
            r == spec_remaining(*self),
    {
        match self.number_of_questions {
            NumberOfQuestions::Infinite => 0,
            NumberOfQuestions::Limited(total) => {
                if self.number_of_answered_questions <= total {
                    total - self.number_of_answered_questions
                } else {
                    0
                }
            },
        }
    }

    /// Accuracy against the total number of questions; always `0.00%` in
    /// infinite mode.
    pub fn get_total_accuracy(&self) -> (r: String)
        ensures
            r@ == spec_accuracy_text(
                self.number_of_correct_answers,
                match self.number_of_questions {
                    NumberOfQuestions::Infinite => 0u32,
                    NumberOfQuestions::Limited(num) => num,
                },
            ),
    {
        let divisor = match self.number_of_questions {
            NumberOfQuestions::Infinite => 0,
            NumberOfQuestions::Limited(num) => num,
        };
        self.get_accuracy(divisor)
    }

    /// Accuracy against the questions answered so far.
    pub fn get_current_accuracy(&self) -> (r: String)
        ensures
            r@ == spec_accuracy_text(
                self.number_of_correct_answers,
                self.number_of_answered_questions,
            ),
    {
        self.get_accuracy(self.number_of_answered_questions)
    }

    fn get_accuracy(&self, divisor: u32) -> (r: String)
        ensures
            r@ == spec_accuracy_text(self.number_of_correct_answers, divisor),
    {
        let points: u64 = if divisor == 0 {
            0
        } else {
            (self.number_of_correct_answers as u64 * 20000 + divisor as u64) / (2 * divisor as u64)
        };
        proof {
            assert(points == spec_accuracy_points(self.number_of_correct_answers, divisor));
        }
        let mut s = text::u64_to_string(points / 100);
        s.append(".");
        let frac = points % 100;
        if frac < 10 {
            s.append("0");
        }
        let f = text::u64_to_string(frac);
        s.append(f.as_str());
        s.append("%");
        proof {
            assert(s@ =~= spec_accuracy_text(self.number_of_correct_answers, divisor));
        }
        s
    }

    /// The elapsed session time. The value depends on the clock; whatever
    /// it reads, the text is a well-formed duration.
    pub fn get_total_time(&self) -> (r: String)
        ensures
            exists|ms: u64| r@ == spec_duration_text(ms),
    {
        let now = now_millis();
        let total = if now >= self.start_time {
            now - self.start_time
        } else {
            0
        };
        let r = Self::format_duration(total);
        proof {
            assert(r@ == spec_duration_text(total));
        }
        r
    }

    pub fn get_last_question_time(&self) -> (r: String)
        requires
            self.time_per_question@.len() > 0,
        ensures
            r@ == spec_duration_text(self.time_per_question@.last()),
    {
        let idx = self.time_per_question.len() - 1;
        let time = self.time_per_question[idx];
        Self::format_duration(time)
    }

    pub fn get_min_question_time(&self) -> (r: String)
        ensures
            r@ == spec_duration_text(seq_min(self.time_per_question@)),
    {
        let mut min_time: u64 = 0;
        let n = self.time_per_question.len();
        let mut i: usize = 0;
        while i < n
            invariant
                i <= n,
                n == self.time_per_question@.len(),
                min_time == seq_min(self.time_per_question@.take(i as int)),
            decreases n - i,
        {
            let t = self.time_per_question[i];
            proof {
                assert(self.time_per_question@.take(i + 1).drop_last() =~= self
                    .time_per_question@.take(i as int));
                assert(self.time_per_question@.take(i + 1).last() == self.time_per_question@[i as int]);
            }
            if i == 0 || t < min_time {
                min_time = t;
            }
            i += 1;
        }
        proof {
            assert(self.time_per_question@.take(n as int) =~= self.time_per_question@);
        }
        Self::format_duration(min_time)
    }

    pub fn get_max_question_time(&self) -> (r: String)
        ensures
            r@ == spec_duration_text(seq_max(self.time_per_question@)),
    {
        let mut max_time: u64 = 0;
        let n = self.time_per_question.len();
        let mut i: usize = 0;
        while i < n
            invariant
                i <= n,
                n == self.time_per_question@.len(),
                max_time == seq_max(self.time_per_question@.take(i as int)),
            decreases n - i,
        {
            let t = self.time_per_question[i];
            proof {
                assert(self.time_per_question@.take(i + 1).drop_last() =~= self
                    .time_per_question@.take(i as int));
                assert(self.time_per_question@.take(i + 1).last() == self.time_per_question@[i as int]);
            }
            if t > max_time {
                max_time = t;
            }
            i += 1;
        }
        proof {
            assert(self.time_per_question@.take(n as int) =~= self.time_per_question@);
        }
        Self::format_duration(max_time)
    }

    pub fn get_avg_question_time(&self) -> (r: String)
        ensures
            r@ == spec_duration_text(
                ({
                    let times = self.time_per_question@;
                    if times.len() == 0 {
                        0u64
                    } else {
                        (seq_sum(times) / times.len() as int) as u64
                    }
                }),
            ),
    {
        let n = self.time_per_question.len();
        if n == 0 {
            return Self::format_duration(0);
        }
        let mut total: u128 = 0;
        let mut i: usize = 0;
        while i < n
            invariant
                i <= n,
                n == self.time_per_question@.len(),
                total == seq_sum(self.time_per_question@.take(i as int)),
                total <= i * (u64::MAX as int),
            decreases n - i,
        {
            let t = self.time_per_question[i];
            proof {
                assert(self.time_per_question@.take(i + 1).drop_last() =~= self
                    .time_per_question@.take(i as int));
                assert(self.time_per_question@.take(i + 1).last() == self.time_per_question@[i as int]);
                assert((i + 1) * (u64::MAX as int) == i * (u64::MAX as int) + (u64::MAX as int))
                    by (nonlinear_arith);
            }
            total = total + t as u128;
            i += 1;
        }
        proof {
            assert(self.time_per_question@.take(n as int) =~= self.time_per_question@);
        }
        let avg: u128 = total / (n as u128);
        proof {
            assert(avg <= u64::MAX) by (nonlinear_arith)
                requires
                    total <= n * (u64::MAX as int),
                    n > 0,
                    avg == total / (n as u128),
            ;
        }
        Self::format_duration(avg as u64)
    }

    /// Renders a millisecond duration in the session's `h m s` shape.
    pub fn format_duration(duration_ms: u64) -> (r: String)
        ensures
            r@ == spec_duration_text(duration_ms),
    {
        let secs = duration_ms / 1000;
        let hours = secs / 60 / 60;
        let minutes = (secs / 60) % 60;
        let seconds = secs % 60;
        let millis_text = Self::truncate_trailing_zeros((duration_ms % 1000) as u32);
        let mut time = String::new();
        if hours > 0 {
            let h = text::u64_to_string(hours);
            time.append(h.as_str());
            time.append("h ");
        }
        if minutes > 0 {
            let m = text::u64_to_string(minutes);
            time.append(m.as_str());
            time.append("m ");
        }
        let s = text::u64_to_string(seconds);
        time.append(s.as_str());
        time.append(".");
        time.append(millis_text.as_str());
        time.append("s");
        proof {
            assert(time@ =~= spec_duration_text(duration_ms));
        }
        time
    }

    /// The decimal text of `number` with trailing zeros removed; a single
    /// zero stays.
    pub fn truncate_trailing_zeros(number: u32) -> (r: String)
        ensures
            r@ == strip_zeros(text::dec_nat(number as nat)),
    {
        let mut m = number;
        while m % 10 == 0 && m >= 10
            invariant
                strip_zeros(text::dec_nat(number as nat)) == strip_zeros(text::dec_nat(m as nat)),
            decreases m,
        {
            proof {
                lemma_dec_last_digit(m);
            }
            m = m / 10;
        }
        proof {
            lemma_dec_last_digit(m);
            assert(strip_zeros(text::dec_nat(m as nat)) == text::dec_nat(m as nat));
        }
        text::u32_to_string(m)
    }
}

/// The last digit of the decimal text is the value mod 10, and the text
/// is longer than one digit exactly for numbers of ten and above.
proof fn lemma_dec_last_digit(m: u32)
    ensures
        text::dec_nat(m as nat).last() == text::digit_char((m % 10) as int),
        (text::dec_nat(m as nat).len() > 1) == (m >= 10),
        (text::digit_char((m % 10) as int) == '0') == (m % 10 == 0),
        m >= 10 ==> text::dec_nat(m as nat).drop_last() == text::dec_nat((m / 10) as nat),
{
    let s = text::dec_nat(m as nat);
    if m < 10 {
        assert(s == seq![text::digit_char(m as int)]);
        assert(s.last() == text::digit_char(m as int));
    } else {
        assert(s == text::dec_nat((m as nat) / 10).push(text::digit_char(((m as nat) % 10) as int)));
        assert(s.drop_last() =~= text::dec_nat((m as nat) / 10));
    }
    if text::digit_char((m % 10) as int) == '0' {
        assert(m % 10 == 0) by {
            let d = (m % 10) as int;
            assert(((d + 48) as u8) as char == '0');
            if d != 0 {
                assert(((d + 48) as u8) as char != '0');
            }
        }
    }
}

/// The shared statistics object: a reader/writer lock around [`Stats`]
/// whose lock invariant is the record's well-formedness.
pub struct Lock {
    stats: RwLock<Stats, spec_fn(Stats) -> bool>,
}

impl Lock {
    /// The lock invariant: the guarded record is well formed.
    pub closed spec fn wf(&self) -> bool {
        forall|s: Stats| #[trigger] self.stats.inv(s) == stats_wf(s)
    }

    pub fn new() -> (r: Self)
        ensures
            r.wf(),
    {
        let stats = Stats {
            number_of_questions: NumberOfQuestions::Infinite,
            number_of_answered_questions: 0,
            number_of_correct_answers: 0,
            start_time: now_millis(),
            current_question_start_time: now_millis(),
            current_question_answered: false,
            time_per_question: Vec::new(),
        };
        Self { stats: RwLock::new(stats, Ghost(|s: Stats| stats_wf(s))) }
    }

    pub fn start(&self, number_of_questions: NumberOfQuestions)
        requires
            self.wf(),
    {
        let (mut stats, handle) = self.stats.acquire_write();
        stats.start(number_of_questions);
        handle.release_write(stats);
    }

    pub fn start_new_question(&self)
        requires
            self.wf(),
    {
        let (mut stats, handle) = self.stats.acquire_write();
        stats.start_new_question();
        handle.release_write(stats);
    }

    pub fn answer_question(&self, correct: bool)
        requires
            self.wf(),
    {
        let (mut stats, handle) = self.stats.acquire_write();
        stats.answer_question(correct);
        handle.release_write(stats);
    }

    pub fn get_summary(&self) -> String
        requires
            self.wf(),
    {
        let handle = self.stats.acquire_read();
        let r = handle.borrow().get_summary();
        handle.release_read();
        r
    }

    pub fn get_number_of_correct_answers(&self) -> String
        requires
            self.wf(),
    {
        let handle = self.stats.acquire_read();
        let r = handle.borrow().get_number_of_correct_answers();
        handle.release_read();
        r
    }

    pub fn get_number_of_remaining_questions(&self) -> u32
        requires
            self.wf(),
    {
        let handle = self.stats.acquire_read();
        let r = handle.borrow().get_number_of_remaining_questions();
        handle.release_read();
        r
    }

    /// How many questions have been answered (and so timed) so far.
    pub fn get_number_of_answered_questions(&self) -> u32
        requires
            self.wf(),
    {
        let handle = self.stats.acquire_read();
        let r = handle.borrow().get_number_of_answered_questions();
        handle.release_read();
        r
    }

    /// Accuracy against the total number of questions; `0.00%` in
    /// infinite mode.
    pub fn get_total_accuracy(&self) -> String
        requires
            self.wf(),
    {
        let handle = self.stats.acquire_read();
        let r = handle.borrow().get_total_accuracy();
        handle.release_read();
        r
    }

    /// Accuracy against the questions answered so far.
    pub fn get_current_accuracy(&self) -> String
        requires
            self.wf(),
    {
        let handle = self.stats.acquire_read();
        let r = handle.borrow().get_current_accuracy();
        handle.release_read();
        r
    }

    /// Preferably call this method first to stop the timer as early as
    /// possible.
    pub fn get_total_time(&self) -> String
        requires
            self.wf(),
    {
        let handle = self.stats.acquire_read();
        let r = handle.borrow().get_total_time();
        handle.release_read();
        r
    }

    /// The time of the most recently answered question; a zero duration
    /// when none has been answered yet.
    pub fn get_last_question_time(&self) -> String
        requires
            self.wf(),
    {
        let handle = self.stats.acquire_read();
        let stats = handle.borrow();
        let r = if stats.time_per_question.len() > 0 {
            stats.get_last_question_time()
        } else {
            Stats::format_duration(0)
        };
        handle.release_read();
        r
    }

    pub fn get_min_question_time(&self) -> String
        requires
            self.wf(),
    {
        let handle = self.stats.acquire_read();
        let r = handle.borrow().get_min_question_time();
        handle.release_read();
        r
    }

    pub fn get_max_question_time(&self) -> String
        requires
            self.wf(),
    {
        let handle = self.stats.acquire_read();
        let r = handle.borrow().get_max_question_time();
        handle.release_read();
        r
    }

    pub fn get_avg_question_time(&self) -> String
        requires
            self.wf(),
    {
        let handle = self.stats.acquire_read();
        let r = handle.borrow().get_avg_question_time();
        handle.release_read();
        r
    }
}

} // verus!
