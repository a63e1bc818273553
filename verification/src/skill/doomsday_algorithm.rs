//! The doomsday skill: practise naming the weekday of a random Gregorian
//! calendar date. The calendar arithmetic itself is done by the chrono
//! crate; dates travel through the logic as day numbers counted from the
//! common era.

use crate::args::definition::{Arg, ArgKind, ArgKindModel, ArgModel, ValueKind, ValueKindModel};
use crate::args::help;
use crate::args::parser;
use crate::args::set_value::{
    eff_bool, eff_i32, find_arg_definition, find_def_by_id, lemma_effective_value_shape,
    SetFromArg,
};
use crate::args::{models_of, ArgValue, ArgValueModel};
use crate::question::Question;
use crate::skill::Base;
use crate::text;
use chrono::Datelike;
use vstd::prelude::*;
use vstd::string::StrSliceExecFns;
use vstd::string::StringExecFns;

verus! {

pub const CMD: &'static str = "doomsday";

/// Years at or before the Gregorian reform are rejected.
pub const GREGORIAN_CALENDAR_INTRODUCTION: i32 = 1582;

// ---------------------------------------------------------------------
// The calendar, through chrono
// ---------------------------------------------------------------------
/// The number of days from the common era of the calendar date `y-m-d`,
/// as chrono counts them.
pub uninterp spec fn days_of_ymd(y: int, m: int, d: int) -> int;

/// The weekday of the date with the given day number: 1 for Monday
/// through 7 for Sunday.
pub uninterp spec fn weekday_of(days: int) -> int;

/// The `YYYY-MM-DD` rendering of the date with the given day number.
pub uninterp spec fn ymd_text_of(days: int) -> Seq<char>;

/// The day number lies within the calendar range chrono supports.
pub open spec fn date_supported(days: int) -> bool {
    days_of_ymd(-262143, 1, 1) <= days <= days_of_ymd(262142, 12, 31)
}

/// Relies on chrono's `NaiveDate::from_ymd_opt` and
/// `Datelike::num_days_from_ce`: for the first or last day of a year, the
/// date exists exactly for years in chrono's supported range, and its day
/// number lies between the day numbers of the calendar's first and last
/// supported dates.
#[verifier::external_body]
fn days_from_ymd(y: i32, m: u32, d: u32) -> (r: Option<i32>)
    requires
        (m == 1 && d == 1) || (m == 12 && d == 31),
    ensures
        r is Some <==> -262143 <= y <= 262142,
        r matches Some(days) ==> days == days_of_ymd(y as int, m as int, d as int)
            && date_supported(days as int),
{
    match chrono::NaiveDate::from_ymd_opt(y, m, d) {
        Some(date) => Some(date.num_days_from_ce()),
        None => None,
    }
}

/// Relies on chrono's `NaiveDate::from_num_days_from_ce_opt`,
/// `Datelike::weekday` with `Weekday::number_from_monday`, and
/// `NaiveDate::format("%Y-%m-%d")`: a supported day number yields its
/// weekday (1 = Monday .. 7 = Sunday) and its `YYYY-MM-DD` text, both
/// functions of the day number alone.
#[verifier::external_body]
fn date_info_from_days(days: i32) -> (r: Option<(u32, String)>)
    ensures
        r matches Some(info) ==> info.0 == weekday_of(days as int) && 1 <= info.0 <= 7
            && info.1@ == ymd_text_of(days as int),
        date_supported(days as int) ==> r is Some,
{
    match chrono::NaiveDate::from_num_days_from_ce_opt(days) {
        Some(date) => Some(
            (date.weekday().number_from_monday(), date.format("%Y-%m-%d").to_string()),
        ),
        None => None,
    }
}

// ---------------------------------------------------------------------
// Declarations and messages
// ---------------------------------------------------------------------
/// The option declarations of the doomsday command.
pub open spec fn doomsday_arg_definitions() -> Seq<ArgModel> {
    seq![
        ArgModel {
            id: "help"@,
            short_name: Some('h'),
            long_name: Some("help"@),
            description: seq!["Display help for powers command."@],
            kind: ArgKindModel::Flag,
            stop_parsing: true,
            default_value: ArgValueModel::Bool(false),
        },
        ArgModel {
            id: "lower_boundary"@,
            short_name: Some('l'),
            long_name: Some("lower-boundary"@),
            description: seq![
                "Set the minimum year (default: 1880)"@,
                "If default boundaries are used, the range is dynamic"@,
                "with a most of the questions from years 1880-2115"@,
                "and a small probability to go beyond these years."@,
            ],
            kind: ArgKindModel::Value(ValueKindModel::Int),
            stop_parsing: false,
            default_value: ArgValueModel::Int(1880),
        },
        ArgModel {
            id: "upper_boundary"@,
            short_name: Some('u'),
            long_name: Some("upper-boundary"@),
            description: seq![
                "Set the maximum year (default: 2115)"@,
                "If default boundaries are used, the range is dynamic"@,
                "with most of the questions from years 1880-2115"@,
                "and a small probability to go beyond these years."@,
            ],
            kind: ArgKindModel::Value(ValueKindModel::Int),
            stop_parsing: false,
            default_value: ArgValueModel::Int(2115),
        },
    ]
}

pub open spec fn spec_usage() -> Seq<char> {
    "Usage: practicestuff [option]... doomsday [doomsday_option]..."@
}

pub open spec fn spec_help_prompt() -> Seq<char> {
    "Try 'practicestuff doomsday --help' for more information."@
}

pub open spec fn spec_additional_info() -> Seq<char> {
    "Practise doomsday algorithm (https://en.wikipedia.org/wiki/Doomsday_rule)."@ + "\n"@ + (
    "By default, the dates range 100-140 years from now, with a slight chance"@ + "\n"@ + (
    "to go beyond that. Questions are presented in a form of YYYY-MM-DD, while"@ + "\n"@ + (
    "answers are expected in English ('Monday', 'Mon', 'Mo') or as numbers"@ + "\n"@ + (
    "(Monday - 1, Tuesday - 2, etc)."@ + "\n"@ + ("\n"@ + (
    "Note: the algorithm works only for Gregorian calendar introduced during"@ + "\n"@ + (
    "Gregorian reform in 1582. Some countries did not adopt even until 2006, so"@ + "\n"@ + (
    "depending on where you live, weekdays of dates between 1582 and 2006 might be"@ + "\n"@
        + "off (see https://en.wikipedia.org/wiki/Gregorian_calendar#Adoption_by_country)."@))))))))
}

/// The command's error shape.
pub open spec fn spec_err_message(msg: Option<Seq<char>>) -> Seq<char> {
    match msg {
        Some(m) => "practicestuff: doomsday: "@ + m + "\n"@ + spec_usage() + "\n"@
            + spec_help_prompt(),
        None => spec_usage() + "\n"@ + spec_help_prompt(),
    }
}

/// Whether the configured years are exactly the declared defaults, as
/// their displayed texts compare.
pub open spec fn spec_default_boundaries(lower: i32, upper: i32) -> bool {
    text::dec_int(lower as int) == text::dec_int(1880) && text::dec_int(upper as int)
        == text::dec_int(2115)
}

/// The doomsday skill: ask for the weekday of a random date between the
/// configured year boundaries, with a small chance of a wider range when
/// the boundaries are the defaults.
#[derive(Debug)]
pub struct Doomsday {
    arg_definitions: Vec<Arg>,
    show_help: bool,
    lower_boundary: i32,
    upper_boundary: i32,
    default_boundaries: bool,
}

impl Doomsday {
    #[verifier::type_invariant]
    pub closed spec fn type_wf(self) -> bool {
        &&& self.lower_boundary <= self.upper_boundary
        &&& self.lower_boundary > 1582
        &&& self.upper_boundary <= 262142
        &&& models_of(self.arg_definitions@) == doomsday_arg_definitions()
    }

    pub closed spec fn spec_show_help(&self) -> bool {
        self.show_help
    }

    pub closed spec fn spec_lower_boundary(&self) -> i32 {
        self.lower_boundary
    }

    pub closed spec fn spec_upper_boundary(&self) -> i32 {
        self.upper_boundary
    }

    pub closed spec fn spec_defaults_in_use(&self) -> bool {
        self.default_boundaries
    }

    pub fn show_help(&self) -> (r: bool)
        ensures
            r == self.spec_show_help(),
    {
        self.show_help
    }

    pub fn lower_boundary(&self) -> (r: i32)
        ensures
            r == self.spec_lower_boundary(),
    {
        self.lower_boundary
    }

    pub fn upper_boundary(&self) -> (r: i32)
        ensures
            r == self.spec_upper_boundary(),
    {
        self.upper_boundary
    }

    /// Parses and validates the command's options, applying defaults and
    /// rejecting a crossed range, years at or before the Gregorian
    /// reform, and years the calendar cannot represent.
    pub fn build(args: &[String]) -> (r: Result<Doomsday, String>)
        ensures
            ({
                let defs = doomsday_arg_definitions();
                match parser::spec_parse_list(models_of(args@), defs) {
                    Err(m) => r matches Err(e) && e@ == spec_err_message(Some(m)),
                    Ok(pairs) => {
                        let show_help = eff_bool("help"@, pairs, defs);
                        let lower = eff_i32("lower_boundary"@, pairs, defs);
                        let upper = eff_i32("upper_boundary"@, pairs, defs);
                        if lower > upper {
                            r matches Err(e) && e@ == spec_err_message(
                                Some(
                                    "lower boundary must be less than or equal to upper boundary"@,
                                ),
                            )
                        } else if lower <= 1582 {
                            r matches Err(e) && e@ == spec_err_message(
                                Some(
                                    "year boundary too low; Doomsday algorithm does not work for dates on 1582 and before"@,
                                ),
                            )
                        } else if upper > 262142 {
                            r matches Err(e) && e@ == spec_err_message(
                                Some("year boundaries cannot exceed 262143"@),
                            )
                        } else {
                            r matches Ok(d) && d.spec_show_help() == show_help
                                && d.spec_lower_boundary() == lower && d.spec_upper_boundary()
                                == upper && d.spec_defaults_in_use() == spec_default_boundaries(
                                lower,
                                upper,
                            )
                        }
                    },
                }
            }),
    {
        let ghost defs = doomsday_arg_definitions();
        let arg_definitions = Self::build_arg_definitions();
        let parsed_args = match parser::parse_and_validate_arg_list(
            args,
            arg_definitions.as_slice(),
        ) {
            Ok(p) => p,
            Err(e) => {
                return Err(Self::build_err_message(Some(e)));
            },
        };
        proof {
            let pairs = models_of(parsed_args@);
            parser::lemma_parse_list_typed(models_of(args@), defs, pairs);
            lemma_doomsday_defs_facts();
            lemma_effective_value_shape(defs, pairs, "help"@, ArgKindModel::Flag);
            lemma_effective_value_shape(
                defs,
                pairs,
                "lower_boundary"@,
                ArgKindModel::Value(ValueKindModel::Int),
            );
            lemma_effective_value_shape(
                defs,
                pairs,
                "upper_boundary"@,
                ArgKindModel::Value(ValueKindModel::Int),
            );
        }
        let show_help = bool::set_value_from_arg_or_default(
            "help",
            parsed_args.as_slice(),
            arg_definitions.as_slice(),
        );
        let lower_boundary = i32::set_value_from_arg_or_default(
            "lower_boundary",
            parsed_args.as_slice(),
            arg_definitions.as_slice(),
        );
        let upper_boundary = i32::set_value_from_arg_or_default(
            "upper_boundary",
            parsed_args.as_slice(),
            arg_definitions.as_slice(),
        );
        let default_boundaries = match Self::check_boundaries(
            lower_boundary,
            upper_boundary,
            &arg_definitions,
        ) {
            Ok(db) => db,
            Err(e) => {
                return Err(e);
            },
        };
        Ok(
            Doomsday {
                arg_definitions,
                show_help,
                lower_boundary,
                upper_boundary,
                default_boundaries,
            },
        )
    }

    /// Validates the year boundaries and decides whether they are exactly
    /// the declared defaults.
    fn check_boundaries(
        lower_boundary: i32,
        upper_boundary: i32,
        arg_definitions: &Vec<Arg>,
    ) -> (r: Result<bool, String>)
        requires
            models_of(arg_definitions@) == doomsday_arg_definitions(),
        ensures
            ({
                if lower_boundary > upper_boundary {
                    r matches Err(e) && e@ == spec_err_message(
                        Some("lower boundary must be less than or equal to upper boundary"@),
                    )
                } else if lower_boundary <= 1582 {
                    r matches Err(e) && e@ == spec_err_message(
                        Some(
                            "year boundary too low; Doomsday algorithm does not work for dates on 1582 and before"@,
                        ),
                    )
                } else if upper_boundary > 262142 {
                    r matches Err(e) && e@ == spec_err_message(
                        Some("year boundaries cannot exceed 262143"@),
                    )
                } else {
                    r matches Ok(db) && db == spec_default_boundaries(
                        lower_boundary,
                        upper_boundary,
                    )
                }
            }),
    {
        proof {
            lemma_doomsday_defs_facts();
        }
        if lower_boundary > upper_boundary {
            return Err(
                Self::build_err_message(
                    Some(
                        String::from_str(
                            "lower boundary must be less than or equal to upper boundary",
                        ),
                    ),
                ),
            );
        }
        let default_lower_boundary = match find_arg_definition(
            "lower_boundary",
            arg_definitions.as_slice(),
        ) {
            Some(d) => d.default_value().to_string(),
            None => vstd::pervasive::unreached(),
        };
        let default_upper_boundary = match find_arg_definition(
            "upper_boundary",
            arg_definitions.as_slice(),
        ) {
            Some(d) => d.default_value().to_string(),
            None => vstd::pervasive::unreached(),
        };
        let lower_text = text::i32_to_string(lower_boundary);
        let upper_text = text::i32_to_string(upper_boundary);
        let default_boundaries = text::str_eq(lower_text.as_str(), default_lower_boundary.as_str())
            && text::str_eq(upper_text.as_str(), default_upper_boundary.as_str());
        if lower_boundary <= GREGORIAN_CALENDAR_INTRODUCTION {
            return Err(
                Self::build_err_message(
                    Some(
                        String::from_str(
                            "year boundary too low; Doomsday algorithm does not work for dates on 1582 and before",
                        ),
                    ),
                ),
            );
        }
        if days_from_ymd(upper_boundary, 12, 31).is_none() {
            return Err(
                Self::build_err_message(
                    Some(String::from_str("year boundaries cannot exceed 262143")),
                ),
            );
        }
        Ok(default_boundaries)
    }

    /// The command's option declarations.
    pub fn build_arg_definitions() -> (r: Vec<Arg>)
        ensures
            models_of(r@) == doomsday_arg_definitions(),
    {
        proof {
            lemma_doomsday_literals();
        }
        let mut defs: Vec<Arg> = Vec::new();
        let mut d0_desc: Vec<String> = Vec::new();
        d0_desc.push(String::from_str("Display help for powers command."));
        let ghost d0_desc_snapshot = d0_desc@;
        defs.push(
            Arg::builder().id("help").short_name('h').long_name("help").description(
                d0_desc,
            ).kind(ArgKind::Flag).stop_parsing(true).default_value(ArgValue::Bool(false)).build(),
        );
        let mut d1_desc: Vec<String> = Vec::new();
        d1_desc.push(String::from_str("Set the minimum year (default: 1880)"));
        d1_desc.push(String::from_str("If default boundaries are used, the range is dynamic"));
        d1_desc.push(String::from_str("with a most of the questions from years 1880-2115"));
        d1_desc.push(String::from_str("and a small probability to go beyond these years."));
        let ghost d1_desc_snapshot = d1_desc@;
        defs.push(
            Arg::builder().id("lower_boundary").short_name('l').long_name(
                "lower-boundary",
            ).description(d1_desc).kind(ArgKind::Value(ValueKind::Int)).stop_parsing(
                false,
            ).default_value(ArgValue::Int(1880)).build(),
        );
        let mut d2_desc: Vec<String> = Vec::new();
        d2_desc.push(String::from_str("Set the maximum year (default: 2115)"));
        d2_desc.push(String::from_str("If default boundaries are used, the range is dynamic"));
        d2_desc.push(String::from_str("with most of the questions from years 1880-2115"));
        d2_desc.push(String::from_str("and a small probability to go beyond these years."));
        let ghost d2_desc_snapshot = d2_desc@;
        defs.push(
            Arg::builder().id("upper_boundary").short_name('u').long_name(
                "upper-boundary",
            ).description(d2_desc).kind(ArgKind::Value(ValueKind::Int)).stop_parsing(
                false,
            ).default_value(ArgValue::Int(2115)).build(),
        );
        proof {
            assert(models_of(d0_desc_snapshot) =~= seq!["Display help for powers command."@]);
            assert(models_of(d1_desc_snapshot) =~= seq![
                "Set the minimum year (default: 1880)"@,
                "If default boundaries are used, the range is dynamic"@,
                "with a most of the questions from years 1880-2115"@,
                "and a small probability to go beyond these years."@,
            ]);
            assert(models_of(d2_desc_snapshot) =~= seq![
                "Set the maximum year (default: 2115)"@,
                "If default boundaries are used, the range is dynamic"@,
                "with most of the questions from years 1880-2115"@,
                "and a small probability to go beyond these years."@,
            ]);
            assert(defs@[0]@ == doomsday_arg_definitions()[0]);
            assert(defs@[1]@ == doomsday_arg_definitions()[1]);
            assert(defs@[2]@ == doomsday_arg_definitions()[2]);
            assert(models_of(defs@) =~= doomsday_arg_definitions());
        }
        defs
    }

    fn usage() -> (r: String)
        ensures
            r@ == spec_usage(),
    {
        String::from_str("Usage: practicestuff [option]... doomsday [doomsday_option]...")
    }

    fn help_prompt() -> (r: String)
        ensures
            r@ == spec_help_prompt(),
    {
        String::from_str("Try 'practicestuff doomsday --help' for more information.")
    }

    fn additional_info() -> (r: String)
        ensures
            r@ == spec_additional_info(),
    {
        let mut text = String::from_str(
            "Practise doomsday algorithm (https://en.wikipedia.org/wiki/Doomsday_rule).",
        );
        text.append("\n");
        text.append("By default, the dates range 100-140 years from now, with a slight chance");
        text.append("\n");
        text.append("to go beyond that. Questions are presented in a form of YYYY-MM-DD, while");
        text.append("\n");
        text.append("answers are expected in English ('Monday', 'Mon', 'Mo') or as numbers");
        text.append("\n");
        text.append("(Monday - 1, Tuesday - 2, etc).");
        text.append("\n");
        text.append("\n");
        text.append("Note: the algorithm works only for Gregorian calendar introduced during");
        text.append("\n");
        text.append("Gregorian reform in 1582. Some countries did not adopt even until 2006, so");
        text.append("\n");
        text.append("depending on where you live, weekdays of dates between 1582 and 2006 might be");
        text.append("\n");
        text.append("off (see https://en.wikipedia.org/wiki/Gregorian_calendar#Adoption_by_country).");
        proof {
            assert(text@ =~= spec_additional_info());
        }
        text
    }

    /// Wraps an error in the command's message shape.
    pub fn build_err_message(msg: Option<String>) -> (r: String)
        ensures
            r@ == spec_err_message(
                match msg {
                    Some(m) => Some(m@),
                    None => None,
                },
            ),
    {
        match msg {
            Some(m) => {
                let mut s = String::from_str("practicestuff: doomsday: ");
                s.append(m.as_str());
                s.append("\n");
                let u = Self::usage();
                s.append(u.as_str());
                s.append("\n");
                let h = Self::help_prompt();
                s.append(h.as_str());
                s
            },
            None => {
                let mut s = Self::usage();
                s.append("\n");
                let h = Self::help_prompt();
                s.append(h.as_str());
                s
            },
        }
    }

    /// One question: the weekday of a random date within the session's
    /// year range.
    pub fn generate_question(&self) -> (q: Question)
        ensures
            exists|d: int|
                q@.question == "What is the weekday of "@ + ymd_text_of(d) + "?"@ && q@.answer
                    == weekday_name(weekday_of(d)) && q@.allow_any_case,
    {
        proof {
            use_type_invariant(self);
        }
        let (year_from, year_to) = self.calculate_year_range();
        let date_from = match days_from_ymd(year_from, 1, 1) {
            Some(d) => d,
            None => vstd::pervasive::unreached(),
        };
        let date_to = match days_from_ymd(year_to, 12, 31) {
            Some(d) => d,
            None => vstd::pervasive::unreached(),
        };
        let (lo, hi) = if date_from <= date_to {
            (date_from, date_to)
        } else {
            (date_to, date_from)
        };
        let date = crate::random::random_in_range_i32(lo, hi);
        Question::from_date(date)
    }

    /// The year range to draw from: usually the configured boundaries,
    /// with a small chance of a fixed wider range when the defaults are
    /// in use.
    fn calculate_year_range(&self) -> (r: (i32, i32))
        ensures
            (r.0 == 1753 && r.1 == 2617) || (r.0 == self.spec_lower_boundary() && r.1
                == self.spec_upper_boundary()),
    {
        let coin = crate::random::random_in_range_u32(0, 99);
        if self.default_boundaries && coin < 8 {
            // from the Gregorian calendar adoption to about 400 years out
            (1753, 2617)
        } else {
            (self.lower_boundary, self.upper_boundary)
        }
    }
}

impl Base for Doomsday {
    fn wants_to_print_help(&self) -> bool {
        self.show_help
    }

    fn get_help_text(&self) -> String {
        proof {
            use_type_invariant(self);
        }
        let usage = Self::usage();
        let info = Self::additional_info();
        let options = help::Options::new("Powers options", self.arg_definitions.as_slice());
        let commands: Vec<help::Command> = Vec::new();
        proof {
            assert(models_of(commands@) =~= Seq::<help::CommandModel>::empty());
            lemma_doomsday_help_fits();
        }
        help::build(usage.as_str(), Some(info.as_str()), &options, commands.as_slice())
    }

    fn generate_questions(&self, count: u32) -> (r: Vec<Question>) {
        let mut questions: Vec<Question> = Vec::new();
        let mut i: u32 = 0;
        while i < count
            invariant
                i <= count,
                questions@.len() == i as nat,
            decreases count - i,
        {
            questions.push(self.generate_question());
            i += 1;
        }
        questions
    }
}

/// The accepted English name of a weekday number (1 = Monday).
pub open spec fn weekday_name(w: int) -> Seq<char> {
    if w == 1 {
        "monday"@
    } else if w == 2 {
        "tuesday"@
    } else if w == 3 {
        "wednesday"@
    } else if w == 4 {
        "thursday"@
    } else if w == 5 {
        "friday"@
    } else if w == 6 {
        "saturday"@
    } else {
        "sunday"@
    }
}

/// The accepted alternative answers of a weekday number.
pub open spec fn weekday_alternatives(w: int) -> Seq<Seq<char>> {
    if w == 1 {
        seq!["mo"@, "mon"@, "1"@]
    } else if w == 2 {
        seq!["tu"@, "tue"@, "2"@]
    } else if w == 3 {
        seq!["we"@, "wed"@, "3"@]
    } else if w == 4 {
        seq!["th"@, "thu"@, "4"@]
    } else if w == 5 {
        seq!["fr"@, "fri"@, "5"@]
    } else if w == 6 {
        seq!["sa"@, "sat"@, "6"@]
    } else {
        seq!["su"@, "sun"@, "0"@, "7"@]
    }
}

impl Question {
    /// The weekday question for the date with the given day number: the
    /// answer is the weekday's name, with short forms and numbers
    /// accepted, matched ignoring case.
    pub fn from_date(days: i32) -> (q: Question)
        requires
            date_supported(days as int),
        ensures
            q@.question == "What is the weekday of "@ + ymd_text_of(days as int) + "?"@,
            q@.answer == weekday_name(weekday_of(days as int)),
            q@.alternative_answers == weekday_alternatives(weekday_of(days as int)),
            q@.allow_any_case,
    {
        proof {
            reveal_strlit("What is the weekday of ");
            reveal_strlit("monday");
            reveal_strlit("tuesday");
            reveal_strlit("wednesday");
            reveal_strlit("thursday");
            reveal_strlit("friday");
            reveal_strlit("saturday");
            reveal_strlit("sunday");
        }
        let info = match date_info_from_days(days) {
            Some(i) => i,
            None => vstd::pervasive::unreached(),
        };
        let (weekday, date_text) = info;
        let mut alternative_answers: Vec<String> = Vec::new();
        let answer: &str = if weekday == 1 {
            alternative_answers.push(String::from_str("mo"));
            alternative_answers.push(String::from_str("mon"));
            alternative_answers.push(String::from_str("1"));
            "monday"
        } else if weekday == 2 {
            alternative_answers.push(String::from_str("tu"));
            alternative_answers.push(String::from_str("tue"));
            alternative_answers.push(String::from_str("2"));
            "tuesday"
        } else if weekday == 3 {
            alternative_answers.push(String::from_str("we"));
            alternative_answers.push(String::from_str("wed"));
            alternative_answers.push(String::from_str("3"));
            "wednesday"
        } else if weekday == 4 {
            alternative_answers.push(String::from_str("th"));
            alternative_answers.push(String::from_str("thu"));
            alternative_answers.push(String::from_str("4"));
            "thursday"
        } else if weekday == 5 {
            alternative_answers.push(String::from_str("fr"));
            alternative_answers.push(String::from_str("fri"));
            alternative_answers.push(String::from_str("5"));
            "friday"
        } else if weekday == 6 {
            alternative_answers.push(String::from_str("sa"));
            alternative_answers.push(String::from_str("sat"));
            alternative_answers.push(String::from_str("6"));
            "saturday"
        } else {
            alternative_answers.push(String::from_str("su"));
            alternative_answers.push(String::from_str("sun"));
            alternative_answers.push(String::from_str("0"));
            alternative_answers.push(String::from_str("7"));
            "sunday"
        };
        proof {
            assert(models_of(alternative_answers@) =~= weekday_alternatives(
                weekday_of(days as int),
            ));
        }
        let question_text = text::msg3("What is the weekday of ", date_text.as_str(), "?");
        let q = Question::builder().question(question_text.as_str()).answer(answer)
            .alternative_answers(alternative_answers.as_slice()).allow_any_case(true).build();
        proof {
            assert(q@.alternative_answers =~= weekday_alternatives(weekday_of(days as int)));
        }
        q
    }
}

/// Reveals the literals the declarations are made of.
proof fn lemma_doomsday_literals()
    ensures
        "help"@.len() == 4,
        "lower_boundary"@.len() == 14,
        "upper_boundary"@.len() == 14,
        "help"@ != "lower_boundary"@,
        "help"@ != "upper_boundary"@,
        "lower_boundary"@ != "upper_boundary"@,
{
    reveal_strlit("help");
    reveal_strlit("lower_boundary");
    reveal_strlit("upper_boundary");
    assert("lower_boundary"@[0] != "upper_boundary"@[0]);
}

/// The accessors' preconditions over the concrete declarations.
proof fn lemma_doomsday_defs_facts()
    ensures
        ({
            let defs = doomsday_arg_definitions();
            &&& forall|j: int|
                0 <= j < defs.len() ==> crate::args::definition::arg_wf(#[trigger] defs[j])
            &&& find_def_by_id(defs, "help"@) == Some(0int)
            &&& find_def_by_id(defs, "lower_boundary"@) == Some(1int)
            &&& find_def_by_id(defs, "upper_boundary"@) == Some(2int)
            &&& forall|j: int|
                0 <= j < defs.len() && (#[trigger] defs[j]).id == "help"@ ==> defs[j].kind
                    == ArgKindModel::Flag
            &&& forall|j: int|
                0 <= j < defs.len() && (#[trigger] defs[j]).id == "lower_boundary"@ ==> defs[j].kind
                    == ArgKindModel::Value(ValueKindModel::Int)
            &&& forall|j: int|
                0 <= j < defs.len() && (#[trigger] defs[j]).id == "upper_boundary"@ ==> defs[j].kind
                    == ArgKindModel::Value(ValueKindModel::Int)
        }),
{
    lemma_doomsday_literals();
    let defs = doomsday_arg_definitions();
    let t1 = defs.drop_first();
    let t2 = t1.drop_first();
    assert(t1 =~= seq![defs[1], defs[2]]);
    assert(t2 =~= seq![defs[2]]);
    assert(t2.drop_first() =~= Seq::<ArgModel>::empty());
    assert(find_def_by_id(defs, "help"@) == Some(0int));
    assert(find_def_by_id(t1, "lower_boundary"@) == Some(0int));
    assert(find_def_by_id(defs, "lower_boundary"@) == Some(1int));
    assert(find_def_by_id(t2, "upper_boundary"@) == Some(0int));
    assert(find_def_by_id(t1, "upper_boundary"@) == Some(1int));
    assert(find_def_by_id(defs, "upper_boundary"@) == Some(2int));
}

/// The doomsday help text stays within 80 columns.
proof fn lemma_doomsday_help_fits()
    ensures
        help::spec_column_width(doomsday_arg_definitions(), Seq::<help::CommandModel>::empty())
            == 25,
        help::max_line_len(
            help::spec_render(
                spec_usage(),
                Some(spec_additional_info()),
                "Powers options"@,
                doomsday_arg_definitions(),
                Seq::<help::CommandModel>::empty(),
            ),
        ) <= 80,
{
    reveal_strlit("help");
    reveal_strlit("lower-boundary");
    reveal_strlit("upper-boundary");
    reveal_strlit("--");
    reveal_strlit("Display help for powers command.");
    reveal_strlit("Set the minimum year (default: 1880)");
    reveal_strlit("Set the maximum year (default: 2115)");
    reveal_strlit("If default boundaries are used, the range is dynamic");
    reveal_strlit("with a most of the questions from years 1880-2115");
    reveal_strlit("with most of the questions from years 1880-2115");
    reveal_strlit("and a small probability to go beyond these years.");
    reveal_strlit("Powers options");
    reveal_strlit("Usage: practicestuff [option]... doomsday [doomsday_option]...");
    reveal_strlit("\n");
    let defs = doomsday_arg_definitions();
    let cmds = Seq::<help::CommandModel>::empty();
    assert(help::max_opt_width(defs) == 16) by {
        let d2 = defs.drop_last();
        let d1 = d2.drop_last();
        assert(d2 =~= seq![defs[0], defs[1]]);
        assert(d1 =~= seq![defs[0]]);
        assert(d1.drop_last() =~= Seq::<ArgModel>::empty());
        assert(help::opt_name_width(defs[0]) == 6);
        assert(help::opt_name_width(defs[1]) == 16);
        assert(help::opt_name_width(defs[2]) == 16);
        assert(help::max_opt_width(Seq::<ArgModel>::empty()) == 0);
        assert(help::max_opt_width(d1) == 6);
        assert(help::max_opt_width(d2) == 16);
    }
    assert(help::max_cmd_width(cmds) == 0);
    let w = help::spec_column_width(defs, cmds);
    assert(w == 25);
    assert forall|k: int| 0 <= k < defs.len() implies help::opt_fits(#[trigger] defs[k], 25) by {
        assert(help::no_nl("--"@ + "help"@));
        assert(help::no_nl("--"@ + "lower-boundary"@));
        assert(help::no_nl("--"@ + "upper-boundary"@));
        assert(help::no_nl("Display help for powers command."@));
        assert(help::no_nl("Set the minimum year (default: 1880)"@));
        assert(help::no_nl("Set the maximum year (default: 2115)"@));
        assert(help::no_nl("If default boundaries are used, the range is dynamic"@));
        assert(help::no_nl("with a most of the questions from years 1880-2115"@));
        assert(help::no_nl("with most of the questions from years 1880-2115"@));
        assert(help::no_nl("and a small probability to go beyond these years."@));
        help::lemma_mll_acc_no_nl("Display help for powers command."@, 0);
        help::lemma_mll_acc_no_nl("Set the minimum year (default: 1880)"@, 0);
        help::lemma_mll_acc_no_nl("Set the maximum year (default: 2115)"@, 0);
        help::lemma_mll_acc_no_nl("If default boundaries are used, the range is dynamic"@, 0);
        help::lemma_mll_acc_no_nl("with a most of the questions from years 1880-2115"@, 0);
        help::lemma_mll_acc_no_nl("with most of the questions from years 1880-2115"@, 0);
        help::lemma_mll_acc_no_nl("and a small probability to go beyond these years."@, 0);
    }
    assert(help::no_nl(spec_usage()));
    help::lemma_mll_acc_no_nl(spec_usage(), 0);
    assert(help::max_line_len(spec_additional_info()) <= 80) by {
        lemma_doomsday_info_fits();
    }
    assert(help::no_nl("Powers options"@));
    help::lemma_render_fits(
        spec_usage(),
        Some(spec_additional_info()),
        "Powers options"@,
        defs,
        cmds,
    );
}

proof fn lemma_doomsday_info_fits()
    ensures
        help::max_line_len(spec_additional_info()) <= 80,
{
    reveal_strlit("Practise doomsday algorithm (https://en.wikipedia.org/wiki/Doomsday_rule).");
    reveal_strlit("By default, the dates range 100-140 years from now, with a slight chance");
    reveal_strlit("to go beyond that. Questions are presented in a form of YYYY-MM-DD, while");
    reveal_strlit("answers are expected in English ('Monday', 'Mon', 'Mo') or as numbers");
    reveal_strlit("(Monday - 1, Tuesday - 2, etc).");
    reveal_strlit("Note: the algorithm works only for Gregorian calendar introduced during");
    reveal_strlit("Gregorian reform in 1582. Some countries did not adopt even until 2006, so");
    reveal_strlit("depending on where you live, weekdays of dates between 1582 and 2006 might be");
    reveal_strlit("off (see https://en.wikipedia.org/wiki/Gregorian_calendar#Adoption_by_country).");
    reveal_strlit("\n");
    let l1 = "Practise doomsday algorithm (https://en.wikipedia.org/wiki/Doomsday_rule)."@;
    let l2 = "By default, the dates range 100-140 years from now, with a slight chance"@;
    let l3 = "to go beyond that. Questions are presented in a form of YYYY-MM-DD, while"@;
    let l4 = "answers are expected in English ('Monday', 'Mon', 'Mo') or as numbers"@;
    let l5 = "(Monday - 1, Tuesday - 2, etc)."@;
    let l6 = "Note: the algorithm works only for Gregorian calendar introduced during"@;
    let l7 = "Gregorian reform in 1582. Some countries did not adopt even until 2006, so"@;
    let l8 = "depending on where you live, weekdays of dates between 1582 and 2006 might be"@;
    let l9 = "off (see https://en.wikipedia.org/wiki/Gregorian_calendar#Adoption_by_country)."@;
    let r8 = l8 + seq!['\n'] + l9;
    let r7 = l7 + seq!['\n'] + r8;
    let r6 = l6 + seq!['\n'] + r7;
    let r5b = Seq::<char>::empty() + seq!['\n'] + r6;
    let r5 = l5 + seq!['\n'] + r5b;
    let r4 = l4 + seq!['\n'] + r5;
    let r3 = l3 + seq!['\n'] + r4;
    let r2 = l2 + seq!['\n'] + r3;
    assert(spec_additional_info() =~= l1 + seq!['\n'] + r2);
    help::lemma_mll_split(l8, l9, 0);
    help::lemma_mll_split(l7, r8, 0);
    help::lemma_mll_split(l6, r7, 0);
    help::lemma_mll_split(Seq::<char>::empty(), r6, 0);
    help::lemma_mll_split(l5, r5b, 0);
    help::lemma_mll_split(l4, r5, 0);
    help::lemma_mll_split(l3, r4, 0);
    help::lemma_mll_split(l2, r3, 0);
    help::lemma_mll_split(l1, r2, 0);
    assert(help::no_nl(l1));
    assert(help::no_nl(l2));
    assert(help::no_nl(l3));
    assert(help::no_nl(l4));
    assert(help::no_nl(l5));
    assert(help::no_nl(l6));
    assert(help::no_nl(l7));
    assert(help::no_nl(l8));
    assert(help::no_nl(l9));
    help::lemma_mll_acc_no_nl(l1, 0);
    help::lemma_mll_acc_no_nl(l2, 0);
    help::lemma_mll_acc_no_nl(l3, 0);
    help::lemma_mll_acc_no_nl(l4, 0);
    help::lemma_mll_acc_no_nl(l5, 0);
    help::lemma_mll_acc_no_nl(l6, 0);
    help::lemma_mll_acc_no_nl(l7, 0);
    help::lemma_mll_acc_no_nl(l8, 0);
    help::lemma_mll_acc_no_nl(l9, 0);
}

} // verus!
