//! Application configuration derived from the argument vector: the
//! general options with their declarations and defaults, the selected
//! command with its own tokens, and the overall error-message shape.

use crate::args::definition::{Arg, ArgKind, ArgKindModel, ArgModel, ValueKind, ValueKindModel};
use crate::args::parser;
use crate::args::set_value::{
    eff_bool, eff_str, eff_u32, find_def_by_id, lemma_effective_value_shape, SetFromArg,
};
use crate::args::{models_of, ArgValue, ArgValueModel};
use crate::skill::{self, SkillKind};
use crate::text;
use vstd::prelude::*;
use vstd::slice::slice_subrange;
use vstd::string::StrSliceExecFns;
use vstd::string::StringExecFns;

verus! {

/// How many questions a session asks: a fixed count, or no limit.
#[derive(Debug, Clone, Copy, PartialEq, Eq, Structural)]
pub enum NumberOfQuestions {
    Limited(u32),
    Infinite,
}

/// What happens after an incorrect answer.
#[derive(Debug, Copy, Clone, PartialEq, Eq, Structural)]
pub enum BehaviourOnError {
    NextQuestion,
    ShowCorrect,
    Repeat,
}

/// The behaviour each accepted option string selects.
pub open spec fn spec_behaviour_from(s: Seq<char>) -> BehaviourOnError {
    if s == "continue"@ {
        BehaviourOnError::NextQuestion
    } else if s == "showcorrect"@ {
        BehaviourOnError::ShowCorrect
    } else {
        BehaviourOnError::Repeat
    }
}

impl BehaviourOnError {
    /// Maps an accepted option string to its behaviour. Any other string
    /// is a caller bug and is excluded by precondition.
    pub fn from_string(value: &str) -> (r: BehaviourOnError)
        requires
            value@ == "continue"@ || value@ == "showcorrect"@ || value@ == "repeat"@,
        ensures
            r == spec_behaviour_from(value@),
    {
        proof {
            reveal_strlit("continue");
            reveal_strlit("showcorrect");
            reveal_strlit("repeat");
        }
        if text::str_eq(value, "continue") {
            BehaviourOnError::NextQuestion
        } else if text::str_eq(value, "showcorrect") {
            BehaviourOnError::ShowCorrect
        } else {
            BehaviourOnError::Repeat
        }
    }
}

/// The declarations of the general options.
pub open spec fn general_arg_definitions() -> Seq<ArgModel> {
    seq![
        ArgModel {
            id: "help"@,
            short_name: Some('h'),
            long_name: Some("help"@),
            description: seq!["Display this help message."@],
            kind: ArgKindModel::Flag,
            stop_parsing: true,
            default_value: ArgValueModel::Bool(false),
        },
        ArgModel {
            id: "version"@,
            short_name: Some('v'),
            long_name: Some("version"@),
            description: seq!["Show version information."@],
            kind: ArgKindModel::Flag,
            stop_parsing: true,
            default_value: ArgValueModel::Bool(false),
        },
        ArgModel {
            id: "num_of_questions"@,
            short_name: Some('n'),
            long_name: Some("number-of-questions"@),
            description: seq![
                "Specify the number of questions to ask"@,
                "(0 for infinite, default: 20)."@,
            ],
            kind: ArgKindModel::Value(ValueKindModel::UnsignedInt),
            stop_parsing: false,
            default_value: ArgValueModel::UnsignedInt(20),
        },
        ArgModel {
            id: "disable_live_stats"@,
            short_name: Some('d'),
            long_name: Some("disable-live-statistics"@),
            description: seq![
                "Disable live statistics; statistics will not"@,
                "display between questions."@,
            ],
            kind: ArgKindModel::Flag,
            stop_parsing: false,
            default_value: ArgValueModel::Bool(false),
        },
        ArgModel {
            id: "behaviour_on_err"@,
            short_name: Some('b'),
            long_name: Some("behavior-on-error"@),
            description: seq![
                "Define behaviour on incorrect answer:"@,
                "(default: showcorrect):"@,
                "  - continue: proceed to the next question."@,
                "  - showcorrect: proceed to the next"@,
                "    question and display the correct answer."@,
                "  - repeat: ask the question again until"@,
                "    the correct answer is provided."@,
            ],
            kind: ArgKindModel::Value(
                ValueKindModel::OneOfStr(seq!["continue"@, "showcorrect"@, "repeat"@]),
            ),
            stop_parsing: false,
            default_value: ArgValueModel::Str("showcorrect"@),
        },
    ]
}

/// The overall error shape: the program name, the message, then usage
/// and the help prompt.
pub open spec fn spec_build_err_message(msg: Option<Seq<char>>) -> Seq<char> {
    match msg {
        Some(m) => "practicestuff: "@ + m + "\n"@ + crate::application::spec_usage() + "\n"@
            + crate::application::spec_help_prompt(),
        None => crate::application::spec_usage() + "\n"@ + crate::application::spec_help_prompt(),
    }
}

/// The general options of a session, together with their declarations.
#[derive(Debug)]
pub struct GeneralOptions {
    pub arg_definitions: Vec<Arg>,
    pub show_help: bool,
    pub show_version: bool,
    pub number_of_questions: NumberOfQuestions,
    pub disable_live_statistics: bool,
    pub behaviour_on_error: BehaviourOnError,
}

impl GeneralOptions {
    /// Parses the general-option tokens against the declarations,
    /// applying defaults.
    pub fn build(args: &[String]) -> (r: Result<GeneralOptions, String>)
        ensures
            ({
                let defs = general_arg_definitions();
                match parser::spec_parse_list(models_of(args@), defs) {
                    Err(m) => r matches Err(e) && e@ == m,
                    Ok(pairs) => r matches Ok(o) && o.show_help == eff_bool("help"@, pairs, defs)
                        && o.show_version == eff_bool("version"@, pairs, defs)
                        && o.number_of_questions == (if eff_u32("num_of_questions"@, pairs, defs)
                        == 0 {
                        NumberOfQuestions::Infinite
                    } else {
                        NumberOfQuestions::Limited(eff_u32("num_of_questions"@, pairs, defs))
                    }) && o.disable_live_statistics == eff_bool("disable_live_stats"@, pairs, defs)
                        && o.behaviour_on_error == spec_behaviour_from(
                        eff_str("behaviour_on_err"@, pairs, defs),
                    ) && models_of(o.arg_definitions@) == defs,
                }
            }),
    {
        let ghost defs = general_arg_definitions();
        let arg_definitions = Self::build_arg_definitions();
        let parsed_args = match parser::parse_and_validate_arg_list(
            args,
            arg_definitions.as_slice(),
        ) {
            Ok(p) => p,
            Err(e) => {
                return Err(e);
            },
        };
        proof {
            let pairs = models_of(parsed_args@);
            parser::lemma_parse_list_typed(models_of(args@), defs, pairs);
            lemma_general_defs_facts();
            lemma_effective_value_shape(defs, pairs, "help"@, ArgKindModel::Flag);
            lemma_effective_value_shape(defs, pairs, "version"@, ArgKindModel::Flag);
            lemma_effective_value_shape(
                defs,
                pairs,
                "num_of_questions"@,
                ArgKindModel::Value(ValueKindModel::UnsignedInt),
            );
            lemma_effective_value_shape(defs, pairs, "disable_live_stats"@, ArgKindModel::Flag);
            lemma_effective_value_shape(
                defs,
                pairs,
                "behaviour_on_err"@,
                ArgKindModel::Value(
                    ValueKindModel::OneOfStr(seq!["continue"@, "showcorrect"@, "repeat"@]),
                ),
            );
        }
        let show_help = bool::set_value_from_arg_or_default(
            "help",
            parsed_args.as_slice(),
            arg_definitions.as_slice(),
        );
        let show_version = bool::set_value_from_arg_or_default(
            "version",
            parsed_args.as_slice(),
            arg_definitions.as_slice(),
        );
        let number_of_questions = u32::set_value_from_arg_or_default(
            "num_of_questions",
            parsed_args.as_slice(),
            arg_definitions.as_slice(),
        );
        let number_of_questions = if number_of_questions == 0 {
            NumberOfQuestions::Infinite
        } else {
            NumberOfQuestions::Limited(number_of_questions)
        };
        let disable_live_statistics = bool::set_value_from_arg_or_default(
            "disable_live_stats",
            parsed_args.as_slice(),
            arg_definitions.as_slice(),
        );
        let behaviour_on_error = String::set_value_from_arg_or_default(
            "behaviour_on_err",
            parsed_args.as_slice(),
            arg_definitions.as_slice(),
        );
        proof {
            let pairs = models_of(parsed_args@);
            let v = crate::args::set_value::effective_value(
                "behaviour_on_err"@,
                pairs,
                defs,
            )->0;
            let set = seq!["continue"@, "showcorrect"@, "repeat"@];
            assert(behaviour_on_error@ == "continue"@ || behaviour_on_error@ == "showcorrect"@
                || behaviour_on_error@ == "repeat"@) by {
                match crate::args::parser::find_pair(pairs, "behaviour_on_err"@) {
                    Some(_) => {
                        assert(crate::args::parser::value_shaped(
                            ArgKindModel::Value(ValueKindModel::OneOfStr(set)),
                            v,
                        ));
                        let i = choose|i: int| 0 <= i < set.len() && set[i] == v->Str_0;
                        assert(set[i] == v->Str_0);
                        assert(i == 0 || i == 1 || i == 2);
                    },
                    None => {
                        lemma_general_defs_facts();
                    },
                }
            }
        }
        let behaviour_on_error = BehaviourOnError::from_string(behaviour_on_error.as_str());
        Ok(
            GeneralOptions {
                arg_definitions,
                show_help,
                show_version,
                number_of_questions,
                disable_live_statistics,
                behaviour_on_error,
            },
        )
    }

    /// The declarations of the general options.
    pub fn build_arg_definitions() -> (r: Vec<Arg>)
        ensures
            models_of(r@) == general_arg_definitions(),
    {
        proof {
            lemma_general_literals();
        }
        let mut defs: Vec<Arg> = Vec::new();
        let mut d0_desc: Vec<String> = Vec::new();
        d0_desc.push(String::from_str("Display this help message."));
        let ghost d0_desc_snapshot = d0_desc@;
        defs.push(
            Arg::builder().id("help").short_name('h').long_name("help").description(
                d0_desc,
            ).kind(ArgKind::Flag).stop_parsing(true).default_value(ArgValue::Bool(false)).build(),
        );
        let mut d1_desc: Vec<String> = Vec::new();
        d1_desc.push(String::from_str("Show version information."));
        let ghost d1_desc_snapshot = d1_desc@;
        defs.push(
            Arg::builder().id("version").short_name('v').long_name("version").description(
                d1_desc,
            ).kind(ArgKind::Flag).stop_parsing(true).default_value(ArgValue::Bool(false)).build(),
        );
        let mut d2_desc: Vec<String> = Vec::new();
        d2_desc.push(String::from_str("Specify the number of questions to ask"));
        d2_desc.push(String::from_str("(0 for infinite, default: 20)."));
        let ghost d2_desc_snapshot = d2_desc@;
        defs.push(
            Arg::builder().id("num_of_questions").short_name('n').long_name(
                "number-of-questions",
            ).description(d2_desc).kind(ArgKind::Value(ValueKind::UnsignedInt)).stop_parsing(
                false,
            ).default_value(ArgValue::UnsignedInt(20)).build(),
        );
        let mut d3_desc: Vec<String> = Vec::new();
        d3_desc.push(String::from_str("Disable live statistics; statistics will not"));
        d3_desc.push(String::from_str("display between questions."));
        let ghost d3_desc_snapshot = d3_desc@;
        defs.push(
            Arg::builder().id("disable_live_stats").short_name('d').long_name(
                "disable-live-statistics",
            ).description(d3_desc).kind(ArgKind::Flag).stop_parsing(false).default_value(
                ArgValue::Bool(false),
            ).build(),
        );
        let mut d4_desc: Vec<String> = Vec::new();
        d4_desc.push(String::from_str("Define behaviour on incorrect answer:"));
        d4_desc.push(String::from_str("(default: showcorrect):"));
        d4_desc.push(String::from_str("  - continue: proceed to the next question."));
        d4_desc.push(String::from_str("  - showcorrect: proceed to the next"));
        d4_desc.push(String::from_str("    question and display the correct answer."));
        d4_desc.push(String::from_str("  - repeat: ask the question again until"));
        d4_desc.push(String::from_str("    the correct answer is provided."));
        let ghost d4_desc_snapshot = d4_desc@;
        let mut one_of: Vec<String> = Vec::new();
        one_of.push(String::from_str("continue"));
        one_of.push(String::from_str("showcorrect"));
        one_of.push(String::from_str("repeat"));
        let ghost one_of_snapshot = one_of@;
        defs.push(
            Arg::builder().id("behaviour_on_err").short_name('b').long_name(
                "behavior-on-error",
            ).description(d4_desc).kind(ArgKind::Value(ValueKind::OneOfStr(one_of))).stop_parsing(
                false,
            ).default_value(ArgValue::Str(String::from_str("showcorrect"))).build(),
        );
        proof {
            assert(models_of(d0_desc_snapshot) =~= seq!["Display this help message."@]);
            assert(models_of(d1_desc_snapshot) =~= seq!["Show version information."@]);
            assert(models_of(d2_desc_snapshot) =~= seq![
                "Specify the number of questions to ask"@,
                "(0 for infinite, default: 20)."@,
            ]);
            assert(models_of(d3_desc_snapshot) =~= seq![
                "Disable live statistics; statistics will not"@,
                "display between questions."@,
            ]);
            assert(models_of(d4_desc_snapshot) =~= seq![
                "Define behaviour on incorrect answer:"@,
                "(default: showcorrect):"@,
                "  - continue: proceed to the next question."@,
                "  - showcorrect: proceed to the next"@,
                "    question and display the correct answer."@,
                "  - repeat: ask the question again until"@,
                "    the correct answer is provided."@,
            ]);
            assert(models_of(one_of_snapshot) =~= seq!["continue"@, "showcorrect"@, "repeat"@]);
            assert(defs@[0]@ == general_arg_definitions()[0]);
            assert(defs@[1]@ == general_arg_definitions()[1]);
            assert(defs@[2]@ == general_arg_definitions()[2]);
            assert(defs@[3]@ == general_arg_definitions()[3]);
            assert(defs@[4]@ == general_arg_definitions()[4]);
            assert(models_of(defs@) =~= general_arg_definitions());
        }
        defs
    }
}

/// The token is one of the recognized commands.
pub open spec fn is_command(t: Seq<char>) -> bool {
    t == "powers"@ || t == "times_table"@ || t == "doomsday"@
}

/// The index of the first recognized command token, if any.
pub open spec fn spec_command_pos(args: Seq<Seq<char>>) -> Option<int>
    decreases args.len(),
{
    if args.len() == 0 {
        None
    } else if is_command(args[0]) {
        Some(0)
    } else {
        match spec_command_pos(args.drop_first()) {
            Some(i) => Some(i + 1),
            None => None,
        }
    }
}

pub proof fn lemma_command_pos_bounds(args: Seq<Seq<char>>)
    ensures
        match spec_command_pos(args) {
            Some(i) => 0 <= i < args.len() && is_command(args[i]) && forall|j: int|
                0 <= j < i ==> !is_command(args[j]),
            None => forall|j: int| 0 <= j < args.len() ==> !is_command(args[j]),
        },
    decreases args.len(),
{
    if args.len() > 0 && !is_command(args[0]) {
        let tail = args.drop_first();
        lemma_command_pos_bounds(tail);
        assert forall|j: int| 1 <= j < args.len() implies args[j] == tail[j - 1] by {}
    }
}

/// A validated session configuration: the general options and, unless a
/// help or version short-circuit was requested, the selected skill.
#[derive(Debug)]
pub struct Config {
    pub options: GeneralOptions,
    pub skill: Option<SkillKind>,
}

impl Config {
    /// Builds a config from the full argument vector (program name
    /// first): general options up to the first recognized command, the
    /// command, and its own options.
    pub fn build(args: &[String]) -> (r: Result<Config, String>)
        ensures
            ({
                let argsm = models_of(args@);
                &&& argsm.len() < 2 ==> (r matches Err(e) && e@ == spec_build_err_message(None))
                &&& argsm.len() >= 2 ==> {
                    let rest = argsm.skip(1);
                    let gopts = match spec_command_pos(rest) {
                        Some(p) => rest.take(p),
                        None => rest,
                    };
                    match parser::spec_parse_list(gopts, general_arg_definitions()) {
                        Err(m) => r matches Err(e) && e@ == spec_build_err_message(Some(m)),
                        Ok(pairs) => {
                            let show_help = eff_bool("help"@, pairs, general_arg_definitions());
                            let show_version = eff_bool(
                                "version"@,
                                pairs,
                                general_arg_definitions(),
                            );
                            let options_as_parsed = |c: Config|
                                {
                                    &&& c.options.show_help == show_help
                                    &&& c.options.show_version == show_version
                                    &&& c.options.number_of_questions == (if eff_u32(
                                        "num_of_questions"@,
                                        pairs,
                                        general_arg_definitions(),
                                    ) == 0 {
                                        NumberOfQuestions::Infinite
                                    } else {
                                        NumberOfQuestions::Limited(
                                            eff_u32(
                                                "num_of_questions"@,
                                                pairs,
                                                general_arg_definitions(),
                                            ),
                                        )
                                    })
                                    &&& c.options.disable_live_statistics == eff_bool(
                                        "disable_live_stats"@,
                                        pairs,
                                        general_arg_definitions(),
                                    )
                                    &&& c.options.behaviour_on_error == spec_behaviour_from(
                                        eff_str(
                                            "behaviour_on_err"@,
                                            pairs,
                                            general_arg_definitions(),
                                        ),
                                    )
                                };
                            if show_help || show_version {
                                r matches Ok(c) && options_as_parsed(c) && c.skill is None
                            } else if spec_command_pos(rest) is None {
                                r matches Err(e) && e@ == spec_build_err_message(
                                    Some("missing command"@),
                                )
                            } else {
                                match r {
                                    Ok(c) => c.skill is Some && options_as_parsed(c)
                                        && !show_help && !show_version,
                                    Err(_) => true,
                                }
                            }
                        },
                    }
                }
            }),
    {
        if args.len() < 2 {
            return Err(Self::build_err_message(None));
        }
        let rest = slice_subrange(args, 1, args.len());
        proof {
            assert(models_of(rest@) =~= models_of(args@).skip(1));
        }
        let (options_args, command, command_options) = Self::split_args(rest);
        let options = match GeneralOptions::build(options_args) {
            Ok(o) => o,
            Err(err) => {
                return Err(Self::build_err_message(Some(err)));
            },
        };
        if options.show_help || options.show_version {
            return Ok(Config { options, skill: None });
        }
        let command = match command {
            Some(c) => c,
            None => {
                return Err(Self::build_err_message(Some(String::from_str("missing command"))));
            },
        };
        let skill = match skill::build(command.as_str(), command_options) {
            Ok(s) => s,
            Err(e) => {
                return Err(e);
            },
        };
        Ok(Config { options, skill: Some(skill) })
    }

    /// Splits the argument vector (without the program name) at the
    /// first recognized command: general options, the command, and the
    /// command's own tokens.
    pub fn split_args<'a>(args: &'a [String]) -> (r: (&'a [String], Option<String>, &'a [String]))
        ensures
            ({
                let argsm = models_of(args@);
                match spec_command_pos(argsm) {
                    Some(p) => models_of(r.0@) == argsm.take(p) && (r.1 matches Some(c) && c@
                        == argsm[p] && is_command(c@)) && models_of(r.2@) == argsm.skip(p + 1),
                    None => models_of(r.0@) == argsm && r.1 is None && r.2@.len() == 0,
                }
            }),
    {
        proof {
            reveal_strlit("powers");
            reveal_strlit("times_table");
            reveal_strlit("doomsday");
            lemma_command_pos_bounds(models_of(args@));
        }
        let ghost argsm = models_of(args@);
        let mut command: Option<String> = None;
        let mut command_pos: usize = args.len();
        let mut i: usize = 0;
        while i < args.len()
            invariant_except_break
                command is None,
                command_pos == args.len(),
            invariant
                i <= args.len(),
                argsm == models_of(args@),
                forall|j: int| 0 <= j < i ==> !is_command(argsm[j]),
            ensures
                match command {
                    Some(c) => command_pos < args.len() && c@ == argsm[command_pos as int]
                        && is_command(c@) && forall|j: int|
                        0 <= j < command_pos ==> !is_command(argsm[j]),
                    None => command_pos == args.len() && forall|j: int|
                        0 <= j < args.len() ==> !is_command(argsm[j]),
                },
            decreases args.len() - i,
        {
            let tok = &args[i];
            if text::str_eq(tok.as_str(), "powers") || text::str_eq(tok.as_str(), "times_table")
                || text::str_eq(tok.as_str(), "doomsday") {
                command = Some(tok.clone());
                command_pos = i;
                break ;
            }
            i += 1;
        }
        let args_pos = if command_pos < args.len() {
            command_pos + 1
        } else {
            args.len()
        };
        let head = slice_subrange(args, 0, command_pos);
        let tail = slice_subrange(args, args_pos, args.len());
        proof {
            match spec_command_pos(argsm) {
                Some(p) => {
                    assert(!(p < command_pos) && !(command_pos < p));
                    assert(models_of(head@) =~= argsm.take(p));
                    assert(models_of(tail@) =~= argsm.skip(p + 1));
                },
                None => {
                    assert(models_of(head@) =~= argsm);
                },
            }
        }
        (head, command, tail)
    }

    /// Wraps an error in the application's message shape.
    pub fn build_err_message(msg: Option<String>) -> (r: String)
        ensures
            r@ == spec_build_err_message(
                match msg {
                    Some(m) => Some(m@),
                    None => None,
                },
            ),
    {
        match msg {
            Some(m) => {
                let mut s = String::from_str("practicestuff: ");
                s.append(m.as_str());
                s.append("\n");
                let u = crate::application::Application::usage();
                s.append(u.as_str());
                s.append("\n");
                let h = crate::application::Application::help_prompt();
                s.append(h.as_str());
                s
            },
            None => {
                let mut s = crate::application::Application::usage();
                s.append("\n");
                let h = crate::application::Application::help_prompt();
                s.append(h.as_str());
                s
            },
        }
    }
}

/// Reveals the literals the declarations are made of.
proof fn lemma_general_literals()
    ensures
        "help"@.len() == 4,
        "version"@.len() == 7,
        "num_of_questions"@.len() == 16,
        "disable_live_stats"@.len() == 18,
        "behaviour_on_err"@.len() == 16,
        "help"@ != "version"@,
        "help"@ != "num_of_questions"@,
        "help"@ != "disable_live_stats"@,
        "help"@ != "behaviour_on_err"@,
        "version"@ != "num_of_questions"@,
        "version"@ != "disable_live_stats"@,
        "version"@ != "behaviour_on_err"@,
        "num_of_questions"@ != "disable_live_stats"@,
        "num_of_questions"@ != "behaviour_on_err"@,
        "disable_live_stats"@ != "behaviour_on_err"@,
{
    reveal_strlit("help");
    reveal_strlit("version");
    reveal_strlit("num_of_questions");
    reveal_strlit("disable_live_stats");
    reveal_strlit("behaviour_on_err");
    assert("num_of_questions"@[0] != "behaviour_on_err"@[0]);
}

/// The accessors' preconditions over the concrete declarations.
proof fn lemma_general_defs_facts()
    ensures
        ({
            let defs = general_arg_definitions();
            &&& forall|j: int|
                0 <= j < defs.len() ==> crate::args::definition::arg_wf(#[trigger] defs[j])
            &&& find_def_by_id(defs, "help"@) == Some(0int)
            &&& find_def_by_id(defs, "version"@) == Some(1int)
            &&& find_def_by_id(defs, "num_of_questions"@) == Some(2int)
            &&& find_def_by_id(defs, "disable_live_stats"@) == Some(3int)
            &&& find_def_by_id(defs, "behaviour_on_err"@) == Some(4int)
            &&& forall|j: int|
                0 <= j < defs.len() && (#[trigger] defs[j]).id == "help"@ ==> defs[j].kind
                    == ArgKindModel::Flag
            &&& forall|j: int|
                0 <= j < defs.len() && (#[trigger] defs[j]).id == "version"@ ==> defs[j].kind
                    == ArgKindModel::Flag
            &&& forall|j: int|
                0 <= j < defs.len() && (#[trigger] defs[j]).id == "num_of_questions"@
                    ==> defs[j].kind == ArgKindModel::Value(ValueKindModel::UnsignedInt)
            &&& forall|j: int|
                0 <= j < defs.len() && (#[trigger] defs[j]).id == "disable_live_stats"@
                    ==> defs[j].kind == ArgKindModel::Flag
            &&& forall|j: int|
                0 <= j < defs.len() && (#[trigger] defs[j]).id == "behaviour_on_err"@
                    ==> defs[j].kind == ArgKindModel::Value(
                    ValueKindModel::OneOfStr(seq!["continue"@, "showcorrect"@, "repeat"@]),
                )
        }),
{
    lemma_general_literals();
    let defs = general_arg_definitions();
    let t1 = defs.drop_first();
    let t2 = t1.drop_first();
    let t3 = t2.drop_first();
    let t4 = t3.drop_first();
    assert(t1 =~= seq![defs[1], defs[2], defs[3], defs[4]]);
    assert(t2 =~= seq![defs[2], defs[3], defs[4]]);
    assert(t3 =~= seq![defs[3], defs[4]]);
    assert(t4 =~= seq![defs[4]]);
    assert(t4.drop_first() =~= Seq::<ArgModel>::empty());
    assert(find_def_by_id(defs, "help"@) == Some(0int));
    assert(find_def_by_id(t1, "version"@) == Some(0int));
    assert(find_def_by_id(defs, "version"@) == Some(1int));
    assert(find_def_by_id(t2, "num_of_questions"@) == Some(0int));
    assert(find_def_by_id(t1, "num_of_questions"@) == Some(1int));
    assert(find_def_by_id(defs, "num_of_questions"@) == Some(2int));
    assert(find_def_by_id(t3, "disable_live_stats"@) == Some(0int));
    assert(find_def_by_id(t2, "disable_live_stats"@) == Some(1int));
    assert(find_def_by_id(t1, "disable_live_stats"@) == Some(2int));
    assert(find_def_by_id(defs, "disable_live_stats"@) == Some(3int));
    assert(find_def_by_id(t4, "behaviour_on_err"@) == Some(0int));
    assert(find_def_by_id(t3, "behaviour_on_err"@) == Some(1int));
    assert(find_def_by_id(t2, "behaviour_on_err"@) == Some(2int));
    assert(find_def_by_id(t1, "behaviour_on_err"@) == Some(3int));
    assert(find_def_by_id(defs, "behaviour_on_err"@) == Some(4int));
}

} // verus!
