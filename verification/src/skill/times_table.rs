//! The times-table skill: practise multiplication with separately
//! configurable ranges for the two factors.

use crate::args::definition::{Arg, ArgKind, ArgKindModel, ArgModel, ValueKind, ValueKindModel};
use crate::args::help;
use crate::args::parser;
use crate::args::set_value::{
    eff_bool, eff_u32, find_def_by_id, lemma_effective_value_shape, SetFromArg,
};
use crate::args::{models_of, ArgValue, ArgValueModel};
use crate::question::Question;
use crate::skill::Base;
use crate::text;
use vstd::prelude::*;
use vstd::string::StrSliceExecFns;
use vstd::string::StringExecFns;

verus! {

pub const CMD: &'static str = "times_table";

/// The option declarations of the times-table command.
pub open spec fn times_table_arg_definitions() -> Seq<ArgModel> {
    seq![
        ArgModel {
            id: "help"@,
            short_name: Some('h'),
            long_name: Some("help"@),
            description: seq!["Display help for times_table command."@],
            kind: ArgKindModel::Flag,
            stop_parsing: true,
            default_value: ArgValueModel::Bool(false),
        },
        ArgModel {
            id: "lower_boundary_1"@,
            short_name: None,
            long_name: Some("lower-boundary-1"@),
            description: seq!["Set the minimum value"@, "for the first factor (default: 1)."@],
            kind: ArgKindModel::Value(ValueKindModel::UnsignedInt),
            stop_parsing: false,
            default_value: ArgValueModel::UnsignedInt(1),
        },
        ArgModel {
            id: "upper_boundary_1"@,
            short_name: None,
            long_name: Some("upper-boundary-1"@),
            description: seq!["Set the maximum value"@, "for the first factor (default: 10)."@],
            kind: ArgKindModel::Value(ValueKindModel::UnsignedInt),
            stop_parsing: false,
            default_value: ArgValueModel::UnsignedInt(10),
        },
        ArgModel {
            id: "lower_boundary_2"@,
            short_name: None,
            long_name: Some("lower-boundary-2"@),
            description: seq!["Set the minimum value"@, "for the second factor (default: 1)."@],
            kind: ArgKindModel::Value(ValueKindModel::UnsignedInt),
            stop_parsing: false,
            default_value: ArgValueModel::UnsignedInt(1),
        },
        ArgModel {
            id: "upper_boundary_2"@,
            short_name: None,
            long_name: Some("upper-boundary-2"@),
            description: seq!["Set the maximum value"@, "for the second factor (default: 10)."@],
            kind: ArgKindModel::Value(ValueKindModel::UnsignedInt),
            stop_parsing: false,
            default_value: ArgValueModel::UnsignedInt(10),
        },
    ]
}

pub open spec fn spec_usage() -> Seq<char> {
    "Usage: practicestuff [option]... times_table [times_table_option]..."@
}

pub open spec fn spec_help_prompt() -> Seq<char> {
    "Try 'practicestuff' times_table --help for more information."@
}

pub open spec fn spec_additional_info() -> Seq<char> {
    "Practise multiplication with a customisable factors' range."@ + "\n"@
        + "By default, the range of factors mimics the normal times table (1-10)."@ + "\n"@
        + "The range is set separately for both factors."@
}

/// The command's error shape.
pub open spec fn spec_err_message(msg: Option<Seq<char>>) -> Seq<char> {
    match msg {
        Some(m) => "practicestuff: times_table: "@ + m + "\n"@ + spec_usage() + "\n"@
            + spec_help_prompt(),
        None => spec_usage() + "\n"@ + spec_help_prompt(),
    }
}

/// The times-table skill: ask for `a*b` with the factors drawn from two
/// configurable ranges.
#[derive(Debug)]
pub struct TimesTable {
    arg_definitions: Vec<Arg>,
    show_help: bool,
    lower_boundary_1: u32,
    upper_boundary_1: u32,
    lower_boundary_2: u32,
    upper_boundary_2: u32,
}

impl TimesTable {
    #[verifier::type_invariant]
    pub closed spec fn type_wf(self) -> bool {
        &&& self.lower_boundary_1 <= self.upper_boundary_1
        &&& self.lower_boundary_2 <= self.upper_boundary_2
        &&& models_of(self.arg_definitions@) == times_table_arg_definitions()
    }

    pub closed spec fn spec_show_help(&self) -> bool {
        self.show_help
    }

    pub closed spec fn spec_lower_boundary_1(&self) -> u32 {
        self.lower_boundary_1
    }

    pub closed spec fn spec_upper_boundary_1(&self) -> u32 {
        self.upper_boundary_1
    }

    pub closed spec fn spec_lower_boundary_2(&self) -> u32 {
        self.lower_boundary_2
    }

    pub closed spec fn spec_upper_boundary_2(&self) -> u32 {
        self.upper_boundary_2
    }

    pub fn show_help(&self) -> (r: bool)
        ensures
            r == self.spec_show_help(),
    {
        self.show_help
    }

    pub fn lower_boundary_1(&self) -> (r: u32)
        ensures
            r == self.spec_lower_boundary_1(),
    {
        self.lower_boundary_1
    }

    pub fn upper_boundary_1(&self) -> (r: u32)
        ensures
            r == self.spec_upper_boundary_1(),
    {
        self.upper_boundary_1
    }

    pub fn lower_boundary_2(&self) -> (r: u32)
        ensures
            r == self.spec_lower_boundary_2(),
    {
        self.lower_boundary_2
    }

    pub fn upper_boundary_2(&self) -> (r: u32)
        ensures
            r == self.spec_upper_boundary_2(),
    {
        self.upper_boundary_2
    }

    /// Parses and validates the command's options, applying defaults and
    /// rejecting crossed ranges.
    pub fn build(args: &[String]) -> (r: Result<TimesTable, String>)
        ensures
            ({
                let defs = times_table_arg_definitions();
                match parser::spec_parse_list(models_of(args@), defs) {
                    Err(m) => r matches Err(e) && e@ == spec_err_message(Some(m)),
                    Ok(pairs) => {
                        let show_help = eff_bool("help"@, pairs, defs);
                        let l1 = eff_u32("lower_boundary_1"@, pairs, defs);
                        let u1 = eff_u32("upper_boundary_1"@, pairs, defs);
                        let l2 = eff_u32("lower_boundary_2"@, pairs, defs);
                        let u2 = eff_u32("upper_boundary_2"@, pairs, defs);
                        if l1 > u1 || l2 > u2 {
                            r matches Err(e) && e@ == spec_err_message(
                                Some(
                                    "lower boundary must be less than or equal to upper boundary"@,
                                ),
                            )
                        } else {
                            r matches Ok(t) && t.spec_show_help() == show_help
                                && t.spec_lower_boundary_1() == l1 && t.spec_upper_boundary_1()
                                == u1 && t.spec_lower_boundary_2() == l2
                                && t.spec_upper_boundary_2() == u2
                        }
                    },
                }
            }),
    {
        let ghost defs = times_table_arg_definitions();
        let arg_definitions = Self::build_arg_definitions();
        let parsed_args = match parser::parse_and_validate_arg_list(
            args,
            arg_definitions.as_slice(),
        ) {
            Ok(p) => p,
            Err(e) => {
                return Err(Self::build_err_message(Some(e)));
            },
        };
        proof {
            let pairs = models_of(parsed_args@);
            parser::lemma_parse_list_typed(models_of(args@), defs, pairs);
            lemma_times_table_defs_facts();
            lemma_effective_value_shape(defs, pairs, "help"@, ArgKindModel::Flag);
            lemma_effective_value_shape(
                defs,
                pairs,
                "lower_boundary_1"@,
                ArgKindModel::Value(ValueKindModel::UnsignedInt),
            );
            lemma_effective_value_shape(
                defs,
                pairs,
                "upper_boundary_1"@,
                ArgKindModel::Value(ValueKindModel::UnsignedInt),
            );
            lemma_effective_value_shape(
                defs,
                pairs,
                "lower_boundary_2"@,
                ArgKindModel::Value(ValueKindModel::UnsignedInt),
            );
            lemma_effective_value_shape(
                defs,
                pairs,
                "upper_boundary_2"@,
                ArgKindModel::Value(ValueKindModel::UnsignedInt),
            );
        }
        let show_help = bool::set_value_from_arg_or_default(
            "help",
            parsed_args.as_slice(),
            arg_definitions.as_slice(),
        );
        let lower_boundary_1 = u32::set_value_from_arg_or_default(
            "lower_boundary_1",
            parsed_args.as_slice(),
            arg_definitions.as_slice(),
        );
        let upper_boundary_1 = u32::set_value_from_arg_or_default(
            "upper_boundary_1",
            parsed_args.as_slice(),
            arg_definitions.as_slice(),
        );
        let lower_boundary_2 = u32::set_value_from_arg_or_default(
            "lower_boundary_2",
            parsed_args.as_slice(),
            arg_definitions.as_slice(),
        );
        let upper_boundary_2 = u32::set_value_from_arg_or_default(
            "upper_boundary_2",
            parsed_args.as_slice(),
            arg_definitions.as_slice(),
        );
        if lower_boundary_1 > upper_boundary_1 || lower_boundary_2 > upper_boundary_2 {
            return Err(
                Self::build_err_message(
                    Some(
                        String::from_str(
                            "lower boundary must be less than or equal to upper boundary",
                        ),
                    ),
                ),
            );
        }
        Ok(
            TimesTable {
                arg_definitions,
                show_help,
                lower_boundary_1,
                upper_boundary_1,
                lower_boundary_2,
                upper_boundary_2,
            },
        )
    }

    /// The command's option declarations.
    pub fn build_arg_definitions() -> (r: Vec<Arg>)
        ensures
            models_of(r@) == times_table_arg_definitions(),
    {
        proof {
            lemma_times_table_literals();
        }
        let mut defs: Vec<Arg> = Vec::new();
        let mut d0_desc: Vec<String> = Vec::new();
        d0_desc.push(String::from_str("Display help for times_table command."));
        let ghost d0_desc_snapshot = d0_desc@;
        defs.push(
            Arg::builder().id("help").short_name('h').long_name("help").description(
                d0_desc,
            ).kind(ArgKind::Flag).stop_parsing(true).default_value(ArgValue::Bool(false)).build(),
        );
        let mut d1_desc: Vec<String> = Vec::new();
        d1_desc.push(String::from_str("Set the minimum value"));
        d1_desc.push(String::from_str("for the first factor (default: 1)."));
        let ghost d1_desc_snapshot = d1_desc@;
        defs.push(
            Arg::builder().id("lower_boundary_1").long_name("lower-boundary-1").description(
                d1_desc,
            ).kind(ArgKind::Value(ValueKind::UnsignedInt)).stop_parsing(false).default_value(
                ArgValue::UnsignedInt(1),
            ).build(),
        );
        let mut d2_desc: Vec<String> = Vec::new();
        d2_desc.push(String::from_str("Set the maximum value"));
        d2_desc.push(String::from_str("for the first factor (default: 10)."));
        let ghost d2_desc_snapshot = d2_desc@;
        defs.push(
            Arg::builder().id("upper_boundary_1").long_name("upper-boundary-1").description(
                d2_desc,
            ).kind(ArgKind::Value(ValueKind::UnsignedInt)).stop_parsing(false).default_value(
                ArgValue::UnsignedInt(10),
            ).build(),
        );
        let mut d3_desc: Vec<String> = Vec::new();
        d3_desc.push(String::from_str("Set the minimum value"));
        d3_desc.push(String::from_str("for the second factor (default: 1)."));
        let ghost d3_desc_snapshot = d3_desc@;
        defs.push(
            Arg::builder().id("lower_boundary_2").long_name("lower-boundary-2").description(
                d3_desc,
            ).kind(ArgKind::Value(ValueKind::UnsignedInt)).stop_parsing(false).default_value(
                ArgValue::UnsignedInt(1),
            ).build(),
        );
        let mut d4_desc: Vec<String> = Vec::new();
        d4_desc.push(String::from_str("Set the maximum value"));
        d4_desc.push(String::from_str("for the second factor (default: 10)."));
        let ghost d4_desc_snapshot = d4_desc@;
        defs.push(
            Arg::builder().id("upper_boundary_2").long_name("upper-boundary-2").description(
                d4_desc,
            ).kind(ArgKind::Value(ValueKind::UnsignedInt)).stop_parsing(false).default_value(
                ArgValue::UnsignedInt(10),
            ).build(),
        );
        proof {
            assert(models_of(d0_desc_snapshot) =~= seq![
                "Display help for times_table command."@,
            ]);
            assert(models_of(d1_desc_snapshot) =~= seq![
                "Set the minimum value"@,
                "for the first factor (default: 1)."@,
            ]);
            assert(models_of(d2_desc_snapshot) =~= seq![
                "Set the maximum value"@,
                "for the first factor (default: 10)."@,
            ]);
            assert(models_of(d3_desc_snapshot) =~= seq![
                "Set the minimum value"@,
                "for the second factor (default: 1)."@,
            ]);
            assert(models_of(d4_desc_snapshot) =~= seq![
                "Set the maximum value"@,
                "for the second factor (default: 10)."@,
            ]);
            assert(defs@[0]@ == times_table_arg_definitions()[0]);
            assert(defs@[1]@ == times_table_arg_definitions()[1]);
            assert(defs@[2]@ == times_table_arg_definitions()[2]);
            assert(defs@[3]@ == times_table_arg_definitions()[3]);
            assert(defs@[4]@ == times_table_arg_definitions()[4]);
            assert(models_of(defs@) =~= times_table_arg_definitions());
        }
        defs
    }

    fn usage() -> (r: String)
        ensures
            r@ == spec_usage(),
    {
        String::from_str("Usage: practicestuff [option]... times_table [times_table_option]...")
    }

    fn help_prompt() -> (r: String)
        ensures
            r@ == spec_help_prompt(),
    {
        String::from_str("Try 'practicestuff' times_table --help for more information.")
    }

    fn additional_info() -> (r: String)
        ensures
            r@ == spec_additional_info(),
    {
        let mut s = String::from_str("Practise multiplication with a customisable factors' range.");
        s.append("\n");
        s.append("By default, the range of factors mimics the normal times table (1-10).");
        s.append("\n");
        s.append("The range is set separately for both factors.");
        s
    }

    /// Wraps an error in the command's message shape.
    pub fn build_err_message(msg: Option<String>) -> (r: String)
        ensures
            r@ == spec_err_message(
                match msg {
                    Some(m) => Some(m@),
                    None => None,
                },
            ),
    {
        match msg {
            Some(m) => {
                let mut s = String::from_str("practicestuff: times_table: ");
                s.append(m.as_str());
                s.append("\n");
                let u = Self::usage();
                s.append(u.as_str());
                s.append("\n");
                let h = Self::help_prompt();
                s.append(h.as_str());
                s
            },
            None => {
                let mut s = Self::usage();
                s.append("\n");
                let h = Self::help_prompt();
                s.append(h.as_str());
                s
            },
        }
    }

    /// One question: `a*b` for random factors within the two ranges, in
    /// either order.
    pub fn generate_question(&self) -> (q: Question)
        ensures
            exists|f: u32, s: u32|
                self.spec_lower_boundary_1() <= f <= self.spec_upper_boundary_1()
                    && self.spec_lower_boundary_2() <= s <= self.spec_upper_boundary_2() && (
                q@.question == text::dec_nat(f as nat) + "*"@ + text::dec_nat(s as nat)
                    || q@.question == text::dec_nat(s as nat) + "*"@ + text::dec_nat(f as nat))
                    && q@.answer == text::dec_nat((f as nat) * (s as nat))
                    && q@.alternative_answers.len() == 0 && !q@.allow_any_case,
    {
        proof {
            use_type_invariant(self);
        }
        let first = crate::random::random_in_range_u32(
            self.lower_boundary_1,
            self.upper_boundary_1,
        );
        let second = crate::random::random_in_range_u32(
            self.lower_boundary_2,
            self.upper_boundary_2,
        );
        proof {
            assert((first as int) * (second as int) <= (u32::MAX as int) * (u32::MAX as int))
                by (nonlinear_arith)
                requires
                    0 <= first <= u32::MAX,
                    0 <= second <= u32::MAX,
            ;
        }
        let result: u64 = (first as u64) * (second as u64);
        let coin = crate::random::random_in_range_u32(0, 1);
        let (shown_first, shown_second) = if coin == 1 {
            (second, first)
        } else {
            (first, second)
        };
        let mut qtext = text::u32_to_string(shown_first);
        qtext.append("*");
        let b = text::u32_to_string(shown_second);
        qtext.append(b.as_str());
        let answer = text::u64_to_string(result);
        proof {
            assert(qtext@ =~= text::dec_nat(shown_first as nat) + "*"@ + text::dec_nat(
                shown_second as nat,
            ));
            assert(qtext@.len() > 0);
            assert(answer@.len() > 0);
        }
        let q = Question::builder().question(qtext.as_str()).answer(answer.as_str()).build();
        proof {
            assert(crate::args::models_of(Seq::<String>::empty()) =~= Seq::<Seq<char>>::empty());
            assert((first as nat) * (second as nat) == result as nat);
        }
        q
    }
}

impl Base for TimesTable {
    fn wants_to_print_help(&self) -> bool {
        self.show_help
    }

    fn get_help_text(&self) -> String {
        proof {
            use_type_invariant(self);
        }
        let usage = Self::usage();
        let info = Self::additional_info();
        let options = help::Options::new("Times table options", self.arg_definitions.as_slice());
        let commands: Vec<help::Command> = Vec::new();
        proof {
            assert(models_of(commands@) =~= Seq::<help::CommandModel>::empty());
            lemma_times_table_help_fits();
        }
        help::build(usage.as_str(), Some(info.as_str()), &options, commands.as_slice())
    }

    fn generate_questions(&self, count: u32) -> (r: Vec<Question>) {
        let mut questions: Vec<Question> = Vec::new();
        let mut i: u32 = 0;
        while i < count
            invariant
                i <= count,
                questions@.len() == i as nat,
            decreases count - i,
        {
            questions.push(self.generate_question());
            i += 1;
        }
        questions
    }
}

/// Reveals the literals the declarations are made of: ids are non-empty
/// and pairwise distinct where it matters.
proof fn lemma_times_table_literals()
    ensures
        "help"@.len() == 4,
        "lower_boundary_1"@.len() == 16,
        "upper_boundary_1"@.len() == 16,
        "lower_boundary_2"@.len() == 16,
        "upper_boundary_2"@.len() == 16,
        "help"@ != "lower_boundary_1"@,
        "help"@ != "upper_boundary_1"@,
        "help"@ != "lower_boundary_2"@,
        "help"@ != "upper_boundary_2"@,
        "lower_boundary_1"@ != "upper_boundary_1"@,
        "lower_boundary_1"@ != "lower_boundary_2"@,
        "lower_boundary_1"@ != "upper_boundary_2"@,
        "upper_boundary_1"@ != "lower_boundary_2"@,
        "upper_boundary_1"@ != "upper_boundary_2"@,
        "lower_boundary_2"@ != "upper_boundary_2"@,
{
    reveal_strlit("help");
    reveal_strlit("lower_boundary_1");
    reveal_strlit("upper_boundary_1");
    reveal_strlit("lower_boundary_2");
    reveal_strlit("upper_boundary_2");
    assert("lower_boundary_1"@[0] != "upper_boundary_1"@[0]);
    assert("lower_boundary_1"@[15] != "lower_boundary_2"@[15]);
    assert("lower_boundary_1"@[0] != "upper_boundary_2"@[0]);
    assert("upper_boundary_1"@[0] != "lower_boundary_2"@[0]);
    assert("upper_boundary_1"@[15] != "upper_boundary_2"@[15]);
    assert("lower_boundary_2"@[0] != "upper_boundary_2"@[0]);
}

/// The accessors' preconditions over the concrete declarations.
proof fn lemma_times_table_defs_facts()
    ensures
        ({
            let defs = times_table_arg_definitions();
            &&& forall|j: int|
                0 <= j < defs.len() ==> crate::args::definition::arg_wf(#[trigger] defs[j])
            &&& find_def_by_id(defs, "help"@) == Some(0int)
            &&& find_def_by_id(defs, "lower_boundary_1"@) == Some(1int)
            &&& find_def_by_id(defs, "upper_boundary_1"@) == Some(2int)
            &&& find_def_by_id(defs, "lower_boundary_2"@) == Some(3int)
            &&& find_def_by_id(defs, "upper_boundary_2"@) == Some(4int)
            &&& forall|j: int|
                0 <= j < defs.len() && (#[trigger] defs[j]).id == "help"@ ==> defs[j].kind
                    == ArgKindModel::Flag
            &&& forall|j: int|
                0 <= j < defs.len() && (#[trigger] defs[j]).id == "lower_boundary_1"@
                    ==> defs[j].kind == ArgKindModel::Value(ValueKindModel::UnsignedInt)
            &&& forall|j: int|
                0 <= j < defs.len() && (#[trigger] defs[j]).id == "upper_boundary_1"@
                    ==> defs[j].kind == ArgKindModel::Value(ValueKindModel::UnsignedInt)
            &&& forall|j: int|
                0 <= j < defs.len() && (#[trigger] defs[j]).id == "lower_boundary_2"@
                    ==> defs[j].kind == ArgKindModel::Value(ValueKindModel::UnsignedInt)
            &&& forall|j: int|
                0 <= j < defs.len() && (#[trigger] defs[j]).id == "upper_boundary_2"@
                    ==> defs[j].kind == ArgKindModel::Value(ValueKindModel::UnsignedInt)
        }),
{
    lemma_times_table_literals();
    let defs = times_table_arg_definitions();
    let t1 = defs.drop_first();
    let t2 = t1.drop_first();
    let t3 = t2.drop_first();
    let t4 = t3.drop_first();
    assert(t1 =~= seq![defs[1], defs[2], defs[3], defs[4]]);
    assert(t2 =~= seq![defs[2], defs[3], defs[4]]);
    assert(t3 =~= seq![defs[3], defs[4]]);
    assert(t4 =~= seq![defs[4]]);
    assert(t4.drop_first() =~= Seq::<ArgModel>::empty());
    assert(find_def_by_id(defs, "help"@) == Some(0int));
    assert(find_def_by_id(t1, "lower_boundary_1"@) == Some(0int));
    assert(find_def_by_id(defs, "lower_boundary_1"@) == Some(1int));
    assert(find_def_by_id(t2, "upper_boundary_1"@) == Some(0int));
    assert(find_def_by_id(t1, "upper_boundary_1"@) == Some(1int));
    assert(find_def_by_id(defs, "upper_boundary_1"@) == Some(2int));
    assert(find_def_by_id(t3, "lower_boundary_2"@) == Some(0int));
    assert(find_def_by_id(t2, "lower_boundary_2"@) == Some(1int));
    assert(find_def_by_id(t1, "lower_boundary_2"@) == Some(2int));
    assert(find_def_by_id(defs, "lower_boundary_2"@) == Some(3int));
    assert(find_def_by_id(t4, "upper_boundary_2"@) == Some(0int));
    assert(find_def_by_id(t3, "upper_boundary_2"@) == Some(1int));
    assert(find_def_by_id(t2, "upper_boundary_2"@) == Some(2int));
    assert(find_def_by_id(t1, "upper_boundary_2"@) == Some(3int));
    assert(find_def_by_id(defs, "upper_boundary_2"@) == Some(4int));
}

/// The times-table help text stays within 80 columns.
proof fn lemma_times_table_help_fits()
    ensures
        help::spec_column_width(
            times_table_arg_definitions(),
            Seq::<help::CommandModel>::empty(),
        ) == 27,
        help::max_line_len(
            help::spec_render(
                spec_usage(),
                Some(spec_additional_info()),
                "Times table options"@,
                times_table_arg_definitions(),
                Seq::<help::CommandModel>::empty(),
            ),
        ) <= 80,
{
    reveal_strlit("help");
    reveal_strlit("lower-boundary-1");
    reveal_strlit("upper-boundary-1");
    reveal_strlit("lower-boundary-2");
    reveal_strlit("upper-boundary-2");
    reveal_strlit("--");
    reveal_strlit("Display help for times_table command.");
    reveal_strlit("Set the minimum value");
    reveal_strlit("Set the maximum value");
    reveal_strlit("for the first factor (default: 1).");
    reveal_strlit("for the first factor (default: 10).");
    reveal_strlit("for the second factor (default: 1).");
    reveal_strlit("for the second factor (default: 10).");
    reveal_strlit("Times table options");
    reveal_strlit("Usage: practicestuff [option]... times_table [times_table_option]...");
    reveal_strlit("Practise multiplication with a customisable factors' range.");
    reveal_strlit("By default, the range of factors mimics the normal times table (1-10).");
    reveal_strlit("The range is set separately for both factors.");
    reveal_strlit("\n");
    let defs = times_table_arg_definitions();
    let cmds = Seq::<help::CommandModel>::empty();
    assert(help::max_opt_width(defs) == 18) by {
        let d4 = defs.drop_last();
        let d3 = d4.drop_last();
        let d2 = d3.drop_last();
        let d1 = d2.drop_last();
        assert(d4 =~= seq![defs[0], defs[1], defs[2], defs[3]]);
        assert(d3 =~= seq![defs[0], defs[1], defs[2]]);
        assert(d2 =~= seq![defs[0], defs[1]]);
        assert(d1 =~= seq![defs[0]]);
        assert(d1.drop_last() =~= Seq::<ArgModel>::empty());
        assert(help::opt_name_width(defs[0]) == 6);
        assert(help::opt_name_width(defs[1]) == 18);
        assert(help::opt_name_width(defs[2]) == 18);
        assert(help::opt_name_width(defs[3]) == 18);
        assert(help::opt_name_width(defs[4]) == 18);
        assert(help::max_opt_width(Seq::<ArgModel>::empty()) == 0);
        assert(help::max_opt_width(d1) == 6);
        assert(help::max_opt_width(d2) == 18);
        assert(help::max_opt_width(d3) == 18);
        assert(help::max_opt_width(d4) == 18);
    }
    assert(help::max_cmd_width(cmds) == 0);
    let w = help::spec_column_width(defs, cmds);
    assert(w == 27);
    assert forall|k: int| 0 <= k < defs.len() implies help::opt_fits(#[trigger] defs[k], 27) by {
        assert(help::no_nl("--"@ + "help"@));
        assert(help::no_nl("--"@ + "lower-boundary-1"@));
        assert(help::no_nl("--"@ + "upper-boundary-1"@));
        assert(help::no_nl("--"@ + "lower-boundary-2"@));
        assert(help::no_nl("--"@ + "upper-boundary-2"@));
        assert(help::no_nl("Display help for times_table command."@));
        assert(help::no_nl("Set the minimum value"@));
        assert(help::no_nl("Set the maximum value"@));
        assert(help::no_nl("for the first factor (default: 1)."@));
        assert(help::no_nl("for the first factor (default: 10)."@));
        assert(help::no_nl("for the second factor (default: 1)."@));
        assert(help::no_nl("for the second factor (default: 10)."@));
        help::lemma_mll_acc_no_nl("Display help for times_table command."@, 0);
        help::lemma_mll_acc_no_nl("Set the minimum value"@, 0);
        help::lemma_mll_acc_no_nl("Set the maximum value"@, 0);
        help::lemma_mll_acc_no_nl("for the first factor (default: 1)."@, 0);
        help::lemma_mll_acc_no_nl("for the first factor (default: 10)."@, 0);
        help::lemma_mll_acc_no_nl("for the second factor (default: 1)."@, 0);
        help::lemma_mll_acc_no_nl("for the second factor (default: 10)."@, 0);
    }
    assert(help::no_nl(spec_usage()));
    help::lemma_mll_acc_no_nl(spec_usage(), 0);
    assert(help::max_line_len(spec_additional_info()) <= 80) by {
        let a = "Practise multiplication with a customisable factors' range."@;
        let b = "By default, the range of factors mimics the normal times table (1-10)."@;
        let c = "The range is set separately for both factors."@;
        assert(spec_additional_info() =~= a + seq!['\n'] + (b + seq!['\n'] + c));
        help::lemma_mll_split(a, b + seq!['\n'] + c, 0);
        help::lemma_mll_split(b, c, 0);
        assert(help::no_nl(a));
        assert(help::no_nl(b));
        assert(help::no_nl(c));
        help::lemma_mll_acc_no_nl(a, 0);
        help::lemma_mll_acc_no_nl(b, 0);
        help::lemma_mll_acc_no_nl(c, 0);
    }
    assert(help::no_nl("Times table options"@));
    help::lemma_render_fits(
        spec_usage(),
        Some(spec_additional_info()),
        "Times table options"@,
        defs,
        cmds,
    );
}

} // verus!
