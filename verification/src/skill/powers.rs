//! The powers skill: practise raising a configurable base to exponents
//! drawn from a configurable range, with an overflow-checked upper bound.

use crate::args::definition::{Arg, ArgKind, ArgKindModel, ArgModel, ValueKind, ValueKindModel};
use crate::args::help;
use crate::args::parser;
use crate::args::set_value::{
    eff_bool, eff_u32, find_def_by_id, lemma_effective_value_shape, SetFromArg,
};
use crate::args::{models_of, ArgValue, ArgValueModel};
use crate::question::Question;
use crate::skill::Base;
use crate::text;
use vstd::prelude::*;
use vstd::string::StrSliceExecFns;
use vstd::string::StringExecFns;

verus! {

pub const CMD: &'static str = "powers";

// ---------------------------------------------------------------------
// Powers of integers
// ---------------------------------------------------------------------
pub open spec fn spec_pow(base: nat, exp: nat) -> nat
    decreases exp,
{
    if exp == 0 {
        1
    } else {
        base * spec_pow(base, (exp - 1) as nat)
    }
}

/// `base^exp` fits in a `u64`.
pub open spec fn pow_fits(base: nat, exp: nat) -> bool {
    spec_pow(base, exp) <= u64::MAX
}

proof fn lemma_pow_monotone(base: nat, e1: nat, e2: nat)
    requires
        base >= 1,
        e1 <= e2,
    ensures
        spec_pow(base, e1) <= spec_pow(base, e2),
    decreases e2,
{
    if e1 < e2 {
        lemma_pow_monotone(base, e1, (e2 - 1) as nat);
        assert(spec_pow(base, e2) == base * spec_pow(base, (e2 - 1) as nat));
        assert(base * spec_pow(base, (e2 - 1) as nat) >= 1 * spec_pow(base, (e2 - 1) as nat))
            by (nonlinear_arith)
            requires
                base >= 1,
                spec_pow(base, (e2 - 1) as nat) >= 0,
        ;
    }
}

proof fn lemma_pow_small_base(base: nat, exp: nat)
    requires
        base <= 1,
    ensures
        spec_pow(base, exp) <= 1,
    decreases exp,
{
    if exp > 0 {
        lemma_pow_small_base(base, (exp - 1) as nat);
        assert(spec_pow(base, exp) == base * spec_pow(base, (exp - 1) as nat));
        assert(base * spec_pow(base, (exp - 1) as nat) <= 1) by (nonlinear_arith)
            requires
                base <= 1,
                0 <= spec_pow(base, (exp - 1) as nat) <= 1,
        ;
    }
}

proof fn lemma_div_mul_le(a: int, b: int, m: int)
    requires
        b >= 1,
        m >= 0,
        0 <= a <= m / b,
    ensures
        a * b <= m,
{
    vstd::arithmetic::div_mod::lemma_fundamental_div_mod(m, b);
    assert(a * b <= (m / b) * b) by (nonlinear_arith)
        requires
            0 <= a <= m / b,
            b >= 1,
    ;
    assert((m / b) * b == b * (m / b)) by (nonlinear_arith);
}

proof fn lemma_div_mul_gt(a: int, b: int, m: int)
    requires
        b >= 1,
        m >= 0,
        a > m / b,
    ensures
        a * b > m,
{
    vstd::arithmetic::div_mod::lemma_fundamental_div_mod(m, b);
    assert(a * b >= (m / b + 1) * b) by (nonlinear_arith)
        requires
            a >= m / b + 1,
            b >= 1,
    ;
    assert((m / b + 1) * b == b * (m / b) + b) by (nonlinear_arith);
}

/// Computes `base^exp` in a `u64`, or reports that it does not fit.
fn checked_pow_u64(base: u32, exp: u32) -> (r: Option<u64>)
    ensures
        match r {
            Some(v) => v == spec_pow(base as nat, exp as nat) && pow_fits(base as nat, exp as nat),
            None => !pow_fits(base as nat, exp as nat),
        },
{
    let mut acc: u64 = 1;
    let mut i: u32 = 0;
    while i < exp
        invariant
            i <= exp,
            acc == spec_pow(base as nat, i as nat),
        decreases exp - i,
    {
        proof {
            assert(spec_pow(base as nat, (i + 1) as nat) == base * spec_pow(
                base as nat,
                i as nat,
            ));
        }
        if base == 0 {
            acc = 0;
            proof {
                assert(spec_pow(base as nat, (i + 1) as nat) == 0) by (nonlinear_arith)
                    requires
                        spec_pow(base as nat, (i + 1) as nat) == base * spec_pow(
                            base as nat,
                            i as nat,
                        ),
                        base == 0,
                ;
            }
        } else {
            let limit = u64::MAX / (base as u64);
            if acc > limit {
                proof {
                    lemma_div_mul_gt(acc as int, base as int, u64::MAX as int);
                    assert((acc as int) * (base as int) == (base as int) * (acc as int))
                        by (nonlinear_arith);
                    assert(base >= 2) by {
                        if base <= 1 {
                            lemma_pow_small_base(base as nat, i as nat);
                        }
                    }
                    lemma_pow_monotone(base as nat, (i + 1) as nat, exp as nat);
                }
                return None;
            }
            proof {
                lemma_div_mul_le(acc as int, base as int, u64::MAX as int);
                assert((acc as int) * (base as int) == (base as int) * (acc as int))
                    by (nonlinear_arith);
            }
            acc = acc * (base as u64);
        }
        i += 1;
    }
    Some(acc)
}

// ---------------------------------------------------------------------
// Declarations and messages
// ---------------------------------------------------------------------
/// The option declarations of the powers command.
pub open spec fn powers_arg_definitions() -> Seq<ArgModel> {
    seq![
        ArgModel {
            id: "help"@,
            short_name: Some('h'),
            long_name: Some("help"@),
            description: seq!["Display help for powers command."@],
            kind: ArgKindModel::Flag,
            stop_parsing: true,
            default_value: ArgValueModel::Bool(false),
        },
        ArgModel {
            id: "base"@,
            short_name: Some('b'),
            long_name: Some("base"@),
            description: seq!["Set the base for powers (default: 2)."@],
            kind: ArgKindModel::Value(ValueKindModel::UnsignedInt),
            stop_parsing: false,
            default_value: ArgValueModel::UnsignedInt(2),
        },
        ArgModel {
            id: "lower_boundary"@,
            short_name: Some('l'),
            long_name: Some("lower-boundary"@),
            description: seq!["Set the minimum exponent to use"@, "in questions (default: 1)."@],
            kind: ArgKindModel::Value(ValueKindModel::UnsignedInt),
            stop_parsing: false,
            default_value: ArgValueModel::UnsignedInt(1),
        },
        ArgModel {
            id: "upper_boundary"@,
            short_name: Some('u'),
            long_name: Some("upper-boundary"@),
            description: seq!["Set the maximum exponent to use"@, "in questions (default: 16)."@],
            kind: ArgKindModel::Value(ValueKindModel::UnsignedInt),
            stop_parsing: false,
            default_value: ArgValueModel::UnsignedInt(16),
        },
    ]
}

pub open spec fn spec_usage() -> Seq<char> {
    "Usage: practicestuff [option]... powers [powers_option]..."@
}

pub open spec fn spec_help_prompt() -> Seq<char> {
    "Try 'practicestuff powers --help' for more information."@
}

pub open spec fn spec_additional_info() -> Seq<char> {
    "Practice powers with a customizable base and exponent range."@ + "\n"@
        + "By default, the base is 2, with exponents ranging from 1 to 16."@
}

/// The command's error shape: the program and command names, the message,
/// then usage and the help prompt.
pub open spec fn spec_err_message(msg: Option<Seq<char>>) -> Seq<char> {
    match msg {
        Some(m) => "practicestuff: powers: "@ + m + "\n"@ + spec_usage() + "\n"@
            + spec_help_prompt(),
        None => spec_usage() + "\n"@ + spec_help_prompt(),
    }
}

/// The powers skill: ask for `base^exp` with the exponent drawn from
/// `lower_boundary..=upper_boundary`; `base^upper_boundary` fits a `u64`.
#[derive(Debug)]
pub struct Powers {
    show_help: bool,
    base: u32,
    lower_boundary: u32,
    upper_boundary: u32,
}

impl Powers {
    #[verifier::type_invariant]
    pub closed spec fn type_wf(self) -> bool {
        &&& self.lower_boundary <= self.upper_boundary
        &&& pow_fits(self.base as nat, self.upper_boundary as nat)
    }

    pub closed spec fn spec_show_help(&self) -> bool {
        self.show_help
    }

    pub closed spec fn spec_base(&self) -> u32 {
        self.base
    }

    pub closed spec fn spec_lower_boundary(&self) -> u32 {
        self.lower_boundary
    }

    pub closed spec fn spec_upper_boundary(&self) -> u32 {
        self.upper_boundary
    }

    pub fn show_help(&self) -> (r: bool)
        ensures
            r == self.spec_show_help(),
    {
        self.show_help
    }

    pub fn base(&self) -> (r: u32)
        ensures
            r == self.spec_base(),
    {
        self.base
    }

    pub fn lower_boundary(&self) -> (r: u32)
        ensures
            r == self.spec_lower_boundary(),
    {
        self.lower_boundary
    }

    pub fn upper_boundary(&self) -> (r: u32)
        ensures
            r == self.spec_upper_boundary(),
    {
        self.upper_boundary
    }

    /// Parses and validates the command's options, applying defaults and
    /// rejecting a crossed range or a power that cannot be computed.
    pub fn build(args: &[String]) -> (r: Result<Powers, String>)
        ensures
            ({
                let defs = powers_arg_definitions();
                match parser::spec_parse_list(models_of(args@), defs) {
                    Err(m) => r matches Err(e) && e@ == spec_err_message(Some(m)),
                    Ok(pairs) => {
                        let show_help = eff_bool("help"@, pairs, defs);
                        let base = eff_u32("base"@, pairs, defs);
                        let lower = eff_u32("lower_boundary"@, pairs, defs);
                        let upper = eff_u32("upper_boundary"@, pairs, defs);
                        if lower > upper {
                            r matches Err(e) && e@ == spec_err_message(
                                Some(
                                    "lower boundary must be less than or equal to upper boundary"@,
                                ),
                            )
                        } else if !pow_fits(base as nat, upper as nat) {
                            r matches Err(e) && (exists|m: u32|
                                (#[trigger] pow_fits(base as nat, m as nat)) && m <= upper
                                    && (forall|e2: u32|
                                    m < e2 <= upper ==> !pow_fits(base as nat, e2 as nat)) && e@
                                    == spec_err_message(
                                    Some(
                                        text::dec_nat(base as nat) + "^"@ + text::dec_nat(
                                            upper as nat,
                                        )
                                            + " exceeds maximum allowed value. Maximum exponent for base "@
                                            + text::dec_nat(base as nat) + " is "@ + text::dec_nat(
                                            m as nat,
                                        ),
                                    ),
                                ))
                        } else {
                            r matches Ok(p) && p.spec_show_help() == show_help && p.spec_base()
                                == base && p.spec_lower_boundary() == lower
                                && p.spec_upper_boundary() == upper
                        }
                    },
                }
            }),
    {
        let ghost defs = powers_arg_definitions();
        let arg_definitions = Self::get_arg_definitions();
        let parsed_args = match parser::parse_and_validate_arg_list(
            args,
            arg_definitions.as_slice(),
        ) {
            Ok(p) => p,
            Err(e) => {
                return Err(Self::build_err_message(Some(e)));
            },
        };
        proof {
            let pairs = models_of(parsed_args@);
            parser::lemma_parse_list_typed(models_of(args@), defs, pairs);
            lemma_powers_defs_facts();
            lemma_effective_value_shape(defs, pairs, "help"@, ArgKindModel::Flag);
            lemma_effective_value_shape(
                defs,
                pairs,
                "base"@,
                ArgKindModel::Value(ValueKindModel::UnsignedInt),
            );
            lemma_effective_value_shape(
                defs,
                pairs,
                "lower_boundary"@,
                ArgKindModel::Value(ValueKindModel::UnsignedInt),
            );
            lemma_effective_value_shape(
                defs,
                pairs,
                "upper_boundary"@,
                ArgKindModel::Value(ValueKindModel::UnsignedInt),
            );
        }
        let show_help = bool::set_value_from_arg_or_default(
            "help",
            parsed_args.as_slice(),
            arg_definitions.as_slice(),
        );
        let base = u32::set_value_from_arg_or_default(
            "base",
            parsed_args.as_slice(),
            arg_definitions.as_slice(),
        );
        let lower_boundary = u32::set_value_from_arg_or_default(
            "lower_boundary",
            parsed_args.as_slice(),
            arg_definitions.as_slice(),
        );
        let upper_boundary = u32::set_value_from_arg_or_default(
            "upper_boundary",
            parsed_args.as_slice(),
            arg_definitions.as_slice(),
        );
        if lower_boundary > upper_boundary {
            return Err(
                Self::build_err_message(
                    Some(
                        String::from_str(
                            "lower boundary must be less than or equal to upper boundary",
                        ),
                    ),
                ),
            );
        }
        if checked_pow_u64(base, upper_boundary).is_none() {
            let max_exp = Self::calculate_max_exponent(base, upper_boundary);
            let mut m = text::u32_to_string(base);
            m.append("^");
            let u = text::u32_to_string(upper_boundary);
            m.append(u.as_str());
            m.append(" exceeds maximum allowed value. Maximum exponent for base ");
            let b = text::u32_to_string(base);
            m.append(b.as_str());
            m.append(" is ");
            let x = text::u32_to_string(max_exp);
            m.append(x.as_str());
            proof {
                assert(m@ =~= text::dec_nat(base as nat) + "^"@ + text::dec_nat(
                    upper_boundary as nat,
                ) + " exceeds maximum allowed value. Maximum exponent for base "@ + text::dec_nat(
                    base as nat,
                ) + " is "@ + text::dec_nat(max_exp as nat));
            }
            return Err(Self::build_err_message(Some(m)));
        }
        Ok(Powers { show_help, base, lower_boundary, upper_boundary })
    }

    fn usage() -> (r: String)
        ensures
            r@ == spec_usage(),
    {
        String::from_str("Usage: practicestuff [option]... powers [powers_option]...")
    }

    fn help_prompt() -> (r: String)
        ensures
            r@ == spec_help_prompt(),
    {
        String::from_str("Try 'practicestuff powers --help' for more information.")
    }

    fn additional_info() -> (r: String)
        ensures
            r@ == spec_additional_info(),
    {
        let mut s = String::from_str(
            "Practice powers with a customizable base and exponent range.",
        );
        s.append("\n");
        s.append("By default, the base is 2, with exponents ranging from 1 to 16.");
        s
    }

    /// The command's option declarations.
    pub fn get_arg_definitions() -> (r: Vec<Arg>)
        ensures
            models_of(r@) == powers_arg_definitions(),
    {
        proof {
            lemma_powers_literals();
        }
        let mut defs: Vec<Arg> = Vec::new();
        let mut d0_desc: Vec<String> = Vec::new();
        d0_desc.push(String::from_str("Display help for powers command."));
        let ghost d0_desc_snapshot = d0_desc@;
        defs.push(
            Arg::builder().id("help").short_name('h').long_name("help").description(
                d0_desc,
            ).kind(ArgKind::Flag).stop_parsing(true).default_value(ArgValue::Bool(false)).build(),
        );
        let mut d1_desc: Vec<String> = Vec::new();
        d1_desc.push(String::from_str("Set the base for powers (default: 2)."));
        let ghost d1_desc_snapshot = d1_desc@;
        defs.push(
            Arg::builder().id("base").short_name('b').long_name("base").description(d1_desc).kind(
                ArgKind::Value(ValueKind::UnsignedInt),
            ).stop_parsing(false).default_value(ArgValue::UnsignedInt(2)).build(),
        );
        let mut d2_desc: Vec<String> = Vec::new();
        d2_desc.push(String::from_str("Set the minimum exponent to use"));
        d2_desc.push(String::from_str("in questions (default: 1)."));
        let ghost d2_desc_snapshot = d2_desc@;
        defs.push(
            Arg::builder().id("lower_boundary").short_name('l').long_name(
                "lower-boundary",
            ).description(d2_desc).kind(ArgKind::Value(ValueKind::UnsignedInt)).stop_parsing(
                false,
            ).default_value(ArgValue::UnsignedInt(1)).build(),
        );
        let mut d3_desc: Vec<String> = Vec::new();
        d3_desc.push(String::from_str("Set the maximum exponent to use"));
        d3_desc.push(String::from_str("in questions (default: 16)."));
        let ghost d3_desc_snapshot = d3_desc@;
        defs.push(
            Arg::builder().id("upper_boundary").short_name('u').long_name(
                "upper-boundary",
            ).description(d3_desc).kind(ArgKind::Value(ValueKind::UnsignedInt)).stop_parsing(
                false,
            ).default_value(ArgValue::UnsignedInt(16)).build(),
        );
        proof {
            assert(models_of(d0_desc_snapshot) =~= seq!["Display help for powers command."@]);
            assert(models_of(d1_desc_snapshot) =~= seq![
                "Set the base for powers (default: 2)."@,
            ]);
            assert(models_of(d2_desc_snapshot) =~= seq![
                "Set the minimum exponent to use"@,
                "in questions (default: 1)."@,
            ]);
            assert(models_of(d3_desc_snapshot) =~= seq![
                "Set the maximum exponent to use"@,
                "in questions (default: 16)."@,
            ]);
            assert(defs@[0]@ == powers_arg_definitions()[0]);
            assert(defs@[1]@ == powers_arg_definitions()[1]);
            assert(defs@[2]@ == powers_arg_definitions()[2]);
            assert(defs@[3]@ == powers_arg_definitions()[3]);
            assert(models_of(defs@) =~= powers_arg_definitions());
        }
        defs
    }

    /// Wraps an error in the command's message shape.
    pub fn build_err_message(msg: Option<String>) -> (r: String)
        ensures
            r@ == spec_err_message(
                match msg {
                    Some(m) => Some(m@),
                    None => None,
                },
            ),
    {
        match msg {
            Some(m) => {
                let mut s = String::from_str("practicestuff: powers: ");
                s.append(m.as_str());
                s.append("\n");
                let u = Self::usage();
                s.append(u.as_str());
                s.append("\n");
                let h = Self::help_prompt();
                s.append(h.as_str());
                s
            },
            None => {
                let mut s = Self::usage();
                s.append("\n");
                let h = Self::help_prompt();
                s.append(h.as_str());
                s
            },
        }
    }

    /// One question: `base^exp` for a random exponent within the range.
    pub fn generate_question(&self) -> (q: Question)
        ensures
            exists|e: u32|
                self.spec_lower_boundary() <= e <= self.spec_upper_boundary() && q@.question
                    == text::dec_nat(self.spec_base() as nat) + "^"@ + text::dec_nat(e as nat)
                    && q@.answer == text::dec_nat(spec_pow(self.spec_base() as nat, e as nat))
                    && q@.alternative_answers.len() == 0 && !q@.allow_any_case,
    {
        proof {
            use_type_invariant(self);
        }
        let exp = crate::random::random_in_range_u32(self.lower_boundary, self.upper_boundary);
        proof {
            if self.base >= 1 {
                lemma_pow_monotone(self.base as nat, exp as nat, self.upper_boundary as nat);
            } else {
                lemma_pow_small_base(self.base as nat, exp as nat);
            }
        }
        let result = match checked_pow_u64(self.base, exp) {
            Some(v) => v,
            None => vstd::pervasive::unreached(),
        };
        let mut qtext = text::u32_to_string(self.base);
        qtext.append("^");
        let e = text::u32_to_string(exp);
        qtext.append(e.as_str());
        let answer = text::u64_to_string(result);
        proof {
            assert(qtext@ =~= text::dec_nat(self.spec_base() as nat) + "^"@ + text::dec_nat(
                exp as nat,
            ));
            assert(qtext@.len() > 0);
            assert(answer@.len() > 0);
        }
        let q = Question::builder().question(qtext.as_str()).answer(answer.as_str()).build();
        proof {
            assert(crate::args::models_of(Seq::<String>::empty()) =~= Seq::<Seq<char>>::empty());
        }
        q
    }

    /// The greatest exponent not above `chosen_exponent` whose power of
    /// `base` still fits in a `u64`.
    pub fn calculate_max_exponent(base: u32, chosen_exponent: u32) -> (r: u32)
        ensures
            r <= chosen_exponent,
            pow_fits(base as nat, r as nat),
            forall|e: u32| r < e <= chosen_exponent ==> !pow_fits(base as nat, e as nat),
    {
        let mut low: u64 = 0;
        let mut high: u64 = chosen_exponent as u64;
        let mut max_exp: u32 = 0;
        while low <= high
            invariant
                high <= chosen_exponent,
                max_exp <= chosen_exponent,
                pow_fits(base as nat, max_exp as nat),
                forall|e: u32| high < e <= chosen_exponent ==> !pow_fits(base as nat, e as nat),
                low >= 1 ==> max_exp == low - 1,
                low <= high + 1,
            decreases high + 1 - low,
        {
            let mid = low + (high - low) / 2;
            if checked_pow_u64(base, mid as u32).is_none() {
                proof {
                    assert(mid >= 1) by {
                        assert(pow_fits(base as nat, 0));
                    }
                    assert(base >= 2) by {
                        if base <= 1 {
                            lemma_pow_small_base(base as nat, mid as nat);
                        }
                    }
                    assert forall|e: u32| mid <= e <= chosen_exponent implies !pow_fits(
                        base as nat,
                        e as nat,
                    ) by {
                        lemma_pow_monotone(base as nat, mid as nat, e as nat);
                    }
                }
                high = mid - 1;
            } else {
                max_exp = mid as u32;
                low = mid + 1;
            }
        }
        max_exp
    }
}

impl Base for Powers {
    fn wants_to_print_help(&self) -> bool {
        self.show_help
    }

    fn get_help_text(&self) -> String {
        let arg_definitions = Self::get_arg_definitions();
        let usage = Self::usage();
        let info = Self::additional_info();
        let options = help::Options::new("Powers options", arg_definitions.as_slice());
        let commands: Vec<help::Command> = Vec::new();
        proof {
            assert(models_of(commands@) =~= Seq::<help::CommandModel>::empty());
            lemma_powers_help_fits();
        }
        help::build(usage.as_str(), Some(info.as_str()), &options, commands.as_slice())
    }

    fn generate_questions(&self, count: u32) -> (r: Vec<Question>) {
        let mut questions: Vec<Question> = Vec::new();
        let mut i: u32 = 0;
        while i < count
            invariant
                i <= count,
                questions@.len() == i as nat,
            decreases count - i,
        {
            questions.push(self.generate_question());
            i += 1;
        }
        questions
    }
}

/// Reveals the literals the declarations are made of: ids are non-empty
/// and pairwise distinct where it matters.
proof fn lemma_powers_literals()
    ensures
        "help"@.len() == 4,
        "base"@.len() == 4,
        "lower_boundary"@.len() == 14,
        "upper_boundary"@.len() == 14,
        "help"@ != "base"@,
        "help"@ != "lower_boundary"@,
        "help"@ != "upper_boundary"@,
        "base"@ != "lower_boundary"@,
        "base"@ != "upper_boundary"@,
        "lower_boundary"@ != "upper_boundary"@,
{
    reveal_strlit("help");
    reveal_strlit("base");
    reveal_strlit("lower_boundary");
    reveal_strlit("upper_boundary");
    assert("help"@[0] != "base"@[0]);
    assert("lower_boundary"@[0] != "upper_boundary"@[0]);
}

/// The accessors' preconditions over the concrete declarations: every id
/// is declared, with the expected kind, and all declarations are well
/// formed.
proof fn lemma_powers_defs_facts()
    ensures
        ({
            let defs = powers_arg_definitions();
            &&& forall|j: int|
                0 <= j < defs.len() ==> crate::args::definition::arg_wf(#[trigger] defs[j])
            &&& find_def_by_id(defs, "help"@) == Some(0int)
            &&& find_def_by_id(defs, "base"@) == Some(1int)
            &&& find_def_by_id(defs, "lower_boundary"@) == Some(2int)
            &&& find_def_by_id(defs, "upper_boundary"@) == Some(3int)
            &&& forall|j: int|
                0 <= j < defs.len() && (#[trigger] defs[j]).id == "help"@ ==> defs[j].kind
                    == ArgKindModel::Flag
            &&& forall|j: int|
                0 <= j < defs.len() && (#[trigger] defs[j]).id == "base"@ ==> defs[j].kind
                    == ArgKindModel::Value(ValueKindModel::UnsignedInt)
            &&& forall|j: int|
                0 <= j < defs.len() && (#[trigger] defs[j]).id == "lower_boundary"@ ==> defs[j].kind
                    == ArgKindModel::Value(ValueKindModel::UnsignedInt)
            &&& forall|j: int|
                0 <= j < defs.len() && (#[trigger] defs[j]).id == "upper_boundary"@ ==> defs[j].kind
                    == ArgKindModel::Value(ValueKindModel::UnsignedInt)
        }),
{
    lemma_powers_literals();
    let defs = powers_arg_definitions();
    let t1 = defs.drop_first();
    let t2 = t1.drop_first();
    let t3 = t2.drop_first();
    assert(t1 =~= seq![defs[1], defs[2], defs[3]]);
    assert(t2 =~= seq![defs[2], defs[3]]);
    assert(t3 =~= seq![defs[3]]);
    assert(t3.drop_first() =~= Seq::<ArgModel>::empty());
    assert(find_def_by_id(defs, "help"@) == Some(0int));
    assert(find_def_by_id(t1, "base"@) == Some(0int));
    assert(find_def_by_id(defs, "base"@) == Some(1int));
    assert(find_def_by_id(t2, "lower_boundary"@) == Some(0int));
    assert(find_def_by_id(t1, "lower_boundary"@) == Some(1int));
    assert(find_def_by_id(defs, "lower_boundary"@) == Some(2int));
    assert(find_def_by_id(t3, "upper_boundary"@) == Some(0int));
    assert(find_def_by_id(t2, "upper_boundary"@) == Some(1int));
    assert(find_def_by_id(t1, "upper_boundary"@) == Some(2int));
    assert(find_def_by_id(defs, "upper_boundary"@) == Some(3int));
}

/// The powers help text stays within 80 columns: the shared column is 25
/// and every description line is short enough.
proof fn lemma_powers_help_fits()
    ensures
        help::spec_column_width(powers_arg_definitions(), Seq::<help::CommandModel>::empty())
            == 25,
        help::max_line_len(
            help::spec_render(
                spec_usage(),
                Some(spec_additional_info()),
                "Powers options"@,
                powers_arg_definitions(),
                Seq::<help::CommandModel>::empty(),
            ),
        ) <= 80,
{
    reveal_strlit("help");
    reveal_strlit("base");
    reveal_strlit("lower-boundary");
    reveal_strlit("upper-boundary");
    reveal_strlit("--");
    reveal_strlit("Display help for powers command.");
    reveal_strlit("Set the base for powers (default: 2).");
    reveal_strlit("Set the minimum exponent to use");
    reveal_strlit("in questions (default: 1).");
    reveal_strlit("Set the maximum exponent to use");
    reveal_strlit("in questions (default: 16).");
    reveal_strlit("Powers options");
    reveal_strlit("Usage: practicestuff [option]... powers [powers_option]...");
    reveal_strlit("Practice powers with a customizable base and exponent range.");
    reveal_strlit("By default, the base is 2, with exponents ranging from 1 to 16.");
    reveal_strlit("\n");
    let defs = powers_arg_definitions();
    let cmds = Seq::<help::CommandModel>::empty();
    assert(help::max_opt_width(defs) == 16) by {
        let d3 = defs.drop_last();
        let d2 = d3.drop_last();
        let d1 = d2.drop_last();
        assert(d3 =~= seq![defs[0], defs[1], defs[2]]);
        assert(d2 =~= seq![defs[0], defs[1]]);
        assert(d1 =~= seq![defs[0]]);
        assert(d1.drop_last() =~= Seq::<ArgModel>::empty());
        assert(help::opt_name_width(defs[0]) == 6);
        assert(help::opt_name_width(defs[1]) == 6);
        assert(help::opt_name_width(defs[2]) == 16);
        assert(help::opt_name_width(defs[3]) == 16);
        assert(help::max_opt_width(Seq::<ArgModel>::empty()) == 0);
        assert(help::max_opt_width(d1) == 6);
        assert(help::max_opt_width(d2) == 6);
        assert(help::max_opt_width(d3) == 16);
    }
    assert(help::max_cmd_width(cmds) == 0);
    let w = help::spec_column_width(defs, cmds);
    assert(w == 25);
    assert forall|k: int| 0 <= k < defs.len() implies help::opt_fits(#[trigger] defs[k], 25) by {
        assert(help::no_nl("--"@ + "help"@));
        assert(help::no_nl("--"@ + "base"@));
        assert(help::no_nl("--"@ + "lower-boundary"@));
        assert(help::no_nl("--"@ + "upper-boundary"@));
        assert(help::no_nl("Display help for powers command."@));
        assert(help::no_nl("Set the base for powers (default: 2)."@));
        assert(help::no_nl("Set the minimum exponent to use"@));
        assert(help::no_nl("in questions (default: 1)."@));
        assert(help::no_nl("Set the maximum exponent to use"@));
        assert(help::no_nl("in questions (default: 16)."@));
        help::lemma_mll_acc_no_nl("Display help for powers command."@, 0);
        help::lemma_mll_acc_no_nl("Set the base for powers (default: 2)."@, 0);
        help::lemma_mll_acc_no_nl("Set the minimum exponent to use"@, 0);
        help::lemma_mll_acc_no_nl("in questions (default: 1)."@, 0);
        help::lemma_mll_acc_no_nl("Set the maximum exponent to use"@, 0);
        help::lemma_mll_acc_no_nl("in questions (default: 16)."@, 0);
    }
    assert(help::no_nl(spec_usage()));
    help::lemma_mll_acc_no_nl(spec_usage(), 0);
    assert(help::max_line_len(spec_additional_info()) <= 80) by {
        let a = "Practice powers with a customizable base and exponent range."@;
        let b = "By default, the base is 2, with exponents ranging from 1 to 16."@;
        assert(spec_additional_info() =~= a + seq!['\n'] + b);
        help::lemma_mll_split(a, b, 0);
        assert(help::no_nl(a));
        assert(help::no_nl(b));
        help::lemma_mll_acc_no_nl(a, 0);
        help::lemma_mll_acc_no_nl(b, 0);
    }
    assert(help::no_nl("Powers options"@));
    help::lemma_render_fits(
        spec_usage(),
        Some(spec_additional_info()),
        "Powers options"@,
        defs,
        cmds,
    );
}

} // verus!
