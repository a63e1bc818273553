//! Tokenizer/validator and list parser: decomposes raw tokens, matches them
//! against declarations, coerces values, and drives a single left-to-right
//! pass over a full argument vector with duplicate/conflict detection and
//! early termination on stop-parsing options.

use crate::args::definition::{
    find_def, msg_unrecognised, Arg, ArgKind, ArgKindModel, ArgModel, ValueKind, ValueKindModel,
};
use crate::args::{models_of, ArgValue, ArgValueModel, ArgValuePair, ArgValuePairModel};
use crate::text;
use vstd::prelude::*;
use vstd::string::StrSliceExecFns;

verus! {

// ---------------------------------------------------------------------
// Error message texts
// ---------------------------------------------------------------------
pub open spec fn msg_invalid_option(t: Seq<char>) -> Seq<char> {
    "invalid option: '"@ + t + "'"@
}

pub open spec fn msg_requires_argument(t: Seq<char>) -> Seq<char> {
    "option '"@ + t + "' requires an argument"@
}

pub open spec fn msg_not_allow_argument(t: Seq<char>) -> Seq<char> {
    "option '"@ + t + "' doesn't allow an argument"@
}

pub open spec fn msg_invalid_value(v: Seq<char>) -> Seq<char> {
    "invalid option argument: '"@ + v + "'"@
}

/// The allowed strings of a one-of set, separated by `", "`.
pub open spec fn join_comma(s: Seq<Seq<char>>) -> Seq<char>
    decreases s.len(),
{
    if s.len() == 0 {
        Seq::empty()
    } else if s.len() == 1 {
        s[0]
    } else {
        join_comma(s.drop_last()) + ", "@ + s.last()
    }
}

pub open spec fn msg_invalid_value_one_of(v: Seq<char>, set: Seq<Seq<char>>) -> Seq<char> {
    "invalid option argument: '"@ + v + "'. Valid arguments are: "@ + join_comma(set)
}

pub open spec fn msg_conflict(t: Seq<char>) -> Seq<char> {
    "conflicting arguments for duplicated option: '"@ + t + "'"@
}

// ---------------------------------------------------------------------
// Token decomposition
// ---------------------------------------------------------------------
/// The index of the first `=` in the token, if any.
pub open spec fn first_eq(t: Seq<char>) -> Option<int>
    decreases t.len(),
{
    if t.len() == 0 {
        None
    } else if t[0] == '=' {
        Some(0)
    } else {
        match first_eq(t.drop_first()) {
            Some(i) => Some(i + 1),
            None => None,
        }
    }
}

pub proof fn lemma_first_eq(t: Seq<char>)
    ensures
        match first_eq(t) {
            Some(i) => 0 <= i < t.len() && t[i] == '=' && forall|j: int| 0 <= j < i ==> t[j] != '=',
            None => forall|j: int| 0 <= j < t.len() ==> t[j] != '=',
        },
    decreases t.len(),
{
    if t.len() > 0 && t[0] != '=' {
        let tail = t.drop_first();
        lemma_first_eq(tail);
        assert forall|j: int| 1 <= j < t.len() implies t[j] == tail[j - 1] by {}
    }
}

/// A token beginning with `--` is in long form.
pub open spec fn is_long_tok(t: Seq<char>) -> bool {
    t.len() >= 2 && t[0] == '-' && t[1] == '-'
}

/// Decomposition of one raw token into (is-long-form, name, inline value).
///
/// A short token must be exactly `-x`: two characters and no `=`. A long
/// token's name runs up to the first `=`, whose value must be non-empty.
pub open spec fn spec_decompose(t: Seq<char>) -> Result<
    (bool, Seq<char>, Option<Seq<char>>),
    Seq<char>,
> {
    let eq = first_eq(t);
    let is_long = is_long_tok(t);
    if !is_long && (eq is Some || t.len() == 0 || t[0] != '-' || t.len() != 2) {
        Err(msg_invalid_option(t))
    } else {
        let start: int = if is_long {
            2
        } else {
            1
        };
        match eq {
            Some(i) => if i + 1 == t.len() {
                Err(msg_requires_argument(t))
            } else {
                Ok((is_long, t.subrange(start, i), Some(t.subrange(i + 1, t.len() as int))))
            },
            None => Ok((is_long, t.subrange(start, t.len() as int), None)),
        }
    }
}

/// Splits one token into its long/short form, name and inline `=value`,
/// rejecting malformed tokens.
pub fn decompose_and_validate_arg_structure<'a>(arg: &'a str) -> (r: Result<
    (bool, &'a str, Option<&'a str>),
    String,
>)
    ensures
        match r {
            Ok((is_long, name, value)) => spec_decompose(arg@) matches Ok((il, n, v)) && is_long
                == il && name@ == n && (match value {
                Some(s) => v matches Some(vs) && s@ == vs,
                None => v is None,
            }),
            Err(e) => spec_decompose(arg@) matches Err(m) && e@ == m,
        },
{
    proof {
        lemma_first_eq(arg@);
    }
    let len = arg.unicode_len();
    let mut eq_index: Option<usize> = None;
    let mut i: usize = 0;
    while i < len
        invariant_except_break
            eq_index is None,
        invariant
            i <= len,
            len == arg@.len(),
            forall|j: int| 0 <= j < i ==> arg@[j] != '=',
        ensures
            match eq_index {
                Some(k) => 0 <= k < len && arg@[k as int] == '=' && forall|j: int|
                    0 <= j < k ==> arg@[j] != '=',
                None => forall|j: int| 0 <= j < len ==> arg@[j] != '=',
            },
        decreases len - i,
    {
        if arg.get_char(i) == '=' {
            eq_index = Some(i);
            break ;
        }
        i += 1;
    }
    proof {
        match eq_index {
            Some(k) => {
                assert(first_eq(arg@) == Some(k as int)) by {
                    lemma_first_eq(arg@);
                    match first_eq(arg@) {
                        Some(f) => {
                            assert(!(f < k) && !(k < f));
                        },
                        None => {
                            assert(arg@[k as int] == '=');
                        },
                    }
                }
            },
            None => {
                assert(first_eq(arg@) is None) by {
                    lemma_first_eq(arg@);
                    match first_eq(arg@) {
                        Some(f) => {
                            assert(arg@[f] != '=');
                        },
                        None => {},
                    }
                }
            },
        }
    }
    let is_long_name = len >= 2 && arg.get_char(0) == '-' && arg.get_char(1) == '-';
    if !is_long_name && (eq_index.is_some() || len == 0 || arg.get_char(0) != '-' || len != 2) {
        return Err(text::msg3("invalid option: '", arg, "'"));
    }
    let start_index: usize = if is_long_name {
        2
    } else {
        1
    };
    match eq_index {
        Some(eq) => {
            if eq + 1 == len {
                Err(text::msg3("option '", arg, "' requires an argument"))
            } else {
                let name = arg.substring_char(start_index, eq);
                let value = arg.substring_char(eq + 1, len);
                Ok((is_long_name, name, Some(value)))
            }
        },
        None => {
            let name = arg.substring_char(start_index, len);
            Ok((is_long_name, name, None))
        },
    }
}

// ---------------------------------------------------------------------
// Integer parsing
// ---------------------------------------------------------------------
pub open spec fn is_digit(c: char) -> bool {
    48 <= c as u32 <= 57
}

pub open spec fn digit_val(c: char) -> int {
    c as u32 - 48
}

pub open spec fn all_digits(s: Seq<char>) -> bool {
    forall|i: int| 0 <= i < s.len() ==> is_digit(s[i])
}

/// The numeric value of a digit string, most significant digit first.
pub open spec fn digits_val(s: Seq<char>) -> int
    decreases s.len(),
{
    if s.len() == 0 {
        0
    } else {
        digits_val(s.drop_last()) * 10 + digit_val(s.last())
    }
}

pub proof fn lemma_digits_val_nonneg(s: Seq<char>)
    requires
        all_digits(s),
    ensures
        digits_val(s) >= 0,
    decreases s.len(),
{
    if s.len() > 0 {
        lemma_digits_val_nonneg(s.drop_last());
    }
}

/// Extending a digit string can only increase its value.
pub proof fn lemma_digits_val_take_le(s: Seq<char>, k: int)
    requires
        all_digits(s),
        0 <= k <= s.len(),
    ensures
        digits_val(s.take(k)) <= digits_val(s),
    decreases s.len() - k,
{
    if k < s.len() {
        lemma_digits_val_take_le(s, k + 1);
        let t = s.take(k + 1);
        assert(t.drop_last() =~= s.take(k));
        lemma_digits_val_nonneg(s.take(k));
        assert(digits_val(t) == digits_val(s.take(k)) * 10 + digit_val(t.last()));
        assert(digits_val(s.take(k)) * 10 >= digits_val(s.take(k))) by (nonlinear_arith)
            requires
                digits_val(s.take(k)) >= 0,
        ;
    } else {
        assert(s.take(k) =~= s);
    }
}

/// The portion of a `u32` token after an optional leading `+`.
pub open spec fn u32_body(s: Seq<char>) -> Seq<char> {
    if s.len() > 0 && s[0] == '+' {
        s.drop_first()
    } else {
        s
    }
}

/// Standard unsigned parsing: optional `+`, then one or more digits whose
/// value fits in a `u32`.
pub open spec fn spec_parse_u32(s: Seq<char>) -> Option<u32> {
    let b = u32_body(s);
    if b.len() > 0 && all_digits(b) && digits_val(b) <= u32::MAX {
        Some(digits_val(b) as u32)
    } else {
        None
    }
}

/// Standard signed parsing: optional `+` or `-`, then one or more digits,
/// with the signed value in `i32` range.
pub open spec fn spec_parse_i32(s: Seq<char>) -> Option<i32> {
    if s.len() > 0 && (s[0] == '+' || s[0] == '-') {
        let b = s.drop_first();
        let neg = s[0] == '-';
        if b.len() > 0 && all_digits(b) {
            if neg {
                if -digits_val(b) >= i32::MIN {
                    Some((-digits_val(b)) as i32)
                } else {
                    None
                }
            } else {
                if digits_val(b) <= i32::MAX {
                    Some(digits_val(b) as i32)
                } else {
                    None
                }
            }
        } else {
            None
        }
    } else {
        if s.len() > 0 && all_digits(s) && digits_val(s) <= i32::MAX {
            Some(digits_val(s) as i32)
        } else {
            None
        }
    }
}

/// Accumulates the digits of `s` from `start` on, or reports that the
/// digits do not form a `u64`-range number. The result is exact.
fn parse_digits_u64(s: &str, start: usize, bound: u64) -> (r: Option<u64>)
    requires
        start <= s@.len(),
        bound >= 9,
    ensures
        ({
            let b = s@.skip(start as int);
            match r {
                Some(n) => b.len() > 0 && all_digits(b) && digits_val(b) == n && n <= bound,
                None => !(b.len() > 0 && all_digits(b) && digits_val(b) <= bound),
            }
        }),
{
    let len = s.unicode_len();
    if start >= len {
        return None;
    }
    let ghost b = s@.skip(start as int);
    let mut acc: u64 = 0;
    let mut i: usize = start;
    while i < len
        invariant
            start <= i <= len,
            len == s@.len(),
            b == s@.skip(start as int),
            bound >= 9,
            all_digits(b.take(i - start)),
            acc == digits_val(b.take(i - start)),
            acc <= bound,
        decreases len - i,
    {
        let c = s.get_char(i);
        let u = c as u32;
        if u < 48 || u > 57 {
            proof {
                assert(b[i - start] == s@[i as int]);
                assert(!is_digit(b[i - start]));
                assert(!all_digits(b));
            }
            return None;
        }
        let d: u64 = (u - 48) as u64;
        proof {
            assert(b.take(i + 1 - start).drop_last() =~= b.take(i - start));
            assert(b.take(i + 1 - start).last() == s@[i as int]);
        }
        if acc > (bound - d) / 10 {
            proof {
                assert(digits_val(b.take(i + 1 - start)) == acc * 10 + d);
                assert(acc * 10 + d > bound) by (nonlinear_arith)
                    requires
                        acc > (bound - d) / 10,
                        0 <= d <= 9,
                        bound >= 0,
                        acc >= 0,
                ;
                if all_digits(b) {
                    lemma_digits_val_take_le(b, i + 1 - start);
                }
            }
            return None;
        }
        acc = acc * 10 + d;
        i += 1;
    }
    proof {
        assert(b.take(len - start) =~= b);
    }
    Some(acc)
}

/// Parses a `u32` option value with standard semantics; out-of-range or
/// non-numeric text is an invalid option argument.
pub fn parse_u32(value: &str) -> (r: Result<u32, String>)
    ensures
        match r {
            Ok(n) => spec_parse_u32(value@) == Some(n),
            Err(e) => spec_parse_u32(value@) is None && e@ == msg_invalid_value(value@),
        },
{
    let len = value.unicode_len();
    let start: usize = if len > 0 && value.get_char(0) == '+' {
        1
    } else {
        0
    };
    proof {
        assert(value@.skip(start as int) =~= u32_body(value@));
    }
    match parse_digits_u64(value, start, u32::MAX as u64) {
        Some(n) => Ok(n as u32),
        None => Err(text::msg3("invalid option argument: '", value, "'")),
    }
}

/// Parses an `i32` option value with standard semantics.
pub fn parse_i32(value: &str) -> (r: Result<i32, String>)
    ensures
        match r {
            Ok(n) => spec_parse_i32(value@) == Some(n),
            Err(e) => spec_parse_i32(value@) is None && e@ == msg_invalid_value(value@),
        },
{
    let len = value.unicode_len();
    if len > 0 && value.get_char(0) == '-' {
        proof {
            assert(value@.skip(1) =~= value@.drop_first());
        }
        match parse_digits_u64(value, 1, 2147483648u64) {
            Some(n) => {
                let r: i32 = if n == 2147483648u64 {
                    i32::MIN
                } else {
                    -((n as i32))
                };
                return Ok(r);
            },
            None => {
                return Err(text::msg3("invalid option argument: '", value, "'"));
            },
        }
    }
    let start: usize = if len > 0 && value.get_char(0) == '+' {
        1
    } else {
        0
    };
    proof {
        if start == 1 {
            assert(value@.skip(1) =~= value@.drop_first());
        } else {
            assert(value@.skip(0) =~= value@);
        }
    }
    match parse_digits_u64(value, start, i32::MAX as u64) {
        Some(n) => Ok(n as i32),
        None => Err(text::msg3("invalid option argument: '", value, "'")),
    }
}

// ---------------------------------------------------------------------
// Value coercion
// ---------------------------------------------------------------------
/// Coercion of a raw value against a declaration, per its kind: flags
/// reject a value and yield `true`; valued kinds demand one and validate it.
pub open spec fn spec_coerce(arg: Seq<char>, value: Option<Seq<char>>, d: ArgModel) -> Result<
    ArgValueModel,
    Seq<char>,
> {
    match d.kind {
        ArgKindModel::Flag => {
            if value is Some {
                Err(msg_not_allow_argument(arg))
            } else {
                Ok(ArgValueModel::Bool(true))
            }
        },
        ArgKindModel::Value(vk) => match value {
            None => Err(msg_requires_argument(arg)),
            Some(v) => match vk {
                ValueKindModel::Int => match spec_parse_i32(v) {
                    Some(n) => Ok(ArgValueModel::Int(n)),
                    None => Err(msg_invalid_value(v)),
                },
                ValueKindModel::UnsignedInt => match spec_parse_u32(v) {
                    Some(n) => Ok(ArgValueModel::UnsignedInt(n)),
                    None => Err(msg_invalid_value(v)),
                },
                ValueKindModel::OneOfStr(set) => {
                    if set.contains(v) {
                        Ok(ArgValueModel::Str(v))
                    } else {
                        Err(msg_invalid_value_one_of(v, set))
                    }
                },
            },
        },
    }
}

/// Coercion followed by pairing with the declaration's id.
pub open spec fn spec_validate(arg: Seq<char>, value: Option<Seq<char>>, d: ArgModel) -> Result<
    ArgValuePairModel,
    Seq<char>,
> {
    match spec_coerce(arg, value, d) {
        Ok(v) => Ok(ArgValuePairModel { id: d.id, value: v }),
        Err(e) => Err(e),
    }
}

fn join_with_comma(items: &[String]) -> (r: String)
    ensures
        r@ == join_comma(models_of(items@)),
{
    let ghost models = models_of(items@);
    let mut s = String::new();
    let mut i: usize = 0;
    while i < items.len()
        invariant
            i <= items.len(),
            models == models_of(items@),
            s@ == join_comma(models.take(i as int)),
        decreases items.len() - i,
    {
        if i > 0 {
            s.append(", ");
        }
        s.append(items[i].as_str());
        proof {
            let t = models.take(i + 1);
            assert(t.drop_last() =~= models.take(i as int));
            assert(t.last() == models[i as int]);
        }
        i += 1;
    }
    proof {
        assert(models.take(items@.len() as int) =~= models);
    }
    s
}

/// Checks membership of `value` in the allowed set, case-sensitively, or
/// reports it together with the allowed strings.
pub fn validate_one_of_str<'a>(value: &'a str, possible_values: &[String]) -> (r: Result<
    &'a str,
    String,
>)
    ensures
        match r {
            Ok(v) => models_of(possible_values@).contains(value@) && v@ == value@,
            Err(e) => !models_of(possible_values@).contains(value@) && e@
                == msg_invalid_value_one_of(value@, models_of(possible_values@)),
        },
{
    let ghost models = models_of(possible_values@);
    let mut i: usize = 0;
    while i < possible_values.len()
        invariant
            i <= possible_values.len(),
            models == models_of(possible_values@),
            forall|j: int| 0 <= j < i ==> models[j] != value@,
        decreases possible_values.len() - i,
    {
        if text::str_eq(possible_values[i].as_str(), value) {
            proof {
                assert(models[i as int] == value@);
            }
            return Ok(value);
        }
        i += 1;
    }
    proof {
        assert(!models.contains(value@));
    }
    let mut msg = text::msg3("invalid option argument: '", value, "'. Valid arguments are: ");
    let joined = join_with_comma(possible_values);
    msg.append(joined.as_str());
    Err(msg)
}

/// Validates the raw value against the declaration and builds the parsed
/// `(id, value)` pair.
pub fn validate_and_create_arg(
    arg: &str,
    arg_value: Option<&str>,
    arg_definition: &Arg,
) -> (r: Result<ArgValuePair, String>)
    ensures
        ({
            let v = match arg_value {
                Some(s) => Some(s@),
                None => None::<Seq<char>>,
            };
            match r {
                Ok(pair) => spec_validate(arg@, v, arg_definition@) matches Ok(p) && pair@ == p,
                Err(e) => spec_validate(arg@, v, arg_definition@) matches Err(m) && e@ == m,
            }
        }),
{
    let value = match &arg_definition.kind {
        ArgKind::Flag => {
            if arg_value.is_some() {
                return Err(text::msg3("option '", arg, "' doesn't allow an argument"));
            }
            ArgValue::Bool(true)
        },
        ArgKind::Value(value_kind) => {
            let raw = match arg_value {
                Some(v) => v,
                None => {
                    return Err(text::msg3("option '", arg, "' requires an argument"));
                },
            };
            match value_kind {
                ValueKind::Int => match parse_i32(raw) {
                    Ok(n) => ArgValue::Int(n),
                    Err(e) => {
                        return Err(e);
                    },
                },
                ValueKind::UnsignedInt => match parse_u32(raw) {
                    Ok(n) => ArgValue::UnsignedInt(n),
                    Err(e) => {
                        return Err(e);
                    },
                },
                ValueKind::OneOfStr(possible_values) => {
                    match validate_one_of_str(raw, possible_values.as_slice()) {
                        Ok(v) => ArgValue::Str(String::from_str(v)),
                        Err(e) => {
                            return Err(e);
                        },
                    }
                },
            }
        },
    };
    Ok(ArgValuePair::new(arg_definition.id(), value))
}

// ---------------------------------------------------------------------
// Single-argument parsing
// ---------------------------------------------------------------------
/// One step of the list parser, looking at `args[0]`: decompose, match,
/// fetch a short option's value from the following token, and coerce.
/// Yields the parsed pair, whether the next token was consumed as a value,
/// and whether parsing must stop here.
pub open spec fn spec_parse_one(args: Seq<Seq<char>>, defs: Seq<ArgModel>) -> Result<
    (ArgValuePairModel, bool, bool),
    Seq<char>,
> {
    let t = args[0];
    match spec_decompose(t) {
        Err(e) => Err(e),
        Ok((is_long, name, inline_value)) => match find_def(defs, name, is_long) {
            None => Err(msg_unrecognised(t)),
            Some(j) => {
                let d = defs[j];
                if d.kind is Value {
                    if is_long && inline_value is None {
                        Err(msg_requires_argument(t))
                    } else if !is_long && args.len() < 2 {
                        Err(msg_requires_argument(t))
                    } else {
                        let value = if !is_long {
                            Some(args[1])
                        } else {
                            inline_value
                        };
                        match spec_validate(t, value, d) {
                            Ok(p) => Ok((p, !is_long, d.stop_parsing)),
                            Err(e) => Err(e),
                        }
                    }
                } else {
                    match spec_validate(t, inline_value, d) {
                        Ok(p) => Ok((p, false, d.stop_parsing)),
                        Err(e) => Err(e),
                    }
                }
            },
        },
    }
}

/// Parses and validates the argument at the head of `arg_list`, returning
/// the pair, the number of tokens consumed (1, or 2 when a short option
/// took its value from the following token), and the stop-parsing flag of
/// the matched declaration.
pub fn parse_and_validate_arg(arg_list: &[String], arg_definition_list: &[Arg]) -> (r: Result<
    (ArgValuePair, usize, bool),
    String,
>)
    requires
        arg_list@.len() > 0,
    ensures
        match r {
            Ok((pair, consumed, stop)) => spec_parse_one(
                models_of(arg_list@),
                models_of(arg_definition_list@),
            ) matches Ok((p, takes_next, st)) && pair@ == p && consumed == (if takes_next {
                2int
            } else {
                1int
            }) && stop == st,
            Err(e) => spec_parse_one(models_of(arg_list@), models_of(arg_definition_list@))
                matches Err(m) && e@ == m,
        },
{
    let ghost args = models_of(arg_list@);
    let ghost defs = models_of(arg_definition_list@);
    let next_arg = &arg_list[0];
    proof {
        assert(next_arg@ == args[0]);
    }
    let (is_long_name, arg_name, inline_value) = match decompose_and_validate_arg_structure(
        next_arg.as_str(),
    ) {
        Ok(d) => d,
        Err(e) => {
            return Err(e);
        },
    };
    let mut arg_value: Option<&str> = inline_value;
    proof {
        if !is_long_name {
            assert(arg_name@.len() > 0);
        }
    }
    let arg_definition = match crate::args::definition::match_arg(
        next_arg.as_str(),
        arg_name,
        is_long_name,
        arg_definition_list,
    ) {
        Ok(d) => d,
        Err(e) => {
            return Err(e);
        },
    };
    let mut consumed_args: usize = 1;
    let mut takes_next = false;
    let is_value_kind = match &arg_definition.kind {
        ArgKind::Value(_) => true,
        ArgKind::Flag => false,
    };
    if is_value_kind {
        if (is_long_name && arg_value.is_none()) || (!is_long_name && arg_list.len() < 2) {
            return Err(text::msg3("option '", next_arg.as_str(), "' requires an argument"));
        }
        if !is_long_name {
            arg_value = Some(arg_list[1].as_str());
            consumed_args = 2;
            takes_next = true;
        }
    }
    let stop = arg_definition.stop_parsing();
    match validate_and_create_arg(next_arg.as_str(), arg_value, arg_definition) {
        Ok(pair) => Ok((pair, consumed_args, stop)),
        Err(e) => Err(e),
    }
}

// ---------------------------------------------------------------------
// List parsing
// ---------------------------------------------------------------------
/// The index of the first accumulated pair with the given id, if any.
pub open spec fn find_pair(acc: Seq<ArgValuePairModel>, id: Seq<char>) -> Option<int>
    decreases acc.len(),
{
    if acc.len() == 0 {
        None
    } else if acc[0].id == id {
        Some(0)
    } else {
        match find_pair(acc.drop_first(), id) {
            Some(i) => Some(i + 1),
            None => None,
        }
    }
}

pub proof fn lemma_find_pair_bounds(acc: Seq<ArgValuePairModel>, id: Seq<char>)
    ensures
        match find_pair(acc, id) {
            Some(i) => 0 <= i < acc.len() && acc[i].id == id && forall|j: int|
                0 <= j < i ==> acc[j].id != id,
            None => forall|j: int| 0 <= j < acc.len() ==> acc[j].id != id,
        },
    decreases acc.len(),
{
    if acc.len() > 0 && acc[0].id != id {
        let tail = acc.drop_first();
        lemma_find_pair_bounds(tail, id);
        assert forall|j: int| 1 <= j < acc.len() implies acc[j] == tail[j - 1] by {}
    }
}

/// The whole left-to-right pass from index `i` with results accumulated in
/// `acc`: each parsed id appears once, in first-occurrence order; a repeat
/// must coerce to the identical value; a stop-parsing declaration ends the
/// pass, discarding all remaining tokens unexamined. The boolean of the
/// result records whether the pass was ended by a stop-parsing option.
pub open spec fn spec_parse_list_rec(
    args: Seq<Seq<char>>,
    defs: Seq<ArgModel>,
    i: int,
    acc: Seq<ArgValuePairModel>,
) -> Result<(Seq<ArgValuePairModel>, bool), Seq<char>>
    decreases args.len() - i,
{
    if i < 0 || i >= args.len() {
        Ok((acc, false))
    } else {
        match spec_parse_one(args.skip(i), defs) {
            Err(e) => Err(e),
            Ok((pair, takes_next, stop)) => {
                let consumed: int = if takes_next {
                    2
                } else {
                    1
                };
                match find_pair(acc, pair.id) {
                    Some(k) => {
                        if acc[k] != pair {
                            Err(msg_conflict(args[i]))
                        } else if stop {
                            Ok((acc, true))
                        } else {
                            spec_parse_list_rec(args, defs, i + consumed, acc)
                        }
                    },
                    None => {
                        if stop {
                            Ok((acc.push(pair), true))
                        } else {
                            spec_parse_list_rec(args, defs, i + consumed, acc.push(pair))
                        }
                    },
                }
            },
        }
    }
}

/// What parsing a full argument vector yields.
pub open spec fn spec_parse_list(args: Seq<Seq<char>>, defs: Seq<ArgModel>) -> Result<
    Seq<ArgValuePairModel>,
    Seq<char>,
> {
    match spec_parse_list_rec(args, defs, 0, Seq::empty()) {
        Ok((res, _)) => Ok(res),
        Err(e) => Err(e),
    }
}

/// Drives the tokenizer/validator over the whole argument vector,
/// accumulating parsed pairs, rejecting conflicting duplicates, and
/// honouring stop-parsing declarations. The first error aborts the pass.
pub fn parse_and_validate_arg_list(arg_list: &[String], arg_definition_list: &[Arg]) -> (r: Result<
    Vec<ArgValuePair>,
    String,
>)
    ensures
        match r {
            Ok(v) => spec_parse_list(models_of(arg_list@), models_of(arg_definition_list@))
                matches Ok(res) && models_of(v@) == res,
            Err(e) => spec_parse_list(models_of(arg_list@), models_of(arg_definition_list@))
                matches Err(m) && e@ == m,
        },
{
    let ghost args = models_of(arg_list@);
    let ghost defs = models_of(arg_definition_list@);
    let mut current_index: usize = 0;
    let mut parsed_args: Vec<ArgValuePair> = Vec::new();
    proof {
        assert(models_of(parsed_args@) =~= Seq::<ArgValuePairModel>::empty());
    }
    while current_index < arg_list.len()
        invariant_except_break
            current_index <= arg_list.len(),
            args == models_of(arg_list@),
            defs == models_of(arg_definition_list@),
            spec_parse_list_rec(args, defs, 0, Seq::empty()) == spec_parse_list_rec(
                args,
                defs,
                current_index as int,
                models_of(parsed_args@),
            ),
        ensures
            spec_parse_list_rec(args, defs, 0, Seq::empty()) matches Ok((res, _)) && models_of(
                parsed_args@,
            ) == res,
        decreases arg_list.len() - current_index,
    {
        let rest = vstd::slice::slice_subrange(arg_list, current_index, arg_list.len());
        proof {
            assert(models_of(rest@) =~= args.skip(current_index as int));
        }
        let (parsed_arg, args_consumed, stop) = match parse_and_validate_arg(
            rest,
            arg_definition_list,
        ) {
            Ok(p) => p,
            Err(e) => {
                proof {
                    assert(spec_parse_list_rec(args, defs, 0, Seq::empty()) matches Err(_));
                }
                return Err(e);
            },
        };
        let ghost acc = models_of(parsed_args@);
        proof {
            lemma_find_pair_bounds(acc, parsed_arg@.id);
        }
        let mut dup_index: Option<usize> = None;
        let mut k: usize = 0;
        while k < parsed_args.len()
            invariant_except_break
                dup_index is None,
            invariant
                k <= parsed_args.len(),
                acc == models_of(parsed_args@),
                forall|j: int| 0 <= j < k ==> acc[j].id != parsed_arg@.id,
            ensures
                match dup_index {
                    Some(d) => 0 <= d < parsed_args.len() && acc[d as int].id == parsed_arg@.id
                        && forall|j: int| 0 <= j < d ==> acc[j].id != parsed_arg@.id,
                    None => forall|j: int|
                        0 <= j < parsed_args.len() ==> acc[j].id != parsed_arg@.id,
                },
            decreases parsed_args.len() - k,
        {
            if parsed_args[k].id == parsed_arg.id {
                dup_index = Some(k);
                break ;
            }
            k += 1;
        }
        proof {
            match dup_index {
                Some(d) => {
                    assert(find_pair(acc, parsed_arg@.id) == Some(d as int));
                },
                None => {
                    assert(find_pair(acc, parsed_arg@.id) is None) by {
                        lemma_find_pair_bounds(acc, parsed_arg@.id);
                    }
                },
            }
        }
        match dup_index {
            Some(d) => {
                if !(parsed_args[d] == parsed_arg) {
                    return Err(
                        text::msg3(
                            "conflicting arguments for duplicated option: '",
                            arg_list[current_index].as_str(),
                            "'",
                        ),
                    );
                }
            },
            None => {
                parsed_args.push(parsed_arg);
                proof {
                    assert(models_of(parsed_args@) =~= acc.push(parsed_arg@));
                }
            },
        }
        if stop {
            break ;
        }
        current_index += args_consumed;
    }
    Ok(parsed_args)
}

// ---------------------------------------------------------------------
// Laws of the list parser
// ---------------------------------------------------------------------
/// A value has the shape a declaration's kind coerces to: flags store
/// `true`, numeric kinds the parsed number, one-of kinds a member of the
/// allowed set.
pub open spec fn value_shaped(kind: ArgKindModel, v: ArgValueModel) -> bool {
    match kind {
        ArgKindModel::Flag => v == ArgValueModel::Bool(true),
        ArgKindModel::Value(ValueKindModel::Int) => v is Int,
        ArgKindModel::Value(ValueKindModel::UnsignedInt) => v is UnsignedInt,
        ArgKindModel::Value(ValueKindModel::OneOfStr(set)) => v matches ArgValueModel::Str(s)
            && set.contains(s),
    }
}

/// The pair's id belongs to some declaration, and its value has the shape
/// that declaration coerces to.
pub open spec fn pair_typed(defs: Seq<ArgModel>, pair: ArgValuePairModel) -> bool {
    exists|j: int|
        0 <= j < defs.len() && (#[trigger] defs[j]).id == pair.id && value_shaped(
            defs[j].kind,
            pair.value,
        )
}

pub open spec fn pairs_typed(defs: Seq<ArgModel>, pairs: Seq<ArgValuePairModel>) -> bool {
    forall|i: int| 0 <= i < pairs.len() ==> pair_typed(defs, #[trigger] pairs[i])
}

proof fn lemma_rec_typed(
    args: Seq<Seq<char>>,
    defs: Seq<ArgModel>,
    i: int,
    acc: Seq<ArgValuePairModel>,
)
    requires
        pairs_typed(defs, acc),
        spec_parse_list_rec(args, defs, i, acc) matches Ok(_),
    ensures
        spec_parse_list_rec(args, defs, i, acc) matches Ok((res, st)) ==> pairs_typed(defs, res),
    decreases args.len() - i,
{
    if 0 <= i < args.len() {
        let s = args.skip(i);
        match spec_parse_one(s, defs) {
            Err(_) => {},
            Ok((pair, tn, stop)) => {
                let consumed: int = if tn {
                    2
                } else {
                    1
                };
                assert(pair_typed(defs, pair)) by {
                    match spec_decompose(s[0]) {
                        Ok((is_long, name, inline_value)) => {
                            match find_def(defs, name, is_long) {
                                Some(j) => {
                                    crate::args::definition::lemma_find_def_bounds(
                                        defs,
                                        name,
                                        is_long,
                                    );
                                    assert(0 <= j < defs.len());
                                    assert(defs[j].id == pair.id && value_shaped(
                                        defs[j].kind,
                                        pair.value,
                                    ));
                                },
                                None => {},
                            }
                        },
                        Err(_) => {},
                    }
                }
                let acc2 = acc.push(pair);
                assert(pairs_typed(defs, acc2)) by {
                    assert(forall|k: int|
                        0 <= k < acc.len() ==> acc2[k] == #[trigger] acc[k]);
                    assert(acc2[acc.len() as int] == pair);
                }
                match find_pair(acc, pair.id) {
                    Some(k) => {
                        if acc[k] == pair && !stop {
                            lemma_rec_typed(args, defs, i + consumed, acc);
                        }
                    },
                    None => {
                        if !stop {
                            lemma_rec_typed(args, defs, i + consumed, acc2);
                        }
                    },
                }
            },
        }
    }
}

/// Every pair a successful parse yields is typed by its declaration: the
/// id named a declaration and the value has the coerced shape.
pub proof fn lemma_parse_list_typed(
    args: Seq<Seq<char>>,
    defs: Seq<ArgModel>,
    res: Seq<ArgValuePairModel>,
)
    requires
        spec_parse_list(args, defs) == Ok::<_, Seq<char>>(res),
    ensures
        pairs_typed(defs, res),
{
    lemma_rec_typed(args, defs, 0, Seq::empty());
}
/// No two accumulated pairs carry the same id.
pub open spec fn unique_ids(s: Seq<ArgValuePairModel>) -> bool {
    forall|k1: int, k2: int| 0 <= k1 < k2 < s.len() ==> s[k1].id != s[k2].id
}

/// A successful single-token step does not depend on tokens beyond the
/// ones it consumed: appending more tokens leaves its result unchanged.
pub proof fn lemma_parse_one_extend(s: Seq<Seq<char>>, junk: Seq<Seq<char>>, defs: Seq<ArgModel>)
    requires
        s.len() > 0,
        spec_parse_one(s, defs) matches Ok(_),
    ensures
        spec_parse_one(s + junk, defs) == spec_parse_one(s, defs),
{
    let s2 = s + junk;
    assert(s2[0] == s[0]);
    if s.len() >= 2 {
        assert(s2[1] == s[1]);
    }
}

/// A pass that ends by a stop-parsing option ignores everything after it;
/// one that ends by exhausting the tokens continues into the extension
/// with its accumulated results.
pub proof fn lemma_rec_extend(
    args: Seq<Seq<char>>,
    junk: Seq<Seq<char>>,
    defs: Seq<ArgModel>,
    i: int,
    acc: Seq<ArgValuePairModel>,
)
    requires
        0 <= i <= args.len(),
        spec_parse_list_rec(args, defs, i, acc) matches Ok(_),
    ensures
        spec_parse_list_rec(args, defs, i, acc) matches Ok((res, st)) ==> spec_parse_list_rec(
            args + junk,
            defs,
            i,
            acc,
        ) == (if st {
            Ok::<(Seq<ArgValuePairModel>, bool), Seq<char>>((res, true))
        } else {
            spec_parse_list_rec(args + junk, defs, args.len() as int, res)
        }),
    decreases args.len() - i,
{
    if i < args.len() {
        let s = args.skip(i);
        let s2 = (args + junk).skip(i);
        assert(s2 =~= s + junk);
        match spec_parse_one(s, defs) {
            Err(_) => {},
            Ok((pair, tn, stop)) => {
                lemma_parse_one_extend(s, junk, defs);
                assert((args + junk)[i] == args[i]);
                let consumed: int = if tn {
                    2
                } else {
                    1
                };
                assert(tn ==> s.len() >= 2);
                match find_pair(acc, pair.id) {
                    Some(k) => {
                        if acc[k] == pair && !stop {
                            lemma_rec_extend(args, junk, defs, i + consumed, acc);
                        }
                    },
                    None => {
                        if !stop {
                            lemma_rec_extend(args, junk, defs, i + consumed, acc.push(pair));
                        }
                    },
                }
            },
        }
    }
}

/// Parsing a concatenation from the seam onward is parsing the second
/// part from its beginning.
pub proof fn lemma_rec_offset(
    a: Seq<Seq<char>>,
    b: Seq<Seq<char>>,
    defs: Seq<ArgModel>,
    k: int,
    acc: Seq<ArgValuePairModel>,
)
    requires
        0 <= k,
    ensures
        spec_parse_list_rec(a + b, defs, a.len() + k, acc) == spec_parse_list_rec(b, defs, k, acc),
    decreases b.len() - k,
{
    if k < b.len() {
        let s = (a + b).skip(a.len() + k);
        let s2 = b.skip(k);
        assert(s =~= s2);
        assert((a + b)[a.len() + k] == b[k]);
        match spec_parse_one(s2, defs) {
            Err(_) => {},
            Ok((pair, tn, stop)) => {
                let consumed: int = if tn {
                    2
                } else {
                    1
                };
                match find_pair(acc, pair.id) {
                    Some(j) => {
                        if acc[j] == pair && !stop {
                            lemma_rec_offset(a, b, defs, k + consumed, acc);
                        }
                    },
                    None => {
                        if !stop {
                            lemma_rec_offset(a, b, defs, k + consumed, acc.push(pair));
                        }
                    },
                }
            },
        }
    }
}

/// A pass only appends: what was accumulated stays, in place.
pub proof fn lemma_rec_prefix(
    args: Seq<Seq<char>>,
    defs: Seq<ArgModel>,
    i: int,
    acc: Seq<ArgValuePairModel>,
)
    requires
        spec_parse_list_rec(args, defs, i, acc) matches Ok(_),
    ensures
        spec_parse_list_rec(args, defs, i, acc) matches Ok((res, st)) ==> acc.len() <= res.len()
            && (forall|k: int| 0 <= k < acc.len() ==> res[k] == acc[k]),
    decreases args.len() - i,
{
    if 0 <= i < args.len() {
        match spec_parse_one(args.skip(i), defs) {
            Err(_) => {},
            Ok((pair, tn, stop)) => {
                let consumed: int = if tn {
                    2
                } else {
                    1
                };
                match find_pair(acc, pair.id) {
                    Some(k) => {
                        if acc[k] == pair && !stop {
                            lemma_rec_prefix(args, defs, i + consumed, acc);
                        }
                    },
                    None => {
                        if !stop {
                            lemma_rec_prefix(args, defs, i + consumed, acc.push(pair));
                        }
                    },
                }
            },
        }
    }
}

/// A pass keeps ids unique: it never appends an id it already holds.
pub proof fn lemma_rec_unique(
    args: Seq<Seq<char>>,
    defs: Seq<ArgModel>,
    i: int,
    acc: Seq<ArgValuePairModel>,
)
    requires
        unique_ids(acc),
        spec_parse_list_rec(args, defs, i, acc) matches Ok(_),
    ensures
        spec_parse_list_rec(args, defs, i, acc) matches Ok((res, st)) ==> unique_ids(res),
    decreases args.len() - i,
{
    if 0 <= i < args.len() {
        match spec_parse_one(args.skip(i), defs) {
            Err(_) => {},
            Ok((pair, tn, stop)) => {
                let consumed: int = if tn {
                    2
                } else {
                    1
                };
                match find_pair(acc, pair.id) {
                    Some(k) => {
                        if acc[k] == pair && !stop {
                            lemma_rec_unique(args, defs, i + consumed, acc);
                        }
                    },
                    None => {
                        lemma_find_pair_bounds(acc, pair.id);
                        assert(unique_ids(acc.push(pair))) by {
                            assert(forall|k1: int|
                                0 <= k1 < acc.len() ==> (#[trigger] acc.push(pair)[k1]).id
                                    != pair.id);
                        }
                        if !stop {
                            lemma_rec_unique(args, defs, i + consumed, acc.push(pair));
                        }
                    },
                }
            },
        }
    }
}

/// Replaying a successful pass with its own final results accumulated
/// changes nothing: every pair it derives is already present, equal.
pub proof fn lemma_rec_replay(
    args: Seq<Seq<char>>,
    defs: Seq<ArgModel>,
    i: int,
    acc: Seq<ArgValuePairModel>,
    res: Seq<ArgValuePairModel>,
    st: bool,
)
    requires
        spec_parse_list_rec(args, defs, i, acc) == Ok::<_, Seq<char>>((res, st)),
        unique_ids(res),
        acc.len() <= res.len(),
        forall|k: int| 0 <= k < acc.len() ==> res[k] == acc[k],
    ensures
        spec_parse_list_rec(args, defs, i, res) == Ok::<_, Seq<char>>((res, st)),
    decreases args.len() - i,
{
    if !(0 <= i < args.len()) {
        assert(res == acc);
        assert(res =~= acc);
    } else {
        match spec_parse_one(args.skip(i), defs) {
            Err(_) => {},
            Ok((pair, tn, stop)) => {
                let consumed: int = if tn {
                    2
                } else {
                    1
                };
                lemma_find_pair_bounds(res, pair.id);
                match find_pair(acc, pair.id) {
                    Some(k) => {
                        lemma_find_pair_bounds(acc, pair.id);
                        if acc[k] == pair {
                            // first occurrence in res is the same index
                            assert(find_pair(res, pair.id) matches Some(k2) && res[k2] == pair)
                                by {
                                match find_pair(res, pair.id) {
                                    Some(k2) => {
                                        if k2 < k {
                                            assert(res[k2] == acc[k2]);
                                        }
                                        if k < k2 {
                                            assert(res[k].id == pair.id);
                                        }
                                    },
                                    None => {
                                        assert(res[k].id == pair.id);
                                    },
                                }
                            }
                            if stop {
                            } else {
                                lemma_rec_replay(args, defs, i + consumed, acc, res, st);
                            }
                        }
                    },
                    None => {
                        lemma_find_pair_bounds(acc, pair.id);
                        let acc2 = acc.push(pair);
                        if stop {
                            assert(res == acc2);
                            assert(find_pair(res, pair.id) matches Some(k2) && res[k2] == pair)
                                by {
                                assert(res[acc.len() as int] == pair);
                                match find_pair(res, pair.id) {
                                    Some(k2) => {
                                        if k2 < acc.len() {
                                            assert(res[k2] == acc[k2]);
                                        }
                                        if acc.len() < k2 {
                                            assert(unique_ids(res));
                                            assert(res[acc.len() as int].id == pair.id);
                                        }
                                    },
                                    None => {
                                        assert(res[acc.len() as int].id == pair.id);
                                    },
                                }
                            }
                        } else {
                            lemma_rec_prefix(args, defs, i + consumed, acc2);
                            assert(res[acc.len() as int] == pair);
                            assert(find_pair(res, pair.id) matches Some(k2) && res[k2] == pair)
                                by {
                                match find_pair(res, pair.id) {
                                    Some(k2) => {
                                        if k2 < acc.len() {
                                            assert(res[k2] == acc[k2]);
                                        }
                                        if acc.len() < k2 {
                                            assert(res[acc.len() as int].id == pair.id);
                                        }
                                    },
                                    None => {
                                        assert(res[acc.len() as int].id == pair.id);
                                    },
                                }
                            }
                            lemma_rec_replay(args, defs, i + consumed, acc2, res, st);
                        }
                    },
                }
            },
        }
    }
}

/// Law: a successful parse yields each id at most once — the first
/// occurrence decides its place, repeats never add an entry.
pub proof fn lemma_parse_list_unique_ids(
    args: Seq<Seq<char>>,
    defs: Seq<ArgModel>,
    res: Seq<ArgValuePairModel>,
)
    requires
        spec_parse_list(args, defs) == Ok::<_, Seq<char>>(res),
    ensures
        unique_ids(res),
{
    lemma_rec_unique(args, defs, 0, Seq::empty());
}

/// Law: parsing is idempotent under repetition of the whole vector. If an
/// argument vector parses successfully, the vector repeated twice parses
/// to exactly the same results: every repeated occurrence coerces to the
/// identical value and is accepted silently. The special case of one
/// short-name option `-x value -x value` is the classic instance.
pub proof fn lemma_parse_repeat(
    args: Seq<Seq<char>>,
    defs: Seq<ArgModel>,
    res: Seq<ArgValuePairModel>,
)
    requires
        spec_parse_list(args, defs) == Ok::<_, Seq<char>>(res),
    ensures
        spec_parse_list(args + args, defs) == Ok::<_, Seq<char>>(res),
{
    let empty = Seq::<ArgValuePairModel>::empty();
    match spec_parse_list_rec(args, defs, 0, empty) {
        Err(_) => {},
        Ok((r0, st)) => {
            assert(r0 == res);
            lemma_rec_extend(args, args, defs, 0, empty);
            if !st {
                lemma_rec_offset(args, args, defs, 0, res);
                lemma_rec_prefix(args, defs, 0, empty);
                lemma_rec_unique(args, defs, 0, empty);
                lemma_rec_replay(args, defs, 0, empty, res, st);
            }
        },
    }
}

/// Law (stop parsing): when a pass ends by a stop-parsing option, all
/// tokens after the one that stopped it are never examined: whatever is
/// appended — well-formed or garbage — the result is unchanged.
pub proof fn lemma_stop_parsing_ignores_rest(
    args: Seq<Seq<char>>,
    junk: Seq<Seq<char>>,
    defs: Seq<ArgModel>,
    res: Seq<ArgValuePairModel>,
)
    requires
        spec_parse_list_rec(args, defs, 0, Seq::empty()) == Ok::<_, Seq<char>>((res, true)),
    ensures
        spec_parse_list(args + junk, defs) == Ok::<_, Seq<char>>(res),
        spec_parse_list(args, defs) == Ok::<_, Seq<char>>(res),
{
    lemma_rec_extend(args, junk, defs, 0, Seq::empty());
}

/// Law: a long-form flag given an inline value always fails, with the
/// "doesn't allow an argument" error naming the token.
pub proof fn lemma_long_flag_rejects_value(
    name: Seq<char>,
    anything: Seq<char>,
    defs: Seq<ArgModel>,
)
    requires
        anything.len() > 0,
        forall|j: int| 0 <= j < name.len() ==> name[j] != '=',
        find_def(defs, name, true) matches Some(j) && defs[j].kind is Flag,
    ensures
        ({
            let tok = "--"@ + name + "="@ + anything;
            spec_parse_list(seq![tok], defs) == Err::<Seq<ArgValuePairModel>, _>(
                msg_not_allow_argument(tok),
            )
        }),
{
    reveal_strlit("--");
    reveal_strlit("=");
    let tok = "--"@ + name + "="@ + anything;
    let eq_at = 2 + name.len() as int;
    assert(tok[eq_at] == '=');
    assert forall|j: int| 0 <= j < eq_at implies tok[j] != '=' by {
        if j >= 2 {
            assert(tok[j] == name[j - 2]);
        }
    }
    lemma_first_eq(tok);
    assert(first_eq(tok) == Some(eq_at)) by {
        match first_eq(tok) {
            Some(f) => {
                if f < eq_at {
                    assert(tok[f] != '=');
                }
                if eq_at < f {
                    assert(tok[eq_at] != '=');
                }
            },
            None => {
                assert(tok[eq_at] == '=');
            },
        }
    }
    assert(is_long_tok(tok));
    assert(eq_at + 1 < tok.len());
    assert(tok.subrange(2, eq_at) =~= name);
    let value = tok.subrange(eq_at + 1, tok.len() as int);
    assert(spec_decompose(tok) == Ok::<_, Seq<char>>((true, name, Some(value))));
    let args = seq![tok];
    assert(args.skip(0) =~= args);
    assert(args[0] == tok);
    assert(spec_parse_one(args, defs) == Err::<(ArgValuePairModel, bool, bool), _>(
        msg_not_allow_argument(tok),
    ));
}

/// Law (round trip): the canonical decimal rendering of any `u32` parses
/// back to exactly that number.
pub proof fn lemma_u32_round_trip(n: u32)
    ensures
        spec_parse_u32(text::dec_nat(n as nat)) == Some(n),
{
    lemma_dec_nat_digits(n as nat);
    let s = text::dec_nat(n as nat);
    assert(s[0] != '+');
    assert(u32_body(s) == s);
}

proof fn lemma_dec_nat_digits(n: nat)
    ensures
        text::dec_nat(n).len() > 0,
        all_digits(text::dec_nat(n)),
        digits_val(text::dec_nat(n)) == n,
        is_digit(text::dec_nat(n)[0]),
    decreases n,
{
    let s = text::dec_nat(n);
    if n < 10 {
        assert(s =~= seq![text::digit_char(n as int)]);
        assert(s.drop_last() =~= Seq::<char>::empty());
        assert(is_digit(text::digit_char(n as int)));
        assert(digit_val(text::digit_char(n as int)) == n);
        assert(digits_val(s) == digits_val(s.drop_last()) * 10 + digit_val(s.last()));
    } else {
        lemma_dec_nat_digits(n / 10);
        let head = text::dec_nat(n / 10);
        assert(s == head.push(text::digit_char((n % 10) as int)));
        assert(s.drop_last() =~= head);
        assert(s.last() == text::digit_char((n % 10) as int));
        assert(is_digit(s.last()));
        assert forall|i: int| 0 <= i < s.len() implies is_digit(s[i]) by {
            if i < head.len() {
                assert(s[i] == head[i]);
            }
        }
        assert(digits_val(s) == digits_val(head) * 10 + digit_val(s.last()));
        assert(digit_val(text::digit_char((n % 10) as int)) == n % 10);
        assert((n / 10) * 10 + n % 10 == n) by (nonlinear_arith);
    }
}

/// Law (conflict detection): a valued short option repeated with two
/// values that coerce differently fails with the conflict error naming
/// the repeated token; repeated with values that coerce identically it
/// succeeds with a single entry (see `lemma_parse_repeat`).
pub proof fn lemma_conflicting_duplicates(
    c: char,
    a: Seq<char>,
    b: Seq<char>,
    defs: Seq<ArgModel>,
    x: u32,
    y: u32,
)
    requires
        c != '=',
        c != '-',
        find_def(defs, seq![c], false) matches Some(j) && defs[j].kind == ArgKindModel::Value(
            ValueKindModel::UnsignedInt,
        ) && !defs[j].stop_parsing,
        spec_parse_u32(a) == Some(x),
        spec_parse_u32(b) == Some(y),
        x != y,
    ensures
        ({
            let tok = seq!['-', c];
            spec_parse_list(seq![tok, a, tok, b], defs) == Err::<Seq<ArgValuePairModel>, _>(
                msg_conflict(tok),
            )
        }),
{
    let tok = seq!['-', c];
    let j = find_def(defs, seq![c], false)->0;
    let d = defs[j];
    assert(first_eq(tok) is None) by {
        lemma_first_eq(tok);
        match first_eq(tok) {
            Some(f) => {
                assert(tok[f] != '=');
            },
            None => {},
        }
    }
    assert(!is_long_tok(tok));
    assert(tok.subrange(1, 2) =~= seq![c]);
    assert(spec_decompose(tok) == Ok::<_, Seq<char>>((false, seq![c], None::<Seq<char>>)));
    let args = seq![tok, a, tok, b];
    let p1 = ArgValuePairModel { id: d.id, value: ArgValueModel::UnsignedInt(x) };
    let p2 = ArgValuePairModel { id: d.id, value: ArgValueModel::UnsignedInt(y) };
    let s0 = args.skip(0);
    assert(s0 =~= args);
    assert(spec_parse_one(s0, defs) == Ok::<_, Seq<char>>((p1, true, false)));
    let empty = Seq::<ArgValuePairModel>::empty();
    let acc1 = empty.push(p1);
    let s2 = args.skip(2);
    assert(s2 =~= seq![tok, b]);
    assert(s2[0] == tok);
    assert(s2[1] == b);
    assert(spec_parse_one(s2, defs) == Ok::<_, Seq<char>>((p2, true, false)));
    assert(find_pair(acc1, p2.id) == Some(0int)) by {
        assert(acc1[0].id == d.id);
    }
    assert(acc1[0] != p2);
    assert(args[2] == tok);
    assert(spec_parse_list_rec(args, defs, 2, acc1) == Err::<(Seq<ArgValuePairModel>, bool), _>(
        msg_conflict(tok),
    ));
    assert(find_pair(empty, p1.id) is None);
    assert(spec_parse_list_rec(args, defs, 0, empty) == spec_parse_list_rec(args, defs, 2, acc1));
}

} // verus!
