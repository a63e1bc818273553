//! Typed accessors: retrieve the final value for an option id from parsed
//! results, falling back to the declared default. Asking for an id with no
//! declaration, or with the wrong type, is a caller bug and is excluded by
//! precondition.

use crate::args::definition::{Arg, ArgModel, ValueKindModel};
use crate::args::parser::find_pair;
use crate::args::{models_of, ArgValue, ArgValueModel, ArgValuePair};
use crate::text;
use vstd::prelude::*;

verus! {

/// The index of the first declaration with the given id, if any.
pub open spec fn find_def_by_id(defs: Seq<ArgModel>, id: Seq<char>) -> Option<int>
    decreases defs.len(),
{
    if defs.len() == 0 {
        None
    } else if defs[0].id == id {
        Some(0)
    } else {
        match find_def_by_id(defs.drop_first(), id) {
            Some(i) => Some(i + 1),
            None => None,
        }
    }
}

pub proof fn lemma_find_def_by_id_bounds(defs: Seq<ArgModel>, id: Seq<char>)
    ensures
        match find_def_by_id(defs, id) {
            Some(i) => 0 <= i < defs.len() && defs[i].id == id && forall|j: int|
                0 <= j < i ==> defs[j].id != id,
            None => forall|j: int| 0 <= j < defs.len() ==> defs[j].id != id,
        },
    decreases defs.len(),
{
    if defs.len() > 0 && defs[0].id != id {
        let tail = defs.drop_first();
        lemma_find_def_by_id_bounds(tail, id);
        assert forall|j: int| 1 <= j < defs.len() implies defs[j] == tail[j - 1] by {}
    }
}

/// The value an accessor returns for `id`: the parsed value when present,
/// else the declared default, else nothing.
pub open spec fn effective_value(
    id: Seq<char>,
    pairs: Seq<crate::args::ArgValuePairModel>,
    defs: Seq<ArgModel>,
) -> Option<ArgValueModel> {
    match find_pair(pairs, id) {
        Some(i) => Some(pairs[i].value),
        None => match find_def_by_id(defs, id) {
            Some(j) => Some(defs[j].default_value),
            None => None,
        },
    }
}

/// The typed readings of an effective value, for contracts that speak of
/// one option's final value.
pub open spec fn eff_bool(
    id: Seq<char>,
    pairs: Seq<crate::args::ArgValuePairModel>,
    defs: Seq<ArgModel>,
) -> bool {
    effective_value(id, pairs, defs)->0->Bool_0
}

pub open spec fn eff_u32(
    id: Seq<char>,
    pairs: Seq<crate::args::ArgValuePairModel>,
    defs: Seq<ArgModel>,
) -> u32 {
    effective_value(id, pairs, defs)->0->UnsignedInt_0
}

pub open spec fn eff_i32(
    id: Seq<char>,
    pairs: Seq<crate::args::ArgValuePairModel>,
    defs: Seq<ArgModel>,
) -> i32 {
    effective_value(id, pairs, defs)->0->Int_0
}

pub open spec fn eff_str(
    id: Seq<char>,
    pairs: Seq<crate::args::ArgValuePairModel>,
    defs: Seq<ArgModel>,
) -> Seq<char> {
    effective_value(id, pairs, defs)->0->Str_0
}

/// When every declaration carrying `id` has kind `kind`, some declaration
/// carries it, and the parse results are typed, the effective value for
/// `id` exists and has the kind's shape — parsed or defaulted alike.
pub proof fn lemma_effective_value_shape(
    defs: Seq<ArgModel>,
    pairs: Seq<crate::args::ArgValuePairModel>,
    id: Seq<char>,
    kind: crate::args::definition::ArgKindModel,
)
    requires
        crate::args::parser::pairs_typed(defs, pairs),
        find_def_by_id(defs, id) is Some,
        forall|j: int|
            0 <= j < defs.len() && (#[trigger] defs[j]).id == id ==> defs[j].kind == kind,
        forall|j: int|
            0 <= j < defs.len() ==> crate::args::definition::arg_wf(#[trigger] defs[j]),
    ensures
        effective_value(id, pairs, defs) matches Some(v) && (match kind {
            crate::args::definition::ArgKindModel::Flag => v is Bool,
            crate::args::definition::ArgKindModel::Value(ValueKindModel::Int) => v is Int,
            crate::args::definition::ArgKindModel::Value(ValueKindModel::UnsignedInt) => v
                is UnsignedInt,
            crate::args::definition::ArgKindModel::Value(ValueKindModel::OneOfStr(_)) => v is Str,
        }),
        effective_value(id, pairs, defs) matches Some(v) ==> (find_pair(pairs, id) is Some
            ==> crate::args::parser::value_shaped(kind, v)),
{
    crate::args::parser::lemma_find_pair_bounds(pairs, id);
    lemma_find_def_by_id_bounds(defs, id);
    match find_pair(pairs, id) {
        Some(i) => {
            assert(crate::args::parser::pair_typed(defs, pairs[i]));
            let j = choose|j: int|
                0 <= j < defs.len() && (#[trigger] defs[j]).id == pairs[i].id
                    && crate::args::parser::value_shaped(defs[j].kind, pairs[i].value);
            assert(defs[j].kind == kind);
        },
        None => {
            match find_def_by_id(defs, id) {
                Some(j0) => {
                    assert(crate::args::definition::arg_wf(defs[j0]));
                    assert(defs[j0].kind == kind);
                },
                None => {},
            }
        },
    }
}

/// The first parsed pair with the given id, if any.
pub fn find_arg<'a>(arg_id: &str, arg_list: &'a [ArgValuePair]) -> (r: Option<&'a ArgValuePair>)
    ensures
        match r {
            Some(p) => find_pair(models_of(arg_list@), arg_id@) matches Some(i) && p@ == models_of(
                arg_list@,
            )[i],
            None => find_pair(models_of(arg_list@), arg_id@) is None,
        },
{
    let ghost pairs = models_of(arg_list@);
    proof {
        crate::args::parser::lemma_find_pair_bounds(pairs, arg_id@);
    }
    let mut i: usize = 0;
    while i < arg_list.len()
        invariant
            i <= arg_list.len(),
            pairs == models_of(arg_list@),
            forall|j: int| 0 <= j < i ==> pairs[j].id != arg_id@,
        decreases arg_list.len() - i,
    {
        if text::str_eq(arg_list[i].id.as_str(), arg_id) {
            proof {
                assert(pairs[i as int] == arg_list@[i as int]@);
                assert(pairs[i as int].id == arg_id@);
                crate::args::parser::lemma_find_pair_bounds(pairs, arg_id@);
                match find_pair(pairs, arg_id@) {
                    Some(f) => {
                        assert(!(f < i) && !(i < f));
                    },
                    None => {},
                }
            }
            return Some(&arg_list[i]);
        }
        i += 1;
    }
    proof {
        crate::args::parser::lemma_find_pair_bounds(pairs, arg_id@);
    }
    None
}

/// The first declaration with the given id, if any.
pub(crate) fn find_arg_definition<'a>(arg_id: &str, arg_definitions: &'a [Arg]) -> (r: Option<&'a Arg>)
    ensures
        match r {
            Some(d) => find_def_by_id(models_of(arg_definitions@), arg_id@) matches Some(i) && d@
                == models_of(arg_definitions@)[i],
            None => find_def_by_id(models_of(arg_definitions@), arg_id@) is None,
        },
{
    let ghost defs = models_of(arg_definitions@);
    let mut i: usize = 0;
    while i < arg_definitions.len()
        invariant
            i <= arg_definitions.len(),
            defs == models_of(arg_definitions@),
            forall|j: int| 0 <= j < i ==> defs[j].id != arg_id@,
        decreases arg_definitions.len() - i,
    {
        if text::str_eq(arg_definitions[i].id.as_str(), arg_id) {
            proof {
                assert(defs[i as int] == arg_definitions@[i as int]@);
                assert(defs[i as int].id == arg_id@);
                lemma_find_def_by_id_bounds(defs, arg_id@);
                match find_def_by_id(defs, arg_id@) {
                    Some(f) => {
                        assert(!(f < i) && !(i < f));
                    },
                    None => {},
                }
            }
            return Some(&arg_definitions[i]);
        }
        i += 1;
    }
    proof {
        lemma_find_def_by_id_bounds(defs, arg_id@);
    }
    None
}

/// Reads the final, typed value of one option out of the parse results
/// and declarations.
pub trait SetFromArg: Sized {
    /// The stored variant this type can be read from.
    spec fn variant_ok(v: ArgValueModel) -> bool;

    /// The returned value `r` is the typed reading of the stored value `v`.
    spec fn matches_value(v: ArgValueModel, r: Self) -> bool;

    /// Returns the parsed value for `arg_id`, or the declared default when
    /// the id was not parsed. The id must be declared, and its stored
    /// value's variant must agree with the requested type.
    fn set_value_from_arg_or_default(
        arg_id: &str,
        arg_list: &[ArgValuePair],
        arg_definitions: &[Arg],
    ) -> (r: Self)
        requires
            effective_value(
                arg_id@,
                models_of(arg_list@),
                models_of(arg_definitions@),
            ) matches Some(v) && Self::variant_ok(v),
        ensures
            effective_value(
                arg_id@,
                models_of(arg_list@),
                models_of(arg_definitions@),
            ) matches Some(v) && Self::matches_value(v, r),
    ;
}

impl SetFromArg for i32 {
    open spec fn variant_ok(v: ArgValueModel) -> bool {
        v is Int
    }

    open spec fn matches_value(v: ArgValueModel, r: Self) -> bool {
        v == ArgValueModel::Int(r)
    }

    fn set_value_from_arg_or_default(
        arg_id: &str,
        arg_list: &[ArgValuePair],
        arg_definitions: &[Arg],
    ) -> (r: Self) {
        if let Some(arg) = find_arg(arg_id, arg_list) {
            match &arg.value {
                ArgValue::Int(val) => *val,
                _ => vstd::pervasive::unreached(),
            }
        } else if let Some(arg_definition) = find_arg_definition(arg_id, arg_definitions) {
            match &arg_definition.default_value {
                ArgValue::Int(val) => *val,
                _ => vstd::pervasive::unreached(),
            }
        } else {
            vstd::pervasive::unreached()
        }
    }
}

impl SetFromArg for u32 {
    open spec fn variant_ok(v: ArgValueModel) -> bool {
        v is UnsignedInt
    }

    open spec fn matches_value(v: ArgValueModel, r: Self) -> bool {
        v == ArgValueModel::UnsignedInt(r)
    }

    fn set_value_from_arg_or_default(
        arg_id: &str,
        arg_list: &[ArgValuePair],
        arg_definitions: &[Arg],
    ) -> (r: Self) {
        if let Some(arg) = find_arg(arg_id, arg_list) {
            match &arg.value {
                ArgValue::UnsignedInt(val) => *val,
                _ => vstd::pervasive::unreached(),
            }
        } else if let Some(arg_definition) = find_arg_definition(arg_id, arg_definitions) {
            match &arg_definition.default_value {
                ArgValue::UnsignedInt(val) => *val,
                _ => vstd::pervasive::unreached(),
            }
        } else {
            vstd::pervasive::unreached()
        }
    }
}

impl SetFromArg for bool {
    open spec fn variant_ok(v: ArgValueModel) -> bool {
        v is Bool
    }

    open spec fn matches_value(v: ArgValueModel, r: Self) -> bool {
        v == ArgValueModel::Bool(r)
    }

    fn set_value_from_arg_or_default(
        arg_id: &str,
        arg_list: &[ArgValuePair],
        arg_definitions: &[Arg],
    ) -> (r: Self) {
        if let Some(arg) = find_arg(arg_id, arg_list) {
            match &arg.value {
                ArgValue::Bool(val) => *val,
                _ => vstd::pervasive::unreached(),
            }
        } else if let Some(arg_definition) = find_arg_definition(arg_id, arg_definitions) {
            match &arg_definition.default_value {
                ArgValue::Bool(val) => *val,
                _ => vstd::pervasive::unreached(),
            }
        } else {
            vstd::pervasive::unreached()
        }
    }
}

impl SetFromArg for String {
    open spec fn variant_ok(v: ArgValueModel) -> bool {
        v is Str
    }

    open spec fn matches_value(v: ArgValueModel, r: Self) -> bool {
        v matches ArgValueModel::Str(s) && r@ == s
    }

    fn set_value_from_arg_or_default(
        arg_id: &str,
        arg_list: &[ArgValuePair],
        arg_definitions: &[Arg],
    ) -> (r: Self) {
        if let Some(arg) = find_arg(arg_id, arg_list) {
            match &arg.value {
                ArgValue::Str(val) => val.clone(),
                _ => vstd::pervasive::unreached(),
            }
        } else if let Some(arg_definition) = find_arg_definition(arg_id, arg_definitions) {
            match &arg_definition.default_value {
                ArgValue::Str(val) => val.clone(),
                _ => vstd::pervasive::unreached(),
            }
        } else {
            vstd::pervasive::unreached()
        }
    }
}

} // verus!
