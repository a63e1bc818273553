//! Command-line argument engine. Supports:
//! - short (`-x`) and long (`--long-name`) arguments, including flags and
//!   valued arguments; values are accepted in a separate argument for short
//!   args and after an `=` sign for long args
//! - validation against argument definitions
//! - assigning an argument from a list to a variable of a certain type by id
//! - stopping parsing on special arguments (`--help`, `--version`)
//! - default values
//!
//! Does not support commands or subcommands, nor short argument
//! concatenation (`-x -y -z` as `-xyz`).

pub mod definition;
pub mod help;
pub mod parser;
pub mod set_value;

use crate::text;
use vstd::prelude::*;

verus! {

/// The sequence of models of a sequence of values.
pub open spec fn models_of<T: View>(s: Seq<T>) -> Seq<T::V> {
    s.map_values(|x: T| x@)
}

/// Mathematical model of an [`ArgValue`]: the same closed sum of typed
/// values, with strings abstracted to character sequences.
pub enum ArgValueModel {
    Int(i32),
    UnsignedInt(u32),
    Str(Seq<char>),
    Bool(bool),
}

/// A typed option value: used both for declared defaults and parsed results.
#[derive(Debug)]
pub enum ArgValue {
    Int(i32),
    UnsignedInt(u32),
    Str(String),
    Bool(bool),
}

impl View for ArgValue {
    type V = ArgValueModel;

    open spec fn view(&self) -> ArgValueModel {
        match self {
            ArgValue::Int(v) => ArgValueModel::Int(*v),
            ArgValue::UnsignedInt(v) => ArgValueModel::UnsignedInt(*v),
            ArgValue::Str(s) => ArgValueModel::Str(s@),
            ArgValue::Bool(b) => ArgValueModel::Bool(*b),
        }
    }
}

/// The text a value displays as: decimal digits for the integer kinds, the
/// string itself, or `true`/`false`.
pub open spec fn display_of(v: ArgValueModel) -> Seq<char> {
    match v {
        ArgValueModel::Int(i) => text::dec_int(i as int),
        ArgValueModel::UnsignedInt(u) => text::dec_nat(u as nat),
        ArgValueModel::Str(s) => s,
        ArgValueModel::Bool(b) => if b {
            "true"@
        } else {
            "false"@
        },
    }
}

impl ArgValue {
    /// Renders the value as it would be typed or displayed.
    pub fn to_string(&self) -> (r: String)
        ensures
            r@ == display_of(self@),
    {
        match self {
            ArgValue::Int(v) => text::i32_to_string(*v),
            ArgValue::UnsignedInt(v) => text::u32_to_string(*v),
            ArgValue::Str(s) => s.clone(),
            ArgValue::Bool(b) => if *b {
                String::from_str("true")
            } else {
                String::from_str("false")
            },
        }
    }
}

impl Clone for ArgValue {
    fn clone(&self) -> (r: Self)
        ensures
            r == *self,
    {
        match self {
            ArgValue::Int(v) => ArgValue::Int(*v),
            ArgValue::UnsignedInt(v) => ArgValue::UnsignedInt(*v),
            ArgValue::Str(s) => ArgValue::Str(s.clone()),
            ArgValue::Bool(b) => ArgValue::Bool(*b),
        }
    }
}

impl PartialEq for ArgValue {
    fn eq(&self, other: &Self) -> bool {
        match (self, other) {
            (ArgValue::Int(a), ArgValue::Int(b)) => *a == *b,
            (ArgValue::UnsignedInt(a), ArgValue::UnsignedInt(b)) => *a == *b,
            (ArgValue::Str(a), ArgValue::Str(b)) => *a == *b,
            (ArgValue::Bool(a), ArgValue::Bool(b)) => *a == *b,
            _ => false,
        }
    }
}

impl vstd::std_specs::cmp::PartialEqSpecImpl for ArgValue {
    open spec fn obeys_eq_spec() -> bool {
        true
    }

    open spec fn eq_spec(&self, other: &Self) -> bool {
        self@ == other@
    }
}

/// Model of an [`ArgValuePair`]: an option id with its coerced value.
pub struct ArgValuePairModel {
    pub id: Seq<char>,
    pub value: ArgValueModel,
}

/// The result of successfully matching one token against a declaration.
#[derive(Debug)]
pub struct ArgValuePair {
    pub id: String,
    pub value: ArgValue,
}

impl View for ArgValuePair {
    type V = ArgValuePairModel;

    open spec fn view(&self) -> ArgValuePairModel {
        ArgValuePairModel { id: self.id@, value: self.value@ }
    }
}

impl ArgValuePair {
    pub fn new(id: &str, value: ArgValue) -> (r: Self)
        ensures
            r@ == (ArgValuePairModel { id: id@, value: value@ }),
    {
        Self { id: String::from_str(id), value }
    }
}

impl Clone for ArgValuePair {
    fn clone(&self) -> (r: Self)
        ensures
            r == *self,
    {
        Self { id: self.id.clone(), value: self.value.clone() }
    }
}

impl PartialEq for ArgValuePair {
    fn eq(&self, other: &Self) -> bool {
        self.id == other.id && self.value == other.value
    }
}

impl vstd::std_specs::cmp::PartialEqSpecImpl for ArgValuePair {
    open spec fn obeys_eq_spec() -> bool {
        true
    }

    open spec fn eq_spec(&self, other: &Self) -> bool {
        self@ == other@
    }
}

} // verus!
