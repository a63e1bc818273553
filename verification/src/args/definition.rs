//! Option declarations: an immutable record describing one recognized
//! command-line option, a fallible builder that establishes the record's
//! invariant, and lookup of a declaration by short or long name.

use crate::args::{models_of, ArgValue, ArgValueModel};
use crate::text;
use vstd::prelude::*;

verus! {

/// Model of a [`ValueKind`].
pub enum ValueKindModel {
    Int,
    UnsignedInt,
    OneOfStr(Seq<Seq<char>>),
}

/// The kind of value a valued option carries: a signed integer, an
/// unsigned integer, or one string out of a fixed set.
#[derive(Debug)]
pub enum ValueKind {
    Int,
    UnsignedInt,
    OneOfStr(Vec<String>),
}

impl View for ValueKind {
    type V = ValueKindModel;

    open spec fn view(&self) -> ValueKindModel {
        match self {
            ValueKind::Int => ValueKindModel::Int,
            ValueKind::UnsignedInt => ValueKindModel::UnsignedInt,
            ValueKind::OneOfStr(v) => ValueKindModel::OneOfStr(models_of(v@)),
        }
    }
}

impl Clone for ValueKind {
    fn clone(&self) -> (r: Self)
        ensures
            r@ == self@,
    {
        match self {
            ValueKind::Int => ValueKind::Int,
            ValueKind::UnsignedInt => ValueKind::UnsignedInt,
            ValueKind::OneOfStr(v) => {
                let mut copy: Vec<String> = Vec::new();
                let mut i: usize = 0;
                while i < v.len()
                    invariant
                        i <= v.len(),
                        copy@.len() == i,
                        forall|j: int| 0 <= j < i ==> copy@[j]@ == v@[j]@,
                    decreases v.len() - i,
                {
                    copy.push(v[i].clone());
                    i += 1;
                }
                proof {
                    assert(models_of(copy@) =~= models_of(v@));
                }
                ValueKind::OneOfStr(copy)
            },
        }
    }
}

impl PartialEq for ValueKind {
    fn eq(&self, other: &Self) -> bool {
        match (self, other) {
            (ValueKind::Int, ValueKind::Int) => true,
            (ValueKind::UnsignedInt, ValueKind::UnsignedInt) => true,
            (ValueKind::OneOfStr(a), ValueKind::OneOfStr(b)) => {
                if a.len() != b.len() {
                    proof {
                        assert(models_of(a@).len() == a@.len());
                        assert(models_of(b@).len() == b@.len());
                        assert(models_of(a@) != models_of(b@));
                    }
                    return false;
                }
                let mut i: usize = 0;
                while i < a.len()
                    invariant
                        i <= a.len(),
                        a.len() == b.len(),
                        self@ == ValueKindModel::OneOfStr(models_of(a@)),
                        other@ == ValueKindModel::OneOfStr(models_of(b@)),
                        forall|j: int| 0 <= j < i ==> a@[j]@ == b@[j]@,
                    decreases a.len() - i,
                {
                    if !text::str_eq(a[i].as_str(), b[i].as_str()) {
                        proof {
                            assert(models_of(a@)[i as int] == a@[i as int]@);
                            assert(models_of(b@)[i as int] == b@[i as int]@);
                            assert(models_of(a@) != models_of(b@));
                        }
                        return false;
                    }
                    i += 1;
                }
                proof {
                    assert(models_of(a@) =~= models_of(b@));
                }
                true
            },
            _ => false,
        }
    }
}

impl vstd::std_specs::cmp::PartialEqSpecImpl for ValueKind {
    open spec fn obeys_eq_spec() -> bool {
        true
    }

    open spec fn eq_spec(&self, other: &Self) -> bool {
        self@ == other@
    }
}

/// Model of an [`ArgKind`].
pub enum ArgKindModel {
    Flag,
    Value(ValueKindModel),
}

/// Whether an option is a boolean flag or carries a value.
#[derive(Debug)]
pub enum ArgKind {
    Flag,
    Value(ValueKind),
}

impl View for ArgKind {
    type V = ArgKindModel;

    open spec fn view(&self) -> ArgKindModel {
        match self {
            ArgKind::Flag => ArgKindModel::Flag,
            ArgKind::Value(k) => ArgKindModel::Value(k@),
        }
    }
}

impl Clone for ArgKind {
    fn clone(&self) -> (r: Self)
        ensures
            r@ == self@,
    {
        match self {
            ArgKind::Flag => ArgKind::Flag,
            ArgKind::Value(k) => ArgKind::Value(k.clone()),
        }
    }
}

impl PartialEq for ArgKind {
    fn eq(&self, other: &Self) -> bool {
        match (self, other) {
            (ArgKind::Flag, ArgKind::Flag) => true,
            (ArgKind::Value(a), ArgKind::Value(b)) => *a == *b,
            _ => false,
        }
    }
}

impl vstd::std_specs::cmp::PartialEqSpecImpl for ArgKind {
    open spec fn obeys_eq_spec() -> bool {
        true
    }

    open spec fn eq_spec(&self, other: &Self) -> bool {
        self@ == other@
    }
}

/// Model of an [`Arg`] declaration.
pub struct ArgModel {
    pub id: Seq<char>,
    pub short_name: Option<char>,
    pub long_name: Option<Seq<char>>,
    pub description: Seq<Seq<char>>,
    pub kind: ArgKindModel,
    pub stop_parsing: bool,
    pub default_value: ArgValueModel,
}

/// One recognized command-line option: identifier, optional short and long
/// names, description lines, value kind, stop-parsing behaviour and a
/// default value whose variant matches the kind.
#[derive(Debug)]
pub struct Arg {
    pub id: String,
    pub short_name: Option<char>,
    pub long_name: Option<String>,
    pub description: Vec<String>,
    pub kind: ArgKind,
    pub stop_parsing: bool,
    pub default_value: ArgValue,
}

impl View for Arg {
    type V = ArgModel;

    open spec fn view(&self) -> ArgModel {
        ArgModel {
            id: self.id@,
            short_name: self.short_name,
            long_name: match self.long_name {
                Some(l) => Some(l@),
                None => None,
            },
            description: models_of(self.description@),
            kind: self.kind@,
            stop_parsing: self.stop_parsing,
            default_value: self.default_value@,
        }
    }
}

/// The default value's variant agrees with the declared kind.
pub open spec fn default_matches_kind(kind: ArgKindModel, default: ArgValueModel) -> bool {
    match kind {
        ArgKindModel::Flag => default is Bool,
        ArgKindModel::Value(ValueKindModel::Int) => default is Int,
        ArgKindModel::Value(ValueKindModel::UnsignedInt) => default is UnsignedInt,
        ArgKindModel::Value(ValueKindModel::OneOfStr(_)) => default is Str,
    }
}

/// The construction-time invariant of a declaration: an id, at least one
/// name, and a default of the declared shape.
pub open spec fn arg_wf(a: ArgModel) -> bool {
    &&& a.id.len() > 0
    &&& (a.short_name is Some || a.long_name is Some)
    &&& default_matches_kind(a.kind, a.default_value)
}

impl Arg {
    pub fn builder() -> (r: ArgDefinitionBuilder)
        ensures
            r.id@ == Seq::<char>::empty(),
            r.short_name is None,
            r.long_name is None,
            r.description@ == Seq::<String>::empty(),
            r.kind is None,
            r.stop_parsing == false,
            r.default_value is None,
    {
        ArgDefinitionBuilder {
            id: String::new(),
            short_name: None,
            long_name: None,
            description: Vec::new(),
            kind: None,
            stop_parsing: false,
            default_value: None,
        }
    }

    pub fn id(&self) -> (r: &str)
        ensures
            r@ == self@.id,
    {
        self.id.as_str()
    }

    pub fn short_name(&self) -> (r: Option<char>)
        ensures
            r == self@.short_name,
    {
        self.short_name
    }

    pub fn long_name(&self) -> (r: Option<&str>)
        ensures
            match r {
                Some(l) => self@.long_name matches Some(m) && l@ == m,
                None => self@.long_name is None,
            },
    {
        match &self.long_name {
            Some(l) => Some(l.as_str()),
            None => None,
        }
    }

    pub fn description(&self) -> (r: &Vec<String>)
        ensures
            models_of(r@) == self@.description,
    {
        &self.description
    }

    pub fn kind(&self) -> (r: &ArgKind)
        ensures
            r@ == self@.kind,
    {
        &self.kind
    }

    pub fn stop_parsing(&self) -> (r: bool)
        ensures
            r == self@.stop_parsing,
    {
        self.stop_parsing
    }

    pub fn default_value(&self) -> (r: &ArgValue)
        ensures
            r@ == self@.default_value,
    {
        &self.default_value
    }
}

impl Clone for Arg {
    fn clone(&self) -> (r: Self)
        ensures
            r@ == self@,
    {
        let mut description: Vec<String> = Vec::new();
        let mut i: usize = 0;
        while i < self.description.len()
            invariant
                i <= self.description.len(),
                description@.len() == i,
                forall|j: int| 0 <= j < i ==> description@[j]@ == self.description@[j]@,
            decreases self.description.len() - i,
        {
            description.push(self.description[i].clone());
            i += 1;
        }
        proof {
            assert(models_of(description@) =~= models_of(self.description@));
        }
        let r = Arg {
            id: self.id.clone(),
            short_name: self.short_name,
            long_name: match &self.long_name {
                Some(l) => Some(l.clone()),
                None => None,
            },
            description,
            kind: self.kind.clone(),
            stop_parsing: self.stop_parsing,
            default_value: self.default_value.clone(),
        };
        r
    }
}

/// Step-by-step construction of an [`Arg`]; `build` checks the invariant.
#[derive(Debug)]
pub struct ArgDefinitionBuilder {
    pub id: String,
    pub short_name: Option<char>,
    pub long_name: Option<String>,
    pub description: Vec<String>,
    pub kind: Option<ArgKind>,
    pub stop_parsing: bool,
    pub default_value: Option<ArgValue>,
}

/// What `build` requires of the accumulated builder state: the invariant
/// of the declaration it is about to produce.
pub open spec fn builder_valid(b: ArgDefinitionBuilder) -> bool {
    &&& b.id@.len() > 0
    &&& (b.short_name is Some || b.long_name is Some)
    &&& b.kind matches Some(k) && b.default_value matches Some(d) && default_matches_kind(
        k@,
        d@,
    )
}

impl ArgDefinitionBuilder {
    pub fn id(self, id: &str) -> (r: Self)
        ensures
            r == (Self { id: r.id, ..self }),
            r.id@ == id@,
    {
        Self { id: String::from_str(id), ..self }
    }

    pub fn short_name(self, short_name: char) -> (r: Self)
        ensures
            r == (Self { short_name: Some(short_name), ..self }),
    {
        Self { short_name: Some(short_name), ..self }
    }

    pub fn long_name(self, long_name: &str) -> (r: Self)
        ensures
            r == (Self { long_name: r.long_name, ..self }),
            r.long_name matches Some(l) && l@ == long_name@,
    {
        Self { long_name: Some(String::from_str(long_name)), ..self }
    }

    pub fn description(self, description: Vec<String>) -> (r: Self)
        ensures
            r == (Self { description, ..self }),
    {
        Self { description, ..self }
    }

    pub fn kind(self, kind: ArgKind) -> (r: Self)
        ensures
            r == (Self { kind: Some(kind), ..self }),
    {
        Self { kind: Some(kind), ..self }
    }

    pub fn stop_parsing(self, stop_parsing: bool) -> (r: Self)
        ensures
            r == (Self { stop_parsing, ..self }),
    {
        Self { stop_parsing, ..self }
    }

    pub fn default_value(self, default_value: ArgValue) -> (r: Self)
        ensures
            r == (Self { default_value: Some(default_value), ..self }),
    {
        Self { default_value: Some(default_value), ..self }
    }

    /// Produces the validated, immutable declaration. Construction with an
    /// empty id, no name at all, a missing kind or default, or a default
    /// whose variant contradicts the kind is a caller bug and is excluded
    /// by precondition.
    pub fn build(self) -> (r: Arg)
        requires
            builder_valid(self),
        ensures
            arg_wf(r@),
            r@.id == self.id@,
            r@.short_name == self.short_name,
            r@.long_name == (match self.long_name {
                Some(l) => Some(l@),
                None => None::<Seq<char>>,
            }),
            r@.description == models_of(self.description@),
            Some(r@.kind) == (match self.kind {
                Some(k) => Some(k@),
                None => None::<ArgKindModel>,
            }),
            r@.stop_parsing == self.stop_parsing,
            Some(r@.default_value) == (match self.default_value {
                Some(d) => Some(d@),
                None => None::<ArgValueModel>,
            }),
    {
        let kind = self.kind.unwrap();
        let default_value = self.default_value.unwrap();
        Arg {
            id: self.id,
            short_name: self.short_name,
            long_name: self.long_name,
            description: self.description,
            kind,
            stop_parsing: self.stop_parsing,
            default_value,
        }
    }
}

/// The declaration `d` is the one named by `name` in the given form: exact
/// long-name match for long form, first-character match for short form.
pub open spec fn matches_name(d: ArgModel, name: Seq<char>, is_long: bool) -> bool {
    if is_long {
        d.long_name matches Some(l) && l == name
    } else {
        d.short_name matches Some(c) && name.len() > 0 && c == name[0]
    }
}

/// The index of the first declaration matching `name`, if any.
pub open spec fn find_def(defs: Seq<ArgModel>, name: Seq<char>, is_long: bool) -> Option<int>
    decreases defs.len(),
{
    if defs.len() == 0 {
        None
    } else if matches_name(defs[0], name, is_long) {
        Some(0)
    } else {
        match find_def(defs.drop_first(), name, is_long) {
            Some(i) => Some(i + 1),
            None => None,
        }
    }
}

/// The text of the "unrecognised option" error for token `t`.
pub open spec fn msg_unrecognised(t: Seq<char>) -> Seq<char> {
    "unrecognised option: '"@ + t + "'"@
}

pub proof fn lemma_find_def_bounds(defs: Seq<ArgModel>, name: Seq<char>, is_long: bool)
    ensures
        match find_def(defs, name, is_long) {
            Some(i) => 0 <= i < defs.len() && matches_name(defs[i], name, is_long) && forall|
                j: int,
            | 0 <= j < i ==> !matches_name(defs[j], name, is_long),
            None => forall|j: int| 0 <= j < defs.len() ==> !matches_name(defs[j], name, is_long),
        },
    decreases defs.len(),
{
    if defs.len() > 0 && !matches_name(defs[0], name, is_long) {
        let tail = defs.drop_first();
        lemma_find_def_bounds(tail, name, is_long);
        assert forall|j: int| 1 <= j < defs.len() implies defs[j] == tail[j - 1] by {}
        match find_def(tail, name, is_long) {
            Some(i) => {
                assert(defs[i + 1] == tail[i]);
                assert forall|j: int| 0 <= j < i + 1 implies !matches_name(
                    defs[j],
                    name,
                    is_long,
                ) by {
                    if j >= 1 {
                        assert(defs[j] == tail[j - 1]);
                    }
                }
            },
            None => {
                assert forall|j: int| 0 <= j < defs.len() implies !matches_name(
                    defs[j],
                    name,
                    is_long,
                ) by {
                    if j >= 1 {
                        assert(defs[j] == tail[j - 1]);
                    }
                }
            },
        }
    }
}

/// Finds the declaration a token's name refers to, or reports the token as
/// unrecognised. Short names are matched on the first character of `arg_name`.
pub fn match_arg<'a>(
    arg: &str,
    arg_name: &str,
    is_long_name: bool,
    arg_definition_list: &'a [Arg],
) -> (r: Result<&'a Arg, String>)
    requires
        is_long_name || arg_name@.len() > 0,
    ensures
        match r {
            Ok(d) => find_def(models_of(arg_definition_list@), arg_name@, is_long_name)
                matches Some(i) && d@ == models_of(arg_definition_list@)[i],
            Err(e) => find_def(models_of(arg_definition_list@), arg_name@, is_long_name) is None
                && e@ == msg_unrecognised(arg@),
        },
{
    proof {
        lemma_find_def_bounds(models_of(arg_definition_list@), arg_name@, is_long_name);
    }
    let ghost defs = models_of(arg_definition_list@);
    let mut i: usize = 0;
    while i < arg_definition_list.len()
        invariant
            is_long_name || arg_name@.len() > 0,
            i <= arg_definition_list.len(),
            defs == models_of(arg_definition_list@),
            forall|j: int| 0 <= j < i ==> !matches_name(defs[j], arg_name@, is_long_name),
        decreases arg_definition_list.len() - i,
    {
        let d = &arg_definition_list[i];
        let found = if is_long_name {
            match &d.long_name {
                Some(l) => text::str_eq(l.as_str(), arg_name),
                None => false,
            }
        } else {
            match d.short_name {
                Some(c) => c == arg_name.get_char(0),
                None => false,
            }
        };
        if found {
            proof {
                assert(matches_name(defs[i as int], arg_name@, is_long_name));
                lemma_find_def_bounds(defs, arg_name@, is_long_name);
            }
            return Ok(d);
        }
        i += 1;
    }
    proof {
        lemma_find_def_bounds(defs, arg_name@, is_long_name);
    }
    Err(text::msg3("unrecognised option: '", arg, "'"))
}

} // verus!
