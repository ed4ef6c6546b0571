//! SSM parameters and the requests that create them.
use vstd::prelude::*;
use crate::text::str_eq;

verus! {

/// The type of a parameter.
#[derive(Debug, Clone, Copy, PartialEq, Eq)]
pub enum ParameterType {
    String,
    StringList,
    SecureString,
}

impl ParameterType {
    /// The name of the type, as the API writes it.
    pub open spec fn name(&self) -> Seq<char> {
        match self {
            ParameterType::String => "String"@,
            ParameterType::StringList => "StringList"@,
            ParameterType::SecureString => "SecureString"@,
        }
    }

    /// The name of the type, as the API writes it.
    pub fn as_str(&self) -> (r: &'static str)
        ensures
            r@ == self.name(),
    {
        match self {
            ParameterType::String => "String",
            ParameterType::StringList => "StringList",
            ParameterType::SecureString => "SecureString",
        }
    }

    /// The type a name stands for: `StringList` and `SecureString` by their
    /// names, `String` for anything else.
    pub open spec fn of_name(s: Seq<char>) -> ParameterType {
        if s == "StringList"@ {
            ParameterType::StringList
        } else if s == "SecureString"@ {
            ParameterType::SecureString
        } else {
            ParameterType::String
        }
    }

    /// The type a name stands for.
    pub fn from_name(s: &str) -> (r: ParameterType)
        ensures
            r == ParameterType::of_name(s@),
    {
        if str_eq(s, "StringList") {
            ParameterType::StringList
        } else if str_eq(s, "SecureString") {
            ParameterType::SecureString
        } else {
            ParameterType::String
        }
    }
}

/// A stored parameter. `last_modified_date` is in seconds since the Unix epoch.
#[derive(Debug)]
pub struct Parameter {
    pub name: String,
    pub parameter_type: ParameterType,
    pub value: String,
    pub version: i64,
    pub last_modified_date: i64,
    pub arn: String,
    pub data_type: String,
    pub description: Option<String>,
    pub key_id: Option<String>,
    pub tier: String,
}

/// A parameter as text.
pub struct ParamView {
    pub name: Seq<char>,
    pub parameter_type: ParameterType,
    pub value: Seq<char>,
    pub version: i64,
    pub last_modified_date: i64,
    pub arn: Seq<char>,
    pub data_type: Seq<char>,
    pub description: Option<Seq<char>>,
    pub key_id: Option<Seq<char>>,
    pub tier: Seq<char>,
}

impl Parameter {
    pub open spec fn view(&self) -> ParamView {
        ParamView {
            name: self.name@,
            parameter_type: self.parameter_type,
            value: self.value@,
            version: self.version,
            last_modified_date: self.last_modified_date,
            arn: self.arn@,
            data_type: self.data_type@,
            description: crate::ses::state::opt_text(self.description),
            key_id: crate::ses::state::opt_text(self.key_id),
            tier: self.tier@,
        }
    }

    /// A copy of the parameter.
    pub fn copy(&self) -> (r: Self)
        ensures
            r@ == self@,
    {
        Parameter {
            name: self.name.clone(),
            parameter_type: self.parameter_type,
            value: self.value.clone(),
            version: self.version,
            last_modified_date: self.last_modified_date,
            arn: self.arn.clone(),
            data_type: self.data_type.clone(),
            description: crate::ses::state::copy_opt(&self.description),
            key_id: crate::ses::state::copy_opt(&self.key_id),
            tier: self.tier.clone(),
        }
    }
}

/// The views of a list of parameters.
pub open spec fn param_views(v: Seq<Parameter>) -> Seq<ParamView> {
    v.map_values(|p: Parameter| p@)
}

/// Copies of a list of parameters.
pub fn copy_params(v: &Vec<Parameter>) -> (r: Vec<Parameter>)
    ensures
        param_views(r@) == param_views(v@),
{
    let mut r: Vec<Parameter> = Vec::new();
    let mut i: usize = 0;
    while i < v.len()
        invariant
            i <= v@.len(),
            r@.len() == i,
            forall|j: int| 0 <= j < i ==> #[trigger] r@[j]@ == v@[j]@,
        decreases v.len() - i,
    {
        r.push(v[i].copy());
        i = i + 1;
    }
    assert(param_views(r@) =~= param_views(v@));
    r
}

/// A request to create or replace a parameter.
#[derive(Debug)]
pub struct PutParameterRequest {
    pub name: String,
    pub value: String,
    pub parameter_type: Option<String>,
    pub description: Option<String>,
    pub overwrite: Option<bool>,
    pub key_id: Option<String>,
    pub tier: Option<String>,
    pub data_type: Option<String>,
    pub allowed_pattern: Option<String>,
}

/// A parameter and its versions, for saving.
#[derive(Debug)]
pub struct ParameterRecordSnapshot {
    pub current: Parameter,
    pub history: Vec<Parameter>,
}

/// Everything the SSM emulator holds, for saving and restoring.
#[derive(Debug, Default)]
pub struct SsmSnapshot {
    pub parameters: Vec<ParameterRecordSnapshot>,
}

} // verus!
