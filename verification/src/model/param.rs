//! Parameters of a task: environment variables it needs.
use vstd::prelude::*;

use crate::model::param_validator::{parse_validator, ParamValidator};
use crate::model::yaml::{opt_text, read_opt_text, read_text, req_text, FromYaml, YamlValue};
use crate::text::{clone_opt_string, opt_str, opt_view};

verus! {

/// An environment variable that a task needs, with an optional validation
/// rule and default value.
#[derive(Debug, PartialEq, Clone)]
pub struct Param {
    name: String,
    validator: Option<String>,
    default: Option<String>,
}

/// The value a [Param] stands for.
pub struct ParamView {
    pub name: Seq<char>,
    pub validator: Option<Seq<char>>,
    pub default: Option<Seq<char>>,
}

impl View for Param {
    type V = ParamView;

    closed spec fn view(&self) -> ParamView {
        ParamView {
            name: self.name@,
            validator: opt_view(self.validator),
            default: opt_view(self.default),
        }
    }
}

impl Param {
    pub fn new(name: String, validation: Option<String>) -> (r: Self)
        ensures
            r@ == (ParamView { name: name@, validator: opt_view(validation), default: None }),
    {
        Self { name, validator: validation, default: None }
    }

    /// The value to use when the variable is not set.
    pub fn default(&self) -> (r: Option<&str>)
        ensures
            match (r, self@.default) {
                (Some(s), Some(t)) => s@ == t,
                (None, None) => true,
                _ => false,
            },
    {
        opt_str(&self.default)
    }

    pub fn name(&self) -> (r: &str)
        ensures
            r@ == self@.name,
    {
        self.name.as_str()
    }

    /// The validation rule, read from its text.
    pub fn validator(&self) -> (r: Option<Result<ParamValidator, String>>)
        ensures
            match self@.validator {
                None => r is None,
                Some(t) => match (r, parse_validator(t)) {
                    (Some(Ok(p)), Ok(q)) => p@ == q,
                    (Some(Err(e)), Err(m)) => e@ == m,
                    _ => false,
                },
            },
    {
        match &self.validator {
            Some(x) => Some(ParamValidator::try_from(x.as_str())),
            None => None,
        }
    }

    /// A copy of the parameter.
    pub fn duplicate(&self) -> (r: Self)
        ensures
            r@ == self@,
    {
        Param {
            name: self.name.clone(),
            validator: clone_opt_string(&self.validator),
            default: clone_opt_string(&self.default),
        }
    }
}

/// Reading a parameter: a mapping with `name`, `validator` and `default`.
pub open spec fn decode_param(v: YamlValue) -> Result<ParamView, Seq<char>> {
    match v {
        YamlValue::Mapping(m) => match (
            req_text(m@, "name"@),
            opt_text(m@, "validator"@),
            opt_text(m@, "default"@),
        ) {
            (Err(e), _, _) => Err(e),
            (Ok(_), Err(e), _) => Err(e),
            (Ok(_), Ok(_), Err(e)) => Err(e),
            (Ok(n), Ok(val), Ok(d)) => Ok(ParamView { name: n, validator: val, default: d }),
        },
        _ => Err("invalid type, expected a param mapping"@),
    }
}

impl FromYaml for Param {
    open spec fn decoded(v: YamlValue) -> Result<ParamView, Seq<char>> {
        decode_param(v)
    }

    fn from_yaml_value(v: &YamlValue) -> (r: Result<Self, String>) {
        match v {
            YamlValue::Mapping(m) => {
                let name = read_text(m, "name")?;
                let validator = read_opt_text(m, "validator")?;
                let default = read_opt_text(m, "default")?;
                Ok(Param { name, validator, default })
            },
            _ => Err(String::from_str("invalid type, expected a param mapping")),
        }
    }
}

} // verus!
