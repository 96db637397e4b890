//! Plugins: other bakefiles whose tasks are called as `@name.task`.
use vstd::prelude::*;

use crate::model::yaml::{read_text, req_text, FromYaml, YamlValue};

verus! {

/// Another bakefile; `name` is the namespace its tasks are called under.
#[derive(Debug, PartialEq)]
pub struct Plugin {
    name: String,
    path: String,
}

/// The value a [Plugin] stands for.
pub struct PluginView {
    pub name: Seq<char>,
    pub path: Seq<char>,
}

impl View for Plugin {
    type V = PluginView;

    closed spec fn view(&self) -> PluginView {
        PluginView { name: self.name@, path: self.path@ }
    }
}

impl Plugin {
    pub fn new(name: String, path: String) -> (r: Self)
        ensures
            r@ == (PluginView { name: name@, path: path@ }),
    {
        Self { name, path }
    }

    pub fn name(&self) -> (r: &str)
        ensures
            r@ == self@.name,
    {
        self.name.as_str()
    }

    pub fn path(&self) -> (r: &str)
        ensures
            r@ == self@.path,
    {
        self.path.as_str()
    }
}

/// Reading a plugin: a mapping with `name` and `path`.
pub open spec fn decode_plugin(v: YamlValue) -> Result<PluginView, Seq<char>> {
    match v {
        YamlValue::Mapping(m) => match (req_text(m@, "name"@), req_text(m@, "path"@)) {
            (Err(e), _) => Err(e),
            (Ok(_), Err(e)) => Err(e),
            (Ok(n), Ok(p)) => Ok(PluginView { name: n, path: p }),
        },
        _ => Err("invalid type, expected a plugin mapping"@),
    }
}

impl FromYaml for Plugin {
    open spec fn decoded(v: YamlValue) -> Result<PluginView, Seq<char>> {
        decode_plugin(v)
    }

    fn from_yaml_value(v: &YamlValue) -> (r: Result<Self, String>) {
        match v {
            YamlValue::Mapping(m) => {
                let name = read_text(m, "name")?;
                let path = read_text(m, "path")?;
                Ok(Plugin { name, path })
            },
            _ => Err(String::from_str("invalid type, expected a plugin mapping")),
        }
    }
}

} // verus!
