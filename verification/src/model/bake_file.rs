//! The whole bakefile.
use vstd::prelude::*;
use vstd::string::*;

use crate::model::dependency::{Dependency, DependencyView};
use crate::model::plugin::{Plugin, PluginView};
use crate::model::task::{Task, TaskView};
use crate::model::yaml::{opt_list, parse_yaml, read_opt_list, views, yaml_document, YamlValue};

verus! {

/// What a `bakefile.yaml` declares.
#[derive(Debug, PartialEq)]
pub struct BakeFile {
    plugins: Option<Vec<Plugin>>,
    dependencies: Option<Vec<Dependency>>,
    tasks: Option<Vec<Task>>,
}

/// The value a [BakeFile] stands for.
pub struct BakeFileView {
    pub plugins: Option<Seq<PluginView>>,
    pub dependencies: Option<Seq<DependencyView>>,
    pub tasks: Option<Seq<TaskView>>,
}

pub open spec fn opt_seq_views<T: View>(o: Option<Vec<T>>) -> Option<Seq<T::V>> {
    match o {
        Some(v) => Some(views(v@)),
        None => None,
    }
}

impl View for BakeFile {
    type V = BakeFileView;

    closed spec fn view(&self) -> BakeFileView {
        BakeFileView {
            plugins: opt_seq_views(self.plugins),
            dependencies: opt_seq_views(self.dependencies),
            tasks: opt_seq_views(self.tasks),
        }
    }
}

/// Reading a bakefile document: a mapping with optional `plugins`,
/// `dependencies` and `tasks` lists; other entries are ignored.
pub open spec fn decode_bake_file(v: YamlValue) -> Result<BakeFileView, Seq<char>> {
    match v {
        YamlValue::Mapping(m) => match (
            opt_list::<Plugin>(m@, "plugins"@),
            opt_list::<Dependency>(m@, "dependencies"@),
            opt_list::<Task>(m@, "tasks"@),
        ) {
            (Err(e), _, _) => Err(e),
            (Ok(_), Err(e), _) => Err(e),
            (Ok(_), Ok(_), Err(e)) => Err(e),
            (Ok(p), Ok(d), Ok(t)) => Ok(BakeFileView { plugins: p, dependencies: d, tasks: t }),
        },
        _ => Err("invalid type, expected a bakefile mapping"@),
    }
}

/// The bakefile that a YAML text holds, or the error message.
pub open spec fn bake_file_of(yaml: Seq<char>) -> Result<BakeFileView, Seq<char>> {
    match yaml_document(yaml) {
        Err(e) => Err(e),
        Ok(doc) => decode_bake_file(doc),
    }
}

impl BakeFile {
    /// Reads a bakefile from YAML text.
    pub fn from_yaml(yaml: &str) -> (r: Result<BakeFile, String>)
        ensures
            match (r, bake_file_of(yaml@)) {
                (Ok(b), Ok(v)) => b@ == v,
                (Err(e), Err(m)) => e@ == m,
                _ => false,
            },
    {
        let doc = parse_yaml(yaml)?;
        Self::from_document(&doc)
    }

    /// Reads a bakefile from a parsed YAML document (see [decode_bake_file]).
    pub fn from_document(doc: &YamlValue) -> (r: Result<BakeFile, String>)
        ensures
            match (r, decode_bake_file(*doc)) {
                (Ok(b), Ok(v)) => b@ == v,
                (Err(e), Err(m)) => e@ == m,
                _ => false,
            },
    {
        match doc {
            YamlValue::Mapping(m) => {
                let plugins = read_opt_list::<Plugin>(m, "plugins")?;
                let dependencies = read_opt_list::<Dependency>(m, "dependencies")?;
                let tasks = read_opt_list::<Task>(m, "tasks")?;
                Ok(BakeFile { plugins, dependencies, tasks })
            },
            _ => Err(String::from_str("invalid type, expected a bakefile mapping")),
        }
    }

    /// The plugins (none when absent).
    pub fn plugins(&self) -> (r: &[Plugin])
        ensures
            views(r@) == match self@.plugins {
                Some(p) => p,
                None => Seq::empty(),
            },
    {
        match &self.plugins {
            Some(x) => x.as_slice(),
            None => {
                let e: &[Plugin] = &[];
                assert(views(e@) =~= Seq::<PluginView>::empty());
                e
            },
        }
    }

    /// The dependencies (none when absent).
    pub fn dependencies(&self) -> (r: &[Dependency])
        ensures
            views(r@) == match self@.dependencies {
                Some(p) => p,
                None => Seq::empty(),
            },
    {
        match &self.dependencies {
            Some(x) => x.as_slice(),
            None => {
                let e: &[Dependency] = &[];
                assert(views(e@) =~= Seq::<DependencyView>::empty());
                e
            },
        }
    }

    /// The tasks in the order of the file (none when absent).
    pub fn tasks(&self) -> (r: &[Task])
        ensures
            views(r@) == match self@.tasks {
                Some(p) => p,
                None => Seq::empty(),
            },
    {
        match &self.tasks {
            Some(x) => x.as_slice(),
            None => {
                let e: &[Task] = &[];
                assert(views(e@) =~= Seq::<TaskView>::empty());
                e
            },
        }
    }
}

} // verus!
