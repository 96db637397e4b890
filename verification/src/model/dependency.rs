//! Dependencies: tools a task needs, how to check and install them.
use vstd::prelude::*;
use vstd::string::*;

use crate::model::command::{command_views, commands_for, platform_commands, Command};
use crate::model::yaml::{
    opt_text, opt_texts, read_opt_text, read_opt_texts, read_text, req_text, FromYaml, YamlValue,
};
use crate::text::{clone_opt_string, clone_opt_strings, opt_view, opt_views};
use crate::util::platform_specific::{
    get_platform_name, pick, platform_name, platform_specific, Platform,
};

verus! {

/// A tool that tasks depend on.
#[derive(Debug, PartialEq, Clone)]
pub struct Dependency {
    name: String,
    dependencies: Option<Vec<String>>,
    check: Option<Vec<String>>,
    check_linux: Option<Vec<String>>,
    check_windows: Option<Vec<String>>,
    check_macos: Option<Vec<String>>,
    link: Option<String>,
    link_linux: Option<String>,
    link_windows: Option<String>,
    link_macos: Option<String>,
    commands: Option<Vec<String>>,
    commands_linux: Option<Vec<String>>,
    commands_windows: Option<Vec<String>>,
    commands_macos: Option<Vec<String>>,
}

/// The value a [Dependency] stands for.
pub struct DependencyView {
    pub name: Seq<char>,
    pub dependencies: Option<Seq<Seq<char>>>,
    pub check: Option<Seq<Seq<char>>>,
    pub check_linux: Option<Seq<Seq<char>>>,
    pub check_windows: Option<Seq<Seq<char>>>,
    pub check_macos: Option<Seq<Seq<char>>>,
    pub link: Option<Seq<char>>,
    pub link_linux: Option<Seq<char>>,
    pub link_windows: Option<Seq<char>>,
    pub link_macos: Option<Seq<char>>,
    pub commands: Option<Seq<Seq<char>>>,
    pub commands_linux: Option<Seq<Seq<char>>>,
    pub commands_windows: Option<Seq<Seq<char>>>,
    pub commands_macos: Option<Seq<Seq<char>>>,
}

impl View for Dependency {
    type V = DependencyView;

    closed spec fn view(&self) -> DependencyView {
        DependencyView {
            name: self.name@,
            dependencies: opt_views(self.dependencies),
            check: opt_views(self.check),
            check_linux: opt_views(self.check_linux),
            check_windows: opt_views(self.check_windows),
            check_macos: opt_views(self.check_macos),
            link: opt_view(self.link),
            link_linux: opt_view(self.link_linux),
            link_windows: opt_view(self.link_windows),
            link_macos: opt_view(self.link_macos),
            commands: opt_views(self.commands),
            commands_linux: opt_views(self.commands_linux),
            commands_windows: opt_views(self.commands_windows),
            commands_macos: opt_views(self.commands_macos),
        }
    }
}

/// The check list that applies on `platform`.
pub open spec fn check_list(d: DependencyView, platform: Platform) -> Option<Seq<Seq<char>>> {
    pick(platform, d.check, d.check_linux, d.check_windows, d.check_macos)
}

/// The installation list that applies on `platform`.
pub open spec fn install_list(d: DependencyView, platform: Platform) -> Option<Seq<Seq<char>>> {
    pick(platform, d.commands, d.commands_linux, d.commands_windows, d.commands_macos)
}

/// The link that applies on `platform`.
pub open spec fn link_for(d: DependencyView, platform: Platform) -> Option<Seq<char>> {
    pick(platform, d.link, d.link_linux, d.link_windows, d.link_macos)
}

#[allow(clippy::too_many_arguments)]
impl Dependency {
    pub fn new(
        name: String,
        dependencies: Option<Vec<String>>,
        check: Option<Vec<String>>,
        check_linux: Option<Vec<String>>,
        check_windows: Option<Vec<String>>,
        check_macos: Option<Vec<String>>,
        link: Option<String>,
        link_linux: Option<String>,
        link_windows: Option<String>,
        link_macos: Option<String>,
        commands: Option<Vec<String>>,
        commands_linux: Option<Vec<String>>,
        commands_windows: Option<Vec<String>>,
        commands_macos: Option<Vec<String>>,
    ) -> (r: Self)
        ensures
            r@ == (DependencyView {
                name: name@,
                dependencies: opt_views(dependencies),
                check: opt_views(check),
                check_linux: opt_views(check_linux),
                check_windows: opt_views(check_windows),
                check_macos: opt_views(check_macos),
                link: opt_view(link),
                link_linux: opt_view(link_linux),
                link_windows: opt_view(link_windows),
                link_macos: opt_view(link_macos),
                commands: opt_views(commands),
                commands_linux: opt_views(commands_linux),
                commands_windows: opt_views(commands_windows),
                commands_macos: opt_views(commands_macos),
            }),
    {
        Self {
            name,
            dependencies,
            check,
            check_linux,
            check_windows,
            check_macos,
            link,
            link_linux,
            link_windows,
            link_macos,
            commands,
            commands_linux,
            commands_windows,
            commands_macos,
        }
    }

    pub fn name(&self) -> (r: &str)
        ensures
            r@ == self@.name,
    {
        self.name.as_str()
    }

    /// The names of the dependencies of this dependency (none when absent).
    pub fn dependencies(&self) -> (r: &[String])
        ensures
            r.deep_view() == match self@.dependencies {
                Some(d) => d,
                None => Seq::empty(),
            },
    {
        match &self.dependencies {
            Some(x) => x.as_slice(),
            None => {
                let e: &[String] = &[];
                assert(e.deep_view() =~= Seq::<Seq<char>>::empty());
                e
            },
        }
    }

    /// The commands that tell whether the dependency is installed on `platform`.
    pub fn check(&self, platform: Platform) -> (r: Result<Vec<Command>, String>)
        ensures
            match (r, platform_commands(check_list(self@, platform), platform)) {
                (Ok(v), Ok(w)) => command_views(v@) == w,
                (Err(e), Err(m)) => e@ == m,
                _ => false,
            },
    {
        let list = platform_specific(
            platform,
            self.check.as_ref(),
            self.check_linux.as_ref(),
            self.check_windows.as_ref(),
            self.check_macos.as_ref(),
        );
        commands_for(list, platform)
    }

    /// Where to install the dependency from by hand on `platform`.
    pub fn link(&self, platform: Platform) -> (r: Result<String, String>)
        ensures
            match (r, link_for(self@, platform)) {
                (Ok(s), Some(t)) => s@ == t,
                (Err(e), None) => e@ == "no command available for "@ + platform_name(platform),
                _ => false,
            },
    {
        let link = platform_specific(
            platform,
            self.link.as_ref(),
            self.link_linux.as_ref(),
            self.link_windows.as_ref(),
            self.link_macos.as_ref(),
        );
        match link {
            Some(l) => Ok(l.clone()),
            None => {
                let mut e = String::from_str("no command available for ");
                e.append(get_platform_name(platform));
                Err(e)
            },
        }
    }

    /// The commands that install the dependency on `platform`.
    pub fn installation_command(&self, platform: Platform) -> (r: Result<Vec<Command>, String>)
        ensures
            match (r, platform_commands(install_list(self@, platform), platform)) {
                (Ok(v), Ok(w)) => command_views(v@) == w,
                (Err(e), Err(m)) => e@ == m,
                _ => false,
            },
    {
        let list = platform_specific(
            platform,
            self.commands.as_ref(),
            self.commands_linux.as_ref(),
            self.commands_windows.as_ref(),
            self.commands_macos.as_ref(),
        );
        commands_for(list, platform)
    }

    /// A copy of the dependency.
    pub fn duplicate(&self) -> (r: Self)
        ensures
            r@ == self@,
    {
        Dependency {
            name: self.name.clone(),
            dependencies: clone_opt_strings(&self.dependencies),
            check: clone_opt_strings(&self.check),
            check_linux: clone_opt_strings(&self.check_linux),
            check_windows: clone_opt_strings(&self.check_windows),
            check_macos: clone_opt_strings(&self.check_macos),
            link: clone_opt_string(&self.link),
            link_linux: clone_opt_string(&self.link_linux),
            link_windows: clone_opt_string(&self.link_windows),
            link_macos: clone_opt_string(&self.link_macos),
            commands: clone_opt_strings(&self.commands),
            commands_linux: clone_opt_strings(&self.commands_linux),
            commands_windows: clone_opt_strings(&self.commands_windows),
            commands_macos: clone_opt_strings(&self.commands_macos),
        }
    }
}

/// Reading the optional lists and links of a dependency, in field order.
pub open spec fn decode_dependency_rest(
    m: Seq<(YamlValue, YamlValue)>,
    name: Seq<char>,
) -> Result<DependencyView, Seq<char>> {
    match (
        opt_texts(m, "dependencies"@),
        opt_texts(m, "check"@),
        opt_texts(m, "check_linux"@),
        opt_texts(m, "check_windows"@),
        opt_texts(m, "check_macos"@),
        opt_text(m, "link"@),
        opt_text(m, "link_linux"@),
    ) {
        (Err(e), _, _, _, _, _, _) => Err(e),
        (Ok(_), Err(e), _, _, _, _, _) => Err(e),
        (Ok(_), Ok(_), Err(e), _, _, _, _) => Err(e),
        (Ok(_), Ok(_), Ok(_), Err(e), _, _, _) => Err(e),
        (Ok(_), Ok(_), Ok(_), Ok(_), Err(e), _, _) => Err(e),
        (Ok(_), Ok(_), Ok(_), Ok(_), Ok(_), Err(e), _) => Err(e),
        (Ok(_), Ok(_), Ok(_), Ok(_), Ok(_), Ok(_), Err(e)) => Err(e),
        (Ok(d), Ok(c), Ok(cl), Ok(cw), Ok(cm), Ok(l), Ok(ll)) => match (
            opt_text(m, "link_windows"@),
            opt_text(m, "link_macos"@),
            opt_texts(m, "commands"@),
            opt_texts(m, "commands_linux"@),
            opt_texts(m, "commands_windows"@),
            opt_texts(m, "commands_macos"@),
        ) {
            (Err(e), _, _, _, _, _) => Err(e),
            (Ok(_), Err(e), _, _, _, _) => Err(e),
            (Ok(_), Ok(_), Err(e), _, _, _) => Err(e),
            (Ok(_), Ok(_), Ok(_), Err(e), _, _) => Err(e),
            (Ok(_), Ok(_), Ok(_), Ok(_), Err(e), _) => Err(e),
            (Ok(_), Ok(_), Ok(_), Ok(_), Ok(_), Err(e)) => Err(e),
            (Ok(lw), Ok(lm), Ok(k), Ok(kl), Ok(kw), Ok(km)) => Ok(
                DependencyView {
                    name,
                    dependencies: d,
                    check: c,
                    check_linux: cl,
                    check_windows: cw,
                    check_macos: cm,
                    link: l,
                    link_linux: ll,
                    link_windows: lw,
                    link_macos: lm,
                    commands: k,
                    commands_linux: kl,
                    commands_windows: kw,
                    commands_macos: km,
                },
            ),
        },
    }
}

/// Reading a dependency: a mapping with `name` and optional entries named
/// as the fields; the first field (in that order) that does not read gives
/// the error.
pub open spec fn decode_dependency(v: YamlValue) -> Result<DependencyView, Seq<char>> {
    match v {
        YamlValue::Mapping(m) => match req_text(m@, "name"@) {
            Err(e) => Err(e),
            Ok(name) => decode_dependency_rest(m@, name),
        },
        _ => Err("invalid type, expected a dependency mapping"@),
    }
}

impl FromYaml for Dependency {
    open spec fn decoded(v: YamlValue) -> Result<DependencyView, Seq<char>> {
        decode_dependency(v)
    }

    fn from_yaml_value(v: &YamlValue) -> (r: Result<Self, String>) {
        match v {
            YamlValue::Mapping(m) => {
                let name = read_text(m, "name")?;
                let dependencies = read_opt_texts(m, "dependencies")?;
                let check = read_opt_texts(m, "check")?;
                let check_linux = read_opt_texts(m, "check_linux")?;
                let check_windows = read_opt_texts(m, "check_windows")?;
                let check_macos = read_opt_texts(m, "check_macos")?;
                let link = read_opt_text(m, "link")?;
                let link_linux = read_opt_text(m, "link_linux")?;
                let link_windows = read_opt_text(m, "link_windows")?;
                let link_macos = read_opt_text(m, "link_macos")?;
                let commands = read_opt_texts(m, "commands")?;
                let commands_linux = read_opt_texts(m, "commands_linux")?;
                let commands_windows = read_opt_texts(m, "commands_windows")?;
                let commands_macos = read_opt_texts(m, "commands_macos")?;
                Ok(
                    Dependency {
                        name,
                        dependencies,
                        check,
                        check_linux,
                        check_windows,
                        check_macos,
                        link,
                        link_linux,
                        link_windows,
                        link_macos,
                        commands,
                        commands_linux,
                        commands_windows,
                        commands_macos,
                    },
                )
            },
            _ => Err(String::from_str("invalid type, expected a dependency mapping")),
        }
    }
}

} // verus!
