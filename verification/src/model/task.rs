//! Tasks: named lists of commands with their dependencies and parameters.
use vstd::prelude::*;
use vstd::string::*;

use crate::model::command::{
    command_views, commands_for, parse_command, platform_commands, Command, CommandView,
};
use crate::model::function_call::{FunctionCall, FunctionCallView};
use crate::model::param::{Param, ParamView};
use crate::model::yaml::{
    opt_bool, opt_list, opt_text, opt_texts, read_opt_bool, read_opt_list, read_opt_text,
    read_opt_texts, read_text, req_text, views, FromYaml, YamlValue,
};
use crate::text::{clone_opt_string, clone_opt_strings, opt_str, opt_view, opt_views};
use crate::util::platform_specific::{pick, platform_specific, Platform};

verus! {

/// A task of the bakefile.
#[derive(Debug, PartialEq, Clone)]
pub struct Task {
    name: String,
    help_msg: Option<String>,
    dependencies: Option<Vec<String>>,
    envs: Option<Vec<Param>>,
    working_directory: Option<String>,
    commands: Option<Vec<String>>,
    commands_linux: Option<Vec<String>>,
    commands_windows: Option<Vec<String>>,
    commands_macos: Option<Vec<String>>,
    on_success: Option<String>,
    on_error: Option<String>,
    on_end: Option<String>,
    keep_alive: Option<bool>,
}

/// The value a [Task] stands for.
pub struct TaskView {
    pub name: Seq<char>,
    pub help_msg: Option<Seq<char>>,
    pub dependencies: Option<Seq<Seq<char>>>,
    pub envs: Option<Seq<ParamView>>,
    pub working_directory: Option<Seq<char>>,
    pub commands: Option<Seq<Seq<char>>>,
    pub commands_linux: Option<Seq<Seq<char>>>,
    pub commands_windows: Option<Seq<Seq<char>>>,
    pub commands_macos: Option<Seq<Seq<char>>>,
    pub on_success: Option<Seq<char>>,
    pub on_error: Option<Seq<char>>,
    pub on_end: Option<Seq<char>>,
    pub keep_alive: Option<bool>,
}

pub open spec fn opt_params(o: Option<Vec<Param>>) -> Option<Seq<ParamView>> {
    match o {
        Some(v) => Some(views(v@)),
        None => None,
    }
}

impl View for Task {
    type V = TaskView;

    closed spec fn view(&self) -> TaskView {
        TaskView {
            name: self.name@,
            help_msg: opt_view(self.help_msg),
            dependencies: opt_views(self.dependencies),
            envs: opt_params(self.envs),
            working_directory: opt_view(self.working_directory),
            commands: opt_views(self.commands),
            commands_linux: opt_views(self.commands_linux),
            commands_windows: opt_views(self.commands_windows),
            commands_macos: opt_views(self.commands_macos),
            on_success: opt_view(self.on_success),
            on_error: opt_view(self.on_error),
            on_end: opt_view(self.on_end),
            keep_alive: self.keep_alive,
        }
    }
}

/// The list that applies on `platform`.
pub open spec fn task_command_list(t: TaskView, platform: Platform) -> Option<Seq<Seq<char>>> {
    pick(platform, t.commands, t.commands_linux, t.commands_windows, t.commands_macos)
}

/// A hook is a call of a task; a shell command is refused there.
pub open spec fn hook_call(t: Seq<char>) -> Result<FunctionCallView, Seq<char>> {
    match parse_command(t) {
        Ok(CommandView::FunctionCall(c)) => Ok(c),
        Ok(CommandView::ShellCommand(s)) => Err("'"@ + s + "' is not a function call"@),
        Err(e) => Err(e),
    }
}

/// What reading an optional hook gives.
pub open spec fn hook_result(h: Option<Seq<char>>, r: Option<Result<FunctionCall, String>>) -> bool {
    match h {
        None => r is None,
        Some(t) => match (r, hook_call(t)) {
            (Some(Ok(c)), Ok(v)) => c@ == v,
            (Some(Err(e)), Err(m)) => e@ == m,
            _ => false,
        },
    }
}

fn hook(h: &Option<String>) -> (r: Option<Result<FunctionCall, String>>)
    ensures
        hook_result(opt_view(*h), r),
{
    match h {
        None => None,
        Some(t) => match Command::try_from(t.as_str()) {
            Ok(Command::FunctionCall(c)) => Some(Ok(c)),
            Ok(Command::ShellCommand(s)) => {
                let mut e = String::from_str("'");
                e.append(s.as_str());
                e.append("' is not a function call");
                Some(Err(e))
            },
            Err(e) => Some(Err(e)),
        },
    }
}

fn clone_params(v: &Vec<Param>) -> (r: Vec<Param>)
    ensures
        views(r@) == views(v@),
{
    let mut r: Vec<Param> = Vec::new();
    let mut i: usize = 0;
    while i < v.len()
        invariant
            i <= v.len(),
            views(r@) == views(v@).take(i as int),
        decreases v.len() - i,
    {
        let ghost prev = r@;
        let p = v[i].duplicate();
        r.push(p);
        assert(views(r@) =~= views(prev).push(v@[i as int]@));
        assert(views(v@).take(i + 1) =~= views(v@).take(i as int).push(v@[i as int]@));
        i = i + 1;
    }
    assert(views(v@).take(v.len() as int) =~= views(v@));
    r
}

#[allow(clippy::too_many_arguments)]
impl Task {
    pub fn new(
        name: String,
        help_msg: Option<String>,
        dependencies: Option<Vec<String>>,
        envs: Option<Vec<Param>>,
        working_directory: Option<String>,
        commands: Option<Vec<String>>,
        commands_linux: Option<Vec<String>>,
        commands_windows: Option<Vec<String>>,
        commands_macos: Option<Vec<String>>,
        on_success: Option<String>,
        on_error: Option<String>,
        on_end: Option<String>,
    ) -> (r: Self)
        ensures
            r@ == (TaskView {
                name: name@,
                help_msg: opt_view(help_msg),
                dependencies: opt_views(dependencies),
                envs: opt_params(envs),
                working_directory: opt_view(working_directory),
                commands: opt_views(commands),
                commands_linux: opt_views(commands_linux),
                commands_windows: opt_views(commands_windows),
                commands_macos: opt_views(commands_macos),
                on_success: opt_view(on_success),
                on_error: opt_view(on_error),
                on_end: opt_view(on_end),
                keep_alive: None,
            }),
    {
        Self {
            name,
            help_msg,
            dependencies,
            envs,
            working_directory,
            commands,
            commands_linux,
            commands_windows,
            commands_macos,
            on_success,
            on_error,
            on_end,
            keep_alive: None,
        }
    }

    pub fn name(&self) -> (r: &str)
        ensures
            r@ == self@.name,
    {
        self.name.as_str()
    }

    pub fn help_msg(&self) -> (r: Option<&str>)
        ensures
            match (r, self@.help_msg) {
                (Some(s), Some(t)) => s@ == t,
                (None, None) => true,
                _ => false,
            },
    {
        opt_str(&self.help_msg)
    }

    /// The names of the dependencies to install first (none when absent).
    pub fn dependencies(&self) -> (r: &[String])
        ensures
            r.deep_view() == match self@.dependencies {
                Some(d) => d,
                None => Seq::empty(),
            },
    {
        match &self.dependencies {
            Some(x) => x.as_slice(),
            None => {
                let e: &[String] = &[];
                assert(e.deep_view() =~= Seq::<Seq<char>>::empty());
                e
            },
        }
    }

    /// The parameters (none when absent).
    pub fn envs(&self) -> (r: &[Param])
        ensures
            views(r@) == match self@.envs {
                Some(d) => d,
                None => Seq::empty(),
            },
    {
        match &self.envs {
            Some(x) => x.as_slice(),
            None => {
                let e: &[Param] = &[];
                assert(views(e@) =~= Seq::<ParamView>::empty());
                e
            },
        }
    }

    /// The commands that run on `platform`: its own list where there is one,
    /// else the common list.
    pub fn commands(&self, platform: Platform) -> (r: Result<Vec<Command>, String>)
        ensures
            match (r, platform_commands(task_command_list(self@, platform), platform)) {
                (Ok(v), Ok(w)) => command_views(v@) == w,
                (Err(e), Err(m)) => e@ == m,
                _ => false,
            },
    {
        let list = platform_specific(
            platform,
            self.commands.as_ref(),
            self.commands_linux.as_ref(),
            self.commands_windows.as_ref(),
            self.commands_macos.as_ref(),
        );
        commands_for(list, platform)
    }

    /// The call to make after a successful run.
    pub fn on_success(&self) -> (r: Option<Result<FunctionCall, String>>)
        ensures
            hook_result(self@.on_success, r),
    {
        hook(&self.on_success)
    }

    /// The call to make after a failed run.
    pub fn on_error(&self) -> (r: Option<Result<FunctionCall, String>>)
        ensures
            hook_result(self@.on_error, r),
    {
        hook(&self.on_error)
    }

    /// The call to make after any run.
    pub fn on_end(&self) -> (r: Option<Result<FunctionCall, String>>)
        ensures
            hook_result(self@.on_end, r),
    {
        hook(&self.on_end)
    }

    pub fn working_directory(&self) -> (r: Option<&str>)
        ensures
            match (r, self@.working_directory) {
                (Some(s), Some(t)) => s@ == t,
                (None, None) => true,
                _ => false,
            },
    {
        opt_str(&self.working_directory)
    }

    /// The task restarts after each run until it is stopped (off when absent).
    pub fn keep_alive(&self) -> (r: bool)
        ensures
            r == (self@.keep_alive == Some(true)),
    {
        match self.keep_alive {
            Some(b) => b,
            None => false,
        }
    }

    /// A copy of the task.
    pub fn duplicate(&self) -> (r: Self)
        ensures
            r@ == self@,
    {
        Task {
            name: self.name.clone(),
            help_msg: clone_opt_string(&self.help_msg),
            dependencies: clone_opt_strings(&self.dependencies),
            envs: match &self.envs {
                Some(v) => Some(clone_params(v)),
                None => None,
            },
            working_directory: clone_opt_string(&self.working_directory),
            commands: clone_opt_strings(&self.commands),
            commands_linux: clone_opt_strings(&self.commands_linux),
            commands_windows: clone_opt_strings(&self.commands_windows),
            commands_macos: clone_opt_strings(&self.commands_macos),
            on_success: clone_opt_string(&self.on_success),
            on_error: clone_opt_string(&self.on_error),
            on_end: clone_opt_string(&self.on_end),
            keep_alive: self.keep_alive,
        }
    }
}

/// Reading a task: a mapping with `name` and optional entries named as the
/// fields; the first field (in that order) that does not read gives the error.
pub open spec fn decode_task(v: YamlValue) -> Result<TaskView, Seq<char>> {
    match v {
        YamlValue::Mapping(m) => {
            let m = m@;
            match req_text(m, "name"@) {
                Err(e) => Err(e),
                Ok(name) => match opt_text(m, "help_msg"@) {
                    Err(e) => Err(e),
                    Ok(help_msg) => match opt_texts(m, "dependencies"@) {
                        Err(e) => Err(e),
                        Ok(dependencies) => match opt_list::<Param>(m, "envs"@) {
                            Err(e) => Err(e),
                            Ok(envs) => match opt_text(m, "working_directory"@) {
                                Err(e) => Err(e),
                                Ok(working_directory) => match opt_texts(m, "commands"@) {
                                    Err(e) => Err(e),
                                    Ok(commands) => match opt_texts(m, "commands_linux"@) {
                                        Err(e) => Err(e),
                                        Ok(commands_linux) => match opt_texts(
                                            m,
                                            "commands_windows"@,
                                        ) {
                                            Err(e) => Err(e),
                                            Ok(commands_windows) => match opt_texts(
                                                m,
                                                "commands_macos"@,
                                            ) {
                                                Err(e) => Err(e),
                                                Ok(commands_macos) => match opt_text(
                                                    m,
                                                    "on_success"@,
                                                ) {
                                                    Err(e) => Err(e),
                                                    Ok(on_success) => match opt_text(
                                                        m,
                                                        "on_error"@,
                                                    ) {
                                                        Err(e) => Err(e),
                                                        Ok(on_error) => match opt_text(
                                                            m,
                                                            "on_end"@,
                                                        ) {
                                                            Err(e) => Err(e),
                                                            Ok(on_end) => match opt_bool(
                                                                m,
                                                                "keep_alive"@,
                                                            ) {
                                                                Err(e) => Err(e),
                                                                Ok(keep_alive) => Ok(
                                                                    TaskView {
                                                                        name,
                                                                        help_msg,
                                                                        dependencies,
                                                                        envs,
                                                                        working_directory,
                                                                        commands,
                                                                        commands_linux,
                                                                        commands_windows,
                                                                        commands_macos,
                                                                        on_success,
                                                                        on_error,
                                                                        on_end,
                                                                        keep_alive,
                                                                    },
                                                                ),
                                                            },
                                                        },
                                                    },
                                                },
                                            },
                                        },
                                    },
                                },
                            },
                        },
                    },
                },
            }
        },
        _ => Err("invalid type, expected a task mapping"@),
    }
}

impl FromYaml for Task {
    open spec fn decoded(v: YamlValue) -> Result<TaskView, Seq<char>> {
        decode_task(v)
    }

    fn from_yaml_value(v: &YamlValue) -> (r: Result<Self, String>) {
        match v {
            YamlValue::Mapping(m) => {
                let name = read_text(m, "name")?;
                let help_msg = read_opt_text(m, "help_msg")?;
                let dependencies = read_opt_texts(m, "dependencies")?;
                let envs = read_opt_list::<Param>(m, "envs")?;
                let working_directory = read_opt_text(m, "working_directory")?;
                let commands = read_opt_texts(m, "commands")?;
                let commands_linux = read_opt_texts(m, "commands_linux")?;
                let commands_windows = read_opt_texts(m, "commands_windows")?;
                let commands_macos = read_opt_texts(m, "commands_macos")?;
                let on_success = read_opt_text(m, "on_success")?;
                let on_error = read_opt_text(m, "on_error")?;
                let on_end = read_opt_text(m, "on_end")?;
                let keep_alive = read_opt_bool(m, "keep_alive")?;
                Ok(
                    Task {
                        name,
                        help_msg,
                        dependencies,
                        envs,
                        working_directory,
                        commands,
                        commands_linux,
                        commands_windows,
                        commands_macos,
                        on_success,
                        on_error,
                        on_end,
                        keep_alive,
                    },
                )
            },
            _ => Err(String::from_str("invalid type, expected a task mapping")),
        }
    }
}

} // verus!

verus! {

/// Each field of a task read from a mapping is what the key of the same name
/// holds, and the command list that applies on a platform is the one written
/// under that platform's key, else the one under `commands`.
pub proof fn task_fields_follow_their_keys(m: Seq<(YamlValue, YamlValue)>, v: YamlValue)
    requires
        v matches YamlValue::Mapping(w) && w@ == m,
    ensures
        decode_task(v) matches Ok(t) ==> {
            &&& req_text(m, "name"@) == Ok::<Seq<char>, Seq<char>>(t.name)
            &&& opt_text(m, "help_msg"@) == Ok::<Option<Seq<char>>, Seq<char>>(t.help_msg)
            &&& opt_texts(m, "dependencies"@) == Ok::<Option<Seq<Seq<char>>>, Seq<char>>(t.dependencies)
            &&& opt_text(m, "working_directory"@) == Ok::<Option<Seq<char>>, Seq<char>>(t.working_directory)
            &&& opt_texts(m, "commands"@) == Ok::<Option<Seq<Seq<char>>>, Seq<char>>(t.commands)
            &&& opt_texts(m, "commands_linux"@) == Ok::<Option<Seq<Seq<char>>>, Seq<char>>(t.commands_linux)
            &&& opt_texts(m, "commands_windows"@) == Ok::<Option<Seq<Seq<char>>>, Seq<char>>(t.commands_windows)
            &&& opt_texts(m, "commands_macos"@) == Ok::<Option<Seq<Seq<char>>>, Seq<char>>(t.commands_macos)
            &&& opt_text(m, "on_success"@) == Ok::<Option<Seq<char>>, Seq<char>>(t.on_success)
            &&& opt_text(m, "on_error"@) == Ok::<Option<Seq<char>>, Seq<char>>(t.on_error)
            &&& opt_text(m, "on_end"@) == Ok::<Option<Seq<char>>, Seq<char>>(t.on_end)
            &&& opt_bool(m, "keep_alive"@) == Ok::<Option<bool>, Seq<char>>(t.keep_alive)
            &&& opt_texts(m, "commands_linux"@) matches Ok(Some(l)) ==> task_command_list(t, Platform::Linux) == Some(l)
            &&& opt_texts(m, "commands_windows"@) matches Ok(Some(l)) ==> task_command_list(t, Platform::Windows) == Some(l)
            &&& opt_texts(m, "commands_macos"@) matches Ok(Some(l)) ==> task_command_list(t, Platform::MacOS) == Some(l)
            &&& forall|p: Platform| #[trigger] task_command_list(t, p) is None ==> opt_texts(m, "commands"@) == Ok::<
                Option<Seq<Seq<char>>>,
                Seq<char>,
            >(None)
        },
{
}

} // verus!
