//! The view model: runs the tasks of a bakefile through
//! [capabilities::Capabilities], which hold every side effect.
pub mod capabilities;
pub mod dependency_viewmodel;
pub mod env_validator;
pub mod env_with_role_back;
pub mod message;
pub mod task_viewmodel;

use vstd::prelude::*;
use vstd::string::*;

use std::rc::Rc;

use crate::model::bake_file::{bake_file_of, BakeFile, BakeFileView};
use crate::model::plugin::PluginView;
use crate::model::yaml::views;
use crate::model::command::{command_views, Command, CommandView};
use crate::model::plugin::Plugin;
use crate::text::{parse_usize, usize_value};
use crate::util::measure_execution_time::{duration_millis, instant_elapsed, instant_now};
use crate::util::name_map::{get_entry, insert_entry, insert_named, lemma_position, named, named_lookup, position, NameMap};
use crate::util::ordered_map::OrderedMap;
use capabilities::Capabilities;
use dependency_viewmodel::{trivially_checked, dependencies_by_name, dependency_entries, DependencyViewModel, IsInstalledState};
use env_validator::validate_envs;
use env_with_role_back::EnvWithRoleBack;
use message::Message;
use task_viewmodel::{commands_reach, effortless, ends_as, hook_plan, hooks_outcome, prepared, ready, result_view, task_models, task_names, TaskViewModel};

verus! {

/// The bakefile of a project.
pub const BAKE_FILE_NAME: &'static str = "bakefile.yaml";

/// How deep tasks may call tasks (and dependencies need dependencies).
pub const MAX_DEPTH: u64 = 0xffff_ffff_ffff_ffff;

/// Another handle to the same capabilities.
pub(crate) fn share_caps<C: Capabilities>(caps: &Rc<C>) -> (r: Rc<C>)
    ensures
        r == *caps,
{
    Rc::clone(caps)
}

/// A bakefile with its plugins, ready to run tasks.
pub struct BakeViewModel<C: Capabilities> {
    plugins: Vec<(String, BakeViewModel<C>)>,
    dependencies: NameMap<DependencyViewModel<C>>,
    tasks: OrderedMap<TaskViewModel<C>>,
    caps: Rc<C>,
}

/// The message for a file that the capabilities cannot read.
pub open spec fn msg_not_found(file_name: Seq<char>) -> Seq<char> {
    file_name + " not found"@
}

/// The message for a task that is neither a name nor a position.
pub open spec fn msg_task_not_found(name: Seq<char>) -> Seq<char> {
    "task "@ + name + " not found"@
}

/// The message for a missing dependency.
pub open spec fn msg_dependency_not_found(name: Seq<char>) -> Seq<char> {
    "dependency "@ + name + " not found"@
}

/// The message for a call into a namespace that no plugin has.
pub open spec fn msg_namespace_not_found(namespace: Seq<char>) -> Seq<char> {
    "namespace '"@ + namespace + "' not found"@
}

/// The message when calls nest deeper than [MAX_DEPTH].
pub open spec fn msg_too_deep() -> Seq<char> {
    "calls nest too deep"@
}

/// The position (from 0) that a task name given as a 1-based number stands
/// for among `n` tasks.
pub open spec fn task_position(name: Seq<char>, n: nat) -> Option<int> {
    match usize_value(name) {
        Some(i) => if 1 <= i && i <= n {
            Some(i - 1)
        } else {
            None
        },
        None => None,
    }
}

/// The entries of a list that may be absent.
pub open spec fn listed<T>(o: Option<Seq<T>>) -> Seq<T> {
    match o {
        Some(s) => s,
        None => Seq::empty(),
    }
}

/// Every plugin is found under its name.
pub open spec fn plugins_present<V>(entries: Seq<(Seq<char>, V)>, plugins: Seq<PluginView>) -> bool {
    forall|i: int| 0 <= i < plugins.len() ==> position(entries, #[trigger] plugins[i].name) >= 0
}

/// An error that reading a bakefile and its plugins can end with: a file that
/// cannot be read, plugins nested too deep, or a bakefile that does not parse.
pub open spec fn load_error(m: Seq<char>) -> bool {
    ||| exists|f: Seq<char>| m == #[trigger] msg_not_found(f)
    ||| m == msg_too_deep()
    ||| exists|content: Seq<char>| #[trigger] bake_file_of(content) == Err::<BakeFileView, Seq<char>>(m)
}

/// The plugins keyed by name, given the view model loaded for each plugin:
/// a later plugin replaces an earlier one of the same name.
pub open spec fn plugins_by_name<C: Capabilities>(
    ps: Seq<PluginView>,
    loaded: Seq<BakeViewModel<C>>,
) -> Seq<(Seq<char>, BakeViewModel<C>)>
    decreases ps.len(),
{
    if ps.len() == 0 || loaded.len() != ps.len() {
        Seq::empty()
    } else {
        insert_named(plugins_by_name(ps.drop_last(), loaded.drop_last()), ps.last().name, loaded.last())
    }
}

/// What loading the bakefile `file_name` ends with, given what reading the
/// file gave: the error that it was not found where there was nothing to
/// read, else the parse error of the content, else a view model that holds
/// the parsed bakefile (or an error in loading its plugins).
pub open spec fn loaded_from<C: Capabilities>(
    file_name: Seq<char>,
    content: Option<Seq<char>>,
    r: Result<BakeViewModel<C>, String>,
) -> bool {
    match content {
        None => crate::text::is_err_with(r, msg_not_found(file_name)),
        Some(c) => match bake_file_of(c) {
            Err(m) => crate::text::is_err_with(r, m),
            Ok(bf) => (r matches Ok(vm) ==> vm.holds(bf)) && (r matches Err(e) ==> load_error(e@)),
        },
    }
}

/// The bakefile that reading `file_name` gives: the error that it was not
/// found where there is no content, else what the content parses to.
pub fn bake_file_from(file_name: &str, content: Option<String>) -> (r: Result<BakeFile, String>)
    ensures
        match content {
            None => crate::text::is_err_with(r, msg_not_found(file_name@)),
            Some(c) => match (r, bake_file_of(c@)) {
                (Ok(b), Ok(bf)) => b@ == bf,
                (Err(e), Err(m)) => e@ == m,
                _ => false,
            },
        },
{
    match content {
        Some(c) => BakeFile::from_yaml(c.as_str()),
        None => {
            let mut m = file_name.to_owned();
            m.append(" not found");
            Err(m)
        },
    }
}

proof fn lemma_position_same_names<V>(s: Seq<(Seq<char>, V)>, t: Seq<(Seq<char>, V)>, m: Seq<char>)
    requires
        s.len() == t.len(),
        forall|j: int| 0 <= j < s.len() ==> #[trigger] s[j].0 == t[j].0,
    ensures
        position(s, m) == position(t, m),
    decreases s.len(),
{
    if s.len() > 0 {
        lemma_position_same_names(s.drop_last(), t.drop_last(), m);
    }
}

proof fn lemma_position_insert<V>(s: Seq<(Seq<char>, V)>, n: Seq<char>, v: V, m: Seq<char>)
    requires
        position(s, m) >= 0 || m == n,
    ensures
        position(insert_named(s, n, v), m) >= 0,
{
    lemma_position(s, n);
    let i = position(s, n);
    if i >= 0 {
        let t = s.update(i, (n, v));
        assert forall|j: int| 0 <= j < s.len() implies #[trigger] t[j].0 == s[j].0 by {}
        lemma_position_same_names(t, s, m);
        if m == n {
            assert(position(s, m) >= 0);
        }
    } else {
        let t = s.push((n, v));
        assert(t.drop_last() == s);
    }
}

impl<C: Capabilities> BakeViewModel<C> {
    /// The view model holds the tasks, dependencies and plugins of `bf`.
    pub open spec fn holds(&self, bf: BakeFileView) -> bool {
        &&& self.task_keys() == task_names(listed(bf.tasks))
        &&& task_models(self.task_list()) == listed(bf.tasks)
        &&& dependency_entries(self.dependency_entries()) == dependencies_by_name(listed(bf.dependencies))
        &&& forall|i: int| 0 <= i < listed(bf.plugins).len() ==> (#[trigger] self.plugin_named(listed(bf.plugins)[i].name)) is Some
    }

    /// Loading the bakefile `path` can succeed: some content read for it
    /// gives a view model.
    pub open spec fn loads(path: Seq<char>) -> bool {
        exists|content: Option<Seq<char>>, vm: Self| #[trigger] loaded_from(path, content, Ok::<Self, String>(vm))
    }

    /// The view model holds the bakefile that some text parses to.
    pub open spec fn is_loaded(&self) -> bool {
        exists|content: Seq<char>| #[trigger] bake_file_of(content) matches Ok(bf) && self.holds(bf)
    }

    #[verifier::type_invariant]
    spec fn inv(self) -> bool {
        &&& self.tasks.wf()
        &&& self.tasks.keys() == task_names(task_models(self.tasks.values()))
    }

    /// The task names, one per task, in the order of the bakefile.
    pub closed spec fn task_keys(&self) -> Seq<Seq<char>> {
        self.tasks.keys()
    }

    /// The tasks, in the order of the bakefile.
    pub closed spec fn task_list(&self) -> Seq<TaskViewModel<C>> {
        self.tasks.values()
    }

    /// The task that a name stands for.
    pub closed spec fn task_named(&self, name: Seq<char>) -> Option<TaskViewModel<C>> {
        self.tasks.lookup(name)
    }

    /// The task that `run_task` runs for `name`: the task of that name, or
    /// else the task named like the one at that 1-based position (the last
    /// task of that name).
    pub open spec fn selected_task(&self, name: Seq<char>) -> Option<TaskViewModel<C>> {
        match self.task_named(name) {
            Some(t) => Some(t),
            None => match task_position(name, self.task_list().len()) {
                Some(i) => self.task_named(self.task_list()[i].task_view().name),
                None => None,
            },
        }
    }

    /// The task that a call names: a task of this bakefile for the `this`
    /// namespace, else a task of the plugin of that namespace.
    pub open spec fn called_task(&self, c: crate::model::function_call::FunctionCallView) -> Option<TaskViewModel<C>> {
        if c.namespace == "this"@ {
            self.selected_task(c.function)
        } else {
            match self.plugin_named(c.namespace) {
                Some(p) => p.selected_task(c.function),
                None => None,
            }
        }
    }

    /// Each named dependency exists and is found installed without running
    /// anything.
    pub open spec fn all_trivially_checked(&self, names: Seq<Seq<char>>) -> bool {
        forall|i: int|
            0 <= i < names.len() ==> ((#[trigger] self.dependency_named(names[i])) matches Some(d)
                && trivially_checked(d.dependency_view()))
    }

    /// The named dependency exists and is found installed without running
    /// anything.
    pub open spec fn trivially_installed(&self, name: Seq<char>) -> bool {
        self.dependency_named(name) matches Some(d) && trivially_checked(d.dependency_view())
    }

    /// Installing `names` in turn meets first, at `k`, a name that no
    /// dependency has: every name before it is found installed without
    /// running anything.
    pub open spec fn stops_at_missing(&self, names: Seq<Seq<char>>, k: int) -> bool {
        &&& 0 <= k < names.len()
        &&& forall|i: int| 0 <= i < k ==> self.trivially_installed(#[trigger] names[i])
        &&& self.dependency_named(names[k]) is None
    }

    /// The command is a call of a task that leaves nothing to the host.
    pub open spec fn settled_command(&self, c: CommandView) -> bool {
        match c {
            CommandView::FunctionCall(f) => match self.called_task(f) {
                Some(t) => effortless(t.task_view()),
                None => false,
            },
            CommandView::ShellCommand(_) => false,
        }
    }

    /// The namespace of a call into a namespace that no plugin has.
    pub open spec fn stray_namespace(&self, c: CommandView) -> Option<Seq<char>> {
        match c {
            CommandView::FunctionCall(f) => if f.namespace != "this"@ && self.plugin_named(
                f.namespace,
            ) is None {
                Some(f.namespace)
            } else {
                None
            },
            CommandView::ShellCommand(_) => None,
        }
    }

    /// Running `cs` in turn meets first, at `k`, a call into a namespace that
    /// no plugin has: every command before it is a call that leaves nothing
    /// to the host.
    pub open spec fn stops_at_stray(&self, cs: Seq<CommandView>, k: int) -> bool {
        &&& 0 <= k < cs.len()
        &&& forall|i: int| 0 <= i < k ==> self.settled_command(#[trigger] cs[i])
        &&& self.stray_namespace(cs[k]) is Some
    }

    /// What running one command can end with, as far as the library decides
    /// it: a shell command ends as the host says, with an empty error when it
    /// fails; a call into a namespace that no plugin has fails with that
    /// namespace; a call of a task that leaves nothing to the host succeeds
    /// (while calls may still nest); any other call ends as its task does.
    pub open spec fn command_may_end(&self, c: CommandView, res: Result<(), Seq<char>>, depth: u64) -> bool {
        match c {
            CommandView::ShellCommand(_) => res is Ok || res == Err::<(), Seq<char>>(Seq::empty()),
            CommandView::FunctionCall(f) => if self.stray_namespace(c) is Some {
                res == Err::<(), Seq<char>>(msg_namespace_not_found(f.namespace))
            } else if depth > 0 && self.settled_command(c) {
                res is Ok
            } else {
                true
            },
        }
    }

    /// The view model whose task a call runs: this one for the `this`
    /// namespace, else the plugin of that namespace.
    pub open spec fn callee(&self, c: crate::model::function_call::FunctionCallView) -> BakeViewModel<C> {
        if c.namespace == "this"@ {
            *self
        } else {
            self.plugin_named(c.namespace)->0
        }
    }

    /// What running the found task `t` by name can end with: its
    /// dependencies are installed and its variables got and checked, then
    /// the task runs (see `TaskViewModel::may_end`); the first step that
    /// fails gives the error.
    pub open spec fn found_run_may_end(&self, t: TaskViewModel<C>, r: Result<(), String>, depth: u64) -> bool {
        exists|deps: Result<(), String>, vars: Result<(), Seq<char>>, inner: Result<(), String>|
            #[trigger] self.found_run_steps(t, deps, vars, inner, depth) && ends_as(
                r,
                match deps {
                    Err(e) => Err(e@),
                    Ok(()) => match vars {
                        Err(e) => Err(e),
                        Ok(()) => result_view(inner),
                    },
                },
            )
    }

    /// How the steps of running the found task `t` can end: installing its
    /// dependencies ends with `deps`; where that succeeds, getting its
    /// variables ends with `vars`; where that succeeds too, the task's run
    /// ends with `inner`.
    pub open spec fn found_run_steps(
        &self,
        t: TaskViewModel<C>,
        deps: Result<(), String>,
        vars: Result<(), Seq<char>>,
        inner: Result<(), String>,
        depth: u64,
    ) -> bool {
        &&& self.installs_may_end(listed(t.task_view().dependencies), deps, depth)
        &&& deps is Ok ==> env_validator::validation_may_end(t.param_views(), vars)
        &&& deps is Ok && vars is Ok ==> t.may_end(self, inner, depth)
    }

    /// What running `cs` in turn can end with: success once every command
    /// succeeded, or the error of the first command that failed, each
    /// command before it having succeeded.
    pub open spec fn commands_may_end(&self, cs: Seq<CommandView>, res: Result<(), Seq<char>>, depth: u64) -> bool {
        match res {
            Ok(()) => forall|i: int| 0 <= i < cs.len() ==> #[trigger] self.command_may_end(cs[i], Ok(()), depth),
            Err(_) => exists|k: int|
                0 <= k < cs.len() && (forall|i: int| 0 <= i < k ==> #[trigger] self.command_may_end(cs[i], Ok(()), depth))
                    && #[trigger] self.command_may_end(cs[k], res, depth),
        }
    }

    /// What installing the found dependency `d` can end with:
    /// [dependency_install_result] of what the first check found, the user's
    /// answer, how installing the dependencies it needs went, how its own
    /// installation went and what the last check found.
    pub open spec fn dependency_may_end(
        &self,
        d: DependencyViewModel<C>,
        name: Seq<char>,
        r: Result<(), String>,
        depth: u64,
    ) -> bool {
        exists|
            first: IsInstalledState,
            answer: Option<bool>,
            needed: Result<(), Seq<char>>,
            tried: Result<(), String>,
            last: IsInstalledState,
        |
            #![trigger dependency_install_result(name, first, answer, needed, result_view(tried), last, depth)]
            {
                &&& d.state_may_be(self, first, depth)
                &&& (first != IsInstalledState::Installed ==> capabilities::yes_no_reply(&self.host(), answer))
                &&& (first != IsInstalledState::Installed && answer != Some(false) && depth > 0 && needed is Ok
                    ==> d.install_may_end(self, tried, depth))
                &&& (first != IsInstalledState::Installed && answer != Some(false) && depth > 0 && needed is Ok
                    && tried is Ok ==> d.state_may_be(self, last, depth))
                &&& ends_as(r, dependency_install_result(name, first, answer, needed, result_view(tried), last, depth))
            }
    }

    /// What installing `names` in turn can end with: success once each was
    /// installed, or the error of the first that failed, each before it
    /// having been installed.
    pub open spec fn installs_may_end(&self, names: Seq<Seq<char>>, r: Result<(), String>, depth: u64) -> bool {
        match r {
            Ok(()) => forall|i: int| 0 <= i < names.len() ==> #[trigger] self.install_may_end_for(names[i], Ok(()), depth),
            Err(_) => exists|k: int|
                0 <= k < names.len() && (forall|i: int|
                    0 <= i < k ==> #[trigger] self.install_may_end_for(names[i], Ok(()), depth))
                    && #[trigger] self.install_may_end_for(names[k], r, depth),
        }
    }

    /// What installing the dependency `name` can end with: the error that it
    /// is missing, or what installing the found dependency can end with.
    pub open spec fn install_may_end_for(&self, name: Seq<char>, r: Result<(), String>, depth: u64) -> bool {
        match self.dependency_named(name) {
            None => crate::text::is_err_with(r, msg_dependency_not_found(name)),
            Some(d) => self.dependency_may_end(d, name, r, depth),
        }
    }

    /// The host's capabilities.
    pub closed spec fn host(&self) -> C {
        *self.caps
    }

    /// The dependency that a name stands for.
    pub closed spec fn dependency_named(&self, name: Seq<char>) -> Option<DependencyViewModel<C>> {
        self.dependencies.lookup(name)
    }

    /// The plugin that a namespace stands for.
    pub closed spec fn plugin_named(&self, namespace: Seq<char>) -> Option<BakeViewModel<C>> {
        named_lookup(named(self.plugins@), namespace)
    }

    /// The dependencies, in order of first appearance of their names.
    pub closed spec fn dependency_entries(&self) -> Seq<(Seq<char>, DependencyViewModel<C>)> {
        self.dependencies.entries()
    }

    /// Reads the bakefile `file_name` and the plugins it names.
    pub fn new_from_file(caps: Rc<C>, file_name: &str) -> (r: Result<Self, String>)
        ensures
            r matches Ok(vm) ==> exists|content: Seq<char>| #[trigger] bake_file_of(content) matches Ok(bf) && vm.holds(bf),
            r matches Err(e) ==> load_error(e@),
            exists|content: Option<Seq<char>>| #[trigger] loaded_from(file_name@, content, r) && caps.file_reply(file_name@, content),
            exists|content: Option<Seq<char>>|
                #[trigger] Self::content_outcome(file_name@, content, r, MAX_DEPTH) && caps.file_reply(file_name@, content),
    {
        Self::load(&caps, file_name, MAX_DEPTH)
    }

    fn load(caps: &Rc<C>, file_name: &str, depth: u64) -> (r: Result<Self, String>)
        ensures
            r matches Ok(vm) ==> exists|content: Seq<char>| #[trigger] bake_file_of(content) matches Ok(bf) && vm.holds(bf),
            r matches Err(e) ==> load_error(e@),
            exists|content: Option<Seq<char>>| #[trigger] loaded_from(file_name@, content, r) && caps.file_reply(file_name@, content),
            exists|content: Option<Seq<char>>|
                #[trigger] Self::content_outcome(file_name@, content, r, depth) && caps.file_reply(file_name@, content),
        decreases depth, 2int,
    {
        let read = caps.read_file(file_name);
        let ghost c = crate::text::opt_view(read);
        let r = Self::load_content(caps, file_name, read, depth);
        assert(Self::content_outcome(file_name@, c, r, depth));
        r
    }

    /// Loads the bakefile `file_name` from what reading it gave (see
    /// [Self::content_outcome]): the error that it was not found, the parse
    /// error, or the view model of the bakefile once its plugins are loaded.
    pub fn from_content(caps: Rc<C>, file_name: &str, content: Option<String>) -> (r: Result<Self, String>)
        ensures
            Self::content_outcome(file_name@, crate::text::opt_view(content), r, MAX_DEPTH),
    {
        Self::load_content(&caps, file_name, content, MAX_DEPTH)
    }

    /// What loading the bakefile `file_name` ends with, given what reading it
    /// gave (see [loaded_from]); where the content parses, an error comes only
    /// from the first of its plugins that fails to load, every plugin before
    /// it loading, so a bakefile without plugins always loads.
    pub open spec fn content_outcome(
        file_name: Seq<char>,
        content: Option<Seq<char>>,
        r: Result<Self, String>,
        depth: u64,
    ) -> bool {
        &&& loaded_from(file_name, content, r)
        &&& depth > 0 ==> match content {
            Some(c) => match bake_file_of(c) {
                Ok(bf) => match r {
                    Err(e) => Self::plugin_failed_first(listed(bf.plugins), e),
                    Ok(_) => true,
                },
                Err(_) => true,
            },
            None => true,
        }
    }

    /// Loading the plugins `ps` in turn failed with `e` at some plugin, every
    /// plugin before it loading.
    pub open spec fn plugin_failed_first(ps: Seq<PluginView>, e: String) -> bool {
        exists|k: int, c: Option<Seq<char>>|
            0 <= k < ps.len() && (forall|j: int| 0 <= j < k ==> Self::loads(#[trigger] ps[j].path))
                && #[trigger] loaded_from(ps[k].path, c, Err::<Self, String>(e))
    }

    fn load_content(caps: &Rc<C>, file_name: &str, read: Option<String>, depth: u64) -> (r: Result<Self, String>)
        ensures
            r matches Ok(vm) ==> exists|content: Seq<char>| #[trigger] bake_file_of(content) matches Ok(bf) && vm.holds(bf),
            r matches Err(e) ==> load_error(e@),
            Self::content_outcome(file_name@, crate::text::opt_view(read), r, depth),
        decreases depth, 1int,
    {
        let ghost content_read: Option<Seq<char>> = match &read {
            Some(c) => Some(c@),
            None => None,
        };
        match read {
            Some(content) => {
                let bakefile = match bake_file_from(file_name, Some(content)) {
                    Ok(b) => b,
                    Err(e) => {
                        assert(bake_file_of(content_read->0) == Err::<BakeFileView, Seq<char>>(e@));
                        assert(loaded_from(file_name@, content_read, Err::<Self, String>(e)));
                        return Err(e);
                    },
                };
                let ghost content = content_read->0;
                let plugin_list = bakefile.plugins();
                let plugins = match Self::load_plugins(caps, plugin_list, depth) {
                    Ok(p) => p,
                    Err(e) => {
                        assert(loaded_from(file_name@, content_read, Err::<Self, String>(e)));
                        assert(bake_file_of(content) == Ok::<BakeFileView, Seq<char>>(bakefile@));
                        assert(listed(bakefile@.plugins) == views(plugin_list@));
                        return Err(e);
                    },
                };
                let dependencies = DependencyViewModel::hashmap_from_dependencies(
                    caps,
                    bakefile.dependencies(),
                );
                let tasks = TaskViewModel::hashmap_from_tasks(caps, bakefile.tasks());
                let vm = Self { caps: share_caps(caps), plugins, dependencies, tasks };
                assert(bake_file_of(content) == Ok::<BakeFileView, Seq<char>>(bakefile@));
                assert(listed(bakefile@.plugins) == views(plugin_list@));
                assert(vm.holds(bakefile@)) by {
                    assert forall|i: int| 0 <= i < listed(bakefile@.plugins).len() implies (#[trigger] vm.plugin_named(listed(bakefile@.plugins)[i].name)) is Some by {
                        assert(plugins_present(named(vm.plugins@), listed(bakefile@.plugins)));
                        assert(position(named(vm.plugins@), listed(bakefile@.plugins)[i].name) >= 0);
                    }
                }
                assert(loaded_from(file_name@, content_read, Ok::<Self, String>(vm)));
                Ok(vm)
            },
            None => {
                let r = bake_file_from(file_name, None);
                match r {
                    Ok(_) => {
                        assert(false);
                        Err(String::new())
                    },
                    Err(m) => {
                        assert(m@ == msg_not_found(file_name@));
                        assert(loaded_from(file_name@, content_read, Err::<Self, String>(m)));
                        Err(m)
                    },
                }
            },
        }
    }

    #[verifier::spinoff_prover]
    fn load_plugins(caps: &Rc<C>, plugins: &[Plugin], depth: u64) -> (r: Result<
        Vec<(String, Self)>,
        String,
    >)
        ensures
            r matches Ok(m) ==> plugins_present(named(m@), views(plugins@)),
            r matches Ok(m) ==> exists|loaded: Seq<Self>|
                loaded.len() == plugins@.len() && (forall|j: int| 0 <= j < loaded.len() ==> (#[trigger] loaded[j]).is_loaded())
                    && named(m@) == #[trigger] plugins_by_name(views(plugins@), loaded),
            r matches Err(e) ==> load_error(e@),
            depth > 0 ==> (r matches Err(e) ==> Self::plugin_failed_first(views(plugins@), e)),
        decreases depth, 0int,
    {
        let mut map: Vec<(String, Self)> = Vec::new();
        let mut i: usize = 0;
        let ghost mut loaded: Seq<Self> = Seq::empty();
        while i < plugins.len()
            invariant
                i <= plugins@.len(),
                plugins_present(named(map@), views(plugins@.take(i as int))),
                loaded.len() == i,
                forall|j: int| 0 <= j < loaded.len() ==> (#[trigger] loaded[j]).is_loaded(),
                named(map@) == plugins_by_name(views(plugins@.take(i as int)), loaded),
                forall|j: int| 0 <= j < i ==> Self::loads(#[trigger] views(plugins@)[j].path),
            decreases plugins.len() - i,
        {
            if depth == 0 {
                let e = String::from_str("calls nest too deep");
                proof {
                    reveal_strlit("calls nest too deep");
                }
                assert(e@ == msg_too_deep());
                return Err(e);
            }
            let loaded_plugin = Self::load(caps, plugins[i].path(), depth - 1);
            let plugin = match loaded_plugin {
                Ok(p) => p,
                Err(e) => {
                    proof {
                        let c = choose|content: Option<Seq<char>>|
                            #[trigger] loaded_from(views(plugins@)[i as int].path, content, Err::<Self, String>(e));
                        assert(0 <= i < views(plugins@).len() && loaded_from(views(plugins@)[i as int].path, c, Err::<Self, String>(e)));
                        assert(exists|k: int, content: Option<Seq<char>>|
                            0 <= k < views(plugins@).len() && (forall|j: int| 0 <= j < k ==> Self::loads(#[trigger] views(plugins@)[j].path))
                                && #[trigger] loaded_from(views(plugins@)[k].path, content, Err::<Self, String>(e)));
                    }
                    let ghost eg = e;
                    let res: Result<Vec<(String, Self)>, String> = Err(e);
                    assert(res->Err_0 == eg);
                    return res;
                },
            };
            proof {
                let c = choose|content: Option<Seq<char>>|
                    #[trigger] loaded_from(views(plugins@)[i as int].path, content, Ok::<Self, String>(plugin));
                assert(loaded_from(views(plugins@)[i as int].path, c, Ok::<Self, String>(plugin)));
                assert(Self::loads(views(plugins@)[i as int].path));
            }
            let ghost before = named(map@);
            let name = plugins[i].name().to_owned();
            insert_entry(&mut map, name, plugin);
            proof {
                let ps1 = views(plugins@.take(i + 1));
                assert(ps1.drop_last() =~= views(plugins@.take(i as int)));
                assert(loaded.push(plugin).drop_last() =~= loaded);
                loaded = loaded.push(plugin);
                assert(named(map@) == plugins_by_name(ps1, loaded));
                let ps = views(plugins@.take(i + 1));
                assert forall|k: int| 0 <= k < ps.len() implies position(named(map@), #[trigger] ps[k].name) >= 0 by {
                    if k < i {
                        assert(ps[k] == views(plugins@.take(i as int))[k]);
                    }
                    lemma_position_insert(before, plugins@[i as int]@.name, plugin, ps[k].name);
                }
            }
            i = i + 1;
        }
        assert(plugins@.take(plugins@.len() as int) == plugins@);
        assert(named(map@) == plugins_by_name(views(plugins@), loaded));
        Ok(map)
    }

    /// Reads the bakefile of a plugin.
    pub fn from_plugin(caps: Rc<C>, plugin: &Plugin) -> (r: Result<Self, String>)
        ensures
            r matches Ok(vm) ==> exists|content: Seq<char>| #[trigger] bake_file_of(content) matches Ok(bf) && vm.holds(bf),
            r matches Err(e) ==> load_error(e@),
            exists|content: Option<Seq<char>>| #[trigger] loaded_from(plugin@.path, content, r) && caps.file_reply(plugin@.path, content),
            exists|content: Option<Seq<char>>|
                #[trigger] Self::content_outcome(plugin@.path, content, r, MAX_DEPTH) && caps.file_reply(plugin@.path, content),
    {
        Self::new_from_file(caps, plugin.path())
    }

    /// Reads the bakefiles of the plugins, keyed by plugin name.
    pub fn from_plugins(caps: Rc<C>, plugins: &[Plugin]) -> (r: Result<
        Vec<(String, Self)>,
        String,
    >)
        ensures
            r matches Ok(m) ==> plugins_present(named(m@), views(plugins@)),
            r matches Ok(m) ==> exists|loaded: Seq<Self>|
                loaded.len() == plugins@.len() && (forall|j: int| 0 <= j < loaded.len() ==> (#[trigger] loaded[j]).is_loaded())
                    && named(m@) == #[trigger] plugins_by_name(views(plugins@), loaded),
            r matches Err(e) ==> load_error(e@),
            r matches Err(e) ==> Self::plugin_failed_first(views(plugins@), e),
    {
        Self::load_plugins(&caps, plugins, MAX_DEPTH)
    }

    /// Reads `bakefile.yaml`.
    pub fn new(caps: Rc<C>) -> (r: Result<Self, String>)
        ensures
            r matches Ok(vm) ==> exists|content: Seq<char>| #[trigger] bake_file_of(content) matches Ok(bf) && vm.holds(bf),
            r matches Err(e) ==> load_error(e@),
            exists|content: Option<Seq<char>>| #[trigger] loaded_from(BAKE_FILE_NAME@, content, r) && caps.file_reply(BAKE_FILE_NAME@, content),
            exists|content: Option<Seq<char>>|
                #[trigger] Self::content_outcome(BAKE_FILE_NAME@, content, r, MAX_DEPTH) && caps.file_reply(BAKE_FILE_NAME@, content),
    {
        Self::new_from_file(caps, BAKE_FILE_NAME)
    }

    pub fn get_dependency(&self, name: &str) -> (r: Option<&DependencyViewModel<C>>)
        ensures
            match self.dependency_named(name@) {
                Some(d) => r == Some(&d),
                None => r is None,
            },
    {
        self.dependencies.get(name)
    }

    /// The task named `name` (the last of that name).
    pub fn get_task(&self, name: &str) -> (r: Option<&TaskViewModel<C>>)
        ensures
            match self.task_named(name@) {
                Some(t) => r == Some(&t),
                None => r is None,
            },
            r matches Some(t) ==> t.task_view().name == name@,
            r matches Some(t) ==> self.is_last_named(*t, name@),
            r is None <==> forall|i: int| 0 <= i < self.task_list().len() ==> #[trigger] self.task_list()[i].task_view().name != name@,
    {
        proof {
            use_type_invariant(self);
            self.lemma_task_named(name@);
        }
        self.tasks.get(&name.to_owned())
    }

    /// A name stands for the last task of that name.
    proof fn lemma_task_named(&self, name: Seq<char>)
        requires
            self.inv(),
        ensures
            self.task_named(name) matches Some(t) ==> t.task_view().name == name,
            self.task_named(name) is None <==> forall|i: int|
                0 <= i < self.task_list().len() ==> #[trigger] self.task_list()[i].task_view().name != name,
            forall|i: int|
                0 <= i < self.task_list().len() && #[trigger] self.task_list()[i].task_view().name == name
                    ==> self.task_named(name) is Some,
            self.task_named(name) matches Some(t) ==> self.is_last_named(t, name),
    {
        crate::util::ordered_map::lemma_last_index(self.tasks.keys(), name);
        let keys = self.tasks.keys();
        let vals = self.tasks.values();
        assert forall|i: int| 0 <= i < vals.len() implies #[trigger] vals[i].task_view().name == keys[i] by {
            assert(task_models(vals)[i] == vals[i].task_view());
        }
        let k = crate::util::ordered_map::last_index(keys, name);
        if k >= 0 {
            assert(self.task_list()[k] == vals[k]);
            assert forall|l: int| k < l < self.task_list().len() implies #[trigger] self.task_list()[l].task_view().name != name by {
                assert(vals[l].task_view().name == keys[l]);
            }
        }
    }

    /// `t` is the last task named `name`: it stands at some position, and no
    /// later task has that name.
    pub open spec fn is_last_named(&self, t: TaskViewModel<C>, name: Seq<char>) -> bool {
        exists|i: int|
            0 <= i < self.task_list().len() && #[trigger] self.task_list()[i] == t && forall|l: int|
                i < l < self.task_list().len() ==> #[trigger] self.task_list()[l].task_view().name != name
    }

    /// The task at position `index` of the bakefile.
    pub fn get_task_at(&self, index: usize) -> (r: Option<&TaskViewModel<C>>)
        ensures
            index < self.task_list().len() ==> r == Some(&self.task_list()[index as int]),
            index >= self.task_list().len() ==> r is None,
    {
        self.tasks.get_at(index)
    }

    /// The tasks in the order of the bakefile.
    pub fn tasks(&self) -> (r: &[TaskViewModel<C>])
        ensures
            r@ == self.task_list(),
    {
        self.tasks.get_all()
    }

    /// The dependencies, each name once.
    pub fn dependencies(&self) -> (r: Vec<&DependencyViewModel<C>>)
        ensures
            r@.len() == self.dependency_entries().len(),
            forall|i: int| 0 <= i < r@.len() ==> *r@[i] == self.dependency_entries()[i].1,
    {
        self.dependencies.values()
    }

    /// Installs the named dependencies in turn, stopping at the first error.
    pub fn install_dependencies(&self, names: &[String]) -> (r: Result<(), String>)
        ensures
            names@.len() == 0 ==> r is Ok,
            self.all_trivially_checked(names.deep_view()) ==> r is Ok,
            forall|k: int|
                #[trigger] self.stops_at_missing(names.deep_view(), k) ==> crate::text::is_err_with(
                    r,
                    msg_dependency_not_found(names.deep_view()[k]),
                ),
            self.installs_may_end(names.deep_view(), r, MAX_DEPTH),
    {
        self.install_dependencies_at(names, MAX_DEPTH)
    }

    pub(crate) fn install_dependencies_at(&self, names: &[String], depth: u64) -> (r: Result<
        (),
        String,
    >)
        ensures
            names@.len() == 0 ==> r is Ok,
            self.all_trivially_checked(names.deep_view()) ==> r is Ok,
            forall|k: int|
                #[trigger] self.stops_at_missing(names.deep_view(), k) ==> crate::text::is_err_with(
                    r,
                    msg_dependency_not_found(names.deep_view()[k]),
                ),
            self.installs_may_end(names.deep_view(), r, depth),
        decreases depth, 6int,
    {
        let ghost ns = names.deep_view();
        let mut i: usize = 0;
        while i < names.len()
            invariant
                i <= names.len(),
                ns == names.deep_view(),
                forall|j: int| 0 <= j < i ==> !#[trigger] self.stops_at_missing(ns, j),
                forall|j: int| 0 <= j < i ==> #[trigger] self.install_may_end_for(ns[j], Ok(()), depth),
            decreases names.len() - i,
        {
            assert(ns[i as int] == names@[i as int]@);
            let res = self.install_dependency_at(names[i].as_str(), depth);
            let ghost rg = res;
            match res {
                Ok(()) => {},
                Err(e) => {
                    assert(self.installs_may_end(ns, rg, depth)) by {
                        assert(ns.len() == names@.len());
                        assert(0 <= i < ns.len() && (forall|j: int| 0 <= j < i ==> #[trigger] self.install_may_end_for(ns[j], Ok(()), depth))
                            && self.install_may_end_for(ns[i as int], rg, depth));
                    }
                    proof {
                        assert forall|k: int| #[trigger] self.stops_at_missing(ns, k) implies crate::text::is_err_with(
                            Err::<(), String>(e),
                            msg_dependency_not_found(ns[k]),
                        ) by {
                            if k > i {
                                assert(self.trivially_installed(ns[i as int]));
                            }
                        }
                    }
                    return Err(e);
                },
            }
            i = i + 1;
        }
        Ok(())
    }

    /// Installs a dependency (and, before it, the dependencies it needs),
    /// unless it is installed or the user declines.
    pub fn install_dependency(&self, name: &str) -> (r: Result<(), String>)
        ensures
            self.dependency_named(name@) is None ==> crate::text::is_err_with(r, msg_dependency_not_found(name@)),
            self.dependency_named(name@) matches Some(d) && trivially_checked(d.dependency_view()) ==> r is Ok,
            self.dependency_named(name@) matches Some(d) ==> self.dependency_may_end(d, name@, r, MAX_DEPTH),
            self.install_may_end_for(name@, r, MAX_DEPTH),
    {
        self.install_dependency_at(name, MAX_DEPTH)
    }

    pub(crate) fn install_dependency_at(&self, name: &str, depth: u64) -> (r: Result<(), String>)
        ensures
            self.dependency_named(name@) is None ==> crate::text::is_err_with(r, msg_dependency_not_found(name@)),
            self.dependency_named(name@) matches Some(d) && trivially_checked(d.dependency_view()) ==> r is Ok,
            self.dependency_named(name@) matches Some(d) ==> self.dependency_may_end(d, name@, r, depth),
            self.install_may_end_for(name@, r, depth),
        decreases depth, 5int,
    {
        if let Some(dependency) = self.get_dependency(name) {
            let first = dependency.is_installed_at(self, depth);
            if first == IsInstalledState::Installed {
                assert(ends_as(Ok(()), dependency_install_result(name@, first, None, Ok(()), result_view(Ok(())), first, depth)));
                return Ok(());
            }
            let mut q = String::from_str("'");
            q.append(name);
            q.append("' is not installed, do you want to install it");
            let answer = self.caps.ask_user_yes_no(q.as_str());
            if let Some(m) = cancellation(name, answer) {
                assert(ends_as(Err(m), dependency_install_result(name@, first, answer, Ok(()), result_view(Ok(())), first, depth)));
                return Err(m);
            }
            if depth == 0 {
                let m = String::from_str("calls nest too deep");
                proof {
                    reveal_strlit("calls nest too deep");
                }
                assert(ends_as(Err(m), dependency_install_result(name@, first, answer, Ok(()), result_view(Ok(())), first, depth)));
                return Err(m);
            }
            if let Err(e) = self.install_dependencies_at(dependency.dependencies(), depth - 1) {
                assert(ends_as(Err(e), dependency_install_result(name@, first, answer, Err(e@), result_view(Ok(())), first, depth)));
                return Err(e);
            }
            let mut m = String::from_str("dependency '");
            m.append(dependency.name());
            m.append("' is installing...\n");
            self.caps.message(Message::bake_state(m));
            let tried = dependency.try_install_at(self, depth);
            let ghost t = tried;
            if let Err(e) = tried {
                assert(ends_as(Err(e), dependency_install_result(name@, first, answer, Ok(()), result_view(t), first, depth)));
                return Err(e);
            }
            let last = dependency.is_installed_at(self, depth);
            if last == IsInstalledState::NotInstalled {
                let mut m = String::from_str("failed to install ");
                m.append(name);
                assert(ends_as(Err(m), dependency_install_result(name@, first, answer, Ok(()), result_view(t), last, depth)));
                Err(m)
            } else {
                let mut m = String::from_str("dependency '");
                m.append(dependency.name());
                m.append("' is installed successfully!\n");
                self.caps.message(Message::bake_state(m));
                assert(ends_as(Ok(()), dependency_install_result(name@, first, answer, Ok(()), result_view(t), last, depth)));
                Ok(())
            }
        } else {
            let mut m = String::from_str("dependency ");
            m.append(name);
            m.append(" not found");
            Err(m)
        }
    }

    /// Runs a task, given by name or by its 1-based position in the bakefile.
    pub fn run_task(&self, name: &str) -> (r: Result<(), String>)
        ensures
            self.task_named(name@) is None && task_position(name@, self.task_list().len()) is None
                ==> crate::text::is_err_with(r, msg_task_not_found(name@)),
            self.selected_task(name@) matches Some(t) && effortless(t.task_view()) ==> r is Ok,
            self.selected_task(name@) matches Some(t) ==> (ready(t.task_view()) && t.task_view().keep_alive == Some(true)
                ==> t.keep_alive_ended(r)),
            self.selected_task(name@) matches Some(t) ==> (ready(t.task_view()) && t.task_view().keep_alive
                != Some(true) ==> exists|r0: Result<(), Seq<char>>|
                #[trigger] commands_reach(self, t.task_view(), t.platform(), r0, MAX_DEPTH)
                    && ends_as(r, hook_plan(t.task_view(), r0))),
            self.selected_task(name@) is None ==> crate::text::is_err_with(r, msg_task_not_found(name@)),
            self.selected_task(name@) matches Some(t) ==> self.found_run_may_end(t, r, MAX_DEPTH),
    {
        self.run_task_at(name, MAX_DEPTH)
    }

    pub(crate) fn run_task_at(&self, name: &str, depth: u64) -> (r: Result<(), String>)
        ensures
            self.task_named(name@) is None && task_position(name@, self.task_list().len()) is None
                ==> crate::text::is_err_with(r, msg_task_not_found(name@)),
            self.selected_task(name@) matches Some(t) && effortless(t.task_view()) ==> r is Ok,
            self.selected_task(name@) matches Some(t) ==> (ready(t.task_view()) && t.task_view().keep_alive == Some(true)
                ==> t.keep_alive_ended(r)),
            self.selected_task(name@) matches Some(t) ==> (ready(t.task_view()) && t.task_view().keep_alive
                != Some(true) ==> exists|r0: Result<(), Seq<char>>|
                #[trigger] commands_reach(self, t.task_view(), t.platform(), r0, depth)
                    && ends_as(r, hook_plan(t.task_view(), r0))),
            self.selected_task(name@) is None ==> crate::text::is_err_with(r, msg_task_not_found(name@)),
            self.selected_task(name@) matches Some(t) ==> self.found_run_may_end(t, r, depth),
        decreases depth, 11int,
    {
        if let Some(task) = self.get_task(name) {
            self.run_found_task(task, depth)
        } else {
            let mut not_found = String::from_str("task ");
            not_found.append(name);
            not_found.append(" not found");
            assert(not_found@ == msg_task_not_found(name@));
            let index = match parse_usize(name) {
                Some(i) => i,
                None => {
                    assert(usize_value(name@) is None);
                    return Err(not_found);
                },
            };
            assert(usize_value(name@) == Some(index as nat));
            if index == 0 {
                assert(task_position(name@, self.task_list().len()) is None);
                return Err(not_found);
            }
            match self.get_task_at(index - 1) {
                // the task runs by its name, so the last task of that name
                Some(task) => {
                    proof {
                        use_type_invariant(self);
                        self.lemma_task_named(task.task_view().name);
                    }
                    match self.get_task(task.name()) {
                        Some(named) => self.run_found_task(named, depth),
                        None => Err(not_found),
                    }
                },
                None => {
                    assert(task_position(name@, self.task_list().len()) is None);
                    Err(not_found)
                },
            }
        }
    }

    fn run_found_task(&self, task: &TaskViewModel<C>, depth: u64) -> (r: Result<(), String>)
        ensures
            effortless(task.task_view()) ==> r is Ok,
            prepared(task.task_view()) ==> ends_as(r, hooks_outcome(task.task_view())),
            forall|k: int|
                #[trigger] self.stops_at_missing(listed(task.task_view().dependencies), k) ==> crate::text::is_err_with(
                    r,
                    msg_dependency_not_found(listed(task.task_view().dependencies)[k]),
                ),
            ready(task.task_view()) && task.task_view().keep_alive == Some(true) ==> task.keep_alive_ended(r),
            ready(task.task_view()) && task.task_view().keep_alive != Some(true) ==> exists|
                r0: Result<(), Seq<char>>,
            |
                #[trigger] commands_reach(self, task.task_view(), task.platform(), r0, depth)
                    && ends_as(r, hook_plan(task.task_view(), r0)),
            self.found_run_may_end(*task, r, depth),
        decreases depth, 10int,
    {
        let deps = self.install_dependencies_at(task.dependencies(), depth);
        let ghost dg = deps;
        if let Err(e) = deps {
            assert(self.found_run_steps(*task, dg, Ok(()), Ok(()), depth));
            return Err(e);
        }
        proof {
            task.lemma_ready_params();
        }
        let vars = validate_envs(&self.caps, task);
        let ghost vg = crate::text::outcome_of(vars);
        if let Err(e) = vars {
            assert(self.found_run_steps(*task, dg, vg, Ok(()), depth));
            return Err(e);
        }
        let mut m = String::from_str("task '");
        m.append(task.name());
        m.append("' is running...\n");
        self.caps.message(Message::bake_state(m));
        let start = instant_now();
        let inner = task.run_at(self, depth);
        let ghost ig = inner;
        if let Err(e) = inner {
            assert(self.found_run_steps(*task, dg, vg, ig, depth));
            return Err(e);
        }
        assert(self.found_run_steps(*task, dg, vg, ig, depth));
        let duration = instant_elapsed(&start);
        let mut m = String::from_str("Task '");
        m.append(task.name());
        m.append("' finished successfully. time: ");
        m.append(decimal_string_of(duration_millis(&duration)).as_str());
        m.append("ms\n");
        self.caps.message(Message::bake_state(m));
        Ok(())
    }

    /// Runs one command: a shell command through the capabilities (an empty
    /// error when it fails), or a call of a task of this bakefile (`this`) or
    /// of a plugin, with its arguments set as environment variables for the
    /// time of the call.
    pub fn run_command(&self, command: &Command, working_directory: Option<&str>) -> (r: Result<
        (),
        String,
    >)
        ensures
            command@ matches crate::model::command::CommandView::ShellCommand(_) ==> (r is Ok
                || crate::text::is_err_with(r, Seq::empty())),
            command@ matches crate::model::command::CommandView::FunctionCall(c) ==> (c.namespace
                != "this"@ && self.plugin_named(c.namespace) is None ==> crate::text::is_err_with(r, msg_namespace_not_found(c.namespace))),
            command@ matches crate::model::command::CommandView::FunctionCall(c) ==> (self.called_task(c)
                matches Some(t) && effortless(t.task_view()) ==> r is Ok),
            self.command_may_end(command@, result_view(r), MAX_DEPTH),
            command@ matches crate::model::command::CommandView::ShellCommand(cmd) ==> exists|ok: bool|
                #[trigger] self.host().exec_reply(cmd, crate::text::opt_str_view(working_directory), ok) && (ok <==> r is Ok),
            command@ matches crate::model::command::CommandView::FunctionCall(c) ==> (self.stray_namespace(command@) is None
                ==> (self.called_task(c) matches Some(t) ==> self.callee(c).found_run_may_end(
                t,
                r,
                (MAX_DEPTH - 1) as u64,
            ))),
            command@ matches crate::model::command::CommandView::FunctionCall(c) ==> (self.stray_namespace(command@) is None
                && self.called_task(c) is None ==> crate::text::is_err_with(r, msg_task_not_found(c.function))),
    {
        self.run_command_at(command, working_directory, MAX_DEPTH)
    }

    pub(crate) fn run_command_at(
        &self,
        command: &Command,
        working_directory: Option<&str>,
        depth: u64,
    ) -> (r: Result<(), String>)
        ensures
            command@ matches crate::model::command::CommandView::ShellCommand(_) ==> (r is Ok
                || crate::text::is_err_with(r, Seq::empty())),
            command@ matches crate::model::command::CommandView::FunctionCall(c) ==> (c.namespace
                != "this"@ && self.plugin_named(c.namespace) is None ==> crate::text::is_err_with(r, msg_namespace_not_found(c.namespace))),
            command@ matches crate::model::command::CommandView::FunctionCall(c) ==> (depth > 0 ==> (
                self.called_task(c) matches Some(t) && effortless(t.task_view()) ==> r is Ok)),
            self.command_may_end(command@, result_view(r), depth),
            command@ matches crate::model::command::CommandView::ShellCommand(cmd) ==> exists|ok: bool|
                #[trigger] self.host().exec_reply(cmd, crate::text::opt_str_view(working_directory), ok) && (ok <==> r is Ok),
            command@ matches crate::model::command::CommandView::FunctionCall(c) ==> (depth > 0
                && self.stray_namespace(command@) is None ==> (self.called_task(c) matches Some(t)
                ==> self.callee(c).found_run_may_end(t, r, (depth - 1) as u64))),
            command@ matches crate::model::command::CommandView::FunctionCall(c) ==> (depth > 0
                && self.stray_namespace(command@) is None && self.called_task(c) is None
                ==> crate::text::is_err_with(r, msg_task_not_found(c.function))),
        decreases depth, 1int,
    {
        match command {
            Command::ShellCommand(cmd) => {
                let ok = self.caps.execute(cmd.as_str(), working_directory);
                assert(self.host().exec_reply(command@->ShellCommand_0, crate::text::opt_str_view(working_directory), ok));
                shell_outcome(ok)
            },
            Command::FunctionCall(fc) => {
                proof {
                    reveal_strlit("this");
                }
                let ns = fc.namespace();
                if ns.unicode_len() == 4 && ns.get_char(0) == 't' && ns.get_char(1) == 'h'
                    && ns.get_char(2) == 'i' && ns.get_char(3) == 's' {
                    assert(ns@ =~= "this"@);
                    if depth == 0 {
                        return Err(String::from_str("calls nest too deep"));
                    }
                    let mut env_with_role_back = EnvWithRoleBack::new();
                    env_with_role_back.set_envs(&self.caps, fc.params());
                    let r = self.run_task_at(fc.function(), depth - 1);
                    env_with_role_back.role_back(&self.caps);
                    r
                } else {
                    assert(ns@ != "this"@);
                    match get_entry(&self.plugins, ns) {
                        Some(x) => {
                            if depth == 0 {
                                return Err(String::from_str("calls nest too deep"));
                            }
                            let mut env_with_role_back = EnvWithRoleBack::new();
                            env_with_role_back.set_envs(&self.caps, fc.params());
                            let r = x.run_task_at(fc.function(), depth - 1);
                            env_with_role_back.role_back(&self.caps);
                            r
                        },
                        None => {
                            let mut m = String::from_str("namespace '");
                            m.append(ns);
                            m.append("' not found");
                            Err(m)
                        },
                    }
                }
            },
        }
    }

    /// Runs the commands in turn, stopping at the first error.
    pub fn run_commands(&self, commands: &[Command], working_directory: Option<&str>) -> (r: Result<
        (),
        String,
    >)
        ensures
            commands@.len() == 0 ==> r is Ok,
            (forall|i: int| 0 <= i < commands@.len() ==> self.settled_command(#[trigger] command_views(commands@)[i])) ==> r is Ok,
            forall|k: int|
                #[trigger] self.stops_at_stray(command_views(commands@), k) ==> crate::text::is_err_with(
                    r,
                    msg_namespace_not_found(self.stray_namespace(command_views(commands@)[k])->0),
                ),
            self.commands_may_end(command_views(commands@), result_view(r), MAX_DEPTH),
    {
        self.run_commands_at(commands, working_directory, MAX_DEPTH)
    }

    pub(crate) fn run_commands_at(
        &self,
        commands: &[Command],
        working_directory: Option<&str>,
        depth: u64,
    ) -> (r: Result<(), String>)
        ensures
            commands@.len() == 0 ==> r is Ok,
            depth > 0 ==> ((forall|i: int| 0 <= i < commands@.len() ==> self.settled_command(#[trigger] command_views(commands@)[i])) ==> r is Ok),
            depth > 0 ==> forall|k: int|
                #[trigger] self.stops_at_stray(command_views(commands@), k) ==> crate::text::is_err_with(
                    r,
                    msg_namespace_not_found(self.stray_namespace(command_views(commands@)[k])->0),
                ),
            self.commands_may_end(command_views(commands@), result_view(r), depth),
        decreases depth, 2int,
    {
        let ghost cs = command_views(commands@);
        let mut i: usize = 0;
        while i < commands.len()
            invariant
                i <= commands.len(),
                cs == command_views(commands@),
                depth > 0 ==> forall|j: int| 0 <= j < i ==> !#[trigger] self.stops_at_stray(cs, j),
                forall|j: int| 0 <= j < i ==> #[trigger] self.command_may_end(cs[j], Ok(()), depth),
            decreases commands.len() - i,
        {
            assert(cs[i as int] == commands@[i as int]@);
            match self.run_command_at(&commands[i], working_directory, depth) {
                Ok(()) => {},
                Err(e) => {
                    assert(self.command_may_end(cs[i as int], Err(e@), depth));
                    assert(self.commands_may_end(cs, Err(e@), depth)) by {
                        assert(cs.len() == commands@.len());
                        assert(forall|j: int| 0 <= j < i ==> #[trigger] self.command_may_end(cs[j], Ok(()), depth));
                        assert(0 <= i < cs.len() && (forall|j: int| 0 <= j < i ==> #[trigger] self.command_may_end(cs[j], Ok(()), depth))
                            && self.command_may_end(cs[i as int], Err(e@), depth));
                    }
                    proof {
                        if depth > 0 {
                            assert forall|k: int| #[trigger] self.stops_at_stray(cs, k) implies crate::text::is_err_with(
                                Err::<(), String>(e),
                                msg_namespace_not_found(self.stray_namespace(cs[k])->0),
                            ) by {
                                if k > i {
                                    assert(self.settled_command(cs[i as int]));
                                }
                            }
                        }
                    }
                    return Err(e);
                },
            }
            i = i + 1;
        }
        Ok(())
    }
}

/// What a shell command ends with, given whether the host ran it
/// successfully: an empty error when it did not.
pub fn shell_outcome(succeeded: bool) -> (r: Result<(), String>)
    ensures
        succeeded <==> r is Ok,
        !succeeded ==> crate::text::is_err_with(r, Seq::empty()),
{
    if succeeded {
        Ok(())
    } else {
        Err(String::new())
    }
}

/// The message when the user declines to install a dependency.
pub open spec fn msg_cancel_installation(name: Seq<char>) -> Seq<char> {
    "cancel installation "@ + name
}

/// The message when a dependency is still not installed after installing it.
pub open spec fn msg_failed_to_install(name: Seq<char>) -> Seq<char> {
    "failed to install "@ + name
}

/// What installing the dependency `name` ends with, given what the first
/// check found, the user's answer to whether to install it (no answer counts
/// as yes), how installing the dependencies it needs went, how its own
/// installation went and what the last check found.
pub open spec fn dependency_install_result(
    name: Seq<char>,
    first: IsInstalledState,
    answer: Option<bool>,
    needed: Result<(), Seq<char>>,
    tried: Result<(), Seq<char>>,
    last: IsInstalledState,
    depth: u64,
) -> Result<(), Seq<char>> {
    if first == IsInstalledState::Installed {
        Ok(())
    } else if answer == Some(false) {
        Err(msg_cancel_installation(name))
    } else if depth == 0 {
        Err(msg_too_deep())
    } else {
        match (needed, tried) {
            (Err(e), _) => Err(e),
            (Ok(()), Err(e)) => Err(e),
            (Ok(()), Ok(())) => if last == IsInstalledState::NotInstalled {
                Err(msg_failed_to_install(name))
            } else {
                Ok(())
            },
        }
    }
}

/// The error that declining to install the dependency `name` gives: there is
/// one exactly when the answer is no.
pub fn cancellation(name: &str, answer: Option<bool>) -> (r: Option<String>)
    ensures
        r is Some <==> answer == Some(false),
        r matches Some(m) ==> m@ == msg_cancel_installation(name@),
{
    match answer {
        Some(false) => {
            let mut m = String::from_str("cancel installation ");
            m.append(name);
            Some(m)
        },
        _ => None,
    }
}

fn decimal_string_of(n: u128) -> (s: String)
    ensures
        s@ == crate::text::decimal_text(n as nat),
{
    crate::text::decimal_string(n)
}

} // verus!
