//! A task together with the logic that runs it.
use vstd::prelude::*;
use vstd::string::*;

use std::rc::Rc;
use std::time::Duration;

use crate::model::command::{command_views, parse_commands, platform_commands, Command, CommandView};
use crate::model::end_handler::EndHandler;
use crate::model::function_call::FunctionCall;
use crate::model::param::{Param, ParamView};
use crate::model::task::{hook_call, task_command_list, Task, TaskView};
use crate::model::yaml::views;
use crate::text::decimal_string;
use crate::util::measure_execution_time::{duration_millis, instant_elapsed, instant_now};
use crate::util::ordered_map::OrderedMap;
use crate::util::platform_specific::Platform;
use crate::viewmodel::capabilities::Capabilities;
use crate::viewmodel::env_validator::validate_envs;
use crate::viewmodel::message::{Message, MessageType};
use crate::viewmodel::{share_caps, BakeViewModel, MAX_DEPTH};

verus! {

/// A [Task] with the capabilities it runs through.
pub struct TaskViewModel<C: Capabilities> {
    capabilities: Rc<C>,
    task: Task,
    platform: Platform,
}

/// The names of the tasks, in order.
pub open spec fn task_names(tasks: Seq<TaskView>) -> Seq<Seq<char>> {
    tasks.map_values(|t: TaskView| t.name)
}

/// The tasks of the task view models, in order.
pub open spec fn task_models<C: Capabilities>(s: Seq<TaskViewModel<C>>) -> Seq<TaskView> {
    s.map_values(|t: TaskViewModel<C>| t.task_view())
}

/// A task whose run leaves nothing to the host to decide up to its hooks:
/// it needs no dependency, each of its variables has a default and no rule,
/// it does not restart, and it has an empty list of commands on every
/// platform.
pub open spec fn prepared(t: TaskView) -> bool {
    &&& ready(t)
    &&& t.keep_alive != Some(true)
    &&& forall|p: crate::util::platform_specific::Platform|
        #[trigger] task_command_list(t, p) == Some(Seq::<Seq<char>>::empty())
}

/// A task that leaves nothing to the host to decide: prepared, and without
/// hooks.
pub open spec fn effortless(t: TaskView) -> bool {
    &&& prepared(t)
    &&& t.on_success is None
    &&& t.on_error is None
    &&& t.on_end is None
}

/// What reading the `on_end` hook ends with: its error when it is no call.
pub open spec fn end_hook_outcome(t: TaskView) -> Result<(), Seq<char>> {
    match t.on_end {
        Some(h) => match hook_call(h) {
            Err(m) => Err(m),
            Ok(_) => Ok(()),
        },
        None => Ok(()),
    }
}

/// What the run of a prepared task ends with: its commands succeed, so the
/// `on_success` hook and then the `on_end` hook are read, and the first of
/// them that is no call gives the error; the calls themselves do not change
/// the result.
pub open spec fn hooks_outcome(t: TaskView) -> Result<(), Seq<char>> {
    match t.on_success {
        Some(h) => match hook_call(h) {
            Err(m) => Err(m),
            Ok(_) => end_hook_outcome(t),
        },
        None => end_hook_outcome(t),
    }
}

/// What a run ends with once its commands ended with `r0`: after success
/// the `on_success` and then the `on_end` hook are called, after a failure
/// the `on_error` and then the `on_end` hook; the run fails with the first
/// of these hooks that is no call, and with the commands' error where there
/// is neither an `on_error` nor an `on_end` hook. Calls that are made do not
/// change the result.
pub open spec fn hook_plan(t: TaskView, r0: Result<(), Seq<char>>) -> Result<(), Seq<char>> {
    match r0 {
        Ok(()) => hooks_outcome(t),
        Err(e) => match t.on_error {
            Some(h) => match hook_call(h) {
                Err(m) => Err(m),
                Ok(_) => end_hook_outcome(t),
            },
            None => match t.on_end {
                None => Err(e),
                Some(_) => end_hook_outcome(t),
            },
        },
    }
}

/// The text of a result.
pub open spec fn result_view(r: Result<(), String>) -> Result<(), Seq<char>> {
    match r {
        Ok(()) => Ok(()),
        Err(e) => Err(e@),
    }
}

/// A task whose run reaches its commands without asking the host: it needs
/// no dependency and each of its variables has a default and no rule.
pub open spec fn ready(t: TaskView) -> bool {
    &&& crate::viewmodel::listed(t.dependencies).len() == 0
    &&& forall|i: int|
        0 <= i < crate::viewmodel::listed(t.envs).len() ==> crate::viewmodel::env_validator::always_valid(
            #[trigger] crate::viewmodel::listed(t.envs)[i],
        )
}

/// `r0` is a result that running the commands of `t` on `p` can end with:
/// the error of a command list that does not read; otherwise what running
/// the commands in turn can end with (see `commands_may_end`).
pub open spec fn commands_reach<C: Capabilities>(
    bvm: &BakeViewModel<C>,
    t: TaskView,
    p: Platform,
    r0: Result<(), Seq<char>>,
    depth: u64,
) -> bool {
    match platform_commands(task_command_list(t, p), p) {
        Err(m) => r0 == Err::<(), Seq<char>>(m),
        Ok(cs) => bvm.commands_may_end(cs, r0, depth),
    }
}

/// How the steps of a run of `t` on `p` can end: installing its dependencies
/// in turn ends with `deps`; where that succeeds, getting and checking its
/// variables ends with `vars`; where that succeeds too, its commands end
/// with `r0`.
pub open spec fn run_steps<C: Capabilities>(
    bvm: &BakeViewModel<C>,
    t: TaskView,
    p: Platform,
    deps: Result<(), String>,
    vars: Result<(), Seq<char>>,
    r0: Result<(), Seq<char>>,
    depth: u64,
) -> bool {
    &&& bvm.installs_may_end(crate::viewmodel::listed(t.dependencies), deps, depth)
    &&& deps is Ok ==> crate::viewmodel::env_validator::validation_may_end(crate::viewmodel::listed(t.envs), vars)
    &&& deps is Ok && vars is Ok ==> commands_reach(bvm, t, p, r0, depth)
}

/// What a run ends with once its steps ended so: the error of the
/// dependencies, else that of the variables, else the hooks' outcome after
/// the commands (see [hook_plan]).
pub open spec fn run_result(
    t: TaskView,
    deps: Result<(), Seq<char>>,
    vars: Result<(), Seq<char>>,
    r0: Result<(), Seq<char>>,
) -> Result<(), Seq<char>> {
    match deps {
        Err(e) => Err(e),
        Ok(()) => match vars {
            Err(e) => Err(e),
            Ok(()) => hook_plan(t, r0),
        },
    }
}

/// What one run of `t` on `p` can end with: its dependencies are installed,
/// then its variables got and checked, then its commands run, then its hooks
/// called; the run stops at the first step that fails.
pub open spec fn run_may_end<C: Capabilities>(
    bvm: &BakeViewModel<C>,
    t: TaskView,
    p: Platform,
    r: Result<(), String>,
    depth: u64,
) -> bool {
    exists|deps: Result<(), String>, vars: Result<(), Seq<char>>, r0: Result<(), Seq<char>>|
        #[trigger] run_steps(bvm, t, p, deps, vars, r0, depth) && ends_as(
            r,
            run_result(t, result_view(deps), vars, r0),
        )
}

/// A result is the outcome `o`, with the same error text.
pub open spec fn ends_as(r: Result<(), String>, o: Result<(), Seq<char>>) -> bool {
    match (r, o) {
        (Ok(()), Ok(())) => true,
        (Err(e), Err(m)) => e@ == m,
        _ => false,
    }
}

/// What a keep-alive task reports when it has been restarted `u64::MAX`
/// times.
pub open spec fn msg_restart_limit(name: Seq<char>) -> Seq<char> {
    "task '"@ + name + "' restarted too many times"@
}

/// The message after a keep-alive task's run that succeeded.
pub open spec fn msg_restart_done(name: Seq<char>) -> Seq<char> {
    "task '"@ + name + "' done, restarting because of the keep_alive:true\n"@
}

/// The message that a keep-alive task restarts.
pub open spec fn msg_restarting() -> Seq<char> {
    "restarting because of the keep_alive:true\n"@
}

/// What a keep-alive loop does after a run: stop with an error, or restart
/// after showing messages.
pub enum KeepAliveStep {
    Stop(String),
    Restart(Vec<Message>),
}

/// The decision after a run of the keep-alive task `name`, given whether the
/// host then answered that the user wants to stop and how the run ended:
/// stop with the report that it was aborted, or restart after saying why
/// (the run's error followed by `, ` where it failed).
pub fn keep_alive_step(name: &str, abort: bool, run: Result<(), String>) -> (r: KeepAliveStep)
    ensures
        abort ==> (r matches KeepAliveStep::Stop(e) && e@ == msg_aborted(name@)),
        !abort ==> (r matches KeepAliveStep::Restart(ms) && match run {
            Ok(()) => ms@.len() == 1 && ms@[0].kind() == MessageType::BakeState && ms@[0].text()
                == msg_restart_done(name@),
            Err(e) => ms@.len() == 2 && ms@[0].kind() == MessageType::Error && ms@[0].text() == e@
                + ", "@ && ms@[1].kind() == MessageType::BakeState && ms@[1].text() == msg_restarting(),
        }),
{
    if abort {
        let mut m = String::from_str("task '");
        m.append(name);
        m.append("' aborted");
        return KeepAliveStep::Stop(m);
    }
    let mut ms: Vec<Message> = Vec::new();
    match run {
        Ok(_) => {
            let mut m = String::from_str("task '");
            m.append(name);
            m.append("' done, restarting because of the keep_alive:true\n");
            ms.push(Message::bake_state(m));
        },
        Err(e) => {
            let mut m = e;
            m.append(", ");
            ms.push(Message::error(m));
            ms.push(Message::bake_state(String::from_str("restarting because of the keep_alive:true\n")));
        },
    }
    KeepAliveStep::Restart(ms)
}

/// What a keep-alive task reports when it is stopped.
pub open spec fn msg_aborted(name: Seq<char>) -> Seq<char> {
    "task '"@ + name + "' aborted"@
}

/// What the run of `task` ends with, given the result of its commands
/// (see [hook_plan]).
pub fn run_outcome(task: &Task, commands: &Result<(), String>) -> (r: Result<(), String>)
    ensures
        ends_as(r, hook_plan(task@, result_view(*commands))),
{
    match (commands, task.on_success(), task.on_error()) {
        (Ok(()), None, _) => match task.on_end() {
            Some(Err(e)) => Err(e),
            _ => Ok(()),
        },
        (Ok(()), Some(Err(e)), _) => Err(e),
        (Ok(()), Some(Ok(_)), _) => match task.on_end() {
            Some(Err(e)) => Err(e),
            _ => Ok(()),
        },
        (Err(e), _, None) => match task.on_end() {
            Some(Err(m)) => Err(m),
            Some(Ok(_)) => Ok(()),
            None => Err(e.clone()),
        },
        (Err(_), _, Some(Err(m))) => Err(m),
        (Err(_), _, Some(Ok(_))) => match task.on_end() {
            Some(Err(m)) => Err(m),
            _ => Ok(()),
        },
    }
}

impl<C: Capabilities> TaskViewModel<C> {
    /// The task.
    pub closed spec fn task_view(&self) -> TaskView {
        self.task@
    }

    /// The platform that the capabilities reported when the view model was
    /// made; the commands that run are those of this platform.
    pub closed spec fn platform(&self) -> Platform {
        self.platform
    }

    pub(crate) proof fn lemma_ready_params(&self)
        ensures
            ready(self.task_view()) ==> forall|i: int|
                0 <= i < self.param_views().len() ==> crate::viewmodel::env_validator::always_valid(
                    #[trigger] self.param_views()[i],
                ),
    {
        if ready(self.task_view()) {
            assert forall|i: int| 0 <= i < self.param_views().len() implies crate::viewmodel::env_validator::always_valid(
                #[trigger] self.param_views()[i],
            ) by {
                assert(self.param_views()[i] == crate::viewmodel::listed(self.task_view().envs)[i]);
            }
        }
    }

    /// The host's capabilities.
    pub closed spec fn host(&self) -> C {
        *self.capabilities
    }

    /// How a keep-alive task's run ends: with the report that it was
    /// aborted, which only a host that can answer that the user wants to
    /// stop gives; or, after `u64::MAX` restarts, with the report that it
    /// restarted too often.
    pub open spec fn keep_alive_ended(&self, r: Result<(), String>) -> bool {
        ||| crate::text::is_err_with(r, msg_aborted(self.task_view().name)) && self.host().can_stop()
        ||| crate::text::is_err_with(r, msg_restart_limit(self.task_view().name))
    }

    /// What running the task can end with: a keep-alive task reports that
    /// it was aborted; another ends as one run of it (see [run_may_end]).
    pub open spec fn may_end(&self, bvm: &BakeViewModel<C>, r: Result<(), String>, depth: u64) -> bool {
        if self.task_view().keep_alive == Some(true) {
            self.keep_alive_ended(r)
        } else {
            run_may_end(bvm, self.task_view(), self.platform(), r, depth)
        }
    }

    /// The parameters of the task.
    pub open spec fn param_views(&self) -> Seq<ParamView> {
        match self.task_view().envs {
            Some(e) => e,
            None => Seq::empty(),
        }
    }

    pub fn new(capabilities: Rc<C>, task: Task) -> (r: Self)
        ensures
            r.task_view() == task@,
            capabilities.platform_reply(r.platform()),
    {
        let platform = capabilities.platform();
        Self { capabilities, task, platform }
    }

    /// The tasks keyed by name, in order.
    pub fn hashmap_from_tasks(capabilities: &Rc<C>, tasks: &[Task]) -> (r:
        OrderedMap<TaskViewModel<C>>)
        ensures
            r.wf(),
            r.keys() == task_names(views(tasks@)),
            task_models(r.values()) == views(tasks@),
    {
        let mut map: OrderedMap<TaskViewModel<C>> = OrderedMap::new();
        let mut i: usize = 0;
        while i < tasks.len()
            invariant
                i <= tasks@.len(),
                map.wf(),
                map.keys() == task_names(views(tasks@.take(i as int))),
                task_models(map.values()) == views(tasks@.take(i as int)),
            decreases tasks@.len() - i,
        {
            let task = &tasks[i];
            let task_vm = TaskViewModel::new(share_caps(capabilities), task.duplicate());
            let ghost kb = map.keys();
            let ghost vb = map.values();
            let ghost tv = task_vm.task_view();
            map.insert(task.name().to_owned(), task_vm);
            assert(tasks@.take(i + 1) == tasks@.take(i as int).push(tasks@[i as int]));
            assert(views(tasks@.take(i + 1)) =~= views(tasks@.take(i as int)).push(tasks@[i as int]@));
            assert(map.keys() =~= task_names(views(tasks@.take(i + 1))));
            assert(task_models(map.values()) =~= task_models(vb).push(tv));
            assert(task_models(map.values()) =~= views(tasks@.take(i + 1)));
            i = i + 1;
        }
        assert(tasks@.take(tasks@.len() as int) == tasks@);
        map
    }

    /// Runs the task; a keep-alive task is run again after each run until
    /// the capabilities ask to stop, and then reports that it was aborted.
    pub fn run(&self, bake_view_model: &BakeViewModel<C>) -> (r: Result<(), String>)
        ensures
            self.task_view().keep_alive == Some(true) ==> self.keep_alive_ended(r),
            effortless(self.task_view()) ==> r is Ok,
            prepared(self.task_view()) ==> ends_as(r, hooks_outcome(self.task_view())),
            ready(self.task_view()) && self.task_view().keep_alive != Some(true) ==> exists|
                r0: Result<(), Seq<char>>,
            |
                #[trigger] commands_reach(bake_view_model, self.task_view(), self.platform(), r0, MAX_DEPTH)
                    && ends_as(r, hook_plan(self.task_view(), r0)),
            self.may_end(bake_view_model, r, MAX_DEPTH),
    {
        self.run_at(bake_view_model, MAX_DEPTH)
    }

    pub(crate) fn run_at(&self, bake_view_model: &BakeViewModel<C>, depth: u64) -> (r: Result<
        (),
        String,
    >)
        ensures
            self.task_view().keep_alive == Some(true) ==> self.keep_alive_ended(r),
            effortless(self.task_view()) ==> r is Ok,
            prepared(self.task_view()) ==> ends_as(r, hooks_outcome(self.task_view())),
            ready(self.task_view()) && self.task_view().keep_alive != Some(true) ==> exists|
                r0: Result<(), Seq<char>>,
            |
                #[trigger] commands_reach(bake_view_model, self.task_view(), self.platform(), r0, depth)
                    && ends_as(r, hook_plan(self.task_view(), r0)),
            self.may_end(bake_view_model, r, depth),
        decreases depth, 9int,
    {
        if !self.task.keep_alive() {
            self.inner_run(bake_view_model, depth)
        } else {
            let mut restarts: u64 = 0;
            while restarts < u64::MAX
                invariant
                    self.task_view().keep_alive == Some(true),
                decreases u64::MAX - restarts,
            {
                // the user asked to stop (example: kill button in web app)
                if self.capabilities.should_abort() {
                    return Err(self.aborted());
                }
                let result = self.inner_run(bake_view_model, depth);
                // stop silently when the run was aborted (no restart message)
                let abort = self.capabilities.should_abort();
                match keep_alive_step(self.name(), abort, result) {
                    KeepAliveStep::Stop(e) => {
                        return Err(e);
                    },
                    KeepAliveStep::Restart(ms) => {
                        let mut ms = ms;
                        while ms.len() > 0
                            decreases ms.len(),
                        {
                            let m = ms.remove(0);
                            self.capabilities.message(m);
                        }
                    },
                }
                restarts = restarts + 1;
            }
            let mut m = String::from_str("task '");
            m.append(self.name());
            m.append("' restarted too many times");
            proof {
                reveal_strlit("task '");
                reveal_strlit("' restarted too many times");
            }
            Err(m)
        }
    }

    fn aborted(&self) -> (r: String)
        ensures
            r@ == msg_aborted(self.task_view().name),
    {
        let mut m = String::from_str("task '");
        m.append(self.name());
        m.append("' aborted");
        m
    }

    /// Installs the task's dependencies, gets its variables, runs its
    /// commands (putting the variables back afterwards) and calls its hooks.
    fn inner_run(&self, bake_view_model: &BakeViewModel<C>, depth: u64) -> (r: Result<(), String>)
        ensures
            effortless(self.task_view()) ==> r is Ok,
            prepared(self.task_view()) ==> ends_as(r, hooks_outcome(self.task_view())),
            forall|k: int|
                #[trigger] bake_view_model.stops_at_missing(crate::viewmodel::listed(self.task_view().dependencies), k)
                    ==> crate::text::is_err_with(
                    r,
                    crate::viewmodel::msg_dependency_not_found(crate::viewmodel::listed(self.task_view().dependencies)[k]),
                ),
            ready(self.task_view()) ==> exists|r0: Result<(), Seq<char>>|
                #[trigger] commands_reach(bake_view_model, self.task_view(), self.platform(), r0, depth)
                    && ends_as(r, hook_plan(self.task_view(), r0)),
            run_may_end(bake_view_model, self.task_view(), self.platform(), r, depth),
        decreases depth, 8int,
    {
        let deps = bake_view_model.install_dependencies_at(self.dependencies(), depth);
        let ghost dg = deps;
        if let Err(e) = deps {
            assert(run_steps(bake_view_model, self.task_view(), self.platform(), dg, Ok(()), Ok(()), depth));
            assert(ends_as(Err(e), run_result(self.task_view(), result_view(dg), Ok(()), Ok(()))));
            return Err(e);
        }
        proof {
            self.lemma_ready_params();
        }
        let vars = validate_envs(&self.capabilities, self);
        let ghost vg = crate::text::outcome_of(vars);
        let env_role_back = match vars {
            Ok(e) => e,
            Err(e) => {
                assert(run_steps(bake_view_model, self.task_view(), self.platform(), dg, vg, Ok(()), depth));
                assert(ends_as(Err(e), run_result(self.task_view(), result_view(dg), vg, Ok(()))));
                return Err(e);
            },
        };
        let mut m = String::from_str("task '");
        m.append(self.name());
        m.append("' is running...\n");
        self.capabilities.message(Message::bake_state(m));
        let start = instant_now();
        // the variables are put back whether or not the commands succeed
        let platform = self.platform;
        let listed_commands = self.task.commands(platform);
        proof {
            if prepared(self.task_view()) {
                assert(task_command_list(self.task_view(), platform) == Some(Seq::<Seq<char>>::empty()));
                assert(parse_commands(Seq::<Seq<char>>::empty()) == Ok::<Seq<CommandView>, Seq<char>>(Seq::empty()));
                if listed_commands is Ok {
                    assert(command_views(listed_commands->Ok_0@).len() == listed_commands->Ok_0@.len());
                }
            }
        }
        let r = match listed_commands {
            Ok(commands) => bake_view_model.run_commands_at(
                &commands,
                self.task.working_directory(),
                depth,
            ),
            Err(e) => Err(e),
        };
        let duration = instant_elapsed(&start);
        env_role_back.role_back(&self.capabilities);
        let outcome = run_outcome(&self.task, &r);
        // the hooks that the outcome goes through are called, in this order
        match (&r, self.task.on_success(), self.task.on_error()) {
            (Ok(()), None, _) => {
                self.print_time(duration);
                if let Some(Ok(eh)) = self.task.on_end() {
                    self.handle_end(bake_view_model, eh, EndHandler::OnEnd, depth);
                }
            },
            (Err(e), _, None) => {
                if let Some(h) = self.task.on_end() {
                    self.print_error(e.as_str());
                    if let Ok(eh) = h {
                        self.handle_end(bake_view_model, eh, EndHandler::OnEnd, depth);
                    }
                }
            },
            (Ok(()), Some(s), _) => {
                self.print_time(duration);
                if let Ok(eh) = s {
                    self.handle_end(bake_view_model, eh, EndHandler::OnSuccess, depth);
                    if let Some(Ok(eh)) = self.task.on_end() {
                        self.handle_end(bake_view_model, eh, EndHandler::OnEnd, depth);
                    }
                }
            },
            (Err(e), _, Some(h)) => {
                self.print_error(e.as_str());
                if let Ok(eh) = h {
                    self.handle_end(bake_view_model, eh, EndHandler::OnError, depth);
                    if let Some(Ok(eh)) = self.task.on_end() {
                        self.handle_end(bake_view_model, eh, EndHandler::OnEnd, depth);
                    }
                }
            },
        }
        proof {
            assert(commands_reach(bake_view_model, self.task_view(), self.platform(), result_view(r), depth));
            assert(run_steps(bake_view_model, self.task_view(), self.platform(), dg, vg, result_view(r), depth));
        }
        outcome
    }

    fn print_time(&self, duration: Duration) {
        let mut m = String::from_str("Task '");
        m.append(self.name());
        m.append("' finished successfully. time: ");
        m.append(decimal_string(duration_millis(&duration)).as_str());
        m.append("ms\n");
        self.capabilities.message(Message::bake_state(m));
    }

    fn print_error(&self, msg: &str) {
        let mut m = String::from_str("Task '");
        m.append(self.name());
        m.append("' failed. error message: ");
        m.append(msg);
        m.append("\n");
        self.capabilities.message(Message::error(m));
    }

    fn handle_end(
        &self,
        bake_view_model: &BakeViewModel<C>,
        function_call: FunctionCall,
        end_handler: EndHandler,
        depth: u64,
    )
        decreases depth, 7int,
    {
        let mut m = String::from_str("task '");
        m.append(self.name());
        m.append("' ");
        m.append(end_handler.name());
        m.append(": calls function: '");
        m.append(function_call.to_command_string().as_str());
        m.append("'\n");
        self.capabilities.message(Message::bake_state(m));
        let _ = bake_view_model.run_command_at(
            &Command::FunctionCall(function_call),
            self.task.working_directory(),
            depth,
        );
    }

    pub fn name(&self) -> (r: &str)
        ensures
            r@ == self.task_view().name,
    {
        self.task.name()
    }

    /// The task has this name.
    pub fn is(&self, name: &str) -> (r: bool)
        ensures
            r == (self.task_view().name == name@),
    {
        let own = self.task.name().to_owned();
        let other = name.to_owned();
        own == other
    }

    pub fn help_msg(&self) -> (r: Option<&str>)
        ensures
            match (r, self.task_view().help_msg) {
                (Some(s), Some(t)) => s@ == t,
                (None, None) => true,
                _ => false,
            },
    {
        self.task.help_msg()
    }

    pub fn dependencies(&self) -> (r: &[String])
        ensures
            r.deep_view() == match self.task_view().dependencies {
                Some(d) => d,
                None => Seq::empty(),
            },
    {
        self.task.dependencies()
    }

    pub fn params(&self) -> (r: &[Param])
        ensures
            views(r@) == self.param_views(),
    {
        self.task.envs()
    }

    /// The commands of the task on the platform the capabilities reported.
    pub fn commands(&self) -> (r: Result<Vec<Command>, String>)
        ensures
            match (r, platform_commands(task_command_list(self.task_view(), self.platform()), self.platform())) {
                (Ok(v), Ok(w)) => command_views(v@) == w,
                (Err(e), Err(m)) => e@ == m,
                _ => false,
            },
    {
        self.task.commands(self.platform)
    }

    pub fn working_directory(&self) -> (r: Option<&str>)
        ensures
            match (r, self.task_view().working_directory) {
                (Some(s), Some(t)) => s@ == t,
                (None, None) => true,
                _ => false,
            },
    {
        self.task.working_directory()
    }

    pub fn keep_alive(&self) -> (r: bool)
        ensures
            r == (self.task_view().keep_alive == Some(true)),
    {
        self.task.keep_alive()
    }
}

} // verus!
