use std::cell::RefCell;
use std::collections::HashMap;
use std::rc::Rc;
use std::sync::atomic::{AtomicUsize, Ordering};

use bake::util::platform_specific::Platform;
use bake::viewmodel::capabilities::{is_yes, Capabilities};
use bake::viewmodel::env_with_role_back::EnvWithRoleBack;
use bake::viewmodel::message::{Message, MessageType};
use bake::viewmodel::BakeViewModel;
use bake::viewmodel::env_validator::env_question;
use bake::model::bake_file::BakeFile;
use bake::model::plugin::Plugin;
use bake::viewmodel::dependency_viewmodel::{installation_outcome, state_of, IsInstalledState};
use bake::viewmodel::task_viewmodel::{keep_alive_step, run_outcome, KeepAliveStep};
use bake::model::yaml::YamlValue;
use bake::viewmodel::{bake_file_from, cancellation, shell_outcome};

const BAKE_FILE_NAME: &str = "bakefile.yaml";

struct TestCap;
impl Capabilities for TestCap {
    fn read_file(&self, file_name: &str) -> Option<String> {
        if BAKE_FILE_NAME != file_name {
            return None;
        }
        Some(
            "
# plugins:
#   - name: fs
#     path: .bake/fs.yaml

global_env_vars:
  - name: PORT
    validation: Integer
    value: 80

dependencies:
  - name: rust
    dependencies: [ rust ]
    check: [ rustc --version ]
    link: https://somewhere.com
    commands_linux: [ sudo apt install something ]

tasks:
  - name: clean
    help_msg: removes some stuff
    dependencies: [ rust ]
    params:
      - name: USERNAME
    commands:
      - cmd1
      - cmd2
"
            .to_string(),
        )
    }

    fn execute(&self, _: &str, _: Option<&str>) -> bool {
        true
    }

    fn open_link(&self, _: &str) {}

    fn message(&self, input: Message) {
        let _ = input.content();
    }

    fn input(&self) -> Option<String> {
        None
    }

    fn set_env(&self, _: &str, _: &str) {}

    fn get_env(&self, _: &str) -> Option<String> {
        None
    }

    fn remove_env(&self, _: &str) {}

    fn platform(&self) -> Platform {
        Platform::Linux
    }
}

#[test]
fn mod_test_name() {
    let cap = TestCap;
    let r = BakeViewModel::new(Rc::new(cap));
    assert_eq!(
        r.unwrap().get_task_at(0).unwrap().name(),
        "clean".to_string()
    );
    let cap = ViewModelCap;
    let r = bake::view_model::BakeViewModel::new(cap);
    assert_eq!(
        r.unwrap().bake_file().tasks().get(0).unwrap().name(),
        "clean".to_string()
    );
}

struct AbortCap {
    executions: AtomicUsize,
}

impl Capabilities for AbortCap {
    fn read_file(&self, file_name: &str) -> Option<String> {
        if file_name != BAKE_FILE_NAME {
            return None;
        }
        Some(
            "tasks:
  - name: loop
    keep_alive: true
    commands: [ echo hi ]
"
            .to_string(),
        )
    }

    fn execute(&self, _: &str, _: Option<&str>) -> bool {
        self.executions.fetch_add(1, Ordering::SeqCst);
        true
    }

    fn open_link(&self, _: &str) {}

    fn message(&self, _: Message) {}

    fn input(&self) -> Option<String> {
        None
    }

    fn set_env(&self, _: &str, _: &str) {}

    fn get_env(&self, _: &str) -> Option<String> {
        None
    }

    fn remove_env(&self, _: &str) {}

    /// abort as soon as the first run finished
    fn should_abort(&self) -> bool {
        self.executions.load(Ordering::SeqCst) > 0
    }

    fn platform(&self) -> Platform {
        Platform::Linux
    }
}

#[test]
fn keep_alive_stops_on_abort() {
    let cap = Rc::new(AbortCap {
        executions: AtomicUsize::new(0),
    });
    let bake = BakeViewModel::new(Rc::clone(&cap)).unwrap();
    let r = bake.run_task("loop");
    assert!(r.is_err());
    assert_eq!(
        cap.executions.load(Ordering::SeqCst),
        1,
        "keep_alive should not restart after abort"
    );
}

/// A host that records what bake asks of it.
struct Recorder {
    files: HashMap<String, String>,
    env: RefCell<HashMap<String, String>>,
    executed: RefCell<Vec<(String, Option<String>)>>,
    messages: RefCell<Vec<String>>,
    links: RefCell<Vec<String>>,
    answers: RefCell<Vec<String>>,
    fail: Vec<String>,
}

impl Recorder {
    fn new(files: &[(&str, &str)]) -> Self {
        Recorder {
            files: files
                .iter()
                .map(|(k, v)| (k.to_string(), v.to_string()))
                .collect(),
            env: RefCell::new(HashMap::new()),
            executed: RefCell::new(Vec::new()),
            messages: RefCell::new(Vec::new()),
            links: RefCell::new(Vec::new()),
            answers: RefCell::new(Vec::new()),
            fail: Vec::new(),
        }
    }

    fn commands(&self) -> Vec<String> {
        self.executed.borrow().iter().map(|(c, _)| c.clone()).collect()
    }
}

impl Capabilities for Recorder {
    fn read_file(&self, file_name: &str) -> Option<String> {
        self.files.get(file_name).cloned()
    }

    fn execute(&self, command: &str, working_directory: Option<&str>) -> bool {
        let env = self.env.borrow();
        let mut expanded = command.to_string();
        for (k, v) in env.iter() {
            expanded = expanded.replace(&format!("${k}"), v);
        }
        self.executed
            .borrow_mut()
            .push((expanded, working_directory.map(|x| x.to_string())));
        !self.fail.iter().any(|f| f == command)
    }

    fn open_link(&self, url: &str) {
        self.links.borrow_mut().push(url.to_string());
    }

    fn message(&self, input: Message) {
        self.messages.borrow_mut().push(input.content().to_string());
    }

    fn input(&self) -> Option<String> {
        let mut a = self.answers.borrow_mut();
        if a.is_empty() {
            None
        } else {
            Some(a.remove(0))
        }
    }

    fn set_env(&self, name: &str, value: &str) {
        self.env.borrow_mut().insert(name.to_string(), value.to_string());
    }

    fn get_env(&self, name: &str) -> Option<String> {
        self.env.borrow().get(name).cloned()
    }

    fn remove_env(&self, name: &str) {
        self.env.borrow_mut().remove(name);
    }

    fn platform(&self) -> Platform {
        Platform::Linux
    }
}

#[test]
fn runs_tasks_by_name_and_number() {
    let cap = Rc::new(Recorder::new(&[(
        "bakefile.yaml",
        "tasks:\n  - name: a\n    commands: [ echo a ]\n  - name: b\n    working_directory: sub\n    commands: [ echo b1, echo b2 ]\n",
    )]));
    let bake = BakeViewModel::new(Rc::clone(&cap)).unwrap();
    assert_eq!(bake.tasks().len(), 2);
    assert!(bake.get_task("b").unwrap().is("b"));
    bake.run_task("b").unwrap();
    bake.run_task("1").unwrap();
    assert_eq!(cap.commands(), vec!["echo b1", "echo b2", "echo a"]);
    assert_eq!(cap.executed.borrow()[0].1, Some("sub".to_string()));
    assert_eq!(bake.run_task("c"), Err("task c not found".to_string()));
    assert_eq!(bake.run_task("0"), Err("task 0 not found".to_string()));
    assert_eq!(bake.run_task("3"), Err("task 3 not found".to_string()));
}

#[test]
fn calls_pass_params_and_put_env_back() {
    let cap = Rc::new(Recorder::new(&[(
        "bakefile.yaml",
        "tasks:\n  - name: greet\n    commands: [ echo $WHO ]\n  - name: main\n    commands: [ '@this.greet --WHO world', echo after ]\n",
    )]));
    cap.set_env("WHO", "nobody");
    let bake = BakeViewModel::new(Rc::clone(&cap)).unwrap();
    bake.run_task("main").unwrap();
    assert_eq!(cap.commands(), vec!["echo world", "echo after"]);
    assert_eq!(cap.get_env("WHO"), Some("nobody".to_string()));
}

#[test]
fn unknown_namespace_and_failing_command() {
    let mut rec = Recorder::new(&[(
        "bakefile.yaml",
        "tasks:\n  - name: x\n    commands: [ '@fs.copy' ]\n  - name: y\n    commands: [ boom, never ]\n",
    )]);
    rec.fail.push("boom".to_string());
    let cap = Rc::new(rec);
    let bake = BakeViewModel::new(Rc::clone(&cap)).unwrap();
    assert_eq!(bake.run_task("x"), Err("namespace 'fs' not found".to_string()));
    assert_eq!(bake.run_task("y"), Err("".to_string()));
    assert_eq!(cap.commands(), vec!["boom"]);
}

#[test]
fn plugins_are_called_by_namespace() {
    let cap = Rc::new(Recorder::new(&[
        (
            "bakefile.yaml",
            "plugins:\n  - name: fs\n    path: fs.yaml\ntasks:\n  - name: x\n    commands: [ '@fs.copy' ]\n",
        ),
        ("fs.yaml", "tasks:\n  - name: copy\n    commands: [ cp a b ]\n"),
    ]));
    let bake = BakeViewModel::new(Rc::clone(&cap)).unwrap();
    bake.run_task("x").unwrap();
    assert_eq!(cap.commands(), vec!["cp a b"]);
    assert!(BakeViewModel::new(Rc::new(Recorder::new(&[]))).is_err());
}

#[test]
fn hooks_run_after_the_task() {
    let mut rec = Recorder::new(&[(
        "bakefile.yaml",
        "tasks:\n  - name: t\n    commands: [ bad ]\n    on_error: '@this.e'\n    on_end: '@this.z'\n  - name: e\n    commands: [ echo e ]\n  - name: z\n    commands: [ echo z ]\n",
    )]);
    rec.fail.push("bad".to_string());
    let cap = Rc::new(rec);
    let bake = BakeViewModel::new(Rc::clone(&cap)).unwrap();
    assert_eq!(bake.run_task("t"), Ok(()));
    assert_eq!(cap.commands(), vec!["bad", "echo e", "echo z"]);
}

#[test]
fn env_defaults_and_validation() {
    let cap = Rc::new(Recorder::new(&[(
        "bakefile.yaml",
        "tasks:\n  - name: t\n    envs:\n      - name: PORT\n        validator: int\n        default: '80'\n    commands: [ serve $PORT ]\n  - name: u\n    envs:\n      - name: MODE\n        validator: variants(a|b)\n    commands: [ run $MODE ]\n",
    )]));
    let bake = BakeViewModel::new(Rc::clone(&cap)).unwrap();
    bake.run_task("t").unwrap();
    assert_eq!(cap.commands(), vec!["serve 80"]);
    assert_eq!(
        bake.run_task("u"),
        Err("can't get environment variable 'MODE'".to_string())
    );
    cap.answers.borrow_mut().push("  c \n".to_string());
    assert_eq!(
        bake.run_task("u"),
        Err(
            "environment variable validation error: 'MODE'='c' (c not in options[\"a\", \"b\"])"
                .to_string()
        )
    );
    assert_eq!(cap.get_env("MODE"), None);
}

#[test]
fn dependencies_are_checked_and_installed() {
    let mut rec = Recorder::new(&[(
        "bakefile.yaml",
        "dependencies:\n  - name: tool\n    check: [ has tool ]\n    commands: [ install tool ]\n  - name: web\n    link: example.com\ntasks:\n  - name: t\n    dependencies: [ tool ]\n    commands: [ use tool ]\n  - name: w\n    dependencies: [ web ]\n    commands: [ use web ]\n",
    )]);
    rec.fail.push("has tool".to_string());
    let cap = Rc::new(rec);
    let bake = BakeViewModel::new(Rc::clone(&cap)).unwrap();
    assert_eq!(bake.dependencies().len(), 2);
    assert_eq!(
        bake.install_dependency("nope"),
        Err("dependency nope not found".to_string())
    );
    // the check keeps failing, so the installation is reported as failed
    assert_eq!(
        bake.run_task("t"),
        Err("'tool' installation ends without error but double check after installation failed"
            .to_string())
    );
    assert!(cap.commands().contains(&"install tool".to_string()));
    // a dependency with only a link opens it and counts as done
    bake.run_task("w").unwrap();
    assert_eq!(cap.links.borrow()[0], "http://example.com");
    assert!(bake.get_dependency("web").unwrap().is_installable());
}

#[test]
fn yes_answers() {
    assert!(is_yes("yes"));
    assert!(is_yes(" Y \n"));
    assert!(is_yes("YES"));
    assert!(!is_yes("no"));
    assert!(!is_yes("yess"));
}

#[test]
fn role_back_restores_environment() {
    let cap = Rc::new(Recorder::new(&[]));
    cap.set_env("A", "1");
    let mut env = EnvWithRoleBack::new();
    env.set_envs(
        &cap,
        &vec![
            ("A".to_string(), "2".to_string()),
            ("B".to_string(), "3".to_string()),
        ],
    );
    assert_eq!(cap.get_env("A"), Some("2".to_string()));
    assert_eq!(cap.get_env("B"), Some("3".to_string()));
    env.role_back(&cap);
    assert_eq!(cap.get_env("A"), Some("1".to_string()));
    assert_eq!(cap.get_env("B"), None);
}

#[test]
fn setting_again_saves_the_newer_value() {
    let cap = Rc::new(Recorder::new(&[]));
    cap.set_env("A", "1");
    let mut env = EnvWithRoleBack::new();
    env.set_envs(&cap, &vec![("A".to_string(), "2".to_string())]);
    env.set_env(&cap, "A", "4");
    assert_eq!(cap.get_env("A"), Some("4".to_string()));
    env.role_back(&cap);
    assert_eq!(cap.get_env("A"), Some("2".to_string()));
}

#[test]
fn messages_keep_kind_and_text() {
    let m = Message::warning("careful".to_string());
    assert_eq!(*m.message_type(), MessageType::Warning);
    assert_eq!(m.content(), "careful");
    assert_eq!(*Message::error(String::new()).message_type(), MessageType::Error);
    assert_eq!(*Message::question(String::new()).message_type(), MessageType::Question);
    assert_eq!(*Message::normal(String::new()).message_type(), MessageType::Normal);
    assert_eq!(*Message::bake_state(String::new()).message_type(), MessageType::BakeState);
}

#[test]
fn tasks_that_need_nothing_succeed() {
    let mut rec = Recorder::new(&[(
        "bakefile.yaml",
        "dependencies:\n  - name: nothing\n    check: []\ntasks:\n  - name: empty\n    commands: []\n  - name: caller\n    commands: [ '@this.empty' ]\n",
    )]);
    rec.fail.push("anything".to_string());
    let cap = Rc::new(rec);
    let bake = BakeViewModel::new(Rc::clone(&cap)).unwrap();
    assert_eq!(bake.run_task("empty"), Ok(()));
    assert_eq!(bake.run_task("1"), Ok(()));
    assert_eq!(bake.run_task("caller"), Ok(()));
    assert_eq!(bake.install_dependency("nothing"), Ok(()));
    assert_eq!(bake.install_dependencies(&["nothing".to_string()]), Ok(()));
    assert!(cap.commands().is_empty());
}

#[test]
fn loading_reports_missing_files_and_bad_yaml() {
    let cap = Rc::new(Recorder::new(&[]));
    assert_eq!(
        BakeViewModel::new(Rc::clone(&cap)).err(),
        Some("bakefile.yaml not found".to_string())
    );
    let cap = Rc::new(Recorder::new(&[(
        "bakefile.yaml",
        "plugins:\n  - name: fs\n    path: fs.yaml\n",
    )]));
    assert_eq!(
        BakeViewModel::new(Rc::clone(&cap)).err(),
        Some("fs.yaml not found".to_string())
    );
    let cap = Rc::new(Recorder::new(&[("bakefile.yaml", "tasks: 3\n")]));
    assert!(BakeViewModel::new(Rc::clone(&cap)).is_err());
}

#[test]
fn web_runs_bring_their_own_parameter_values() {
    let cap = Rc::new(Recorder::new(&[(
        "bakefile.yaml",
        "tasks:\n  - name: t\n    envs:\n      - name: A\n    commands: []\n",
    )]));
    cap.set_env("A", "old");
    cap.set_env("B", "keep");
    let bake = BakeViewModel::new(Rc::clone(&cap)).unwrap();
    bake::serve::route::apply_run_params(
        cap.as_ref(),
        &bake,
        "t",
        &[("C".to_string(), "1".to_string())],
    );
    assert_eq!(cap.get_env("A"), None);
    assert_eq!(cap.get_env("B"), Some("keep".to_string()));
    assert_eq!(cap.get_env("C"), Some("1".to_string()));
}

#[test]
fn outcomes_that_the_host_does_not_decide() {
    let cap = Rc::new(Recorder::new(&[(
        "bakefile.yaml",
        "dependencies:\n  - name: ok\n    check: []\n  - name: bare\ntasks:\n  - name: hooked\n    commands: []\n    on_end: echo done\n  - name: stray\n    commands: [ '@this.hooked2', '@fs.copy', echo never ]\n  - name: hooked2\n    commands: []\n",
    )]));
    let bake = BakeViewModel::new(Rc::clone(&cap)).unwrap();
    assert_eq!(
        bake.install_dependencies(&["ok".to_string(), "nope".to_string()]),
        Err("dependency nope not found".to_string())
    );
    assert_eq!(
        bake.run_task("hooked"),
        Err("'echo done' is not a function call".to_string())
    );
    assert_eq!(bake.run_task("stray"), Err("namespace 'fs' not found".to_string()));
    assert!(cap.commands().is_empty());
    let bare = bake.get_dependency("bare").unwrap();
    assert_eq!(bare.try_install(&bake), Err("bare is not installable".to_string()));
}

#[test]
fn step_outcomes_follow_what_the_host_answered() {
    assert_eq!(shell_outcome(true), Ok(()));
    assert_eq!(shell_outcome(false), Err(String::new()));
    assert_eq!(
        cancellation("rust", Some(false)),
        Some("cancel installation rust".to_string())
    );
    assert_eq!(cancellation("rust", Some(true)), None);
    assert_eq!(cancellation("rust", None), None);
    assert_eq!(state_of(&Ok(())), IsInstalledState::Installed);
    assert_eq!(state_of(&Err("x".to_string())), IsInstalledState::NotInstalled);
    assert_eq!(
        installation_outcome("x", Ok(()), IsInstalledState::NotInstalled),
        Err("'x' installation ends without error but double check after installation failed".to_string())
    );
    assert_eq!(installation_outcome("x", Ok(()), IsInstalledState::Unknown), Ok(()));
    assert_eq!(installation_outcome("x", Ok(()), IsInstalledState::Installed), Ok(()));
    assert_eq!(
        installation_outcome("x", Err("boom".to_string()), IsInstalledState::Installed),
        Err("boom".to_string())
    );
    assert_eq!(bake_file_from("f.yaml", None).err(), Some("f.yaml not found".to_string()));
    assert_eq!(
        bake_file_from("f.yaml", Some("tasks:\n  - name: a\n".to_string()))
            .unwrap()
            .tasks()
            .len(),
        1
    );
}

#[test]
fn hooks_decide_the_outcome_of_a_run() {
    let bf = BakeFile::from_yaml(
        "tasks:\n  - name: a\n    on_error: '@this.b'\n  - name: b\n  - name: c\n    on_end: echo x\n  - name: d\n",
    )
    .unwrap();
    let tasks = bf.tasks();
    assert_eq!(run_outcome(&tasks[0], &Err("boom".to_string())), Ok(()));
    assert_eq!(run_outcome(&tasks[0], &Ok(())), Ok(()));
    assert_eq!(
        run_outcome(&tasks[2], &Err("boom".to_string())),
        Err("'echo x' is not a function call".to_string())
    );
    assert_eq!(
        run_outcome(&tasks[3], &Err("boom".to_string())),
        Err("boom".to_string())
    );
    assert_eq!(run_outcome(&tasks[3], &Ok(())), Ok(()));
}

#[test]
fn keep_alive_reports_the_abort() {
    let cap = Rc::new(AbortCap {
        executions: AtomicUsize::new(0),
    });
    let bake = BakeViewModel::new(Rc::clone(&cap)).unwrap();
    assert_eq!(bake.run_task("loop"), Err("task 'loop' aborted".to_string()));
}

#[test]
fn a_position_runs_the_last_task_of_that_name() {
    let cap = Rc::new(Recorder::new(&[(
        "bakefile.yaml",
        "tasks:\n  - name: a\n    commands: [ first ]\n  - name: a\n    commands: [ second ]\n",
    )]));
    let bake = BakeViewModel::new(Rc::clone(&cap)).unwrap();
    bake.run_task("1").unwrap();
    assert_eq!(cap.commands(), vec!["second"]);
}

#[test]
fn installing_can_be_declined_or_fail_its_check() {
    let mut rec = Recorder::new(&[(
        "bakefile.yaml",
        "dependencies:\n  - name: d\n    check: [ probe ]\n    commands_linux: [ setup ]\n  - name: l\n    check: [ probe ]\n    link: https://example.com\n",
    )]);
    rec.fail.push("probe".to_string());
    rec.answers.borrow_mut().push("no".to_string());
    rec.answers.borrow_mut().push("yes".to_string());
    rec.answers.borrow_mut().push("yes".to_string());
    let cap = Rc::new(rec);
    let bake = BakeViewModel::new(Rc::clone(&cap)).unwrap();
    assert_eq!(
        bake.install_dependency("d"),
        Err("cancel installation d".to_string())
    );
    assert_eq!(
        bake.install_dependency("d"),
        Err("'d' installation ends without error but double check after installation failed".to_string())
    );
    assert_eq!(
        bake.install_dependency("l"),
        Err("failed to install l".to_string())
    );
    assert_eq!(cap.links.borrow().len(), 1);
}

#[test]
fn installability_follows_the_reported_platform() {
    let cap = Rc::new(Recorder::new(&[(
        "bakefile.yaml",
        "dependencies:\n  - name: w\n    commands_windows: [ setup ]\n  - name: n\n    commands_linux: [ setup ]\n",
    )]));
    let bake = BakeViewModel::new(Rc::clone(&cap)).unwrap();
    assert!(!bake.get_dependency("w").unwrap().is_installable());
    assert!(bake.get_dependency("n").unwrap().is_installable());
}

#[test]
fn the_last_plugin_of_a_name_wins() {
    let cap = Rc::new(Recorder::new(&[
        ("one.yaml", "tasks:\n  - name: first\n"),
        ("two.yaml", "tasks:\n  - name: second\n"),
    ]));
    let plugins = vec![
        Plugin::new("p".to_string(), "one.yaml".to_string()),
        Plugin::new("p".to_string(), "two.yaml".to_string()),
    ];
    let loaded = BakeViewModel::from_plugins(Rc::clone(&cap), &plugins).unwrap();
    assert_eq!(loaded.len(), 1);
    assert_eq!(loaded[0].0, "p");
    assert!(loaded[0].1.get_task("second").is_some());
    assert!(loaded[0].1.get_task("first").is_none());
    let broken = vec![
        Plugin::new("p".to_string(), "missing.yaml".to_string()),
        Plugin::new("q".to_string(), "gone.yaml".to_string()),
    ];
    assert_eq!(
        BakeViewModel::from_plugins(Rc::clone(&cap), &broken).err(),
        Some("missing.yaml not found".to_string())
    );
}

#[test]
fn web_runs_clear_the_task_parameters_first() {
    let cap = Rc::new(Recorder::new(&[(
        "bakefile.yaml",
        "tasks:\n  - name: t\n    envs:\n      - name: A\n      - name: B\n    commands: []\n",
    )]));
    let bake = BakeViewModel::new(Rc::clone(&cap)).unwrap();
    assert_eq!(
        bake::serve::route::cleared_variables(&bake, "t"),
        vec!["A".to_string(), "B".to_string()]
    );
    assert!(bake::serve::route::cleared_variables(&bake, "nope").is_empty());
}

#[test]
fn saved_values_are_what_role_back_restores() {
    let cap = Rc::new(Recorder::new(&[]));
    cap.set_env("A", "new");
    cap.set_env("B", "temp");
    let mut saved = EnvWithRoleBack::new();
    saved.save_previous("A", Some("old".to_string()));
    saved.save_previous("B", None);
    saved.save_previous("A", Some("older".to_string()));
    saved.role_back(&cap);
    assert_eq!(cap.get_env("A"), Some("older".to_string()));
    assert_eq!(cap.get_env("B"), None);
}

#[test]
fn a_plugin_task_ends_by_its_own_hooks() {
    let mut rec = Recorder::new(&[
        (
            "bakefile.yaml",
            "plugins:\n  - name: fs\n    path: fs.yaml\ntasks:\n  - name: x\n    commands: [ '@fs.copy', after ]\n",
        ),
        (
            "fs.yaml",
            "tasks:\n  - name: copy\n    commands: [ boom ]\n    on_error: '@this.rescue'\n  - name: rescue\n    commands: [ mend ]\n",
        ),
    ]);
    rec.fail.push("boom".to_string());
    let cap = Rc::new(rec);
    let bake = BakeViewModel::new(Rc::clone(&cap)).unwrap();
    assert_eq!(bake.run_task("x"), Ok(()));
    assert_eq!(cap.commands(), vec!["boom", "mend", "after"]);
}


struct ViewModelCap;
impl bake::view_model::capabilities::Capabilities for ViewModelCap {
    fn read_file(&self, file_name: &str) -> Option<String> {
        if bake::view_model::BAKE_FILE_NAME != file_name {
            return None;
        }
        Some(
            "
plugins:
  - name: fs
    path: .bake/fs.yaml

global_env_vars:
  - name: PORT
    validation: Integer
    value: 80

dependencies:
  - name: rust
    dependencies: [ rust ]
    check: [ rustc --version ]
    link: https://somewhere.com
    command_linux: [ sudo apt install something ]

tasks:
  - name: clean
    help_msg: removes some stuff
    dependencies: [ rust ]
    params:
      - name: USERNAME
    commands:
      - cmd1
      - cmd2
"
            .to_string(),
        )
    }
}

struct NoFile;
impl bake::view_model::capabilities::Capabilities for NoFile {
    fn read_file(&self, _: &str) -> Option<String> {
        None
    }
}

#[test]
fn view_model_without_bakefile() {
    assert_eq!(
        bake::view_model::BakeViewModel::new(NoFile).err(),
        Some("bakefile not found".to_string())
    );
}

#[test]
fn errors_before_any_host_call_are_reported() {
    let cap = Rc::new(Recorder::new(&[(
        "bakefile.yaml",
        "tasks:\n  - name: needs\n    dependencies: [ ghost ]\n    commands: [ never ]\n  - name: calls\n    commands: [ '@this.nope', never ]\n",
    )]));
    let bake = BakeViewModel::new(Rc::clone(&cap)).unwrap();
    assert_eq!(bake.run_task("needs"), Err("dependency ghost not found".to_string()));
    assert_eq!(bake.run_task("calls"), Err("task nope not found".to_string()));
    assert!(cap.commands().is_empty());
}

#[test]
fn the_user_is_asked_for_a_missing_variable() {
    assert_eq!(
        env_question("USER"),
        "environment variable 'USER' not found enter USER"
    );
    let rec = Recorder::new(&[(
        "bakefile.yaml",
        "tasks:\n  - name: t\n    envs:\n      - name: WHO\n    commands: [ echo $WHO ]\n",
    )]);
    rec.answers.borrow_mut().push("  ann  ".to_string());
    let cap = Rc::new(rec);
    let bake = BakeViewModel::new(Rc::clone(&cap)).unwrap();
    bake.run_task("t").unwrap();
    assert_eq!(cap.commands(), vec!["echo ann"]);
    assert!(cap
        .messages
        .borrow()
        .iter()
        .any(|m| m == "environment variable 'WHO' not found enter WHO"));
}

#[test]
fn keep_alive_steps_stop_or_restart() {
    match keep_alive_step("srv", true, Ok(())) {
        KeepAliveStep::Stop(e) => assert_eq!(e, "task 'srv' aborted"),
        KeepAliveStep::Restart(_) => panic!("should stop"),
    }
    match keep_alive_step("srv", false, Ok(())) {
        KeepAliveStep::Restart(ms) => {
            assert_eq!(ms.len(), 1);
            assert_eq!(ms[0].content(), "task 'srv' done, restarting because of the keep_alive:true\n");
            assert_eq!(*ms[0].message_type(), MessageType::BakeState);
        }
        KeepAliveStep::Stop(_) => panic!("should restart"),
    }
    match keep_alive_step("srv", false, Err("boom".to_string())) {
        KeepAliveStep::Restart(ms) => {
            assert_eq!(ms.len(), 2);
            assert_eq!(ms[0].content(), "boom, ");
            assert_eq!(*ms[0].message_type(), MessageType::Error);
            assert_eq!(ms[1].content(), "restarting because of the keep_alive:true\n");
        }
        KeepAliveStep::Stop(_) => panic!("should restart"),
    }
}

#[test]
fn loading_from_read_content() {
    let cap = Rc::new(Recorder::new(&[("p.yaml", "tasks:\n  - name: inner\n")]));
    let vm = BakeViewModel::from_content(
        Rc::clone(&cap),
        "b.yaml",
        Some("tasks:\n  - name: a\n".to_string()),
    )
    .unwrap();
    assert_eq!(vm.tasks().len(), 1);
    assert_eq!(
        BakeViewModel::from_content(Rc::clone(&cap), "b.yaml", None).err(),
        Some("b.yaml not found".to_string())
    );
    assert_eq!(
        BakeViewModel::from_content(
            Rc::clone(&cap),
            "b.yaml",
            Some("plugins:\n  - name: ok\n    path: p.yaml\n  - name: bad\n    path: q.yaml\n".to_string()),
        )
        .err(),
        Some("q.yaml not found".to_string())
    );
}

#[test]
fn a_name_finds_the_last_task_of_that_name() {
    let cap = Rc::new(Recorder::new(&[(
        "bakefile.yaml",
        "tasks:\n  - name: a\n    help_msg: first\n  - name: a\n    help_msg: second\n  - name: b\n",
    )]));
    let bake = BakeViewModel::new(Rc::clone(&cap)).unwrap();
    assert_eq!(bake.get_task("a").unwrap().help_msg(), Some("second"));
    assert!(bake.get_task("1").is_none());
}

#[test]
fn a_document_reads_as_a_bakefile() {
    assert_eq!(BakeFile::from_document(&YamlValue::Mapping(vec![])).unwrap().tasks().len(), 0);
    assert_eq!(
        BakeFile::from_document(&YamlValue::Null).err(),
        Some("invalid type, expected a bakefile mapping".to_string())
    );
}
