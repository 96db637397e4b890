use bake::model::bake_file::BakeFile;
use bake::model::command::Command;
use bake::model::end_handler::EndHandler;
use bake::model::function_call::FunctionCall;
use bake::model::param::Param;
use bake::model::param_validator::ParamValidator;
use bake::model::platform_specific::PlatformSpecific;
use bake::model::plugin::Plugin;
use bake::model::task::Task;
use bake::util::platform_specific::{get_platform_name, platform_specific, Platform};

#[test]
fn validation_name_test() {
    let param = Param::new("name".to_string(), None);
    assert_eq!(param.name(), "name".to_string());
}

#[test]
fn validation_enum_int_test() {
    assert_eq!(
        ParamValidator::try_from("integer"),
        Ok(ParamValidator::Integer)
    );
}

#[test]
fn validation_enum_number_test() {
    assert_eq!(
        ParamValidator::try_from("integer"),
        Ok(ParamValidator::Integer)
    );
}

#[test]
fn validation_enum_variants_test() {
    assert_eq!(
        ParamValidator::try_from("variants(a|b)"),
        Ok(ParamValidator::Variants(vec!["a".to_string(), "b".to_string()]))
    );
}

#[test]
fn validator_names_and_errors() {
    assert_eq!(ParamValidator::try_from("int"), Ok(ParamValidator::Integer));
    assert_eq!(ParamValidator::try_from("number"), Ok(ParamValidator::Number));
    assert_eq!(ParamValidator::try_from("num"), Ok(ParamValidator::Number));
    assert_eq!(
        ParamValidator::try_from("variants ( x | | y )"),
        Ok(ParamValidator::Variants(vec!["x".to_string(), "y".to_string()]))
    );
    assert_eq!(
        ParamValidator::try_from("variants()"),
        Ok(ParamValidator::Variants(vec![]))
    );
    assert_eq!(
        ParamValidator::try_from("variants[a]"),
        Err("invalid validation::variants".to_string())
    );
    assert_eq!(
        ParamValidator::try_from("Integer"),
        Err("invalid validation".to_string())
    );
}

#[test]
fn validate_integer_values() {
    let v = ParamValidator::Integer;
    assert_eq!(v.validate("80"), Ok(()));
    assert_eq!(v.validate("-9223372036854775808"), Ok(()));
    assert_eq!(v.validate("+7"), Ok(()));
    assert_eq!(
        v.validate("9223372036854775808"),
        Err("number too large to fit in target type".to_string())
    );
    assert_eq!(
        v.validate(""),
        Err("cannot parse integer from empty string".to_string())
    );
    assert_eq!(
        v.validate("8o"),
        Err("invalid digit found in string".to_string())
    );
}

#[test]
fn validate_number_values() {
    let v = ParamValidator::Number;
    for ok in ["1", "1.5", ".5", "5.", "-1e10", "1E-3", "inf", "-Infinity", "NaN", "+0.0e+1"] {
        assert_eq!(v.validate(ok), Ok(()), "{ok}");
    }
    assert_eq!(
        v.validate(""),
        Err("cannot parse float from empty string".to_string())
    );
    for bad in [".", "e5", "1e", "1.2.3", "--1", " 1", "infinit", "+", "1e+"] {
        assert_eq!(
            v.validate(bad),
            Err("invalid float literal".to_string()),
            "{bad}"
        );
    }
}

#[test]
fn validate_variants() {
    let v = ParamValidator::Variants(vec!["debug".to_string(), "release".to_string()]);
    assert_eq!(v.validate("debug"), Ok(()));
    assert_eq!(
        v.validate("fast"),
        Err("fast not in options[\"debug\", \"release\"]".to_string())
    );
}

#[test]
fn param_validator_accessor() {
    let p = Param::new("PORT".to_string(), Some("int".to_string()));
    assert_eq!(p.validator(), Some(Ok(ParamValidator::Integer)));
    assert_eq!(p.default(), None);
    let p = Param::new("PORT".to_string(), None);
    assert_eq!(p.validator(), None);
}

#[test]
fn not_supported_test() {
    let macos = vec!["cmd1".to_string(), "cmd2".to_string()];
    let ps = platform_specific(Platform::Linux, None, None, None, Some(&macos));
    assert_eq!(ps, None);
}

#[test]
fn main_test() {
    let common = vec!["cmd1".to_string(), "cmd2".to_string()];
    let ps = platform_specific(Platform::Linux, Some(&common), None, None, None);
    assert_eq!(ps.unwrap().len(), 2)
}

#[test]
fn linux_only_test() {
    let linux = vec!["cmd1".to_string(), "cmd2".to_string()];
    let ps = platform_specific(Platform::Linux, None, Some(&linux), None, None);
    assert_eq!(ps.unwrap().len(), 2)
}

#[test]
fn platform_names_and_choice() {
    assert_eq!(get_platform_name(Platform::Linux), "Linux");
    assert_eq!(get_platform_name(Platform::Windows), "Windows");
    assert_eq!(get_platform_name(Platform::MacOS), "MacOS");
    let common = 1;
    let own = 2;
    assert_eq!(
        platform_specific(Platform::Windows, Some(&common), Some(&own), None, None),
        Some(&common)
    );
    assert_eq!(
        platform_specific(Platform::MacOS, Some(&common), None, None, Some(&own)),
        Some(&own)
    );
}

fn strings(v: &[&str]) -> Vec<String> {
    v.iter().map(|x| x.to_string()).collect()
}

#[test]
fn platform_specific_struct() {
    let ps = PlatformSpecific::new(None, None, None, Some(strings(&["a"])));
    assert_eq!(ps.get_platform_support_text(), Some("macOS only".to_string()));
    assert_eq!(
        ps.get_list(Platform::Linux),
        Err("not supported on linux".to_string())
    );
    let ps = PlatformSpecific::new(Some(strings(&["m"])), Some(strings(&["l"])), None, None);
    assert_eq!(ps.get_platform_support_text(), None);
    assert_eq!(ps.get_list(Platform::Linux), Ok(strings(&["l"])));
    let ps = PlatformSpecific::new(Some(strings(&["m"])), Some(strings(&["l"])), None, None);
    assert_eq!(ps.get_list(Platform::Windows), Ok(strings(&["m"])));
}

#[test]
fn yaml_parser_test() {
    let yaml = "
plugins:
  - name: fs
    path: .bake/fs.yaml

global_env_vars:
  - name: PORT
    validation: Integer
    value: 80

dependencies:
  - name: rust
    dependencies: [ rust ]
    check: [ rustc --version ]
    link: https://somewhere.com
    commands_linux: [ sudo apt install something ]

tasks:
  - name: clean
    help_msg: removes some stuff
    dependencies: [ rust ]
    params:
      - name: USERNAME
    commands:
      - cmd1
      - cmd2
";
    let bake_file = BakeFile::from_yaml(yaml).unwrap();
    assert_eq!(bake_file.plugins().len(), 1);
    assert_eq!(bake_file.plugins()[0].name(), "fs");
    assert_eq!(bake_file.plugins()[0].path(), ".bake/fs.yaml");
    let rust = &bake_file.dependencies()[0];
    assert_eq!(rust.name(), "rust");
    assert_eq!(rust.dependencies(), &["rust".to_string()]);
    assert_eq!(
        rust.check(Platform::Linux),
        Ok(vec![Command::ShellCommand("rustc --version".to_string())])
    );
    assert_eq!(rust.link(Platform::Windows), Ok("https://somewhere.com".to_string()));
    assert_eq!(
        rust.installation_command(Platform::Linux),
        Ok(vec![Command::ShellCommand("sudo apt install something".to_string())])
    );
    assert_eq!(
        rust.installation_command(Platform::MacOS),
        Err("MacOS is not supported".to_string())
    );
    let clean = &bake_file.tasks()[0];
    assert_eq!(clean.name(), "clean");
    assert_eq!(clean.help_msg(), Some("removes some stuff"));
    assert!(clean.envs().is_empty());
    assert_eq!(
        clean.commands(Platform::Linux),
        Ok(vec![
            Command::ShellCommand("cmd1".to_string()),
            Command::ShellCommand("cmd2".to_string())
        ])
    );
    assert!(!clean.keep_alive());
}

#[test]
fn yaml_errors() {
    assert_eq!(
        BakeFile::from_yaml("tasks:\n  - help_msg: x\n"),
        Err("missing field `name`".to_string())
    );
    assert_eq!(
        BakeFile::from_yaml("tasks: 5\n"),
        Err("invalid type for `tasks`, expected a list".to_string())
    );
    assert_eq!(
        BakeFile::from_yaml("- a\n"),
        Err("invalid type, expected a bakefile mapping".to_string())
    );
    assert!(BakeFile::from_yaml("tasks: [").is_err());
    let b = BakeFile::from_yaml("{}").unwrap();
    assert!(b.tasks().is_empty() && b.plugins().is_empty() && b.dependencies().is_empty());
}

#[test]
fn yaml_scalars_and_hooks() {
    let b = BakeFile::from_yaml(
        "tasks:\n  - name: 80\n    keep_alive: true\n    working_directory: ./w\n    envs:\n      - name: PORT\n        validator: int\n        default: 8080\n    on_success: '@this.done --x 1'\n    on_error: echo no\n",
    )
    .unwrap();
    let t = &b.tasks()[0];
    assert_eq!(t.name(), "80");
    assert!(t.keep_alive());
    assert_eq!(t.working_directory(), Some("./w"));
    assert_eq!(t.envs()[0].name(), "PORT");
    assert_eq!(t.envs()[0].default(), Some("8080"));
    assert_eq!(
        t.on_success(),
        Some(Ok(FunctionCall::new(
            "this".to_string(),
            "done".to_string(),
            vec![("x".to_string(), "1".to_string())]
        )))
    );
    assert_eq!(
        t.on_error(),
        Some(Err("'echo no' is not a function call".to_string()))
    );
    assert_eq!(t.on_end(), None);
}

#[test]
fn task_and_plugin_constructors() {
    let t = Task::new(
        "build".to_string(),
        None,
        Some(strings(&["rust"])),
        Some(vec![Param::new("MODE".to_string(), None)]),
        None,
        None,
        Some(strings(&["cargo build"])),
        None,
        None,
        None,
        None,
        None,
    );
    assert_eq!(t.dependencies(), &["rust".to_string()]);
    assert_eq!(t.envs().len(), 1);
    assert_eq!(
        t.commands(Platform::Windows),
        Err("Windows is not supported".to_string())
    );
    assert_eq!(
        t.commands(Platform::Linux),
        Ok(vec![Command::ShellCommand("cargo build".to_string())])
    );
    let p = Plugin::new("fs".to_string(), "fs.yaml".to_string());
    assert_eq!((p.name(), p.path()), ("fs", "fs.yaml"));
    assert_eq!(EndHandler::OnSuccess.name(), "on_success");
    assert_eq!(EndHandler::OnError.name(), "on_error");
    assert_eq!(EndHandler::OnEnd.name(), "on_end");
}

#[test]
fn function_call_written_back() {
    let c = FunctionCall::try_from("@fs.copy --from a --to b").unwrap();
    assert_eq!(c.to_command_string(), "@fs.copy --from a --to b");
}

#[test]
fn readme_validations_are_supported() {
    let v = |s: Option<&str>| Param::new("X".to_string(), s.map(String::from)).validator();
    assert_eq!(v(None), None);
    assert_eq!(v(Some("integer")), Some(Ok(ParamValidator::Integer)));
    assert_eq!(v(Some("number")), Some(Ok(ParamValidator::Number)));
    assert_eq!(v(Some("float")), Some(Ok(ParamValidator::Number)));
    assert_eq!(v(Some("bool")), Some(Ok(ParamValidator::Bool)));
    assert_eq!(
        v(Some("enum(debug|release)")),
        Some(Ok(ParamValidator::Variants(vec!["debug".to_string(), "release".to_string()])))
    );
    assert_eq!(v(Some("enum debug")), Some(Err("invalid validation::enum".to_string())));
    assert_eq!(ParamValidator::Bool.validate("true"), Ok(()));
    assert_eq!(ParamValidator::Bool.validate("false"), Ok(()));
    assert_eq!(
        ParamValidator::Bool.validate("yes"),
        Err("provided string was not `true` or `false`".to_string())
    );
    assert_eq!(ParamValidator::Number.validate("2.5"), Ok(()));
}
