use bake::model::command::Command;
use bake::model::function_call::FunctionCall;

fn params(list: &[(&str, &str)]) -> Vec<(String, String)> {
    list.iter()
        .map(|(k, v)| (k.to_string(), v.to_string()))
        .collect()
}

#[test]
fn command_parser_shell_command_test() {
    let command = Command::try_from("cp from to");
    assert_eq!(command, Ok(Command::ShellCommand("cp from to".to_string())));
}

#[test]
fn command_parser_function_call_test() {
    assert_eq!(
        Command::try_from("@fs.copy --from f --to t"),
        Ok(Command::FunctionCall(FunctionCall::new(
            "fs".to_string(),
            "copy".to_string(),
            params(&[("from", "f"), ("to", "t")])
        )))
    );
}

#[test]
fn errors() {
    // empty
    assert_eq!(Command::try_from(""), Err("is empty".to_string()));

    // missing dot
    let command = Command::try_from("@fscopy from to");
    assert_eq!(command, Err("syntax error".to_string()));

    // missing namespace
    let command = Command::try_from("@.copy from to");
    assert_eq!(
        command,
        Err("syntax error(namespace is missing)".to_string())
    );

    // missing function name
    let command = Command::try_from("@fs. from to");
    assert_eq!(
        command,
        Err("syntax error(function name is missing)".to_string())
    );

    // missing params (ok)
    let command = Command::try_from("@fs.copy");
    assert_eq!(
        command,
        Ok(Command::FunctionCall(FunctionCall::new(
            "fs".to_string(),
            "copy".to_string(),
            Vec::new()
        )))
    );
}

#[test]
fn valid() {
    assert_eq!(
        FunctionCall::try_from("@this.function_name").unwrap(),
        FunctionCall::new("this".to_string(), "function_name".to_string(), Vec::new())
    );

    assert_eq!(
        FunctionCall::try_from("@function_name").unwrap(),
        FunctionCall::new("this".to_string(), "function_name".to_string(), Vec::new())
    );

    assert_eq!(
        FunctionCall::try_from("@this.function_name --param1 a --param2 b").unwrap(),
        FunctionCall::new(
            "this".to_string(),
            "function_name".to_string(),
            params(&[("param1", "a"), ("param2", "b")])
        )
    );

    assert_eq!(
        FunctionCall::try_from("@this.function_name --param1 --param2").unwrap(),
        FunctionCall::new(
            "this".to_string(),
            "function_name".to_string(),
            params(&[("param1", "--param2")])
        )
    );
}

#[test]
fn invalid() {
    assert_eq!(
        FunctionCall::try_from("@this.function_name a"),
        Err(
            "invalid param passing. help: @namespace.task --param1 value1 --param2 value2 ..."
                .to_string()
        )
    );

    assert_eq!(
        FunctionCall::try_from("@this.function_name a b"),
        Err("invalid param name 'a' (param name should start with '--' )".to_string())
    );

    assert_eq!(
        FunctionCall::try_from("@this.function_name --param1 a --param2"),
        Err(
            "invalid param passing. help: @namespace.task --param1 value1 --param2 value2 ..."
                .to_string()
        )
    );
}

#[test]
fn repeated_key_keeps_first_position_and_last_value() {
    let call = FunctionCall::try_from("  @ns.f --a 1 --b 2 --a 3  ").unwrap();
    assert_eq!(call.namespace(), "ns");
    assert_eq!(call.function(), "f");
    assert_eq!(call.params(), &params(&[("a", "3"), ("b", "2")]));
}

#[test]
fn two_dots_and_trimming() {
    assert_eq!(
        FunctionCall::try_from("@a.b.c"),
        Err("syntax error( two dots found in @namespace.functionName)".to_string())
    );
    assert_eq!(
        Command::try_from("  \t echo hi \n"),
        Ok(Command::ShellCommand("echo hi".to_string()))
    );
    assert_eq!(Command::try_from(" \u{3000} "), Err("is empty".to_string()));
    // a double space makes an empty word, which counts as a param word
    assert_eq!(
        FunctionCall::try_from("@a.b  --k"),
        Err("invalid param name '' (param name should start with '--' )".to_string())
    );
}

#[test]
fn surrounding_space_does_not_matter() {
    assert_eq!(
        bake::model::command::Command::try_from("  \t@fs.copy --a b \n"),
        bake::model::command::Command::try_from("@fs.copy --a b")
    );
    assert_eq!(
        bake::model::command::Command::try_from(" ls -la "),
        bake::model::command::Command::try_from("ls -la")
    );
}

#[test]
fn repeated_keys_are_kept_once() {
    let c = bake::model::function_call::FunctionCall::try_from("@ns.f --a 1 --b 2 --a 3").unwrap();
    assert_eq!(
        c.params(),
        &vec![("a".to_string(), "3".to_string()), ("b".to_string(), "2".to_string())]
    );
}

#[test]
fn written_calls_read_back() {
    for text in ["@ns.f --a 1 --b 2", "@f", "@x.y --k  --z w", "@a.b --k 1 --k 2"] {
        let call = bake::model::function_call::FunctionCall::try_from(text).unwrap();
        let again =
            bake::model::function_call::FunctionCall::try_from(&call.to_command_string()).unwrap();
        assert_eq!(again, call);
    }
}
