# bake

A task runner driven by a `bakefile.yaml`, written in Verus.

- `src/` is the verified library: the bakefile model and its YAML decoding
  (`model`), the view model that runs tasks, dependencies, hooks and plugin
  calls through host capabilities (`viewmodel`, `view_model`), the command
  line parser (`arg_parser`), the terminal choices (`cli`), and the pure
  parts of the web front end (`serve`: request heads, routing, basic auth,
  percent and base64 decoding, the HTML pages and the MCP decisions).
- `app/` is the program around it: the terminal, the REPL, the HTTP server
  with its threads and processes, and the JSON answers.
- `tests/` exercises the library on concrete values.

Whatever the host answers (a command's success, an environment variable,
the user's reply, the content of a file) reaches the view model through the
`Capabilities` trait. Each decision taken on such an answer lives in a small
public function that takes the answer as an argument and has an exact
contract (`shell_outcome`, `gathered_value`, `run_outcome`, `state_of`,
`installation_outcome`, `cancellation`, `bake_file_from`, `from_content`,
`keep_alive_step`, `save_previous`);
the functions that make the calls state what holds of every possible answer.
The trait's reply relations (`file_reply`, `exec_reply`, `env_reply`,
`input_reply`, `platform_reply`, `can_stop`) tie each answer to what was asked: by
default any answer is possible, and an implementation may narrow them.
