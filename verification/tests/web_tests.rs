use std::rc::Rc;

use bake::model::command::Command;
use bake::serve::mcp::{
    mcp_action, protocol_version, tool_for, tool_names, McpAction, Tool, LATEST,
};
use bake::serve::pages::{index_page, page, task_page, RUNNING_WIDGET, STYLE, TASK_SCRIPT};
use bake::serve::request::{is_target_decodable, parse_request_head, split_target, MAX_BODY};
use bake::serve::route::{
    are_params_decodable, authorized, failed_run_messages, finish_request, kill_reply, password_setting,
    request_params, route, Route,
};
use bake::serve::{command_string, html_escape};
use bake::util::platform_specific::Platform;
use bake::viewmodel::capabilities::Capabilities;
use bake::viewmodel::message::Message;
use bake::viewmodel::BakeViewModel;

struct Files {
    bakefile: Option<String>,
}

impl Capabilities for Files {
    fn read_file(&self, file_name: &str) -> Option<String> {
        if file_name == "bakefile.yaml" {
            self.bakefile.clone()
        } else {
            None
        }
    }

    fn execute(&self, _: &str, _: Option<&str>) -> bool {
        true
    }

    fn open_link(&self, _: &str) {}

    fn message(&self, _: Message) {}

    fn input(&self) -> Option<String> {
        None
    }

    fn set_env(&self, _: &str, _: &str) {}

    fn get_env(&self, _: &str) -> Option<String> {
        None
    }

    fn remove_env(&self, _: &str) {}

    fn platform(&self) -> Platform {
        Platform::Linux
    }
}

const BAKEFILE: &str = "
tasks:
  - name: build
    help_msg: compiles <everything>
    envs:
      - name: MODE
    commands:
      - cargo build
      - '@this.clean --force yes'
  - name: clean
    commands: [ rm -rf target ]
";

fn bake() -> BakeViewModel<Files> {
    BakeViewModel::new(Rc::new(Files { bakefile: Some(BAKEFILE.to_string()) })).unwrap()
}

fn encode_std_base64(input: &str) -> String {
    const CHARS: &[u8] = b"ABCDEFGHIJKLMNOPQRSTUVWXYZabcdefghijklmnopqrstuvwxyz0123456789+/";
    let mut out = String::new();
    for chunk in input.as_bytes().chunks(3) {
        let mut acc: u32 = 0;
        for &b in chunk {
            acc = (acc << 8) | b as u32;
        }
        let n = chunk.len();
        acc <<= 8 * (3 - n);
        for i in 0..4 {
            if i <= n {
                out.push(CHARS[(acc >> (18 - 6 * i)) as usize & 63] as char);
            } else {
                out.push('=');
            }
        }
    }
    out
}

#[test]
fn request_head_is_read() {
    let head = b"post /build?MODE=fast HTTP/1.1\r\nHost: localhost\r\ncontent-LENGTH: 12\r\nExpect:  100-Continue \r\nbroken line\r\nX-A: b:c";
    let h = parse_request_head(head).unwrap();
    assert_eq!(h.method, "POST");
    assert_eq!(h.target, "/build?MODE=fast");
    assert_eq!(
        h.headers,
        vec![
            ("Host".to_string(), "localhost".to_string()),
            ("content-LENGTH".to_string(), "12".to_string()),
            ("Expect".to_string(), "100-Continue".to_string()),
            ("X-A".to_string(), "b:c".to_string()),
        ]
    );
    assert_eq!(h.content_length, 12);
    assert!(h.expect_continue);
}

#[test]
fn request_head_errors() {
    assert_eq!(
        parse_request_head(b"GET\r\nHost: x").err(),
        Some("malformed request line".to_string())
    );
    assert_eq!(
        parse_request_head(b"").err(),
        Some("malformed request line".to_string())
    );
    let big = format!("POST /x HTTP/1.1\r\nContent-Length: {}", MAX_BODY + 1);
    assert_eq!(
        parse_request_head(big.as_bytes()).err(),
        Some("request body too large".to_string())
    );
    let exact = format!("POST /x HTTP/1.1\r\nContent-Length: {}", MAX_BODY);
    assert_eq!(parse_request_head(exact.as_bytes()).unwrap().content_length, MAX_BODY);
}

#[test]
fn content_length_last_wins_and_bad_is_zero() {
    let h = parse_request_head(b"GET / HTTP/1.1\r\nContent-Length: 5\r\nContent-Length: x").unwrap();
    assert_eq!(h.content_length, 0);
    let h = parse_request_head(b"GET / HTTP/1.1\r\nContent-Length: x\r\nContent-Length: +7").unwrap();
    assert_eq!(h.content_length, 7);
    assert!(!h.expect_continue);
}

#[test]
fn lone_line_feeds_do_not_split_lines() {
    let h = parse_request_head(b"GET /a\nB: c HTTP/1.1").unwrap();
    assert_eq!(h.target, "/a");
    assert!(h.headers.is_empty());
}

#[test]
fn targets_are_split_and_decoded() {
    assert_eq!(split_target("/"), ("/".to_string(), None));
    assert_eq!(split_target("/?a=1"), ("/".to_string(), Some("a=1".to_string())));
    assert_eq!(split_target("//build//"), ("build".to_string(), None));
    assert_eq!(
        split_target("/my%20task?x=%41?y"),
        ("my task".to_string(), Some("x=%41?y".to_string()))
    );
    assert_eq!(split_target("/running/3"), ("running/3".to_string(), None));
    assert!(is_target_decodable("/a%20b"));
    assert!(is_target_decodable("/%41é"));
    assert!(!is_target_decodable("/%4é"));
}

#[test]
fn requests_are_completed_with_their_body() {
    let h = parse_request_head(b"POST /build?A=1 HTTP/1.1\r\nContent-Length: 3").unwrap();
    let r = finish_request(h, b"B=22".to_vec());
    assert_eq!(r.method, "POST");
    assert_eq!(r.path, "build");
    assert_eq!(r.query, Some("A=1".to_string()));
    assert_eq!(r.body, b"B=2".to_vec());
    let h = parse_request_head(b"POST /build HTTP/1.1\r\nContent-Length: 10").unwrap();
    assert_eq!(finish_request(h, b"short".to_vec()).body, b"short".to_vec());
}

#[test]
fn access_needs_the_password_when_one_is_set() {
    let good = format!("Basic {}", encode_std_base64("me:pw"));
    let headers = vec![
        ("Host".to_string(), "x".to_string()),
        ("AUTHORIZATION".to_string(), good),
    ];
    assert!(authorized(None, &[]));
    assert!(authorized(Some("pw"), &headers));
    assert!(!authorized(Some("other"), &headers));
    assert!(!authorized(Some("pw"), &headers[..1]));
    assert_eq!(password_setting(None), None);
    assert_eq!(password_setting(Some(String::new())), None);
    assert_eq!(password_setting(Some("s".to_string())), Some("s".to_string()));
}

#[test]
fn routes() {
    let b = bake();
    assert!(matches!(route("GET", "/", true, &b), Route::IndexPage));
    assert!(matches!(route("GET", "/", false, &b), Route::TaskList));
    assert!(matches!(route("GET", "running", false, &b), Route::Running));
    assert!(matches!(route("DELETE", "running/42", false, &b), Route::Kill(42)));
    match route("DELETE", "running/x", false, &b) {
        Route::Text(400, t) => assert_eq!(t, "expected /running/{id}"),
        _ => panic!("expected a 400"),
    }
    match route("DELETE", "build", false, &b) {
        Route::Text(400, _) => {}
        _ => panic!("expected a 400"),
    }
    assert!(matches!(route("GET", "build", true, &b), Route::TaskPage));
    assert!(matches!(route("GET", "build", false, &b), Route::TaskInfo));
    assert!(matches!(route("POST", "clean", false, &b), Route::Run));
    match route("GET", "nope", false, &b) {
        Route::Text(404, t) => assert_eq!(t, "task 'nope' not found"),
        _ => panic!("expected a 404"),
    }
    match route("POST", "nope", true, &b) {
        Route::Text(404, t) => assert_eq!(t, "task 'nope' not found"),
        _ => panic!("expected a 404"),
    }
    match route("PUT", "build", false, &b) {
        Route::Text(405, t) => assert_eq!(t, "method not allowed"),
        _ => panic!("expected a 405"),
    }
}

#[test]
fn kill_replies() {
    assert_eq!(kill_reply(3, true), (200, "killed".to_string()));
    assert_eq!(kill_reply(17, false), (404, "no running task with id 17".to_string()));
}

#[test]
fn run_params_come_from_query_then_body() {
    let q = Some("A=1&B=x+y".to_string());
    assert!(are_params_decodable(&q, b"C=%33"));
    assert_eq!(
        request_params(&q, b"C=%33&&D"),
        vec![
            ("A".to_string(), "1".to_string()),
            ("B".to_string(), "x y".to_string()),
            ("C".to_string(), "3".to_string()),
            ("D".to_string(), String::new()),
        ]
    );
    assert_eq!(request_params(&None, b""), Vec::<(String, String)>::new());
    assert!(are_params_decodable(&Some("%é1".to_string()), b""));
    assert!(!are_params_decodable(&Some("%aé".to_string()), b""));
    assert!(!are_params_decodable(&None, "x=%aé".as_bytes()));
}

#[test]
fn pages_are_built() {
    let expected = format!(
        "<!doctype html><html><head><meta charset=\"utf-8\"><title>{}</title><style>{}</style></head><body>{}</body></html>",
        "a&amp;b", STYLE, "<p>x</p>"
    );
    assert_eq!(page("a&b", "<p>x</p>"), expected);
}

#[test]
fn index_page_is_built() {
    let b = bake();
    let items = "<li><a href=\"/build\">▶ build</a><span class=\"help\">compiles &lt;everything&gt;</span></li><li><a href=\"/clean\">▶ clean</a><span class=\"help\"></span></li>";
    let index = page("bake", &format!("<h1>▶ Bake</h1>{RUNNING_WIDGET}<ul>{items}</ul>"));
    assert_eq!(index_page(&b), index);
}

#[test]
fn task_page_is_built() {
    let b = bake();
    let task = b.get_task("build").unwrap();
    let inputs = "<label>MODE<input name=\"MODE\" placeholder=\"MODE\" value=\"\"></label>";
    let content = format!(
        "<a href=\"/\">← back</a><h1>build</h1><p class=\"help\">compiles &lt;everything&gt;</p><form id=\"f\">{inputs}<button>Run</button></form><button id=\"kill\" class=\"kill\" hidden>Kill</button><pre id=\"out\" hidden></pre>{RUNNING_WIDGET}{TASK_SCRIPT}"
    );
    let got = task_page(task);
    let want = page("build", &content);
    let k = got.chars().zip(want.chars()).position(|(x, y)| x != y);
    assert!(k.is_none() && got.len() == want.len(), "at {:?}: {:?}", k, got.chars().skip(k.unwrap_or(0).saturating_sub(20)).take(60).collect::<String>());
    assert!(TASK_SCRIPT.starts_with("\n<script>\nconst out="));
    assert!(TASK_SCRIPT.contains("{method:'POST',body}"));
}

#[test]
fn commands_are_written_back() {
    let b = bake();
    let cmds = b.get_task("build").unwrap().commands().unwrap();
    let texts: Vec<String> = cmds.iter().map(command_string).collect();
    assert_eq!(texts, vec!["cargo build".to_string(), "@this.clean --force yes".to_string()]);
    assert_eq!(
        command_string(&Command::ShellCommand("ls".to_string())),
        "ls"
    );
}

#[test]
fn escaped_html_is_inert() {
    let e = html_escape("<script>alert(\"x\")</script>");
    assert!(!e.contains('<') && !e.contains('>') && !e.contains('"'));
}

#[test]
fn initialize_test() {
    assert_eq!(protocol_version(Some("2025-06-18")), "2025-06-18");
    assert_eq!(mcp_action(true, true, true, "initialize"), McpAction::Initialize);
}

#[test]
fn initialize_old_version_test() {
    assert_eq!(protocol_version(Some("2024-11-05")), "2024-11-05");
    assert_eq!(protocol_version(Some("2025-03-26")), "2025-03-26");
}

#[test]
fn initialize_future_version_test() {
    assert_eq!(protocol_version(Some("2999-01-01")), LATEST);
    assert_eq!(protocol_version(None), LATEST);
}

#[test]
fn parse_error_test() {
    assert_eq!(
        mcp_action(false, false, false, ""),
        McpAction::Error(-32700, "parse error".to_string())
    );
}

#[test]
fn invalid_request_test() {
    assert_eq!(
        mcp_action(true, false, false, ""),
        McpAction::Error(-32600, "invalid request".to_string())
    );
}

#[test]
fn notification_returns_202_test() {
    assert_eq!(
        mcp_action(true, true, false, "notifications/initialized"),
        McpAction::Accepted
    );
    assert_eq!(mcp_action(true, true, false, "initialize"), McpAction::Initialize);
}

#[test]
fn ping_test() {
    assert_eq!(mcp_action(true, true, true, "ping"), McpAction::Ping);
}

#[test]
fn method_not_found_test() {
    assert_eq!(
        mcp_action(true, true, true, "resources/read"),
        McpAction::Error(-32601, "method not found: resources/read".to_string())
    );
}

#[test]
fn tools_list_test() {
    assert_eq!(mcp_action(true, true, true, "tools/list"), McpAction::ListTools);
    assert_eq!(
        tool_names(),
        vec!["list_tasks", "run_task", "get_output", "list_running", "kill_run"]
    );
    assert_eq!(mcp_action(true, true, true, "tools/call"), McpAction::CallTool);
}

#[test]
fn unknown_tool_is_error_result_test() {
    match tool_for("nope") {
        Tool::Unknown(m) => assert!(m.contains("unknown tool")),
        _ => panic!("expected an unknown tool"),
    }
    assert_eq!(tool_for("kill_run"), Tool::KillRun);
    assert_eq!(tool_for("list_running"), Tool::ListRunning);
    assert_eq!(tool_for("run_task"), Tool::RunTask);
    assert_eq!(tool_for("get_output"), Tool::GetOutput);
    assert_eq!(tool_for("list_tasks"), Tool::ListTasks);
}

#[test]
fn a_failed_web_run_says_whether_it_was_killed() {
    let killed = failed_run_messages("build", "boom", true);
    assert_eq!(killed.len(), 1);
    assert_eq!(killed[0].content(), "Task 'build' killed\n");
    let failed = failed_run_messages("build", "boom", false);
    assert_eq!(failed.len(), 2);
    assert_eq!(failed[0].content(), "boom\n");
    assert_eq!(failed[1].content(), "Task 'build' failed to run\n");
}
