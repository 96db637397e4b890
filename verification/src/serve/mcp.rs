//! The decisions of the model context protocol endpoint: which JSON-RPC
//! answer a message gets, which protocol version is spoken and which tool a
//! call names.
use vstd::prelude::*;
use vstd::string::*;

verus! {

/// The newest protocol version this server speaks.
pub const LATEST: &'static str = "2025-06-18";

/// The versions that are answered with themselves, so that older clients
/// keep working.
pub open spec fn supported_version(v: Seq<char>) -> bool {
    v == "2024-11-05"@ || v == "2025-03-26"@ || v == "2025-06-18"@
}

/// The version a client gets for the one it asks for.
pub open spec fn negotiated(requested: Option<Seq<char>>) -> Seq<char> {
    match requested {
        Some(v) => if supported_version(v) {
            v
        } else {
            LATEST@
        },
        None => LATEST@,
    }
}

fn same_text(a: &str, b: &str) -> (r: bool)
    ensures
        r == (a@ == b@),
{
    a.to_owned() == b.to_owned()
}

/// Version negotiation of `initialize`: a supported version is echoed,
/// anything else (or nothing) gets [LATEST].
pub fn protocol_version<'a>(requested: Option<&'a str>) -> (r: &'a str)
    ensures
        r@ == negotiated(match requested {
            Some(v) => Some(v@),
            None => None,
        }),
{
    match requested {
        Some(v) => if same_text(v, "2024-11-05") || same_text(v, "2025-03-26") || same_text(
            v,
            "2025-06-18",
        ) {
            v
        } else {
            LATEST
        },
        None => LATEST,
    }
}

/// The JSON-RPC error code for a body that is no JSON.
pub const PARSE_ERROR: i64 = -32700;

/// The JSON-RPC error code for JSON that is no request object.
pub const INVALID_REQUEST: i64 = -32600;

/// The JSON-RPC error code for an unknown method.
pub const METHOD_NOT_FOUND: i64 = -32601;

/// How a JSON-RPC message is answered.
#[derive(PartialEq, Eq, Debug)]
pub enum McpAction {
    /// An error answer with the code and the message.
    Error(i64, String),
    /// `initialize`: the negotiated version and the server identity.
    Initialize,
    /// A notification: `202 Accepted` with no body.
    Accepted,
    /// `ping`: an empty result.
    Ping,
    /// `tools/list`: the tools.
    ListTools,
    /// `tools/call`: run the named tool.
    CallTool,
}

/// The value an [McpAction] stands for.
pub enum McpActionView {
    Error(i64, Seq<char>),
    Initialize,
    Accepted,
    Ping,
    ListTools,
    CallTool,
}

impl View for McpAction {
    type V = McpActionView;

    open spec fn view(&self) -> McpActionView {
        match self {
            McpAction::Error(c, m) => McpActionView::Error(*c, m@),
            McpAction::Initialize => McpActionView::Initialize,
            McpAction::Accepted => McpActionView::Accepted,
            McpAction::Ping => McpActionView::Ping,
            McpAction::ListTools => McpActionView::ListTools,
            McpAction::CallTool => McpActionView::CallTool,
        }
    }
}

/// How a message is answered, given whether its body is JSON, whether that
/// is an object, whether it carries an `id` (a request, not a notification)
/// and its `method` (empty when missing).
pub open spec fn mcp_answer(is_json: bool, is_object: bool, has_id: bool, method: Seq<char>) -> McpActionView {
    if !is_json {
        McpActionView::Error(PARSE_ERROR, "parse error"@)
    } else if !is_object {
        McpActionView::Error(INVALID_REQUEST, "invalid request"@)
    } else if method == "initialize"@ {
        McpActionView::Initialize
    } else if !has_id {
        McpActionView::Accepted
    } else if method == "ping"@ {
        McpActionView::Ping
    } else if method == "tools/list"@ {
        McpActionView::ListTools
    } else if method == "tools/call"@ {
        McpActionView::CallTool
    } else {
        McpActionView::Error(METHOD_NOT_FOUND, "method not found: "@ + method)
    }
}

/// Decides how a JSON-RPC message is answered.
pub fn mcp_action(is_json: bool, is_object: bool, has_id: bool, method: &str) -> (r: McpAction)
    ensures
        r@ == mcp_answer(is_json, is_object, has_id, method@),
{
    if !is_json {
        McpAction::Error(PARSE_ERROR, String::from_str("parse error"))
    } else if !is_object {
        McpAction::Error(INVALID_REQUEST, String::from_str("invalid request"))
    } else if same_text(method, "initialize") {
        McpAction::Initialize
    } else if !has_id {
        McpAction::Accepted
    } else if same_text(method, "ping") {
        McpAction::Ping
    } else if same_text(method, "tools/list") {
        McpAction::ListTools
    } else if same_text(method, "tools/call") {
        McpAction::CallTool
    } else {
        let mut m = String::from_str("method not found: ");
        m.append(method);
        McpAction::Error(METHOD_NOT_FOUND, m)
    }
}

/// The tools, in the order `tools/list` shows them.
pub open spec fn tool_list() -> Seq<Seq<char>> {
    seq!["list_tasks"@, "run_task"@, "get_output"@, "list_running"@, "kill_run"@]
}

/// The names of the tools.
pub fn tool_names() -> (r: Vec<&'static str>)
    ensures
        r@.len() == tool_list().len(),
        forall|i: int| 0 <= i < r@.len() ==> r@[i]@ == #[trigger] tool_list()[i],
{
    let r = vec!["list_tasks", "run_task", "get_output", "list_running", "kill_run"];
    assert forall|i: int| 0 <= i < r@.len() implies r@[i]@ == #[trigger] tool_list()[i] by {
        if i == 0 {
        } else if i == 1 {
        } else if i == 2 {
        } else if i == 3 {
        } else {
        }
    }
    r
}

/// A tool named by `tools/call`.
#[derive(PartialEq, Eq, Debug)]
pub enum Tool {
    ListTasks,
    RunTask,
    GetOutput,
    ListRunning,
    KillRun,
    /// No such tool: the error text.
    Unknown(String),
}

/// The value a [Tool] stands for.
pub enum ToolView {
    ListTasks,
    RunTask,
    GetOutput,
    ListRunning,
    KillRun,
    Unknown(Seq<char>),
}

impl View for Tool {
    type V = ToolView;

    open spec fn view(&self) -> ToolView {
        match self {
            Tool::ListTasks => ToolView::ListTasks,
            Tool::RunTask => ToolView::RunTask,
            Tool::GetOutput => ToolView::GetOutput,
            Tool::ListRunning => ToolView::ListRunning,
            Tool::KillRun => ToolView::KillRun,
            Tool::Unknown(m) => ToolView::Unknown(m@),
        }
    }
}

/// The tool a name stands for.
pub open spec fn tool_named(name: Seq<char>) -> ToolView {
    if name == "list_tasks"@ {
        ToolView::ListTasks
    } else if name == "run_task"@ {
        ToolView::RunTask
    } else if name == "get_output"@ {
        ToolView::GetOutput
    } else if name == "list_running"@ {
        ToolView::ListRunning
    } else if name == "kill_run"@ {
        ToolView::KillRun
    } else {
        ToolView::Unknown("unknown tool '"@ + name + "'"@)
    }
}

/// Finds the tool that `tools/call` names.
pub fn tool_for(name: &str) -> (r: Tool)
    ensures
        r@ == tool_named(name@),
{
    if same_text(name, "list_tasks") {
        Tool::ListTasks
    } else if same_text(name, "run_task") {
        Tool::RunTask
    } else if same_text(name, "get_output") {
        Tool::GetOutput
    } else if same_text(name, "list_running") {
        Tool::ListRunning
    } else if same_text(name, "kill_run") {
        Tool::KillRun
    } else {
        let mut m = String::from_str("unknown tool '");
        m.append(name);
        m.append("'");
        Tool::Unknown(m)
    }
}

} // verus!
