//! What the web app answers: access control, routing and the parameters of
//! a run.
use vstd::prelude::*;
use vstd::string::*;

use crate::serve::request::{
    eq_ignore_ascii_case, request_path, split_target, target_decodable, target_path, target_query,
    RequestHead,
};
use crate::serve::{auth_matches, basic_auth_matches, parse_urlencoded, string_from_utf8_lossy,
    url_pairs, urlencoded_decodable, lossy_text};
use crate::text::{chars_of, decimal_string, decimal_text, opt_view, parse_u64, split, u64_value};
use crate::viewmodel::capabilities::Capabilities;
use crate::viewmodel::BakeViewModel;
use crate::viewmodel::message::{Message, MessageType};
use crate::model::yaml::views;

verus! {

/// A request as the web app reads it.
pub struct Request {
    /// Upper case.
    pub method: String,
    /// Decoded, without surrounding slashes (`/` for the root).
    pub path: String,
    pub query: Option<String>,
    pub headers: Vec<(String, String)>,
    pub body: Vec<u8>,
}

/// Completes a request head with the body bytes that were read after it:
/// the body is cut to the announced length and the target split into its
/// decoded path and its query.
pub fn finish_request(head: RequestHead, body: Vec<u8>) -> (r: Request)
    requires
        target_decodable(head.target@),
    ensures
        r.method@ == head.method@,
        r.path@ == request_path(target_path(head.target@)),
        opt_view(r.query) == target_query(head.target@),
        r.headers.deep_view() == head.headers.deep_view(),
        head.content_length <= body@.len() ==> r.body@ == body@.take(head.content_length as int),
        head.content_length > body@.len() ==> r.body@ == body@,
{
    let (path, query) = split_target(head.target.as_str());
    let mut body = body;
    body.truncate(head.content_length);
    assert(head.content_length <= body@.len() ==> body@.subrange(0, head.content_length as int)
        == body@.take(head.content_length as int));
    Request { method: head.method, path, query, headers: head.headers, body }
}

/// Where `password` is set, some `Authorization` field grants access with it.
pub open spec fn grants_access(password: Option<Seq<char>>, headers: Seq<(Seq<char>, Seq<char>)>) -> bool {
    match password {
        None => true,
        Some(p) => exists|i: int|
            0 <= i < headers.len() && eq_ignore_ascii_case(#[trigger] headers[i].0, "authorization"@)
                && auth_matches(headers[i].1, p),
    }
}

/// The text of an optional string slice.
pub open spec fn str_view(o: Option<&str>) -> Option<Seq<char>> {
    match o {
        Some(s) => Some(s@),
        None => None,
    }
}

/// The request may be served: there is no password, or an `Authorization`
/// field carries it (HTTP basic auth).
pub fn authorized(password: Option<&str>, headers: &[(String, String)]) -> (r: bool)
    ensures
        r == grants_access(str_view(password), headers.deep_view()),
{
    let p = match password {
        None => {
            return true;
        },
        Some(p) => p,
    };
    let ghost hs = headers.deep_view();
    let mut i: usize = 0;
    while i < headers.len()
        invariant
            i <= headers.len(),
            hs == headers.deep_view(),
            password == Some(p),
            forall|j: int|
                0 <= j < i ==> !(eq_ignore_ascii_case(#[trigger] hs[j].0, "authorization"@)
                    && auth_matches(hs[j].1, p@)),
        decreases headers.len() - i,
    {
        let name = chars_of(headers[i].0.as_str());
        assert(hs[i as int].0 == name@);
        assert(hs[i as int].1 == headers[i as int].1@);
        if is_authorization(&name) && basic_auth_matches(headers[i].1.as_str(), p) {
            assert(eq_ignore_ascii_case(hs[i as int].0, "authorization"@));
            assert(auth_matches(hs[i as int].1, p@));
            return true;
        }
        i = i + 1;
    }
    false
}

fn is_authorization(name: &Vec<char>) -> (r: bool)
    ensures
        r == eq_ignore_ascii_case(name@, "authorization"@),
{
    crate::serve::request::same_ignoring_case(name, "authorization")
}

/// The password setting: an empty value means no password.
pub fn password_setting(value: Option<String>) -> (r: Option<String>)
    ensures
        opt_view(r) == match opt_view(value) {
            Some(v) => if v.len() == 0 {
                None
            } else {
                Some(v)
            },
            None => None,
        },
{
    match value {
        Some(v) => if v.unicode_len() == 0 {
            None
        } else {
            Some(v)
        },
        None => None,
    }
}

/// What a request asks for.
pub enum Route {
    /// `GET /` from a browser: the page that lists the tasks.
    IndexPage,
    /// `GET /` otherwise: the tasks as JSON.
    TaskList,
    /// `GET /running`: the runs in progress as JSON.
    Running,
    /// `DELETE /running/{id}`: stop that run.
    Kill(u64),
    /// `GET /{task}` from a browser: the page of the task.
    TaskPage,
    /// `GET /{task}` otherwise: the task as JSON.
    TaskInfo,
    /// `POST /{task}`: run the task.
    Run,
    /// A plain-text answer with its status.
    Text(u16, String),
}

/// The value a [Route] stands for.
pub enum RouteView {
    IndexPage,
    TaskList,
    Running,
    Kill(u64),
    TaskPage,
    TaskInfo,
    Run,
    Text(u16, Seq<char>),
}

impl View for Route {
    type V = RouteView;

    open spec fn view(&self) -> RouteView {
        match self {
            Route::IndexPage => RouteView::IndexPage,
            Route::TaskList => RouteView::TaskList,
            Route::Running => RouteView::Running,
            Route::Kill(id) => RouteView::Kill(*id),
            Route::TaskPage => RouteView::TaskPage,
            Route::TaskInfo => RouteView::TaskInfo,
            Route::Run => RouteView::Run,
            Route::Text(s, t) => RouteView::Text(*s, t@),
        }
    }
}

/// The answer when a task is missing.
pub open spec fn msg_no_task(name: Seq<char>) -> Seq<char> {
    "task '"@ + name + "' not found"@
}

/// The run id in a `running/{id}` path.
pub open spec fn kill_id(path: Seq<char>) -> Option<nat> {
    if path.len() >= 8 && path.take(8) == "running/"@ {
        u64_value(path.skip(8))
    } else {
        None
    }
}

/// What `method path` asks for, where `html` tells that the client wants
/// HTML and `has_task` that the bakefile has a task named `path`.
pub open spec fn route_of(method: Seq<char>, path: Seq<char>, html: bool, has_task: bool) -> RouteView {
    if method == "GET"@ && path == "/"@ {
        if html {
            RouteView::IndexPage
        } else {
            RouteView::TaskList
        }
    } else if method == "GET"@ && path == "running"@ {
        RouteView::Running
    } else if method == "DELETE"@ {
        match kill_id(path) {
            Some(id) => RouteView::Kill(id as u64),
            None => RouteView::Text(400, "expected /running/{id}"@),
        }
    } else if method == "GET"@ {
        if !has_task {
            RouteView::Text(404, msg_no_task(path))
        } else if html {
            RouteView::TaskPage
        } else {
            RouteView::TaskInfo
        }
    } else if method == "POST"@ {
        if has_task {
            RouteView::Run
        } else {
            RouteView::Text(404, msg_no_task(path))
        }
    } else {
        RouteView::Text(405, "method not allowed"@)
    }
}

fn same_text(a: &str, b: &str) -> (r: bool)
    ensures
        r == (a@ == b@),
{
    a.to_owned() == b.to_owned()
}

/// The run id of a `running/{id}` path.
fn parse_kill_id(path: &str) -> (r: Option<u64>)
    ensures
        match kill_id(path@) {
            Some(id) => r == Some(id as u64),
            None => r is None,
        },
{
    let v = chars_of(path);
    if v.len() < 8 {
        return None;
    }
    let head = crate::text::string_from(crate::serve::sub_chars(&v, 0, 8).as_slice());
    assert(v@.subrange(0, 8) == v@.take(8));
    if !same_text(head.as_str(), "running/") {
        return None;
    }
    let rest = crate::text::string_from(crate::serve::sub_chars(&v, 8, v.len()).as_slice());
    assert(v@.subrange(8, v@.len() as int) == v@.skip(8));
    parse_u64(rest.as_str())
}

/// The answer when a task is missing.
fn no_task(name: &str) -> (r: String)
    ensures
        r@ == msg_no_task(name@),
{
    let mut m = String::from_str("task '");
    m.append(name);
    m.append("' not found");
    m
}

/// Decides what a request asks for.
pub fn route<C: Capabilities>(method: &str, path: &str, html: bool, bake: &BakeViewModel<C>) -> (r: Route)
    ensures
        r@ == route_of(method@, path@, html, bake.task_named(path@) is Some),
{
    let has_task = bake.get_task(path).is_some();
    if same_text(method, "GET") && same_text(path, "/") {
        if html {
            Route::IndexPage
        } else {
            Route::TaskList
        }
    } else if same_text(method, "GET") && same_text(path, "running") {
        Route::Running
    } else if same_text(method, "DELETE") {
        match parse_kill_id(path) {
            Some(id) => Route::Kill(id),
            None => Route::Text(400, String::from_str("expected /running/{id}")),
        }
    } else if same_text(method, "GET") {
        if !has_task {
            Route::Text(404, no_task(path))
        } else if html {
            Route::TaskPage
        } else {
            Route::TaskInfo
        }
    } else if same_text(method, "POST") {
        if has_task {
            Route::Run
        } else {
            Route::Text(404, no_task(path))
        }
    } else {
        Route::Text(405, String::from_str("method not allowed"))
    }
}

/// The answer to `DELETE /running/{id}`, given whether a run was stopped.
pub fn kill_reply(id: u64, killed: bool) -> (r: (u16, String))
    ensures
        killed ==> r.0 == 200 && r.1@ == "killed"@,
        !killed ==> r.0 == 404 && r.1@ == "no running task with id "@ + decimal_text(id as nat),
{
    if killed {
        (200, String::from_str("killed"))
    } else {
        let mut m = String::from_str("no running task with id ");
        m.append(decimal_string(id as u128).as_str());
        (404, m)
    }
}

/// The query and the body of a run request can be decoded.
pub open spec fn params_decodable(query: Option<Seq<char>>, body: Seq<u8>) -> bool {
    (match query {
        Some(q) => urlencoded_decodable(q),
        None => true,
    }) && urlencoded_decodable(lossy_text(body))
}

/// The parameters of a run: those of the query, then those of the form body.
pub open spec fn run_params(query: Option<Seq<char>>, body: Seq<u8>) -> Seq<(Seq<char>, Seq<char>)> {
    (match query {
        Some(q) => url_pairs(split(q, '&')),
        None => Seq::empty(),
    }) + url_pairs(split(lossy_text(body), '&'))
}

/// Whether [request_params] can decode the query and the body.
pub fn are_params_decodable(query: &Option<String>, body: &[u8]) -> (r: bool)
    ensures
        r == params_decodable(opt_view(*query), body@),
{
    let q_ok = match query {
        Some(q) => crate::serve::urlencoded_is_decodable(q.as_str()),
        None => true,
    };
    let text = string_from_utf8_lossy(body);
    q_ok && crate::serve::urlencoded_is_decodable(text.as_str())
}

/// The parameters of a run request, from the query and the form body.
pub fn request_params(query: &Option<String>, body: &[u8]) -> (r: Vec<(String, String)>)
    requires
        params_decodable(opt_view(*query), body@),
    ensures
        r.deep_view() == run_params(opt_view(*query), body@),
{
    let mut params = match query {
        Some(q) => parse_urlencoded(q.as_str()),
        None => Vec::new(),
    };
    let text = string_from_utf8_lossy(body);
    let mut more = parse_urlencoded(text.as_str());
    let ghost a = params.deep_view();
    let ghost b = more.deep_view();
    params.append(&mut more);
    assert(params.deep_view() =~= a + b);
    params
}

} // verus!

verus! {

/// The variables that a run of `task_name` requested over the web clears
/// before the request's own values are set: those of the task's parameters,
/// in order (none where there is no task of that name).
pub fn cleared_variables<C: Capabilities>(bake: &BakeViewModel<C>, task_name: &str) -> (r: Vec<String>)
    ensures
        match bake.task_named(task_name@) {
            Some(t) => r.deep_view() == t.param_views().map_values(|p: crate::model::param::ParamView| p.name),
            None => r.len() == 0,
        },
{
    let mut names: Vec<String> = Vec::new();
    if let Some(task) = bake.get_task(task_name) {
        let ps = task.params();
        let mut i: usize = 0;
        while i < ps.len()
            invariant
                i <= ps.len(),
                views(ps@) == task.param_views(),
                names.deep_view() == task.param_views().take(i as int).map_values(
                    |p: crate::model::param::ParamView| p.name,
                ),
            decreases ps.len() - i,
        {
            let ghost before = names.deep_view();
            names.push(ps[i].name().to_owned());
            proof {
                assert(views(ps@)[i as int] == ps@[i as int]@);
                assert(names.deep_view() =~= before.push(ps@[i as int]@.name));
                assert(task.param_views().take(i + 1).map_values(|p: crate::model::param::ParamView| p.name)
                    =~= task.param_views().take(i as int).map_values(|p: crate::model::param::ParamView| p.name).push(
                    ps@[i as int]@.name,
                ));
            }
            i = i + 1;
        }
        assert(task.param_views().take(ps@.len() as int) =~= task.param_views());
    }
    names
}

/// A change to the environment.
pub enum EnvChange {
    /// Removes the variable.
    Remove(String),
    /// Sets the variable to the value.
    Assign(String, String),
}

/// The value an [EnvChange] stands for.
pub enum EnvChangeView {
    Remove(Seq<char>),
    Assign(Seq<char>, Seq<char>),
}

impl View for EnvChange {
    type V = EnvChangeView;

    open spec fn view(&self) -> EnvChangeView {
        match self {
            EnvChange::Remove(n) => EnvChangeView::Remove(n@),
            EnvChange::Assign(n, v) => EnvChangeView::Assign(n@, v@),
        }
    }
}

/// The values of a list of changes.
pub open spec fn change_views(cs: Seq<EnvChange>) -> Seq<EnvChangeView> {
    cs.map_values(|c: EnvChange| c@)
}

/// What an environment holds after the changes, made in order.
pub open spec fn env_after(env: Map<Seq<char>, Seq<char>>, cs: Seq<EnvChangeView>) -> Map<
    Seq<char>,
    Seq<char>,
>
    decreases cs.len(),
{
    if cs.len() == 0 {
        env
    } else {
        let e = env_after(env, cs.drop_last());
        match cs.last() {
            EnvChangeView::Remove(n) => e.remove(n),
            EnvChangeView::Assign(n, v) => e.insert(n, v),
        }
    }
}

/// The value of the variable `n` in an environment, if it has one.
pub open spec fn value_of(env: Map<Seq<char>, Seq<char>>, n: Seq<char>) -> Option<Seq<char>> {
    if env.dom().contains(n) {
        Some(env[n])
    } else {
        None
    }
}

/// The value given last for `n` among `params`.
pub open spec fn last_given(params: Seq<(Seq<char>, Seq<char>)>, n: Seq<char>) -> Option<Seq<char>>
    decreases params.len(),
{
    if params.len() == 0 {
        None
    } else if params.last().0 == n {
        Some(params.last().1)
    } else {
        last_given(params.drop_last(), n)
    }
}

/// The changes that prepare a web run: the variables `names` are removed,
/// then the request's parameters set, in order.
pub open spec fn web_run_changes(names: Seq<Seq<char>>, params: Seq<(Seq<char>, Seq<char>)>) -> Seq<
    EnvChangeView,
> {
    names.map_values(|n: Seq<char>| EnvChangeView::Remove(n)) + params.map_values(
        |p: (Seq<char>, Seq<char>)| EnvChangeView::Assign(p.0, p.1),
    )
}

proof fn lemma_env_after_concat(env: Map<Seq<char>, Seq<char>>, a: Seq<EnvChangeView>, b: Seq<EnvChangeView>)
    ensures
        env_after(env, a + b) == env_after(env_after(env, a), b),
    decreases b.len(),
{
    if b.len() == 0 {
        assert(a + b =~= a);
    } else {
        assert((a + b).drop_last() =~= a + b.drop_last());
        lemma_env_after_concat(env, a, b.drop_last());
    }
}

proof fn lemma_removals(env: Map<Seq<char>, Seq<char>>, names: Seq<Seq<char>>, n: Seq<char>)
    ensures
        value_of(env_after(env, names.map_values(|x: Seq<char>| EnvChangeView::Remove(x))), n) == if names.contains(n) {
            None
        } else {
            value_of(env, n)
        },
    decreases names.len(),
{
    let cs = names.map_values(|x: Seq<char>| EnvChangeView::Remove(x));
    if names.len() > 0 {
        assert(cs.drop_last() =~= names.drop_last().map_values(|x: Seq<char>| EnvChangeView::Remove(x)));
        lemma_removals(env, names.drop_last(), n);
        assert(names.contains(n) <==> (names.drop_last().contains(n) || names.last() == n)) by {
            if names.contains(n) {
                let i = choose|i: int| 0 <= i < names.len() && names[i] == n;
                if i < names.len() - 1 {
                    assert(names.drop_last()[i] == n);
                }
            }
            if names.drop_last().contains(n) {
                let i = choose|i: int| 0 <= i < names.drop_last().len() && names.drop_last()[i] == n;
                assert(names[i] == n);
            }
            if names.last() == n {
                assert(names[names.len() - 1] == n);
            }
        }
    } else {
        assert(!names.contains(n));
    }
}

proof fn lemma_settings(env: Map<Seq<char>, Seq<char>>, params: Seq<(Seq<char>, Seq<char>)>, n: Seq<char>)
    ensures
        value_of(
            env_after(env, params.map_values(|p: (Seq<char>, Seq<char>)| EnvChangeView::Assign(p.0, p.1))),
            n,
        ) == match last_given(params, n) {
            Some(v) => Some(v),
            None => value_of(env, n),
        },
    decreases params.len(),
{
    let cs = params.map_values(|p: (Seq<char>, Seq<char>)| EnvChangeView::Assign(p.0, p.1));
    if params.len() > 0 {
        assert(cs.drop_last() =~= params.drop_last().map_values(
            |p: (Seq<char>, Seq<char>)| EnvChangeView::Assign(p.0, p.1),
        ));
        lemma_settings(env, params.drop_last(), n);
    }
}

/// After the changes that prepare a web run, each variable that the request
/// gives holds the value the request gave last for it; each other variable
/// of the task's parameters is gone; every other variable keeps its value.
pub proof fn web_run_environment(
    names: Seq<Seq<char>>,
    params: Seq<(Seq<char>, Seq<char>)>,
    env: Map<Seq<char>, Seq<char>>,
    n: Seq<char>,
)
    ensures
        value_of(env_after(env, web_run_changes(names, params)), n) == match last_given(params, n) {
            Some(v) => Some(v),
            None => if names.contains(n) {
                None
            } else {
                value_of(env, n)
            },
        },
{
    let rs = names.map_values(|x: Seq<char>| EnvChangeView::Remove(x));
    let ss = params.map_values(|p: (Seq<char>, Seq<char>)| EnvChangeView::Assign(p.0, p.1));
    lemma_env_after_concat(env, rs, ss);
    lemma_removals(env, names, n);
    lemma_settings(env_after(env, rs), params, n);
}

/// The changes that prepare a run of `task_name` requested over the web
/// with `params` (see [web_run_changes] and [web_run_environment]): the
/// variables of the task's parameters are removed, since each request brings
/// its own values, and then the request's parameters are set.
pub fn run_env_changes<C: Capabilities>(
    bake: &BakeViewModel<C>,
    task_name: &str,
    params: &[(String, String)],
) -> (r: Vec<EnvChange>)
    ensures
        exists|names: Seq<Seq<char>>|
            #[trigger] web_run_changes(names, params.deep_view()) == change_views(r@) && match bake.task_named(
                task_name@,
            ) {
                Some(t) => names == t.param_views().map_values(|p: crate::model::param::ParamView| p.name),
                None => names.len() == 0,
            },
{
    let cleared = cleared_variables(bake, task_name);
    let mut r: Vec<EnvChange> = Vec::new();
    let mut i: usize = 0;
    while i < cleared.len()
        invariant
            i <= cleared@.len(),
            change_views(r@) == cleared.deep_view().take(i as int).map_values(|n: Seq<char>| EnvChangeView::Remove(n)),
        decreases cleared.len() - i,
    {
        let ghost before = change_views(r@);
        r.push(EnvChange::Remove(cleared[i].clone()));
        proof {
            assert(change_views(r@) =~= before.push(EnvChangeView::Remove(cleared@[i as int]@)));
            assert(cleared.deep_view().take(i + 1) =~= cleared.deep_view().take(i as int).push(cleared@[i as int]@));
        }
        i = i + 1;
    }
    assert(cleared.deep_view().take(cleared@.len() as int) =~= cleared.deep_view());
    let ghost removed = change_views(r@);
    let mut k: usize = 0;
    while k < params.len()
        invariant
            k <= params@.len(),
            change_views(r@) == removed + params.deep_view().take(k as int).map_values(
                |p: (Seq<char>, Seq<char>)| EnvChangeView::Assign(p.0, p.1),
            ),
        decreases params.len() - k,
    {
        let ghost before = change_views(r@);
        r.push(EnvChange::Assign(params[k].0.clone(), params[k].1.clone()));
        proof {
            assert(change_views(r@) =~= before.push(EnvChangeView::Assign(params@[k as int].0@, params@[k as int].1@)));
            assert(params.deep_view().take(k + 1) =~= params.deep_view().take(k as int).push(
                (params@[k as int].0@, params@[k as int].1@),
            ));
            assert(change_views(r@) =~= removed + params.deep_view().take(k + 1).map_values(
                |p: (Seq<char>, Seq<char>)| EnvChangeView::Assign(p.0, p.1),
            ));
        }
        k = k + 1;
    }
    assert(params.deep_view().take(params@.len() as int) =~= params.deep_view());
    assert(web_run_changes(cleared.deep_view(), params.deep_view()) == change_views(r@));
    r
}

/// Prepares the environment for a run requested over the web: makes the
/// changes of [run_env_changes] through the capabilities, in order.
pub fn apply_run_params<C: Capabilities>(
    caps: &C,
    bake: &BakeViewModel<C>,
    task_name: &str,
    params: &[(String, String)],
) {
    let changes = run_env_changes(bake, task_name, params);
    let mut i: usize = 0;
    while i < changes.len()
        decreases changes.len() - i,
    {
        match &changes[i] {
            EnvChange::Remove(n) => caps.remove_env(n.as_str()),
            EnvChange::Assign(n, v) => caps.set_env(n.as_str(), v.as_str()),
        }
        i = i + 1;
    }
}

} // verus!

verus! {

/// The messages that close a run requested over the web that failed: where
/// it was killed, a warning that says so; else its error and a note that the
/// task failed to run.
pub fn failed_run_messages(task_name: &str, error: &str, killed: bool) -> (r: Vec<Message>)
    ensures
        killed ==> r@.len() == 1 && r@[0].kind() == MessageType::Warning && r@[0].text() == "Task '"@
            + task_name@ + "' killed\n"@,
        !killed ==> r@.len() == 2 && r@[0].kind() == MessageType::Error && r@[0].text() == error@ + "\n"@
            && r@[1].kind() == MessageType::Error && r@[1].text() == "Task '"@ + task_name@
            + "' failed to run\n"@,
{
    let mut r: Vec<Message> = Vec::new();
    if killed {
        let mut m = String::from_str("Task '");
        m.append(task_name);
        m.append("' killed\n");
        r.push(Message::warning(m));
    } else {
        let mut e = error.to_owned();
        e.append("\n");
        r.push(Message::error(e));
        let mut m = String::from_str("Task '");
        m.append(task_name);
        m.append("' failed to run\n");
        r.push(Message::error(m));
    }
    r
}

} // verus!
