//! The pages of the web app.
use vstd::prelude::*;
use vstd::string::*;

use crate::model::param::ParamView;
use crate::model::task::TaskView;
use crate::serve::{html_escape, html_escaped};
use crate::viewmodel::capabilities::Capabilities;
use crate::viewmodel::task_viewmodel::{task_models, TaskViewModel};
use crate::viewmodel::BakeViewModel;

verus! {

/// The style sheet of every page.
pub const STYLE: &'static str = "\nbody{font-family:system-ui,sans-serif;max-width:720px;margin:2rem auto;padding:0 1rem;background:#141414;color:#eee}\na{color:#ffd54f;text-decoration:none;font-weight:600;font-size:1.05rem}\nul{padding:0}li{margin:.6rem 0;list-style:none;padding:.7rem 1rem;border:1px solid #333;border-radius:8px}\n.help{display:block;color:#9e9e9e;font-size:.85rem;margin-top:.25rem}\nlabel{display:block;margin:.5rem 0;color:#bbb;font-size:.85rem}\ninput,button{font-size:1rem;padding:.45rem .7rem;border-radius:6px;border:1px solid #444;background:#1c1c1c;color:#eee;width:100%;box-sizing:border-box;margin-top:.2rem}\nbutton{background:#ffd54f;color:#000;font-weight:700;border:none;cursor:pointer;margin-top:1rem}\npre{background:#000;border:1px solid #333;border-radius:8px;padding:1rem;min-height:3rem;white-space:pre-wrap;word-break:break-word;margin-top:1rem;overflow:auto;max-height:70vh}\nh2{margin-top:2rem;font-size:1.05rem;color:#ffd54f}\nli.running{display:flex;align-items:center;gap:.8rem;border-color:#ffd54f}\nli.running .name{flex:0 0 auto}\n.elapsed{color:#9e9e9e;font-size:.85rem;flex:1;text-align:right;margin-left:auto}\nbutton.kill{background:#e53935;color:#fff;width:auto;margin:0;padding:.25rem .8rem;font-size:.85rem;cursor:pointer}\n";

/// The live list of running tasks with their kill buttons: it polls
/// `GET /running` and stops a run with `DELETE /running/{id}`.
pub const RUNNING_WIDGET: &'static str = "<div id=\"running\"></div>\n<script>\nconst esc=s=>s.replace(/[&<>\"]/g,c=>({'&':'&amp;','<':'&lt;','>':'&gt;','\"':'&quot;'}[c]));\nfunction killRun(id){fetch('/running/'+id,{method:'DELETE'}).then(refreshRunning);}\nasync function refreshRunning(){\n  try{\n    const res=await fetch('/running');\n    if(!res.ok)return;\n    const {running}=await res.json();\n    const el=document.getElementById('running');\n    if(!running.length){el.innerHTML='';return;}\n    el.innerHTML='<h2>Running now</h2><ul>'+running.map(t=>\n      '<li class=\"running\"><a href=\"/'+esc(t.name)+'\">▶ '+esc(t.name)+'</a>'+\n      '<span class=\"help\">running for '+Math.floor(t.elapsed_ms/1000)+'s</span>'+\n      '<span class=\"elapsed\">#'+t.id+'</span>'+\n      '<button class=\"kill\" onclick=\"killRun('+t.id+')\">Kill</button></li>').join('')+'</ul>';\n  }catch(e){}\n}\nrefreshRunning();\nsetInterval(refreshRunning,2000);\n</script>";

/// The script of a task page: it posts the form and streams the output.
pub const TASK_SCRIPT: &'static str = "\n<script>\nconst out=document.getElementById('out');\nconst killBtn=document.getElementById('kill');\nlet runId=null;\ndocument.getElementById('f').onsubmit=async e=>{\n  e.preventDefault();\n  out.hidden=false; out.textContent='';\n  const body=new URLSearchParams([...new FormData(e.target)].filter(([,v])=>v!==''));\n  const res=await fetch(location.pathname,{method:'POST',body});\n  runId=res.headers.get('X-Run-Id');\n  killBtn.hidden=false;\n  const reader=res.body.getReader(); const dec=new TextDecoder();\n  for(;;){\n    const {done,value}=await reader.read();\n    if(done)break;\n    out.textContent+=dec.decode(value,{stream:true});\n    out.scrollTop=out.scrollHeight;\n  }\n  killBtn.hidden=true; runId=null;\n};\nkillBtn.onclick=()=>{ if(runId!=null) fetch('/running/'+runId,{method:'DELETE'}); };\n</script>";

/// An HTML page with the (escaped) title and the content.
pub open spec fn page_text(title: Seq<char>, content: Seq<char>) -> Seq<char> {
    "<!doctype html><html><head><meta charset=\"utf-8\"><title>"@ + html_escaped(title) + "</title><style>"@ + STYLE@ + "</style></head><body>"@ + content + "</body></html>"@
}

/// Builds an HTML page.
pub fn page(title: &str, content: &str) -> (r: String)
    ensures
        r@ == page_text(title@, content@),
{
    let mut r = String::from_str("<!doctype html><html><head><meta charset=\"utf-8\"><title>");
    r.append(html_escape(title).as_str());
    r.append("</title><style>");
    r.append(STYLE);
    r.append("</style></head><body>");
    r.append(content);
    r.append("</body></html>");
    r
}

/// An optional text, escaped; empty when absent.
pub open spec fn opt_escaped(o: Option<Seq<char>>) -> Seq<char> {
    match o {
        Some(s) => html_escaped(s),
        None => Seq::empty(),
    }
}

fn opt_escape(o: Option<&str>) -> (r: String)
    ensures
        r@ == opt_escaped(match o {
            Some(s) => Some(s@),
            None => None,
        }),
{
    match o {
        Some(s) => html_escape(s),
        None => String::new(),
    }
}

/// The list item of a task on the index page.
pub open spec fn task_item(t: TaskView) -> Seq<char> {
    "<li><a href=\"/"@ + t.name + "\">▶ "@ + html_escaped(t.name) + "</a><span class=\"help\">"@
        + opt_escaped(t.help_msg) + "</span></li>"@
}

/// The list items of the tasks, in order.
pub open spec fn task_items(ts: Seq<TaskView>) -> Seq<char>
    decreases ts.len(),
{
    if ts.len() == 0 {
        Seq::empty()
    } else {
        task_items(ts.drop_last()) + task_item(ts.last())
    }
}

/// The index page for the tasks.
pub open spec fn index_text(ts: Seq<TaskView>) -> Seq<char> {
    page_text("bake"@, "<h1>▶ Bake</h1>"@ + RUNNING_WIDGET@ + "<ul>"@ + task_items(ts) + "</ul>"@)
}

fn task_item_html<C: Capabilities>(task: &TaskViewModel<C>) -> (r: String)
    ensures
        r@ == task_item(task.task_view()),
{
    let help = task.help_msg();
    let mut r = String::from_str("<li><a href=\"/");
    r.append(task.name());
    r.append("\">▶ ");
    r.append(html_escape(task.name()).as_str());
    r.append("</a><span class=\"help\">");
    r.append(opt_escape(help).as_str());
    r.append("</span></li>");
    r
}

/// The page that lists the tasks of the bakefile.
pub fn index_page<C: Capabilities>(bake: &BakeViewModel<C>) -> (r: String)
    ensures
        r@ == index_text(task_models(bake.task_list())),
{
    let tasks = bake.tasks();
    let ghost ts = task_models(bake.task_list());
    let mut items = String::new();
    let mut i: usize = 0;
    while i < tasks.len()
        invariant
            i <= tasks.len(),
            tasks@ == bake.task_list(),
            ts == task_models(bake.task_list()),
            items@ == task_items(ts.take(i as int)),
        decreases tasks.len() - i,
    {
        assert(ts.take(i + 1).drop_last() == ts.take(i as int));
        assert(ts[i as int] == tasks@[i as int].task_view());
        items.append(task_item_html(&tasks[i]).as_str());
        i = i + 1;
    }
    assert(ts.take(tasks.len() as int) == ts);
    let mut content = String::from_str("<h1>▶ Bake</h1>");
    content.append(RUNNING_WIDGET);
    content.append("<ul>");
    content.append(items.as_str());
    content.append("</ul>");
    page("bake", content.as_str())
}

/// The form field of a parameter on a task page.
pub open spec fn param_input(p: ParamView) -> Seq<char> {
    "<label>"@ + html_escaped(p.name) + "<input name=\""@ + html_escaped(p.name) + "\" placeholder=\""@
        + html_escaped(p.name) + "\" value=\""@ + opt_escaped(p.default) + "\"></label>"@
}

/// The form fields of the parameters, in order.
pub open spec fn param_inputs(ps: Seq<ParamView>) -> Seq<char>
    decreases ps.len(),
{
    if ps.len() == 0 {
        Seq::empty()
    } else {
        param_inputs(ps.drop_last()) + param_input(ps.last())
    }
}

/// The page of a task: its help, a form for its parameters and the output
/// of its runs.
pub open spec fn task_page_text(t: TaskView, params: Seq<ParamView>) -> Seq<char> {
    page_text(
        t.name,
        "<a href=\"/\">← back</a><h1>"@ + html_escaped(t.name) + "</h1><p class=\"help\">"@ + opt_escaped(t.help_msg)
            + "</p><form id=\"f\">"@ + param_inputs(params) + "<button>Run</button></form><button id=\"kill\" class=\"kill\" hidden>Kill</button><pre id=\"out\" hidden></pre>"@ + RUNNING_WIDGET@
            + TASK_SCRIPT@,
    )
}

fn param_input_html(p: &crate::model::param::Param) -> (r: String)
    ensures
        r@ == param_input(p@),
{
    let name = html_escape(p.name());
    let mut r = String::from_str("<label>");
    r.append(name.as_str());
    r.append("<input name=\"");
    r.append(name.as_str());
    r.append("\" placeholder=\"");
    r.append(name.as_str());
    r.append("\" value=\"");
    r.append(opt_escape(p.default()).as_str());
    r.append("\"></label>");
    r
}

/// The page of a task.
pub fn task_page<C: Capabilities>(task: &TaskViewModel<C>) -> (r: String)
    ensures
        r@ == task_page_text(task.task_view(), task.param_views()),
{
    let params = task.params();
    let ghost ps = task.param_views();
    let mut inputs = String::new();
    let mut i: usize = 0;
    while i < params.len()
        invariant
            i <= params.len(),
            crate::model::yaml::views(params@) == ps,
            inputs@ == param_inputs(ps.take(i as int)),
        decreases params.len() - i,
    {
        assert(ps.take(i + 1).drop_last() == ps.take(i as int));
        assert(ps[i as int] == params@[i as int]@);
        inputs.append(param_input_html(&params[i]).as_str());
        i = i + 1;
    }
    assert(ps.take(params.len() as int) == ps);
    let mut content = String::from_str("<a href=\"/\">← back</a><h1>");
    content.append(html_escape(task.name()).as_str());
    content.append("</h1><p class=\"help\">");
    content.append(opt_escape(task.help_msg()).as_str());
    content.append("</p><form id=\"f\">");
    content.append(inputs.as_str());
    content.append("<button>Run</button></form><button id=\"kill\" class=\"kill\" hidden>Kill</button><pre id=\"out\" hidden></pre>");
    content.append(RUNNING_WIDGET);
    content.append(TASK_SCRIPT);
    page(task.name(), content.as_str())
}

} // verus!
