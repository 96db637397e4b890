//! The command line of `bake`.
use vstd::prelude::*;

use crate::text::{chars_of, parse_unsigned, unsigned_value};

verus! {

/// What the command line asks for.
#[derive(Debug, PartialEq)]
pub enum ParsedArgs {
    Version,
    Help,
    Update,
    ShowTasks,
    /// `serve` with its port.
    Serve(u16),
    /// A task name or number, and whether `--non-interactive` (`-ni`) follows.
    Command(String, bool),
    Invalid,
    Nothing,
}

/// The value a [ParsedArgs] stands for.
pub enum ParsedArgsView {
    Version,
    Help,
    Update,
    ShowTasks,
    Serve(u16),
    Command(Seq<char>, bool),
    Invalid,
    Nothing,
}

impl View for ParsedArgs {
    type V = ParsedArgsView;

    open spec fn view(&self) -> ParsedArgsView {
        match self {
            ParsedArgs::Version => ParsedArgsView::Version,
            ParsedArgs::Help => ParsedArgsView::Help,
            ParsedArgs::Update => ParsedArgsView::Update,
            ParsedArgs::ShowTasks => ParsedArgsView::ShowTasks,
            ParsedArgs::Serve(p) => ParsedArgsView::Serve(*p),
            ParsedArgs::Command(c, n) => ParsedArgsView::Command(c@, *n),
            ParsedArgs::Invalid => ParsedArgsView::Invalid,
            ParsedArgs::Nothing => ParsedArgsView::Nothing,
        }
    }
}

/// The port `bake serve` listens on unless told otherwise.
pub const DEFAULT_PORT: u16 = 8000;

/// The port number that `s` is (`u16::from_str`).
pub open spec fn port_value(s: Seq<char>) -> Option<u16> {
    match unsigned_value(s, 65535) {
        Some(v) => Some(v as u16),
        None => None,
    }
}

/// `--port=` and what follows it.
pub open spec fn port_prefix() -> Seq<char> {
    seq!['-', '-', 'p', 'o', 'r', 't', '=']
}

/// Reading the arguments of `serve` from position `i` on, with `port` so far:
/// `--port N` and `--port=N` set the port; anything else is invalid.
pub open spec fn serve_args(rest: Seq<Seq<char>>, i: int, port: u16) -> ParsedArgsView
    decreases rest.len() - i,
{
    if i < 0 || i >= rest.len() {
        ParsedArgsView::Serve(port)
    } else if rest[i] == seq!['-', '-', 'p', 'o', 'r', 't'] {
        if i + 1 < rest.len() {
            match port_value(rest[i + 1]) {
                Some(p) => serve_args(rest, i + 2, p),
                None => ParsedArgsView::Invalid,
            }
        } else {
            ParsedArgsView::Invalid
        }
    } else if port_prefix().is_prefix_of(rest[i]) {
        match port_value(rest[i].skip(7)) {
            Some(p) => serve_args(rest, i + 1, p),
            None => ParsedArgsView::Invalid,
        }
    } else {
        ParsedArgsView::Invalid
    }
}

/// What a command line (the program name first) asks for.
pub open spec fn args_meaning(args: Seq<Seq<char>>) -> ParsedArgsView {
    if args.len() < 2 {
        ParsedArgsView::Nothing
    } else {
        let a = args[1];
        if a == "--show"@ || a == "--list"@ || a == "-l"@ {
            ParsedArgsView::ShowTasks
        } else if a == "--version"@ || a == "-v"@ {
            ParsedArgsView::Version
        } else if a == "--update"@ {
            ParsedArgsView::Update
        } else if a == "--help"@ {
            ParsedArgsView::Help
        } else if a == "serve"@ {
            serve_args(args.skip(2), 0, DEFAULT_PORT)
        } else if crate::model::function_call::dashed(a) {
            ParsedArgsView::Invalid
        } else if args.len() >= 3 {
            ParsedArgsView::Command(a, args[2] == "--non-interactive"@ || args[2] == "-ni"@)
        } else {
            ParsedArgsView::Command(a, false)
        }
    }
}

fn is(s: &String, lit: &str) -> (r: bool)
    ensures
        r == (s@ == lit@),
{
    *s == lit.to_owned()
}

fn parse_port(s: &str) -> (r: Option<u16>)
    ensures
        r == port_value(s@),
{
    match parse_unsigned(s, 65535) {
        Some(v) => Some(v as u16),
        None => None,
    }
}

/// Reads the arguments that follow `serve`.
pub fn parse_serve(rest: &[String]) -> (r: ParsedArgs)
    ensures
        r@ == serve_args(rest.deep_view(), 0, DEFAULT_PORT),
{
    let ghost rs = rest.deep_view();
    let mut port = DEFAULT_PORT;
    let mut i: usize = 0;
    let flag = vec!['-', '-', 'p', 'o', 'r', 't'];
    let prefix = vec!['-', '-', 'p', 'o', 'r', 't', '='];
    while i < rest.len()
        invariant
            i <= rest@.len(),
            rs == rest.deep_view(),
            flag@ == seq!['-', '-', 'p', 'o', 'r', 't'],
            prefix@ == port_prefix(),
            serve_args(rs, 0, DEFAULT_PORT) == serve_args(rs, i as int, port),
        decreases rest@.len() - i,
    {
        let arg = chars_of(rest[i].as_str());
        assert(rs[i as int] == arg@);
        if same(&arg, &flag) {
            if i + 1 < rest.len() {
                assert(rs[i + 1] == rest[i + 1]@);
                match parse_port(rest[i + 1].as_str()) {
                    Some(x) => port = x,
                    None => {
                        return ParsedArgs::Invalid;
                    },
                }
            } else {
                return ParsedArgs::Invalid;
            }
            i = i + 2;
        } else if arg.len() >= 7 && same(&first(&arg, 7), &prefix) {
            assert(arg@.subrange(0, 7) == port_prefix());
            assert(port_prefix().is_prefix_of(arg@));
            let tail = rest_of(&arg, 7);
            let ts = crate::text::string_from(tail.as_slice());
            match parse_port(ts.as_str()) {
                Some(x) => port = x,
                None => {
                    return ParsedArgs::Invalid;
                },
            }
            i = i + 1;
        } else {
            assert(!port_prefix().is_prefix_of(arg@)) by {
                if arg@.len() >= 7 {
                    assert(arg@.subrange(0, 7) != prefix@);
                }
            }
            return ParsedArgs::Invalid;
        }
    }
    ParsedArgs::Serve(port)
}

fn same(a: &Vec<char>, b: &Vec<char>) -> (r: bool)
    ensures
        r == (a@ == b@),
{
    if a.len() != b.len() {
        return false;
    }
    let mut i: usize = 0;
    while i < a.len()
        invariant
            i <= a.len(),
            a.len() == b.len(),
            forall|j: int| 0 <= j < i ==> a@[j] == b@[j],
        decreases a.len() - i,
    {
        if a[i] != b[i] {
            return false;
        }
        i = i + 1;
    }
    assert(a@ =~= b@);
    true
}

fn first(v: &Vec<char>, n: usize) -> (r: Vec<char>)
    requires
        n <= v.len(),
    ensures
        r@ == v@.subrange(0, n as int),
{
    let mut r: Vec<char> = Vec::new();
    let mut k: usize = 0;
    while k < n
        invariant
            k <= n <= v.len(),
            r@ == v@.subrange(0, k as int),
        decreases n - k,
    {
        r.push(v[k]);
        k = k + 1;
    }
    r
}

fn rest_of(v: &Vec<char>, n: usize) -> (r: Vec<char>)
    requires
        n <= v.len(),
    ensures
        r@ == v@.skip(n as int),
{
    let mut r: Vec<char> = Vec::new();
    let mut k: usize = n;
    while k < v.len()
        invariant
            n <= k <= v.len(),
            r@ == v@.subrange(n as int, k as int),
        decreases v.len() - k,
    {
        r.push(v[k]);
        k = k + 1;
    }
    r
}

fn skip_two(args: &Vec<String>) -> (r: Vec<String>)
    requires
        args@.len() >= 2,
    ensures
        r.deep_view() == args.deep_view().skip(2),
{
    let mut r: Vec<String> = Vec::new();
    let mut k: usize = 2;
    while k < args.len()
        invariant
            2 <= k <= args@.len(),
            r.deep_view() == args.deep_view().subrange(2, k as int),
        decreases args@.len() - k,
    {
        let ghost before = r.deep_view();
        r.push(args[k].clone());
        assert(r.deep_view() =~= before.push(args[k as int]@));
        k = k + 1;
    }
    r
}

/// Reads a command line (the program name first).
pub fn get_args_with(args: Vec<String>) -> (r: ParsedArgs)
    ensures
        r@ == args_meaning(args.deep_view()),
{
    if args.len() < 2 {
        return ParsedArgs::Nothing;
    }
    let arg1 = &args[1];
    assert(args.deep_view()[1] == arg1@);
    if is(arg1, "--show") || is(arg1, "--list") || is(arg1, "-l") {
        return ParsedArgs::ShowTasks;
    }
    if is(arg1, "--version") || is(arg1, "-v") {
        return ParsedArgs::Version;
    }
    if is(arg1, "--update") {
        return ParsedArgs::Update;
    }
    if is(arg1, "--help") {
        return ParsedArgs::Help;
    }
    if is(arg1, "serve") {
        return parse_serve(skip_two(&args).as_slice());
    }
    let a = chars_of(arg1.as_str());
    if a.len() >= 2 && a[0] == '-' && a[1] == '-' {
        return ParsedArgs::Invalid;
    }
    if args.len() >= 3 {
        assert(args.deep_view()[2] == args[2]@);
        let non_interactive = is(&args[2], "--non-interactive") || is(&args[2], "-ni");
        ParsedArgs::Command(arg1.clone(), non_interactive)
    } else {
        ParsedArgs::Command(arg1.clone(), false)
    }
}

} // verus!

verus! {

/// `--show`, `--list` or `-l` as the first argument lists the tasks,
/// whatever follows.
pub proof fn show_flags_list_the_tasks(args: Seq<Seq<char>>)
    requires
        args.len() >= 2,
        args[1] == "--show"@ || args[1] == "--list"@ || args[1] == "-l"@,
    ensures
        args_meaning(args) == ParsedArgsView::ShowTasks,
{
}

/// `--version` or `-v`, `--update` and `--help` as the first argument ask
/// for the version, the update and the help, whatever follows; no argument
/// asks for nothing.
pub proof fn other_flags_keep_their_meaning(args: Seq<Seq<char>>)
    ensures
        args.len() < 2 ==> args_meaning(args) == ParsedArgsView::Nothing,
        args.len() >= 2 && (args[1] == "--version"@ || args[1] == "-v"@) ==> args_meaning(args)
            == ParsedArgsView::Version,
        args.len() >= 2 && args[1] == "--update"@ ==> args_meaning(args) == ParsedArgsView::Update,
        args.len() >= 2 && args[1] == "--help"@ ==> args_meaning(args) == ParsedArgsView::Help,
        args.len() == 2 && args[1] == "serve"@ ==> args_meaning(args) == ParsedArgsView::Serve(DEFAULT_PORT),
{
    reveal_strlit("--show");
    reveal_strlit("--list");
    reveal_strlit("-l");
    reveal_strlit("--version");
    reveal_strlit("-v");
    reveal_strlit("--update");
    reveal_strlit("--help");
    reveal_strlit("serve");
    assert("--show"@.len() == 6 && "--list"@.len() == 6 && "-l"@.len() == 2);
    assert("--version"@.len() == 9 && "-v"@.len() == 2 && "--update"@.len() == 8);
    assert("--help"@.len() == 6 && "serve"@.len() == 5);
    assert("-v"@[1] != "-l"@[1]);
    assert("--help"@[2] != "--show"@[2] && "--help"@[2] != "--list"@[2]);
    assert("--version"@ != "--update"@);
    assert("--help"@ != "--version"@ && "--help"@ != "--update"@ && "--help"@ != "-v"@);
    if args.len() == 2 && args[1] == "serve"@ {
        assert(args.skip(2).len() == 0);
    }
}

} // verus!
