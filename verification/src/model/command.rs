//! One line of a task: a shell command or a call of another task.
use vstd::prelude::*;
use vstd::string::*;

use crate::model::function_call::{lemma_split_nonempty, parse_call, FunctionCall, FunctionCallView};
use crate::text::{chars_of, split, split_chars, string_from, trim, trim_chars};

verus! {

/// A shell command, or a call written `@namespace.function --key value ...`.
#[derive(Debug, PartialEq)]
pub enum Command {
    ShellCommand(String),
    FunctionCall(FunctionCall),
}

/// The value a [Command] stands for.
pub enum CommandView {
    ShellCommand(Seq<char>),
    FunctionCall(FunctionCallView),
}

impl View for Command {
    type V = CommandView;

    open spec fn view(&self) -> CommandView {
        match self {
            Command::ShellCommand(s) => CommandView::ShellCommand(s@),
            Command::FunctionCall(f) => CommandView::FunctionCall(f@),
        }
    }
}

/// The command written by a line of a bakefile. Leading and trailing white
/// space is ignored; a line that starts with `@` is a call, which must name
/// its namespace (`@namespace.function`).
pub open spec fn parse_command(s: Seq<char>) -> Result<CommandView, Seq<char>> {
    let t = trim(s);
    if t.len() == 0 {
        Err("is empty"@)
    } else if t[0] == '@' {
        if split(split(t.drop_first(), ' ')[0], '.').len() == 1 {
            Err("syntax error"@)
        } else {
            match parse_call(t) {
                Ok(c) => Ok(CommandView::FunctionCall(c)),
                Err(e) => Err(e),
            }
        }
    } else {
        Ok(CommandView::ShellCommand(t))
    }
}

/// White space around a command line does not change what it says.
pub proof fn surrounding_space_is_ignored(s: Seq<char>)
    ensures
        parse_command(s) == parse_command(trim(s)),
{
    crate::text::trim_idempotent(s);
}

impl Command {
    /// Parses one line of a bakefile.
    pub fn try_from(str: &str) -> (r: Result<Self, String>)
        ensures
            match (r, parse_command(str@)) {
                (Ok(c), Ok(v)) => c@ == v,
                (Err(e), Err(m)) => e@ == m,
                _ => false,
            },
    {
        let t = trim_chars(chars_of(str).as_slice());
        if t.len() == 0 {
            return Err(String::from_str("is empty"));
        }
        if t[0] == '@' {
            let mut body: Vec<char> = Vec::new();
            let mut k: usize = 1;
            while k < t.len()
                invariant
                    1 <= k <= t.len(),
                    body@ == t@.subrange(1, k as int),
                decreases t.len() - k,
            {
                body.push(t[k]);
                k = k + 1;
            }
            assert(body@ == t@.drop_first());
            let words = split_chars(body.as_slice(), ' ');
            proof {
                lemma_split_nonempty(body@, ' ');
            }
            assert(words.deep_view()[0] == words[0]@);
            let parts = split_chars(words[0].as_slice(), '.');
            if parts.len() == 1 {
                return Err(String::from_str("syntax error"));
            }
            match FunctionCall::from_trimmed(&t) {
                Ok(c) => Ok(Command::FunctionCall(c)),
                Err(e) => Err(e),
            }
        } else {
            Ok(Command::ShellCommand(string_from(t.as_slice())))
        }
    }
}

} // verus!

verus! {

/// Parsing every line; the first line that does not parse gives the error.
pub open spec fn parse_commands(lines: Seq<Seq<char>>) -> Result<Seq<CommandView>, Seq<char>>
    decreases lines.len(),
{
    if lines.len() == 0 {
        Ok(Seq::empty())
    } else {
        match parse_commands(lines.drop_last()) {
            Err(e) => Err(e),
            Ok(a) => match parse_command(lines.last()) {
                Ok(c) => Ok(a.push(c)),
                Err(e) => Err(e),
            },
        }
    }
}

/// The views of a list of commands.
pub open spec fn command_views(s: Seq<Command>) -> Seq<CommandView> {
    s.map_values(|c: Command| c@)
}

proof fn lemma_parse_commands_err(lines: Seq<Seq<char>>, k: int)
    requires
        0 <= k <= lines.len(),
        parse_commands(lines.take(k)) is Err,
    ensures
        parse_commands(lines) == parse_commands(lines.take(k)),
    decreases lines.len() - k,
{
    if k < lines.len() {
        assert(lines.take(k + 1).drop_last() == lines.take(k));
        lemma_parse_commands_err(lines, k + 1);
    } else {
        assert(lines.take(k) == lines);
    }
}

/// Parses each line into a command.
pub fn commands_from(lines: &Vec<String>) -> (r: Result<Vec<Command>, String>)
    ensures
        match (r, parse_commands(lines.deep_view())) {
            (Ok(v), Ok(w)) => command_views(v@) == w,
            (Err(e), Err(m)) => e@ == m,
            _ => false,
        },
{
    let ghost ls = lines.deep_view();
    let mut out: Vec<Command> = Vec::new();
    let mut i: usize = 0;
    assert(command_views(out@) =~= Seq::<CommandView>::empty());
    assert(ls.take(0) =~= Seq::<Seq<char>>::empty());
    while i < lines.len()
        invariant
            i <= lines.len(),
            ls == lines.deep_view(),
            parse_commands(ls.take(i as int)) == Ok::<Seq<CommandView>, Seq<char>>(
                command_views(out@),
            ),
        decreases lines.len() - i,
    {
        assert(ls.take(i + 1).drop_last() == ls.take(i as int));
        assert(ls.take(i + 1).last() == lines[i as int]@);
        match Command::try_from(lines[i].as_str()) {
            Ok(c) => {
                let ghost prev = out@;
                let ghost cv = c@;
                out.push(c);
                assert(command_views(out@) =~= command_views(prev).push(cv));
            },
            Err(e) => {
                proof {
                    lemma_parse_commands_err(ls, i + 1);
                }
                return Err(e);
            },
        }
        i = i + 1;
    }
    assert(ls.take(ls.len() as int) == ls);
    Ok(out)
}

/// The commands of the list that applies on the platform, or the message
/// that the platform has none.
pub open spec fn platform_commands(
    list: Option<Seq<Seq<char>>>,
    platform: crate::util::platform_specific::Platform,
) -> Result<Seq<CommandView>, Seq<char>> {
    match list {
        None => Err(crate::util::platform_specific::platform_name(platform) + " is not supported"@),
        Some(l) => parse_commands(l),
    }
}

/// Parses the list that applies on the platform.
pub fn commands_for(
    list: Option<&Vec<String>>,
    platform: crate::util::platform_specific::Platform,
) -> (r: Result<Vec<Command>, String>)
    ensures
        match (r, platform_commands(
            match list {
                Some(l) => Some(l.deep_view()),
                None => None,
            },
            platform,
        )) {
            (Ok(v), Ok(w)) => command_views(v@) == w,
            (Err(e), Err(m)) => e@ == m,
            _ => false,
        },
{
    match list {
        Some(l) => commands_from(l),
        None => {
            let mut e = String::from_str(
                crate::util::platform_specific::get_platform_name(platform),
            );
            e.append(" is not supported");
            Err(e)
        },
    }
}

} // verus!
