//! The side effects that the view model needs from its host.
use vstd::prelude::*;
use vstd::string::*;

use crate::text::{lowercase, to_lowercase, trim, trim_chars, chars_of};
use crate::util::platform_specific::Platform;
use crate::viewmodel::message::Message;

verus! {

/// An answer that means yes: `yes` or `y`, in any case, with white space
/// around it.
pub open spec fn yes_answer(answer: Seq<char>) -> bool {
    let t = trim(lowercase(answer));
    t == seq!['y', 'e', 's'] || t == seq!['y']
}

/// Whether a user's answer means yes.
pub fn is_yes(answer: &str) -> (r: bool)
    ensures
        r == yes_answer(answer@),
{
    let low = to_lowercase(answer);
    let t = trim_chars(chars_of(low.as_str()).as_slice());
    let r = (t.len() == 3 && t[0] == 'y' && t[1] == 'e' && t[2] == 's') || (t.len() == 1 && t[0]
        == 'y');
    proof {
        if t.len() == 3 && t[0] == 'y' && t[1] == 'e' && t[2] == 's' {
            assert(t@ =~= seq!['y', 'e', 's']);
        }
        if t.len() == 1 && t[0] == 'y' {
            assert(t@ =~= seq!['y']);
        }
        if t@ == seq!['y', 'e', 's'] {
            assert(t@[0] == 'y' && t@[1] == 'e' && t@[2] == 's');
        }
        if t@ == seq!['y'] {
            assert(t@[0] == 'y');
        }
    }
    r
}

/// An answer to a yes/no question that the user's input can give: `None`
/// where there was no line, else whether the line means yes.
pub open spec fn yes_no_reply<C: Capabilities>(c: &C, r: Option<bool>) -> bool {
    match r {
        None => c.input_reply(None),
        Some(b) => exists|line: Seq<char>| #[trigger] c.input_reply(Some(line)) && b == yes_answer(line),
    }
}

/// The view model reaches files, processes, the environment and the user only
/// through this trait, which each front end (command line, web) implements.
/// Nothing is assumed of what an implementation does.
pub trait Capabilities {
    /// `content` is what reading the file `file_name` can give. An
    /// implementation may narrow it; by default every content can.
    closed spec fn file_reply(&self, file_name: Seq<char>, content: Option<Seq<char>>) -> bool {
        true
    }

    /// The content of a file, or `None` where it does not exist.
    fn read_file(&self, file_name: &str) -> (r: Option<String>)
        ensures
            self.file_reply(file_name@, crate::text::opt_view(r)),
    ;

    /// `succeeded` is how running `command` in `working_directory` can end.
    /// An implementation may narrow it; by default either way can.
    closed spec fn exec_reply(&self, command: Seq<char>, working_directory: Option<Seq<char>>, succeeded: bool) -> bool {
        true
    }

    /// Runs a shell command (in `working_directory` when given); true when it
    /// succeeded.
    fn execute(&self, command: &str, working_directory: Option<&str>) -> (r: bool)
        ensures
            self.exec_reply(command@, crate::text::opt_str_view(working_directory), r),
    ;

    /// Runs the commands in turn and stops at the first that fails.
    fn execute_all(&self, commands: &[&str], working_directory: Option<&str>) -> (r: bool)
        default_ensures
            commands@.len() == 0 ==> r,
    {
        let mut i: usize = 0;
        while i < commands.len()
            decreases commands.len() - i,
        {
            if !self.execute(commands[i], working_directory) {
                return false;
            }
            i = i + 1;
        }
        true
    }

    /// Opens a link in the user's browser, or shows it.
    fn open_link(&self, url: &str);

    /// Shows a message to the user.
    fn message(&self, input: Message);

    /// `line` is what taking a line of input from the user can give. An
    /// implementation may narrow it; by default every line can.
    closed spec fn input_reply(&self, line: Option<Seq<char>>) -> bool {
        true
    }

    /// A line of input from the user, or `None` where there is none to take.
    fn input(&self) -> (r: Option<String>)
        ensures
            self.input_reply(crate::text::opt_view(r)),
    ;

    /// Asks the user a question and takes the answer.
    fn ask_user(&self, question: &str) -> (r: Option<String>)
        ensures
            self.input_reply(crate::text::opt_view(r)),
    {
        self.message(Message::question(question.to_owned()));
        self.input()
    }

    /// Asks a yes/no question: `Some(true)` for a yes answer.
    fn ask_user_yes_no(&self, question: &str) -> (r: Option<bool>)
        ensures
            r is None ==> self.input_reply(None),
            r matches Some(b) ==> exists|line: Seq<char>| #[trigger] self.input_reply(Some(line)) && b == yes_answer(line),
    {
        let mut q = question.to_owned();
        q.append(" (yes|no)");
        match self.ask_user(q.as_str()) {
            Some(answer) => Some(is_yes(answer.as_str())),
            None => None,
        }
    }

    /// The host can answer that the user wants to stop. An implementation
    /// may rule it out; by default it can.
    closed spec fn can_stop(&self) -> bool {
        true
    }

    /// The user asked to stop (for example with a kill button).
    fn should_abort(&self) -> (r: bool)
        ensures
            r ==> self.can_stop(),
        default_ensures
            !r,
    {
        false
    }

    fn set_env(&self, name: &str, value: &str);

    /// `reply` is what the environment can give for the variable `name`.
    /// An implementation may narrow it; by default every reply can.
    closed spec fn env_reply(&self, name: Seq<char>, reply: Option<Seq<char>>) -> bool {
        true
    }

    fn get_env(&self, name: &str) -> (r: Option<String>)
        ensures
            self.env_reply(name@, crate::text::opt_view(r)),
    ;

    fn remove_env(&self, name: &str);

    /// `p` is a platform that the host can report. An implementation may
    /// narrow it; by default every platform can.
    closed spec fn platform_reply(&self, p: Platform) -> bool {
        true
    }

    /// The operating system that bake runs on.
    fn platform(&self) -> (r: Platform)
        ensures
            self.platform_reply(r),
    ;
}

} // verus!
