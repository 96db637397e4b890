//! The choices of the terminal front end: which messages it shows, whether it
//! reads input, and how a message kind is labelled.
use vstd::prelude::*;

use crate::viewmodel::message::MessageType;

verus! {

/// How the terminal front end runs.
pub struct CLICapabilities {
    /// No questions are shown and no input is read.
    pub non_interactive: bool,
}

impl Default for CLICapabilities {
    fn default() -> (r: Self)
        ensures
            !r.non_interactive,
    {
        Self { non_interactive: false }
    }
}

impl CLICapabilities {
    /// A message of this kind is printed: everything but questions when
    /// running non-interactively.
    pub fn shows(&self, kind: MessageType) -> (r: bool)
        ensures
            r == !(self.non_interactive && kind == MessageType::Question),
    {
        !(self.non_interactive && kind == MessageType::Question)
    }

    /// A line of input is read from the user (never when non-interactive).
    pub fn reads_input(&self) -> (r: bool)
        ensures
            r == !self.non_interactive,
    {
        !self.non_interactive
    }
}

/// The label printed before a message of this kind (none for plain text).
pub open spec fn label_of(kind: MessageType) -> Option<Seq<char>> {
    match kind {
        MessageType::Error => Some(" ❌ Error "@),
        MessageType::BakeState => Some(" ▶ Bake "@),
        MessageType::Warning => Some(" ⚠ Warning "@),
        MessageType::Normal => None,
        MessageType::Question => Some(" 🯄 Question "@),
    }
}

/// The label printed before a message of this kind.
pub fn message_label(kind: MessageType) -> (r: Option<&'static str>)
    ensures
        match (r, label_of(kind)) {
            (Some(s), Some(t)) => s@ == t,
            (None, None) => true,
            _ => false,
        },
{
    match kind {
        MessageType::Error => Some(" ❌ Error "),
        MessageType::BakeState => Some(" ▶ Bake "),
        MessageType::Warning => Some(" ⚠ Warning "),
        MessageType::Normal => None,
        MessageType::Question => Some(" 🯄 Question "),
    }
}

/// What follows the text of a message of this kind: a question ends with
/// `? `.
pub fn message_suffix(kind: MessageType) -> (r: &'static str)
    ensures
        kind == MessageType::Question ==> r@ == "? "@,
        kind != MessageType::Question ==> r@ == ""@,
{
    match kind {
        MessageType::Question => "? ",
        _ => "",
    }
}

/// The number shown before the task at `index` in the task list (from 1).
pub fn task_number(index: usize) -> (r: String)
    requires
        index < usize::MAX,
    ensures
        r@ == crate::text::decimal_text((index + 1) as nat),
{
    crate::text::decimal_string((index + 1) as u128)
}

} // verus!
