//! Messages from bake to the user.
use vstd::prelude::*;

verus! {

/// A message and how it should be shown.
pub struct Message {
    message_type: MessageType,
    content: String,
}

/// The kinds of messages.
#[derive(Debug, Clone, Copy, PartialEq, Eq, Structural)]
pub enum MessageType {
    Error,
    BakeState,
    Warning,
    Normal,
    Question,
}

impl Message {
    /// The kind of the message.
    pub closed spec fn kind(&self) -> MessageType {
        self.message_type
    }

    /// The text of the message.
    pub closed spec fn text(&self) -> Seq<char> {
        self.content@
    }

    fn new(message_type: MessageType, content: String) -> (r: Self)
        ensures
            r.kind() == message_type,
            r.text() == content@,
    {
        Self { message_type, content }
    }

    pub fn error(str: String) -> (r: Self)
        ensures
            r.kind() == MessageType::Error,
            r.text() == str@,
    {
        Self::new(MessageType::Error, str)
    }

    pub fn bake_state(str: String) -> (r: Self)
        ensures
            r.kind() == MessageType::BakeState,
            r.text() == str@,
    {
        Self::new(MessageType::BakeState, str)
    }

    pub fn warning(str: String) -> (r: Self)
        ensures
            r.kind() == MessageType::Warning,
            r.text() == str@,
    {
        Self::new(MessageType::Warning, str)
    }

    pub fn normal(str: String) -> (r: Self)
        ensures
            r.kind() == MessageType::Normal,
            r.text() == str@,
    {
        Self::new(MessageType::Normal, str)
    }

    pub fn question(str: String) -> (r: Self)
        ensures
            r.kind() == MessageType::Question,
            r.text() == str@,
    {
        Self::new(MessageType::Question, str)
    }

    pub fn message_type(&self) -> (r: &MessageType)
        ensures
            *r == self.kind(),
    {
        &self.message_type
    }

    pub fn content(&self) -> (r: &str)
        ensures
            r@ == self.text(),
    {
        self.content.as_str()
    }
}

} // verus!
