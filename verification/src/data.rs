//! Role-tagged chat messages and the append-only conversation log.

use vstd::prelude::*;

verus! {

/// The role tag of a chat message, fixed at construction.
#[derive(Clone, Copy, Debug, PartialEq, Eq, Structural)]
pub enum MessageRole {
    System,
    User,
    Assistant,
}

/// The wire name of a role, as it appears in the serialized request body.
pub open spec fn role_name(role: MessageRole) -> Seq<char> {
    match role {
        MessageRole::System => "system"@,
        MessageRole::User => "user"@,
        MessageRole::Assistant => "assistant"@,
    }
}

impl MessageRole {
    /// The wire name of this role.
    pub fn as_str(&self) -> (r: &'static str)
        ensures
            r@ == role_name(*self),
    {
        match self {
            MessageRole::System => "system",
            MessageRole::User => "user",
            MessageRole::Assistant => "assistant",
        }
    }
}

/// The mathematical value of a [`ChatMessage`]: its role and its content
/// as a sequence of characters.
pub struct MessageView {
    pub role: MessageRole,
    pub content: Seq<char>,
}

/// One immutable message of the conversation.
#[derive(Debug, Clone)]
pub struct ChatMessage {
    role: MessageRole,
    content: String,
}

impl View for ChatMessage {
    type V = MessageView;

    closed spec fn view(&self) -> MessageView {
        MessageView { role: self.role, content: self.content@ }
    }
}

impl ChatMessage {
    /// Builds a message with the given role and content.
    pub fn new(role: MessageRole, content: String) -> (m: ChatMessage)
        ensures
            m@.role == role,
            m@.content == content@,
    {
        ChatMessage { role, content }
    }

    /// Builds a user message.
    pub fn from_user(content: String) -> (m: ChatMessage)
        ensures
            m@.role == MessageRole::User,
            m@.content == content@,
    {
        ChatMessage::new(MessageRole::User, content)
    }

    /// Builds a system message.
    pub fn from_system(content: String) -> (m: ChatMessage)
        ensures
            m@.role == MessageRole::System,
            m@.content == content@,
    {
        ChatMessage::new(MessageRole::System, content)
    }

    /// Builds an assistant message.
    pub fn from_assistant(content: String) -> (m: ChatMessage)
        ensures
            m@.role == MessageRole::Assistant,
            m@.content == content@,
    {
        ChatMessage::new(MessageRole::Assistant, content)
    }

    /// The role this message was constructed with.
    pub fn role(&self) -> (r: &MessageRole)
        ensures
            *r == self@.role,
    {
        &self.role
    }

    /// The content this message was constructed with.
    pub fn content(&self) -> (r: &str)
        ensures
            r@ == self@.content,
    {
        self.content.as_str()
    }
}

/// The ordered, append-only log of messages of one conversation.
#[derive(Debug)]
pub struct ChatConversation {
    messages: Vec<ChatMessage>,
}

impl View for ChatConversation {
    type V = Seq<MessageView>;

    closed spec fn view(&self) -> Seq<MessageView> {
        self.messages@.map_values(|m: ChatMessage| m@)
    }
}

impl ChatConversation {
    /// Builds an empty conversation.
    pub fn new() -> (c: ChatConversation)
        ensures
            c@ == Seq::<MessageView>::empty(),
    {
        let c = ChatConversation { messages: Vec::new() };
        proof {
            assert(c@ =~= Seq::<MessageView>::empty());
        }
        c
    }

    /// Appends a message at the end of the log. Nothing is ever removed.
    pub fn add_message(&mut self, message: ChatMessage)
        ensures
            final(self)@ == old(self)@.push(message@),
    {
        let ghost m = message@;
        self.messages.push(message);
        proof {
            assert(self@ =~= old(self)@.push(m));
        }
    }

    /// The number of messages in the log.
    pub fn len(&self) -> (n: usize)
        ensures
            n == self@.len(),
    {
        self.messages.len()
    }

    /// The message at position `i`.
    pub fn get(&self, i: usize) -> (m: &ChatMessage)
        requires
            i < self@.len(),
        ensures
            m@ == self@[i as int],
    {
        &self.messages[i]
    }
}

impl Default for ChatConversation {
    /// An empty conversation.
    fn default() -> (c: ChatConversation)
        ensures
            c@ == Seq::<MessageView>::empty(),
    {
        ChatConversation::new()
    }
}

} // verus!
