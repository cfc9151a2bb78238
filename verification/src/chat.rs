//! Messages exchanged with the local model server's chat endpoint.

use vstd::prelude::*;

verus! {

/// One message of a conversation.
#[derive(Debug, Clone)]
pub struct ChatMessage {
    pub role: String,
    pub content: String,
    /// Model reasoning that accompanied the message, if any.
    pub thinking: Option<String>,
}

/// The mathematical content of a message: its role, content and reasoning as text.
pub struct MessageView {
    pub role: Seq<char>,
    pub content: Seq<char>,
    pub thinking: Option<Seq<char>>,
}

/// The text of an optional string.
pub open spec fn opt_view(o: Option<String>) -> Option<Seq<char>> {
    match o {
        Some(s) => Some(s@),
        None => None,
    }
}

impl View for ChatMessage {
    type V = MessageView;

    open spec fn view(&self) -> MessageView {
        MessageView { role: self.role@, content: self.content@, thinking: opt_view(self.thinking) }
    }
}

/// The views of a sequence of messages.
pub open spec fn message_views(s: Seq<ChatMessage>) -> Seq<MessageView> {
    s.map_values(|m: ChatMessage| m@)
}

impl ChatMessage {
    /// A message without reasoning.
    pub fn new(role: &str, content: &str) -> (r: ChatMessage)
        ensures
            r@ == (MessageView { role: role@, content: content@, thinking: None }),
    {
        ChatMessage { role: String::from_str(role), content: String::from_str(content), thinking: None }
    }

    /// A copy of this message with the same text.
    pub fn duplicate(&self) -> (r: ChatMessage)
        ensures
            r@ == self@,
    {
        let thinking = match &self.thinking {
            Some(t) => Some(t.clone()),
            None => None,
        };
        ChatMessage { role: self.role.clone(), content: self.content.clone(), thinking }
    }
}

/// Final statistics of a chat reply, with its complete message.
#[derive(Debug, Clone)]
pub struct ChatResponse {
    pub message: ChatMessage,
    pub done: bool,
    pub total_duration: Option<u64>,
    pub load_duration: Option<u64>,
    pub prompt_eval_count: Option<i32>,
    pub prompt_eval_duration: Option<u64>,
    pub eval_count: Option<i32>,
    pub eval_duration: Option<u64>,
}

/// What a streaming chat reports to its consumer.
#[derive(Debug, Clone)]
pub enum ChatEvent {
    /// The content received so far (accumulated, not a delta).
    MessageChunk(String),
    /// The reply is complete.
    Done(ChatResponse),
    /// The stream failed.
    Error(String),
}

} // verus!
