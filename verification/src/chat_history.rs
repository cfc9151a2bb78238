//! Records of stored conversations, and the requests that create and extend them.

use vstd::prelude::*;
use crate::chat::{message_views, ChatMessage as OutgoingMessage, MessageView};

verus! {

/// A stored conversation.
pub struct ChatSession {
    pub id: i64,
    pub title: String,
    pub model_name: String,
    /// The session's settings as JSON; `None` for sessions stored before settings were.
    pub settings: Option<String>,
    pub created_at: String,
    pub updated_at: String,
}

/// A stored message of a conversation.
pub struct ChatMessage {
    pub id: i64,
    pub session_id: i64,
    pub role: String,
    pub content: String,
    pub thinking: Option<String>,
    pub created_at: String,
}

/// A conversation with its messages, oldest first.
pub struct ChatSessionWithMessages {
    pub session: ChatSession,
    pub messages: Vec<ChatMessage>,
}

/// A request to start a conversation with a model, optionally titled.
pub struct CreateSessionRequest {
    pub model_name: String,
    pub title: Option<String>,
}

/// A message sent from the user interface.
pub struct ChatMessageData {
    pub role: String,
    pub content: String,
}

/// The title a new conversation is stored with: the one given, or `New Chat`.
pub fn new_session_title(title: Option<&str>) -> (r: String)
    ensures
        r@ == match title {
            Some(t) => t@,
            None => "New Chat"@,
        },
{
    match title {
        Some(t) => String::from_str(t),
        None => String::from_str("New Chat"),
    }
}

/// The reasoning stored with a streamed reply: none when the model produced none.
pub fn stored_thinking(thinking: &str) -> (r: Option<String>)
    ensures
        match r {
            Some(t) => t@ == thinking@ && thinking@.len() > 0,
            None => thinking@.len() == 0,
        },
{
    if thinking.unicode_len() == 0 {
        None
    } else {
        Some(String::from_str(thinking))
    }
}

/// A message from the user interface as the model receives it: no reasoning.
pub open spec fn incoming_view(d: ChatMessageData) -> MessageView {
    MessageView { role: d.role@, content: d.content@, thinking: None }
}

/// The messages sent to the model for a conversation from the user interface: each
/// role and content, without reasoning.
pub fn outgoing_messages(data: &Vec<ChatMessageData>) -> (r: Vec<OutgoingMessage>)
    ensures
        message_views(r@) == data@.map_values(|d: ChatMessageData| incoming_view(d)),
{
    let mut r: Vec<OutgoingMessage> = Vec::new();
    let mut i: usize = 0;
    while i < data.len()
        invariant
            i <= data@.len(),
            message_views(r@) == data@.subrange(0, i as int).map_values(|d: ChatMessageData| incoming_view(d)),
        decreases data@.len() - i,
    {
        let m = OutgoingMessage::new(data[i].role.as_str(), data[i].content.as_str());
        let ghost prev = r@;
        r.push(m);
        proof {
            assert(m@ == incoming_view(data@[i as int]));
            assert(r@ == prev.push(m));
            assert(message_views(r@) =~= message_views(prev).push(m@));
            assert(data@.subrange(0, i + 1) =~= data@.subrange(0, i as int).push(data@[i as int]));
            assert(message_views(r@) =~= data@.subrange(0, i + 1).map_values(|d: ChatMessageData| incoming_view(d)));
        }
        i = i + 1;
    }
    assert(data@.subrange(0, data@.len() as int) =~= data@);
    r
}

} // verus!
