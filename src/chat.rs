//! Text chat between peers: messages and a bounded history.

use vstd::prelude::*;

verus! {

/// Most messages kept in the history; the oldest are dropped first.
pub const MAX_HISTORY_SIZE: usize = 1000;

/// Kind of a chat message.
#[derive(Debug, Clone, Copy, PartialEq, Eq, Structural)]
pub enum MessageType {
    Text,
    Code,
    System,
}

/// One chat message.
#[derive(Debug)]
pub struct ChatMessage {
    pub id: String,
    pub from_device_id: String,
    pub from_name: String,
    pub content: String,
    /// Unix milliseconds.
    pub timestamp: u64,
    /// Whether we sent it.
    pub is_local: bool,
    pub message_type: MessageType,
}

/// Relies on `uuid::Uuid::new_v4`: a fresh random identifier as text.
#[verifier::external_body]
fn new_message_id() -> (r: String) {
    uuid::Uuid::new_v4().to_string()
}

/// Relies on `std::time::SystemTime::now`: the wall clock in Unix
/// milliseconds (0 before the epoch).
#[verifier::external_body]
fn now_ms() -> (r: u64) {
    std::time::SystemTime::now().duration_since(std::time::UNIX_EPOCH).map(|d| d.as_millis() as u64).unwrap_or(0)
}

impl ChatMessage {
    /// A copy, field by field.
    pub fn duplicate(&self) -> (r: Self)
        ensures
            r == *self,
    {
        ChatMessage {
            id: self.id.clone(),
            from_device_id: self.from_device_id.clone(),
            from_name: self.from_name.clone(),
            content: self.content.clone(),
            timestamp: self.timestamp,
            is_local: self.is_local,
            message_type: self.message_type,
        }
    }

    /// A text message with a fresh id, stamped now.
    pub fn new(from_device_id: &str, from_name: &str, content: &str, is_local: bool) -> (r: Self)
        ensures
            r.from_device_id@ == from_device_id@,
            r.from_name@ == from_name@,
            r.content@ == content@,
            r.is_local == is_local,
            r.message_type == MessageType::Text,
    {
        ChatMessage {
            id: new_message_id(),
            from_device_id: from_device_id.to_string(),
            from_name: from_name.to_string(),
            content: content.to_string(),
            timestamp: now_ms(),
            is_local,
            message_type: MessageType::Text,
        }
    }

    /// A code-snippet message with a fresh id, stamped now.
    pub fn code(from_device_id: &str, from_name: &str, content: &str, is_local: bool) -> (r: Self)
        ensures
            r.from_device_id@ == from_device_id@,
            r.from_name@ == from_name@,
            r.content@ == content@,
            r.is_local == is_local,
            r.message_type == MessageType::Code,
    {
        let mut msg = ChatMessage::new(from_device_id, from_name, content, is_local);
        msg.message_type = MessageType::Code;
        msg
    }

    /// A local system notification with a fresh id, stamped now.
    pub fn system(content: &str) -> (r: Self)
        ensures
            r.from_device_id@ == "system"@,
            r.from_name@ == "System"@,
            r.content@ == content@,
            r.is_local,
            r.message_type == MessageType::System,
    {
        ChatMessage {
            id: new_message_id(),
            from_device_id: "system".to_string(),
            from_name: "System".to_string(),
            content: content.to_string(),
            timestamp: now_ms(),
            is_local: true,
            message_type: MessageType::System,
        }
    }
}

/// The history after adding `m` to `h`: appended, dropping the oldest
/// message when the history is full.
pub open spec fn history_after_add(h: Seq<ChatMessage>, m: ChatMessage) -> Seq<ChatMessage> {
    if h.len() >= MAX_HISTORY_SIZE {
        h.drop_first().push(m)
    } else {
        h.push(m)
    }
}

/// Message history, oldest first.
pub struct ChatManager {
    messages: Vec<ChatMessage>,
}

impl View for ChatManager {
    type V = Seq<ChatMessage>;

    closed spec fn view(&self) -> Seq<ChatMessage> {
        self.messages@
    }
}

impl ChatManager {
    /// An empty history.
    pub fn new() -> (r: Self)
        ensures
            r@ == Seq::<ChatMessage>::empty(),
    {
        ChatManager { messages: Vec::new() }
    }

    /// Appends a message, dropping the oldest when full.
    pub fn add_message(&mut self, message: ChatMessage)
        requires
            old(self)@.len() <= MAX_HISTORY_SIZE,
        ensures
            final(self)@ == history_after_add(old(self)@, message),
            final(self)@.len() <= MAX_HISTORY_SIZE,
    {
        if self.messages.len() >= MAX_HISTORY_SIZE {
            self.messages.remove(0);
        }
        self.messages.push(message);
    }

    /// Copies of all messages, oldest first.
    pub fn get_messages(&self) -> (r: Vec<ChatMessage>)
        ensures
            r@ == self@,
    {
        let mut out: Vec<ChatMessage> = Vec::new();
        let mut i: usize = 0;
        while i < self.messages.len()
            invariant
                i <= self@.len(),
                out@ == self@.subrange(0, i as int),
            decreases self@.len() - i,
        {
            out.push(self.messages[i].duplicate());
            i = i + 1;
        }
        out
    }

    /// Copies of the messages stamped after `timestamp`, oldest first.
    pub fn get_messages_after(&self, timestamp: u64) -> (r: Vec<ChatMessage>)
        ensures
            r@ == self@.filter(|m: ChatMessage| m.timestamp > timestamp),
    {
        let mut out: Vec<ChatMessage> = Vec::new();
        let mut i: usize = 0;
        while i < self.messages.len()
            invariant
                i <= self@.len(),
                out@ == self@.subrange(0, i as int).filter(|m: ChatMessage| m.timestamp > timestamp),
            decreases self@.len() - i,
        {
            proof {
                reveal(Seq::filter);
                assert(self@.subrange(0, i + 1).drop_last() =~= self@.subrange(0, i as int));
            }
            if self.messages[i].timestamp > timestamp {
                out.push(self.messages[i].duplicate());
            }
            i = i + 1;
        }
        assert(self@.subrange(0, self@.len() as int) =~= self@);
        out
    }

    /// Empties the history.
    pub fn clear(&mut self)
        ensures
            final(self)@ == Seq::<ChatMessage>::empty(),
    {
        self.messages = Vec::new();
    }

    /// Number of messages.
    pub fn message_count(&self) -> (r: usize)
        ensures
            r == self@.len(),
    {
        self.messages.len()
    }
}

/// Records a message we send; returns it.
pub fn send_message(manager: &mut ChatManager, content: &str, device_id: &str, device_name: &str) -> (r: ChatMessage)
    requires
        old(manager)@.len() <= MAX_HISTORY_SIZE,
    ensures
        r.content@ == content@,
        r.from_device_id@ == device_id@,
        r.from_name@ == device_name@,
        r.is_local,
        r.message_type == MessageType::Text,
        final(manager)@ == history_after_add(old(manager)@, r),
{
    let message = ChatMessage::new(device_id, device_name, content, true);
    manager.add_message(message.duplicate());
    message
}

/// Records a message received from a peer, with the peer's timestamp.
pub fn receive_message(manager: &mut ChatManager, from_device_id: &str, from_name: &str, content: &str, timestamp: u64)
    requires
        old(manager)@.len() <= MAX_HISTORY_SIZE,
    ensures
        final(manager)@.len() == history_after_add(old(manager)@, final(manager)@.last()).len(),
        final(manager)@ == history_after_add(old(manager)@, final(manager)@.last()),
        final(manager)@.last().content@ == content@,
        final(manager)@.last().from_device_id@ == from_device_id@,
        final(manager)@.last().from_name@ == from_name@,
        final(manager)@.last().timestamp == timestamp,
        !final(manager)@.last().is_local,
        final(manager)@.last().message_type == MessageType::Text,
{
    let mut message = ChatMessage::new(from_device_id, from_name, content, false);
    message.timestamp = timestamp;
    manager.add_message(message);
}

/// Records a system notification.
pub fn add_system_message(manager: &mut ChatManager, content: &str)
    requires
        old(manager)@.len() <= MAX_HISTORY_SIZE,
    ensures
        final(manager)@ == history_after_add(old(manager)@, final(manager)@.last()),
        final(manager)@.last().content@ == content@,
        final(manager)@.last().message_type == MessageType::System,
{
    let message = ChatMessage::system(content);
    manager.add_message(message);
}

} // verus!
