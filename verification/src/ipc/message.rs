//! How the kernel stores a message while it waits.
use vstd::prelude::*;
use crate::abi::Message;

verus! {

/// How a message's bytes are stored. Every message fits the inline form,
/// passed entirely in registers; `OutOfLine` is the shape that a larger
/// payload would take.
#[derive(Debug, Clone, Copy)]
pub enum MessagePayload {
    Inline(Message),
    OutOfLine { page: u64, len: usize },
}

impl MessagePayload {
    pub fn inline(message: Message) -> (r: Self)
        ensures
            r == MessagePayload::Inline(message),
    {
        MessagePayload::Inline(message)
    }

    /// Recovers the inline message.
    pub fn into_inline(self) -> (r: Message)
        requires
            self is Inline,
        ensures
            self == MessagePayload::Inline(r),
    {
        match self {
            MessagePayload::Inline(m) => m,
            MessagePayload::OutOfLine { page, len } => Message::default(),
        }
    }
}

} // verus!
