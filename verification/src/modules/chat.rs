//! Basic module for logging sent chat messages.

use vstd::prelude::*;

use crate::modules::ChatMessage;

verus! {

/// The log line for a message: the sender in angle brackets, a space, the text.
pub open spec fn chat_line(name: Seq<char>, data: Seq<char>) -> Seq<char> {
    "<"@ + name + "> "@ + data
}

/// The chat logger. It keeps no state.
pub struct Chat;

impl Chat {
    pub fn new() -> (c: Self) {
        Chat
    }

    /// The line to log for `msg`, see [`chat_line`].
    pub fn privmsg(&mut self, msg: &ChatMessage) -> (line: String)
        ensures
            line@ == chat_line(msg.name@, msg.data@),
    {
        let mut line = "<".to_owned();
        line.append(msg.name.as_str());
        line.append("> ");
        line.append(msg.data.as_str());
        line
    }
}

} // verus!
