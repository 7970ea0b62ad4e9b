//! SHiFT chat easter egg. Randomly says "shiftAh" in chat.

use vstd::prelude::*;

use crate::chance::random_u32;
use crate::modules::{actions_view, Action, ActionView, ChatMessage};

verus! {

/// A 32-bit draw below this fires the easter egg: one chance in 8192 (2^32 / 2^19).
/// This is the event `rand::random::<f32>() < 1.0 / 8192.0` on the same draw, since
/// rand builds that float from the draw's top 24 bits.
pub const SHIFTAH_BELOW: u32 = 524_288;

/// What the easter egg does for a message in `channel` when the draw is `roll`.
pub open spec fn shiftah_reply(channel: Seq<char>, roll: u32) -> Seq<ActionView> {
    if roll < SHIFTAH_BELOW {
        seq![ActionView::Say { channel, text: "shiftAh"@ }]
    } else {
        Seq::empty()
    }
}

/// The easter egg. It remembers the draw that decided its last answer.
pub struct ShiftAh {
    last_roll: u32,
}

impl ShiftAh {
    /// The draw that decided the last answer (`u32::MAX`, which fires nothing, before
    /// the first one).
    pub closed spec fn last_roll(&self) -> u32 {
        self.last_roll
    }

    pub fn new() -> (s: Self)
        ensures
            s.last_roll() == u32::MAX,
    {
        ShiftAh { last_roll: u32::MAX }
    }

    /// What to do for `msg` when the draw is `roll`, see [`shiftah_reply`].
    pub fn respond(&self, msg: &ChatMessage, roll: u32) -> (actions: Vec<Action>)
        ensures
            actions_view(actions@) == shiftah_reply(msg.channel@, roll),
    {
        let mut actions: Vec<Action> = Vec::new();
        if roll < SHIFTAH_BELOW {
            actions.push(Action::Say { channel: msg.channel.clone(), text: "shiftAh".to_owned() });
        }
        assert(actions_view(actions@) =~= shiftah_reply(msg.channel@, roll));
        actions
    }

    /// Draws and answers `msg`: the answer is the one for the draw, which is remembered;
    /// whatever the draw, the answer is nothing or "shiftAh" in the message's channel.
    pub fn privmsg(&mut self, msg: &ChatMessage) -> (actions: Vec<Action>)
        ensures
            exists|roll: u32| actions_view(actions@) == #[trigger] shiftah_reply(msg.channel@, roll),
            actions_view(actions@) == shiftah_reply(msg.channel@, final(self).last_roll()),
    {
        let roll = random_u32();
        self.last_roll = roll;
        self.respond(msg, roll)
    }
}

} // verus!
