//! The bot's modules: state machines fed with chat messages and clock ticks that
//! answer with the actions the bot takes.

pub mod chat;
pub mod moderation;
pub mod shiftah;
pub mod thanos;

pub use chat::Chat;
pub use moderation::Moderation;
pub use moderation::ModerationConfig;
pub use shiftah::ShiftAh;
pub use thanos::Thanos;

use vstd::prelude::*;

use crate::text::strings_of;

verus! {

/// A chat message as Twitch delivers it, reduced to what the modules read.
pub struct ChatMessage {
    /// Login name of the sender.
    pub name: String,
    /// Channel the message was sent to.
    pub channel: String,
    /// The message text.
    pub data: String,
    pub is_moderator: bool,
    pub is_broadcaster: bool,
    pub is_vip: bool,
    pub is_subscriber: bool,
    /// When Twitch received the message (`tmi-sent-ts`), in milliseconds, if it said.
    pub sent_ts_ms: Option<u64>,
}

/// Something the bot does in chat.
pub enum Action {
    /// Post `text` in `channel`.
    Say { channel: String, text: String },
    /// Ban `user` from `channel`.
    Ban { channel: String, user: String, reason: String },
    /// Time `user` out of `channel` for `duration` seconds.
    Timeout { channel: String, user: String, duration: String, reason: String },
    /// Write `log` to the bot's log and send `text` to the moderators' report hook.
    Report { log: String, text: String },
    /// Time out each of `users` in turn for `duration` seconds with `reason`, as the
    /// `$snap` mini-game does.
    Snap { users: Vec<String>, duration: String, reason: String },
}

/// An [`Action`] with every string taken by its characters.
pub enum ActionView {
    Say { channel: Seq<char>, text: Seq<char> },
    Ban { channel: Seq<char>, user: Seq<char>, reason: Seq<char> },
    Timeout { channel: Seq<char>, user: Seq<char>, duration: Seq<char>, reason: Seq<char> },
    Report { log: Seq<char>, text: Seq<char> },
    Snap { users: Seq<Seq<char>>, duration: Seq<char>, reason: Seq<char> },
}

impl View for Action {
    type V = ActionView;

    open spec fn view(&self) -> ActionView {
        match self {
            Action::Say { channel, text } => ActionView::Say { channel: channel@, text: text@ },
            Action::Ban { channel, user, reason } => ActionView::Ban {
                channel: channel@,
                user: user@,
                reason: reason@,
            },
            Action::Timeout { channel, user, duration, reason } => ActionView::Timeout {
                channel: channel@,
                user: user@,
                duration: duration@,
                reason: reason@,
            },
            Action::Report { log, text } => ActionView::Report { log: log@, text: text@ },
            Action::Snap { users, duration, reason } => ActionView::Snap {
                users: strings_of(users@),
                duration: duration@,
                reason: reason@,
            },
        }
    }
}

/// The actions of `v`, each by its view.
pub open spec fn actions_view(v: Seq<Action>) -> Seq<ActionView> {
    v.map_values(|a: Action| a@)
}

/// The sender may run the bot's commands: the bot's owner, a moderator or the broadcaster.
pub open spec fn privileged(msg: ChatMessage, owner: Seq<char>) -> bool {
    msg.name@ == owner || msg.is_moderator || msg.is_broadcaster
}

/// Whether the sender of `msg` may run the bot's commands.
pub fn is_privileged(msg: &ChatMessage, owner: &String) -> (b: bool)
    ensures
        b == privileged(*msg, owner@),
{
    msg.name == *owner || msg.is_moderator || msg.is_broadcaster
}

/// Whether `s` holds exactly the characters of `lit`.
pub fn text_is(s: &String, lit: &str) -> (b: bool)
    ensures
        b == (s@ == lit@),
{
    *s == lit.to_owned()
}

} // verus!
