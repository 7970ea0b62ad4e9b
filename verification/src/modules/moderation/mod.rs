//! # Moderation
//!
//! Basic filters for common spam clean-up tasks. Privileged users can turn the
//! module off and on again:
//!
//!```text
//!$moderation on
//!    (mod only) turns on moderation
//!$moderation off
//!    (mod only) turns off moderation
//!```

pub mod asciiart;
pub mod misc;
pub mod noflood;

use vstd::prelude::*;

use crate::modules::{actions_view, is_privileged, privileged, text_is, Action, ActionView, ChatMessage};
use crate::table::{all_positive, distinct_names, rows_decremented, rows_update, NameTable};
use crate::text::{decimal, i32_to_decimal};
use asciiart::{ascii_art_verdict, AsciiArt};
use misc::{misc_verdict, Misc};
use noflood::{flood_verdict, log_after, NoFlood};

verus! {

/// A chat message as the filters see it. `ts_ms` is the time Twitch stamped on
/// the message, in milliseconds.
pub struct FilterMsg {
    pub nick: String,
    pub text: String,
    pub vip: bool,
    pub sub: bool,
    pub ts_ms: u64,
}

impl Clone for FilterMsg {
    fn clone(&self) -> (r: Self)
        ensures
            r == *self,
    {
        FilterMsg {
            nick: self.nick.clone(),
            text: self.text.clone(),
            vip: self.vip,
            sub: self.sub,
            ts_ms: self.ts_ms,
        }
    }
}

impl Default for FilterMsg {
    fn default() -> (r: Self)
        ensures
            r.nick@ == Seq::<char>::empty(),
            r.text@ == Seq::<char>::empty(),
            !r.vip,
            !r.sub,
            r.ts_ms == 0,
    {
        FilterMsg { nick: String::new(), text: String::new(), vip: false, sub: false, ts_ms: 0 }
    }
}

/// The configuration of the moderation module.
pub struct ModerationConfig {
    /// Timeout lengths in seconds by offence level; `-1` means a ban.
    pub lengths: Vec<i32>,
    pub antibot: bool,
    pub noflood: bool,
    pub asciiart: bool,
    pub misc: bool,
}

/// Ban levels fall by one every hour.
pub const HOUR_MS: u64 = 3_600_000;

/// The most that Twitch's stamp on a message may differ from the bot's clock.
pub const MAX_CLOCK_SKEW_MS: u64 = 30_000;

/// The message that the filters see for `msg`, stamped `ts`.
pub open spec fn filter_msg_of(msg: ChatMessage, ts: u64) -> FilterMsg {
    FilterMsg { nick: msg.name, text: msg.data, vip: msg.is_vip, sub: msg.is_subscriber, ts_ms: ts }
}

/// The flood filter's log after it has seen `m` (`None` when the filter is off).
pub open spec fn flood_after(flood: Option<Seq<FilterMsg>>, m: FilterMsg) -> Option<Seq<FilterMsg>> {
    match flood {
        Some(log) => Some(if m.vip { log } else { log_after(log, m) }),
        None => None,
    }
}

/// The verdict of the enabled filters on `m`: flood, ascii art, then the patterns;
/// the first filter that flags the message decides.
pub open spec fn screen_verdict(flood: Option<Seq<FilterMsg>>, asciiart: bool, misc: bool, m: FilterMsg) -> Option<(i32, &'static str)> {
    let f = match flood {
        Some(log) => if m.vip { None } else { flood_verdict(log_after(log, m), m.nick@) },
        None => None,
    };
    if f is Some {
        f
    } else if asciiart && ascii_art_verdict(m.text@) is Some {
        ascii_art_verdict(m.text@)
    } else if misc {
        misc_verdict(m.text@)
    } else {
        None
    }
}

/// The ban level of `name`: zero when the table does not hold it.
pub open spec fn level_of(levels: Map<Seq<char>, i32>, name: Seq<char>) -> int {
    if levels.contains_key(name) { levels[name] as int } else { 0 }
}

/// The timeout length for offence level `level`: levels past the end of `lengths`
/// get the last entry.
pub open spec fn length_for(lengths: Seq<i32>, level: int) -> i32 {
    if level >= lengths.len() { lengths[lengths.len() - 1] } else { lengths[level] }
}

/// How a report names the punishment `code`: `-2` is the anti-bot ban, `-1` a ban,
/// anything else a timeout of that many seconds.
pub open spec fn duration_label(code: i32) -> Seq<char> {
    if code == -2 {
        "ban (anti-bot)"@
    } else if code == -1 {
        "ban"@
    } else {
        decimal(code as int)
    }
}

/// The text that the report hook receives about a punishment.
pub open spec fn report_text(user: Seq<char>, reason: Seq<char>, duration: Seq<char>, message: Seq<char>) -> Seq<char> {
    "```\nusername: "@ + user + "\nreason:   "@ + reason + "\nduration: "@ + duration + "\nmessage:  "@ + message + "\n```"@
}

/// The log line about a punishment: duration, user, reason and message, separated by `": "`.
pub open spec fn log_text(duration: Seq<char>, user: Seq<char>, reason: Seq<char>, message: Seq<char>) -> Seq<char> {
    duration + ": "@ + user + ": "@ + reason + ": "@ + message
}

/// The actions for a flagged message: the report (log line and hook text), then the
/// ban or the timeout.
/// `anti_bot` is set when the anti-bot ban applies; `len` is the length for the
/// sender's new level.
pub open spec fn punishment(channel: Seq<char>, user: Seq<char>, message: Seq<char>, reason: Seq<char>, len: i32, anti_bot: bool) -> Seq<ActionView> {
    let code: i32 = if anti_bot { -2i32 } else { len };
    let report = ActionView::Report {
        log: log_text(duration_label(code), user, reason, message),
        text: report_text(user, reason, duration_label(code), message),
    };
    let act = if anti_bot {
        ActionView::Ban { channel, user, reason: "automatic ban (anti-bot): "@ + reason }
    } else if len == -1 {
        ActionView::Ban { channel, user, reason: "automatic ban: "@ + reason }
    } else {
        ActionView::Timeout { channel, user, duration: decimal(len as int), reason: "automatic timeout: "@ + reason }
    };
    seq![report, act]
}

/// The answer to a privileged command: what to say and whether moderation is off afterwards.
pub open spec fn command_reply(data: Seq<char>, channel: Seq<char>, killed: bool) -> (Seq<ActionView>, bool) {
    if data == "$moderation off"@ {
        (seq![ActionView::Say { channel, text: "moderation disabled"@ }], true)
    } else if data == "$moderation on"@ {
        (seq![ActionView::Say { channel, text: "moderation enabled"@ }], false)
    } else {
        (Seq::empty(), killed)
    }
}

/// Ban levels after `k` hourly decreases.
pub open spec fn decremented_times(rows: Seq<(Seq<char>, i32)>, k: nat) -> Seq<(Seq<char>, i32)>
    decreases k,
{
    if k == 0 { rows } else { rows_decremented(decremented_times(rows, (k - 1) as nat)) }
}

/// How many hourly decreases are due at `now` when the next one is due at `due`.
pub open spec fn hours_due(due: u64, now: u64) -> nat {
    if now > due { ((now - due - 1) as nat / HOUR_MS as nat + 1) as nat } else { 0 }
}

/// What the moderation module answers to one message.
pub struct ModerationStep {
    /// The actions to take, in order.
    pub actions: Vec<Action>,
    /// A filter flagged the message (the anti-bot counter counts these).
    pub flagged: bool,
}

/// The enabled filters, run in a fixed order.
pub struct Filters {
    noflood: Option<NoFlood>,
    asciiart: Option<AsciiArt>,
    misc: Option<Misc>,
}

impl Filters {
    /// The flood filter's log, if the filter is enabled.
    pub closed spec fn flood_log(&self) -> Option<Seq<FilterMsg>> {
        match self.noflood {
            Some(f) => Some(f.log()),
            None => None,
        }
    }

    /// Runs the enabled filters on `m`; the first that flags it decides.
    fn screen(&mut self, m: &FilterMsg) -> (r: Option<(i32, &'static str)>)
        ensures
            r == screen_verdict(old(self).flood_log(), old(self).asciiart is Some, old(self).misc is Some, *m),
            final(self).flood_log() == flood_after(old(self).flood_log(), *m),
            final(self).asciiart is Some == old(self).asciiart is Some,
            final(self).misc is Some == old(self).misc is Some,
            r matches Some(v) ==> v.0 > 0,
    {
        match &mut self.noflood {
            Some(f) => {
                let v = f.filter(m);
                if v.is_some() {
                    return v;
                }
            },
            None => {},
        }
        match &mut self.asciiart {
            Some(a) => {
                let v = a.filter(m);
                if v.is_some() {
                    return v;
                }
            },
            None => {},
        }
        match &mut self.misc {
            Some(f) => f.filter(m),
            None => None,
        }
    }
}

/// The moderation module.
pub struct Moderation {
    bans_ts: u64,
    lengths: Vec<i32>,
    antibot: bool,
    filters: Filters,
    bans: NameTable<i32>,
    kill_switch: bool,
}

impl Moderation {
    /// Well-formed: every ban level in the table is positive, and each name has one row.
    pub open spec fn wf(&self) -> bool {
        all_positive(self.level_rows()) && distinct_names(self.level_rows())
    }

    /// When the next hourly decrease of ban levels is due.
    pub closed spec fn next_decay_ms(&self) -> u64 {
        self.bans_ts
    }

    /// Timeout lengths by offence level.
    pub closed spec fn lengths(&self) -> Seq<i32> {
        self.lengths@
    }

    /// The anti-bot ban is enabled.
    pub closed spec fn antibot(&self) -> bool {
        self.antibot
    }

    /// The flood filter's log, if the filter is enabled.
    pub closed spec fn flood_log(&self) -> Option<Seq<FilterMsg>> {
        self.filters.flood_log()
    }

    /// The ascii art filter is enabled.
    pub closed spec fn asciiart_on(&self) -> bool {
        self.filters.asciiart is Some
    }

    /// The pattern filter is enabled.
    pub closed spec fn misc_on(&self) -> bool {
        self.filters.misc is Some
    }

    /// Ban levels by name, in table order.
    pub closed spec fn level_rows(&self) -> Seq<(Seq<char>, i32)> {
        self.bans.rows()
    }

    /// Ban levels by name.
    pub open spec fn levels(&self) -> Map<Seq<char>, i32> {
        crate::table::rows_map(self.level_rows())
    }

    /// Moderation has been turned off.
    pub closed spec fn killed(&self) -> bool {
        self.kill_switch
    }

    /// The verdict of the filters on `msg` (none when Twitch sent no time stamp).
    pub open spec fn verdict_on(&self, msg: ChatMessage) -> Option<(i32, &'static str)> {
        match msg.sent_ts_ms {
            Some(ts) => screen_verdict(self.flood_log(), self.asciiart_on(), self.misc_on(), filter_msg_of(msg, ts)),
            None => None,
        }
    }

    /// The flood log after the filters have seen `msg`.
    pub open spec fn flood_log_after(&self, msg: ChatMessage) -> Option<Seq<FilterMsg>> {
        match msg.sent_ts_ms {
            Some(ts) => flood_after(self.flood_log(), filter_msg_of(msg, ts)),
            None => self.flood_log(),
        }
    }

    /// The filters run on `msg` from a sender who is not privileged while moderation is on.
    pub open spec fn screens(&self, msg: ChatMessage, owner: Seq<char>) -> bool {
        !privileged(msg, owner) && !self.killed()
    }

    /// A new moderation module at time `now_ms`, with the filters that `config` enables.
    pub fn new(config: ModerationConfig, now_ms: u64) -> (m: Self)
        ensures
            m.next_decay_ms() == now_ms,
            m.lengths() == config.lengths@,
            m.antibot() == config.antibot,
            m.flood_log() == (if config.noflood { Some(Seq::<FilterMsg>::empty()) } else { None }),
            m.asciiart_on() == config.asciiart,
            m.misc_on() == config.misc,
            m.level_rows() == Seq::<(Seq<char>, i32)>::empty(),
            !m.killed(),
            m.wf(),
    {
        let noflood = if config.noflood { Some(NoFlood::new()) } else { None };
        let asciiart = if config.asciiart { Some(AsciiArt::new()) } else { None };
        let misc = if config.misc { Some(Misc::new()) } else { None };
        let bans = NameTable::new();
        Moderation {
            bans_ts: now_ms,
            lengths: config.lengths,
            antibot: config.antibot,
            filters: Filters { noflood, asciiart, misc },
            bans,
            kill_switch: false,
        }
    }

    /// Whether the filters run on `msg` (see [`Moderation::screens`]).
    pub fn will_screen(&self, msg: &ChatMessage, owner: &String) -> (b: bool)
        ensures
            b == self.screens(*msg, owner@),
    {
        !is_privileged(msg, owner) && !self.kill_switch
    }

    /// The ban level of `name` (zero when it has none).
    pub fn ban_level(&self, name: &String) -> (l: i32)
        requires
            self.wf(),
        ensures
            l == level_of(self.levels(), name@),
            l >= 0,
    {
        match self.bans.get(name) {
            Some(x) => {
                proof { self.lemma_level_positive(name@); }
                x
            },
            None => 0,
        }
    }

    proof fn lemma_level_positive(&self, name: Seq<char>)
        requires
            all_positive(self.level_rows()),
            self.levels().contains_key(name),
        ensures
            self.levels()[name] > 0,
    {
        let rows = self.level_rows();
        let i = choose|i: int| 0 <= i < rows.len() && #[trigger] rows[i].0 == name;
        assert(rows[i].1 > 0);
    }

    /// Runs the enabled filters on `msg`; the first that flags it decides.
    fn run_filters(&mut self, msg: &ChatMessage, now_ms: u64) -> (r: Option<(i32, &'static str)>)
        requires
            match msg.sent_ts_ms {
                Some(ts) => ts < now_ms + MAX_CLOCK_SKEW_MS && now_ms < ts + MAX_CLOCK_SKEW_MS,
                None => true,
            },
        ensures
            r == old(self).verdict_on(*msg),
            final(self).flood_log() == old(self).flood_log_after(*msg),
            final(self).next_decay_ms() == old(self).next_decay_ms(),
            final(self).lengths() == old(self).lengths(),
            final(self).antibot() == old(self).antibot(),
            final(self).asciiart_on() == old(self).asciiart_on(),
            final(self).misc_on() == old(self).misc_on(),
            final(self).level_rows() == old(self).level_rows(),
            final(self).killed() == old(self).killed(),
            final(self).wf() == old(self).wf(),
            r matches Some(v) ==> v.0 > 0,
    {
        let ts = match msg.sent_ts_ms {
            Some(t) => t,
            None => return None,
        };
        let fm = FilterMsg {
            nick: msg.name.clone(),
            text: msg.data.clone(),
            vip: msg.is_vip,
            sub: msg.is_subscriber,
            ts_ms: ts,
        };
        assert(fm == filter_msg_of(*msg, ts));
        self.filters.screen(&fm)
    }

    /// Lowers every ban level by one for each hour that has come due by `now_ms`.
    pub fn tick(&mut self, now_ms: u64)
        requires
            old(self).wf(),
            now_ms < u64::MAX - HOUR_MS,
        ensures
            final(self).wf(),
            final(self).level_rows() == decremented_times(old(self).level_rows(), hours_due(old(self).next_decay_ms(), now_ms)),
            final(self).next_decay_ms() == old(self).next_decay_ms() + hours_due(old(self).next_decay_ms(), now_ms) * HOUR_MS,
            final(self).lengths() == old(self).lengths(),
            final(self).antibot() == old(self).antibot(),
            final(self).flood_log() == old(self).flood_log(),
            final(self).asciiart_on() == old(self).asciiart_on(),
            final(self).misc_on() == old(self).misc_on(),
            final(self).killed() == old(self).killed(),
    {
        let ghost ts0 = self.bans_ts;
        let ghost rows0 = self.bans.rows();
        let ghost mut k: nat = 0;
        while now_ms > self.bans_ts
            invariant
                now_ms < u64::MAX - HOUR_MS,
                self.bans_ts == ts0 + k * HOUR_MS,
                self.bans.rows() == decremented_times(rows0, k),
                all_positive(self.bans.rows()),
                distinct_names(self.bans.rows()),
                k > 0 ==> ts0 + (k - 1) * HOUR_MS < now_ms,
                self.lengths@ == old(self).lengths@,
                self.antibot == old(self).antibot,
                self.filters == old(self).filters,
                self.kill_switch == old(self).kill_switch,
            decreases (if self.bans_ts < now_ms { now_ms - self.bans_ts } else { 0 }),
        {
            self.bans.decrement_all();
            self.bans_ts = self.bans_ts + HOUR_MS;
            proof {
                k = k + 1;
            }
        }
        proof {
            if now_ms > ts0 {
                assert(k > 0);
                let a = (now_ms - ts0 - 1) as int;
                lemma_div_between(a, HOUR_MS as int, (k - 1) as int);
            }
        }
    }

    /// Answers a chat message.
    ///
    /// A privileged sender (the owner, a moderator or the broadcaster) is never
    /// screened; `$moderation off` and `$moderation on` from them switch moderation
    /// off and on. While moderation is on, everyone else's messages go through the
    /// filters. A flagged message raises its sender's ban level by the filter's score
    /// and is punished by the length for the new level: a report to the moderators,
    /// then a ban (length `-1`) or a timeout. When `antibot_surge` is set (the
    /// anti-bot counter, with this message counted, is past its threshold) and the
    /// anti-bot ban is enabled, the sender is banned instead.
    pub fn privmsg(&mut self, msg: &ChatMessage, owner: &String, now_ms: u64, antibot_surge: bool) -> (out: ModerationStep)
        requires
            old(self).wf(),
            old(self).screens(*msg, owner@) ==> match msg.sent_ts_ms {
                Some(ts) => ts < now_ms + MAX_CLOCK_SKEW_MS && now_ms < ts + MAX_CLOCK_SKEW_MS,
                None => true,
            },
            old(self).screens(*msg, owner@) ==> match old(self).verdict_on(*msg) {
                Some(v) => old(self).lengths().len() > 0
                    && level_of(old(self).levels(), msg.name@) + v.0 <= i32::MAX,
                None => true,
            },
        ensures
            final(self).wf(),
            final(self).next_decay_ms() == old(self).next_decay_ms(),
            final(self).lengths() == old(self).lengths(),
            final(self).antibot() == old(self).antibot(),
            final(self).asciiart_on() == old(self).asciiart_on(),
            final(self).misc_on() == old(self).misc_on(),
            privileged(*msg, owner@) ==> {
                let reply = command_reply(msg.data@, msg.channel@, old(self).killed());
                &&& actions_view(out.actions@) == reply.0
                &&& final(self).killed() == reply.1
                &&& !out.flagged
                &&& final(self).flood_log() == old(self).flood_log()
                &&& final(self).level_rows() == old(self).level_rows()
            },
            !privileged(*msg, owner@) && old(self).killed() ==> {
                &&& out.actions@.len() == 0
                &&& !out.flagged
                &&& final(self).killed()
                &&& final(self).flood_log() == old(self).flood_log()
                &&& final(self).level_rows() == old(self).level_rows()
            },
            old(self).screens(*msg, owner@) ==> {
                &&& !final(self).killed()
                &&& final(self).flood_log() == old(self).flood_log_after(*msg)
                &&& out.flagged == old(self).verdict_on(*msg) is Some
                &&& match old(self).verdict_on(*msg) {
                    None => out.actions@.len() == 0 && final(self).level_rows() == old(self).level_rows(),
                    Some(v) => {
                        let level = level_of(old(self).levels(), msg.name@) + v.0;
                        &&& final(self).level_rows() == rows_update(old(self).level_rows(), msg.name@, level as i32)
                        &&& final(self).levels() == old(self).levels().insert(msg.name@, level as i32)
                        &&& actions_view(out.actions@) == punishment(
                            msg.channel@,
                            msg.name@,
                            msg.data@,
                            v.1@,
                            length_for(old(self).lengths(), level),
                            antibot_surge && old(self).antibot(),
                        )
                    },
                }
            },
    {
        if is_privileged(msg, owner) {
            let mut actions: Vec<Action> = Vec::new();
            if text_is(&msg.data, "$moderation off") {
                actions.push(Action::Say { channel: msg.channel.clone(), text: "moderation disabled".to_owned() });
                self.kill_switch = true;
            } else if text_is(&msg.data, "$moderation on") {
                actions.push(Action::Say { channel: msg.channel.clone(), text: "moderation enabled".to_owned() });
                self.kill_switch = false;
            }
            assert(actions_view(actions@) =~= command_reply(msg.data@, msg.channel@, old(self).killed()).0);
            return ModerationStep { actions, flagged: false };
        }
        if self.kill_switch {
            let actions: Vec<Action> = Vec::new();
            return ModerationStep { actions, flagged: false };
        }
        let verdict = self.run_filters(msg, now_ms);
        match verdict {
            None => {
                let actions: Vec<Action> = Vec::new();
                ModerationStep { actions, flagged: false }
            },
            Some((score, reason)) => {
                let prev = self.ban_level(&msg.name);
                let bans = prev + score;
                let n = self.lengths.len();
                let idx: usize = if bans as usize >= n { n - 1 } else { bans as usize };
                let len = self.lengths[idx];
                assert(len == length_for(old(self).lengths(), bans as int));
                let ghost old_rows = self.bans.rows();
                self.bans.insert(msg.name.clone(), bans);
                proof { lemma_update_positive(old_rows, msg.name@, bans); }
                let anti_bot = antibot_surge && self.antibot;
                let code: i32 = if anti_bot { -2 } else { len };
                let duration = duration_text(code);
                let report = Action::Report {
                    log: log_line(&duration, &msg.name, reason, &msg.data),
                    text: report(&msg.name, reason, &duration, &msg.data),
                };
                let act = if anti_bot {
                    Action::Ban {
                        channel: msg.channel.clone(),
                        user: msg.name.clone(),
                        reason: crate::text::joined("automatic ban (anti-bot): ", reason),
                    }
                } else if len == -1 {
                    Action::Ban {
                        channel: msg.channel.clone(),
                        user: msg.name.clone(),
                        reason: crate::text::joined("automatic ban: ", reason),
                    }
                } else {
                    Action::Timeout {
                        channel: msg.channel.clone(),
                        user: msg.name.clone(),
                        duration: i32_to_decimal(len),
                        reason: crate::text::joined("automatic timeout: ", reason),
                    }
                };
                let mut actions: Vec<Action> = Vec::new();
                actions.push(report);
                actions.push(act);
                assert(actions_view(actions@) =~= punishment(
                    msg.channel@,
                    msg.name@,
                    msg.data@,
                    reason@,
                    len,
                    anti_bot,
                ));
                ModerationStep { actions, flagged: true }
            },
        }
    }
}

/// `a / d == q` when `q * d <= a < (q + 1) * d`.
proof fn lemma_div_between(a: int, d: int, q: int)
    by (nonlinear_arith)
    requires
        d > 0,
        0 <= q,
        q * d <= a,
        a < (q + 1) * d,
    ensures
        a / d == q,
{
}

/// Giving a positive value keeps every ban level positive.
proof fn lemma_update_positive(rows: Seq<(Seq<char>, i32)>, k: Seq<char>, v: i32)
    requires
        all_positive(rows),
        v > 0,
    ensures
        all_positive(rows_update(rows, k, v)),
{
    let new_rows = rows_update(rows, k, v);
    assert forall|i: int| 0 <= i < new_rows.len() implies #[trigger] new_rows[i].1 > 0 by {
        if i < rows.len() && new_rows[i] == rows[i] {
            assert(rows[i].1 > 0);
        }
    }
}

/// How a report names the punishment `code`, see [`duration_label`].
pub fn duration_text(code: i32) -> (s: String)
    ensures
        s@ == duration_label(code),
{
    if code == -2 {
        "ban (anti-bot)".to_owned()
    } else if code == -1 {
        "ban".to_owned()
    } else {
        i32_to_decimal(code)
    }
}

/// The log line about a punishment, see [`log_text`].
pub fn log_line(duration: &String, user: &String, reason: &str, message: &String) -> (s: String)
    ensures
        s@ == log_text(duration@, user@, reason@, message@),
{
    let mut s = duration.clone();
    s.append(": ");
    s.append(user.as_str());
    s.append(": ");
    s.append(reason);
    s.append(": ");
    s.append(message.as_str());
    s
}

/// The report about a punishment, see [`report_text`].
pub fn report(user: &String, reason: &str, duration: &String, message: &String) -> (s: String)
    ensures
        s@ == report_text(user@, reason@, duration@, message@),
{
    let mut s = "```\nusername: ".to_owned();
    s.append(user.as_str());
    s.append("\nreason:   ");
    s.append(reason);
    s.append("\nduration: ");
    s.append(duration.as_str());
    s.append("\nmessage:  ");
    s.append(message.as_str());
    s.append("\n```");
    s
}

} // verus!
