//!# Thanos Snap
//!
//!**WARNING:** This module can and will ruin chat.
//!
//! The Thanos Snap module is a module to be used after the "Thanos Snap"
//! channel point reward has been redeemed. To prevent abuse and accidental
//! activations, 3 mods need to run the command in a short time period before it
//! will go off: the votes are forgotten when the list of chatters is cleaned,
//! every 15 minutes.
//!
//!```text
//!$snap run
//!    (mod only) After 3 different moderators run this, half of the people who
//!    have spoken in chat in the past 15 minutes (rounded up, drawn at random)
//!    will get a 30 minute timeout.
//!    $snap will be disabled afterward.
//!$snap rearm
//!    (bot/channel owner only) Rearms $snap after it has been disabled.
//!```

use vstd::prelude::*;

use crate::chance::random_below;
use crate::modules::{actions_view, is_privileged, privileged, text_is, Action, ActionView, ChatMessage};
use crate::table::{distinct_names, lemma_rows_where_distinct, lemma_rows_where_idempotent, recent_within, rows_update, rows_where, NameTable};
use crate::text::{decimal, i32_to_decimal, split_words, strings_of, whitespace_words};

verus! {

broadcast use vstd::string::group_string_axioms;

/// How long a chatter counts as recent, and how often the list of chatters is cleaned.
pub const SNAP_WINDOW_MS: u64 = 900_000;

/// How many different moderators must run `$snap run`.
pub const SNAP_VOTES: usize = 3;

/// How long a snapped chatter is timed out, in seconds.
pub const SNAP_TIMEOUT_SECS: i32 = 30 * 60;

/// The reason given to snapped chatters.
pub const SNAP_REASON: &'static str = "gone, reduced to atoms";

/// Where the snap stands.
#[derive(PartialEq, Eq, Structural, Clone, Copy, Debug)]
pub enum SnapState {
    /// Collecting votes.
    Idle,
    /// Gone off: only `$snap rearm` brings it back.
    Disabled,
}

/// `words[i]` exists and is `lit`.
pub open spec fn word_is(words: Seq<Seq<char>>, i: int, lit: Seq<char>) -> bool {
    words.len() > i && words[i] == lit
}

/// The sender may rearm the snap: the bot's owner or the broadcaster.
pub open spec fn may_rearm(msg: ChatMessage, owner: Seq<char>) -> bool {
    msg.name@ == owner || msg.is_broadcaster
}

/// No name occurs twice in `names`.
pub open spec fn distinct(names: Seq<Seq<char>>) -> bool {
    forall|i: int, j: int| 0 <= i < names.len() && 0 <= j < names.len() && i != j ==> #[trigger] names[i] != #[trigger] names[j]
}

/// What a `$snap` command does.
pub struct SnapOutcome {
    /// What the bot says.
    pub say: Seq<ActionView>,
    /// The state afterwards.
    pub state: SnapState,
    /// The votes afterwards.
    pub voters: Seq<Seq<char>>,
    /// The snap goes off.
    pub fires: bool,
}

/// The outcome of a `$snap` command with words `w` from `sender`, in state `state`
/// with the votes `voters`; `rearm_ok` says whether the sender may rearm.
pub open spec fn snap_command(state: SnapState, voters: Seq<Seq<char>>, w: Seq<Seq<char>>, channel: Seq<char>, sender: Seq<char>, rearm_ok: bool) -> SnapOutcome {
    if word_is(w, 1, "rearm"@) && rearm_ok {
        SnapOutcome { say: seq![ActionView::Say { channel, text: "$snap rearmed"@ }], state: SnapState::Idle, voters: Seq::empty(), fires: false }
    } else if state == SnapState::Disabled {
        SnapOutcome {
            say: seq![ActionView::Say { channel, text: "$snap currently disabled. it should be rearmed with $snap rearm"@ }],
            state: SnapState::Disabled,
            voters,
            fires: false,
        }
    } else if word_is(w, 1, "run"@) {
        let v = if voters.contains(sender) { voters } else { voters.push(sender) };
        if v.len() >= SNAP_VOTES {
            SnapOutcome { say: seq![ActionView::Say { channel, text: "*snap*"@ }], state: SnapState::Disabled, voters: Seq::empty(), fires: true }
        } else {
            SnapOutcome { say: Seq::empty(), state: SnapState::Idle, voters: v, fires: false }
        }
    } else {
        SnapOutcome { say: Seq::empty(), state, voters, fires: false }
    }
}

/// What reaches the snap's votes: a chat message, or a cleaning of the list of chatters.
pub enum SnapEvent {
    /// A message with words `words` from `sender`; `privileged` says whether the sender
    /// may run the bot's commands, `rearm_ok` whether the sender may rearm the snap.
    Message { words: Seq<Seq<char>>, sender: Seq<char>, privileged: bool, rearm_ok: bool },
    /// A due cleaning of the list of chatters.
    Cleaning,
}

/// The event is a `$snap` command that the snap runs: a privileged sender's message
/// whose first word is `$snap`.
pub open spec fn is_snap_command(e: SnapEvent) -> bool {
    e matches SnapEvent::Message { words, privileged, .. } && words.len() > 0 && words[0] == "$snap"@ && privileged
}

/// The event clears the votes whatever they were: a cleaning, or a `$snap rearm` from a
/// sender who may rearm.
pub open spec fn resets_votes(e: SnapEvent) -> bool {
    ||| e is Cleaning
    ||| is_snap_command(e) && (e matches SnapEvent::Message { words, rearm_ok, .. } && word_is(words, 1, "rearm"@) && rearm_ok)
}

/// The event is a `$snap run` that `name` sent with the right to run it.
pub open spec fn runs_snap(e: SnapEvent, name: Seq<char>) -> bool {
    is_snap_command(e) && (e matches SnapEvent::Message { words, sender, .. } && word_is(words, 1, "run"@) && sender == name)
}

/// The different senders of a `$snap run`, with the right to run it, among `evs`.
pub open spec fn snap_runners(evs: Seq<SnapEvent>) -> Set<Seq<char>> {
    Set::new(|name: Seq<char>| exists|i: int| 0 <= i < evs.len() && #[trigger] runs_snap(evs[i], name))
}

/// The snap's state, votes, and whether it has gone off, after the event `e` from `st`
/// (the channel does not matter to any of them).
pub open spec fn snap_step(st: (SnapState, Seq<Seq<char>>, bool), e: SnapEvent) -> (SnapState, Seq<Seq<char>>, bool) {
    match e {
        SnapEvent::Cleaning => (st.0, Seq::empty(), st.2),
        SnapEvent::Message { words, sender, privileged, rearm_ok } => {
            if is_snap_command(e) {
                let out = snap_command(st.0, st.1, words, Seq::empty(), sender, rearm_ok);
                (out.state, out.voters, st.2 || out.fires)
            } else {
                st
            }
        },
    }
}

/// The snap's state and votes after the events `evs` from `state` with the votes
/// `voters`, and whether it went off on the way.
pub open spec fn snap_replay(state: SnapState, voters: Seq<Seq<char>>, evs: Seq<SnapEvent>) -> (SnapState, Seq<Seq<char>>, bool)
    decreases evs.len(),
{
    if evs.len() == 0 {
        (state, voters, false)
    } else {
        snap_step(snap_replay(state, voters, evs.drop_last()), evs.last())
    }
}

/// Some action of `actions` sets the snap off.
pub open spec fn sets_snap_off(actions: Seq<Action>) -> bool {
    exists|i: int| 0 <= i < actions.len() && #[trigger] actions[i] is Snap
}

/// How many of `n` recent chatters the snap times out: half, rounded up.
pub open spec fn snap_count(n: nat) -> nat {
    (n + 1) / 2
}

/// `draws` can be drawn from a pool of `n`: there are at most `n` of them, and the
/// `k`-th lies below `n - k`, the size of the pool when it is drawn.
pub open spec fn valid_draws(n: nat, draws: Seq<usize>) -> bool {
    &&& draws.len() <= n
    &&& forall|k: int| 0 <= k < draws.len() ==> #[trigger] draws[k] < n - k
}

/// What the draws `draws` take from `pool`, in order: each draw takes the candidate at
/// its index among those still in the pool, and that candidate leaves the pool.
pub open spec fn drawn(pool: Seq<Seq<char>>, draws: Seq<usize>) -> Seq<Seq<char>>
    decreases draws.len(),
{
    if draws.len() == 0 || pool.len() == 0 {
        Seq::empty()
    } else {
        seq![pool[draws[0] as int]] + drawn(pool.remove(draws[0] as int), draws.drop_first())
    }
}

/// Valid draws take one candidate each, every one from the pool, and none twice when
/// the pool holds no name twice.
pub proof fn lemma_drawn(pool: Seq<Seq<char>>, draws: Seq<usize>)
    requires
        valid_draws(pool.len(), draws),
    ensures
        drawn(pool, draws).len() == draws.len(),
        forall|i: int| 0 <= i < draws.len() ==> pool.contains(#[trigger] drawn(pool, draws)[i]),
        distinct(pool) ==> distinct(drawn(pool, draws)),
    decreases draws.len(),
{
    if draws.len() > 0 {
        let d = draws[0] as int;
        let rest = pool.remove(d);
        let tail = draws.drop_first();
        assert(valid_draws(rest.len(), tail)) by {
            assert forall|k: int| 0 <= k < tail.len() implies #[trigger] tail[k] < rest.len() - k by {
                assert(tail[k] == draws[k + 1]);
            }
        }
        lemma_drawn(rest, tail);
        let r = drawn(rest, tail);
        let out = drawn(pool, draws);
        assert(out == seq![pool[d]] + r);
        assert forall|i: int| 0 <= i < draws.len() implies pool.contains(#[trigger] out[i]) by {
            if i == 0 {
                assert(pool[d] == out[0]);
            } else {
                assert(out[i] == r[i - 1]);
                assert(rest.contains(r[i - 1]));
                let j = choose|j: int| 0 <= j < rest.len() && rest[j] == r[i - 1];
                if j < d {
                    assert(rest[j] == pool[j]);
                } else {
                    assert(rest[j] == pool[j + 1]);
                }
            }
        }
        if distinct(pool) {
            assert(distinct(rest)) by {
                assert forall|i: int, j: int| 0 <= i < rest.len() && 0 <= j < rest.len() && i != j
                    implies #[trigger] rest[i] != #[trigger] rest[j] by {
                    let pi = if i < d { i } else { i + 1 };
                    let pj = if j < d { j } else { j + 1 };
                    assert(rest[i] == pool[pi]);
                    assert(rest[j] == pool[pj]);
                }
            }
            assert forall|i: int, j: int| 0 <= i < out.len() && 0 <= j < out.len() && i != j
                implies #[trigger] out[i] != #[trigger] out[j] by {
                if i > 0 && j > 0 {
                    assert(out[i] == r[i - 1]);
                    assert(out[j] == r[j - 1]);
                } else {
                    let m = if i == 0 { j } else { i };
                    assert(out[m] == r[m - 1]);
                    assert(rest.contains(r[m - 1]));
                    let q = choose|q: int| 0 <= q < rest.len() && rest[q] == r[m - 1];
                    let pq = if q < d { q } else { q + 1 };
                    assert(rest[q] == pool[pq]);
                    assert(out[0] == pool[d]);
                }
            }
        }
    }
}

/// The names of the rows stamped less than the window before `now`, in order.
pub open spec fn recent_names_of(rows: Seq<(Seq<char>, u64)>, now: u64) -> Seq<Seq<char>> {
    rows_where(rows, recent_within(now, SNAP_WINDOW_MS)).map_values(|r: (Seq<char>, u64)| r.0)
}

/// When each chatter has one row, the recent names hold no name twice.
pub proof fn lemma_recent_names_distinct(rows: Seq<(Seq<char>, u64)>, now: u64)
    requires
        distinct_names(rows),
    ensures
        distinct(recent_names_of(rows, now)),
{
    let w = rows_where(rows, recent_within(now, SNAP_WINDOW_MS));
    lemma_rows_where_distinct(rows, recent_within(now, SNAP_WINDOW_MS));
    let names = recent_names_of(rows, now);
    assert forall|i: int, j: int| 0 <= i < names.len() && 0 <= j < names.len() && i != j
        implies #[trigger] names[i] != #[trigger] names[j] by {
        assert(names[i] == w[i].0);
        assert(names[j] == w[j].0);
    }
}

/// `users` is what the snap can take among `candidates`: half of them, rounded up,
/// each a candidate, none twice.
pub open spec fn snap_pick(candidates: Seq<Seq<char>>, users: Seq<Seq<char>>) -> bool {
    &&& users.len() == snap_count(candidates.len())
    &&& forall|i: int| 0 <= i < users.len() ==> candidates.contains(#[trigger] users[i])
    &&& distinct(users)
}

/// Takes from `candidates` what the draws `draws` pick, see [`drawn`].
pub fn pick(candidates: Vec<String>, draws: &Vec<usize>) -> (users: Vec<String>)
    requires
        valid_draws(candidates@.len(), draws@),
    ensures
        strings_of(users@) == drawn(strings_of(candidates@), draws@),
{
    let ghost whole = drawn(strings_of(candidates@), draws@);
    let mut pool = candidates;
    let mut users: Vec<String> = Vec::new();
    let mut i: usize = 0;
    assert(draws@.skip(0) == draws@);
    assert(strings_of(users@) + drawn(strings_of(pool@), draws@) =~= whole);
    while i < draws.len()
        invariant
            i <= draws@.len(),
            valid_draws(candidates@.len(), draws@),
            pool@.len() == candidates@.len() - i,
            whole == drawn(strings_of(candidates@), draws@),
            strings_of(users@) + drawn(strings_of(pool@), draws@.skip(i as int)) == whole,
        decreases draws@.len() - i,
    {
        let ghost p = strings_of(pool@);
        let ghost u = strings_of(users@);
        let ghost rest = draws@.skip(i as int);
        assert(rest[0] == draws@[i as int]);
        assert(rest.drop_first() == draws@.skip(i + 1));
        assert(drawn(p, rest) == seq![p[draws@[i as int] as int]] + drawn(p.remove(draws@[i as int] as int), draws@.skip(i + 1)));
        let d = draws[i];
        let taken = pool.remove(d);
        users.push(taken);
        assert(strings_of(pool@) =~= p.remove(d as int));
        assert(strings_of(users@) =~= u.push(p[d as int]));
        assert(strings_of(users@) + drawn(strings_of(pool@), draws@.skip(i + 1)) =~= u + drawn(p, rest));
        i = i + 1;
    }
    assert(draws@.skip(i as int).len() == 0);
    assert(strings_of(users@) + drawn(strings_of(pool@), draws@.skip(i as int)) =~= strings_of(users@));
    users
}

/// Whether the second word of `words` is `lit`.
fn second_word_is(words: &Vec<String>, lit: &str) -> (b: bool)
    ensures
        b == word_is(strings_of(words@), 1, lit@),
{
    words.len() >= 2 && text_is(&words[1], lit)
}

/// The snap mini-game.
pub struct Thanos {
    chatters: NameTable<u64>,
    state: SnapState,
    voters: Vec<String>,
    cleanup_ts: u64,
}

impl Thanos {
    /// Where the snap stands.
    pub closed spec fn state(&self) -> SnapState {
        self.state
    }

    /// The moderators who have run `$snap run` since the votes were last cleared.
    pub closed spec fn voters(&self) -> Seq<Seq<char>> {
        strings_of(self.voters@)
    }

    /// Who spoke last when, in milliseconds, in order of first appearance.
    pub closed spec fn chatter_rows(&self) -> Seq<(Seq<char>, u64)> {
        self.chatters.rows()
    }

    /// When the list of chatters is cleaned next.
    pub closed spec fn next_cleanup_ms(&self) -> u64 {
        self.cleanup_ts
    }

    /// Well-formed: the votes are from different moderators, fewer than `SNAP_VOTES`,
    /// and each chatter has one row.
    pub open spec fn wf(&self) -> bool {
        distinct(self.voters()) && self.voters().len() < SNAP_VOTES && distinct_names(self.chatter_rows())
    }

    /// A new snap at time `now_ms`: idle, with no votes, nobody has spoken yet.
    pub fn new(now_ms: u64) -> (t: Self)
        requires
            now_ms <= u64::MAX - SNAP_WINDOW_MS,
        ensures
            t.wf(),
            t.state() == SnapState::Idle,
            t.voters() == Seq::<Seq<char>>::empty(),
            t.chatter_rows() == Seq::<(Seq<char>, u64)>::empty(),
            t.next_cleanup_ms() == now_ms + SNAP_WINDOW_MS,
    {
        let t = Thanos { chatters: NameTable::new(), state: SnapState::Idle, voters: Vec::new(), cleanup_ts: now_ms + SNAP_WINDOW_MS };
        assert(t.voters() =~= Seq::<Seq<char>>::empty());
        t
    }

    /// Picks the snap's victims: half of the chatters who spoke in the window before
    /// `now_ms`, rounded up, drawn at random one by one.
    fn do_snap(&self, now_ms: u64) -> (users: Vec<String>)
        requires
            distinct_names(self.chatter_rows()),
        ensures
            snap_pick(recent_names_of(self.chatter_rows(), now_ms), strings_of(users@)),
    {
        let candidates = self.chatters.recent_names(now_ms, SNAP_WINDOW_MS);
        let ghost cands = strings_of(candidates@);
        assert(cands == recent_names_of(self.chatter_rows(), now_ms));
        let n = candidates.len();
        let k = n - n / 2;
        let mut draws: Vec<usize> = Vec::new();
        let mut i: usize = 0;
        while i < k
            invariant
                i <= k,
                k <= n,
                draws@.len() == i,
                forall|j: int| 0 <= j < i ==> #[trigger] draws@[j] < n - j,
            decreases k - i,
        {
            let d = random_below(n - i);
            draws.push(d);
            i = i + 1;
        }
        proof {
            lemma_drawn(cands, draws@);
            lemma_recent_names_distinct(self.chatter_rows(), now_ms);
        }
        pick(candidates, &draws)
    }

    /// Whether `name` has voted.
    fn has_voted(&self, name: &String) -> (b: bool)
        ensures
            b == self.voters().contains(name@),
    {
        let mut i: usize = 0;
        while i < self.voters.len()
            invariant
                i <= self.voters@.len(),
                forall|j: int| 0 <= j < i ==> #[trigger] self.voters()[j] != name@,
            decreases self.voters@.len() - i,
        {
            if self.voters[i] == *name {
                assert(self.voters()[i as int] == name@);
                return true;
            }
            i = i + 1;
        }
        false
    }

    /// Runs a `$snap` command from `msg`, see [`snap_command`].
    fn cmd_handler(&mut self, msg: &ChatMessage, words: &Vec<String>, owner: &String, now_ms: u64) -> (actions: Vec<Action>)
        requires
            old(self).wf(),
        ensures
            final(self).wf(),
            ({
                let out = snap_command(old(self).state(), old(self).voters(), strings_of(words@), msg.channel@, msg.name@, may_rearm(*msg, owner@));
                &&& final(self).state() == out.state
                &&& final(self).voters() == out.voters
                &&& final(self).chatter_rows() == old(self).chatter_rows()
                &&& final(self).next_cleanup_ms() == old(self).next_cleanup_ms()
                &&& if out.fires {
                    &&& actions@.len() == 2
                    &&& actions_view(actions@.take(1)) == out.say
                    &&& actions@[1] matches Action::Snap { users, duration, reason }
                    &&& duration@ == decimal(SNAP_TIMEOUT_SECS as int)
                    &&& reason@ == SNAP_REASON@
                    &&& snap_pick(recent_names_of(old(self).chatter_rows(), now_ms), strings_of(users@))
                } else {
                    actions_view(actions@) == out.say
                }
            }),
    {
        let ghost w = strings_of(words@);
        let ghost out = snap_command(old(self).state(), old(self).voters(), w, msg.channel@, msg.name@, may_rearm(*msg, owner@));
        let channel = &msg.channel;
        let mut actions: Vec<Action> = Vec::new();
        if second_word_is(words, "rearm") && (msg.name == *owner || msg.is_broadcaster) {
            actions.push(Action::Say { channel: channel.clone(), text: "$snap rearmed".to_owned() });
            self.state = SnapState::Idle;
            self.voters = Vec::new();
            assert(actions_view(actions@) =~= out.say);
            assert(self.voters() =~= out.voters);
            return actions;
        }
        if self.state == SnapState::Disabled {
            actions.push(Action::Say {
                channel: channel.clone(),
                text: "$snap currently disabled. it should be rearmed with $snap rearm".to_owned(),
            });
            assert(actions_view(actions@) =~= out.say);
            return actions;
        }
        if second_word_is(words, "run") {
            let ghost before = self.voters();
            if !self.has_voted(&msg.name) {
                self.voters.push(msg.name.clone());
                assert(self.voters() =~= before.push(msg.name@));
                assert(distinct(self.voters())) by {
                    assert forall|i: int, j: int| 0 <= i < self.voters().len() && 0 <= j < self.voters().len() && i != j
                        implies #[trigger] self.voters()[i] != #[trigger] self.voters()[j] by {
                        if i < before.len() && j < before.len() {
                            assert(before[i] != before[j]);
                        } else if i < before.len() {
                            assert(before.contains(before[i]));
                        } else {
                            assert(before.contains(before[j]));
                        }
                    }
                }
            }
            if self.voters.len() >= SNAP_VOTES {
                actions.push(Action::Say { channel: channel.clone(), text: "*snap*".to_owned() });
                let users = self.do_snap(now_ms);
                let duration = i32_to_decimal(SNAP_TIMEOUT_SECS);
                actions.push(Action::Snap { users, duration, reason: SNAP_REASON.to_owned() });
                self.state = SnapState::Disabled;
                self.voters = Vec::new();
                assert(actions_view(actions@.take(1)) =~= out.say);
                assert(self.voters() =~= out.voters);
                return actions;
            }
            assert(actions_view(actions@) =~= out.say);
            return actions;
        }
        assert(actions_view(actions@) =~= out.say);
        actions
    }

    /// Answers a message whose words are `words`, see [`answered`].
    pub fn on_words(&mut self, msg: &ChatMessage, words: &Vec<String>, owner: &String, now_ms: u64) -> (actions: Vec<Action>)
        requires
            old(self).wf(),
            words@.len() > 0,
        ensures
            final(self).wf(),
            answered(*old(self), *final(self), *msg, strings_of(words@), owner@, now_ms, actions@),
    {
        if text_is(&words[0], "$snap") && is_privileged(msg, owner) {
            return self.cmd_handler(msg, words, owner, now_ms);
        }
        self.chatters.insert(msg.name.clone(), now_ms);
        Vec::new()
    }

    /// Answers a chat message received at `now_ms`, see [`answered`]. A message with
    /// no words at all is not answered: the result is `None` and nothing changes.
    pub fn privmsg(&mut self, msg: &ChatMessage, owner: &String, now_ms: u64) -> (r: Option<Vec<Action>>)
        requires
            old(self).wf(),
        ensures
            final(self).wf(),
            whitespace_words(msg.data@).len() == 0 <==> r is None,
            match r {
                Some(actions) => answered(*old(self), *final(self), *msg, whitespace_words(msg.data@), owner@, now_ms, actions@),
                None => *final(self) == *old(self),
            },
    {
        let words = split_words(msg.data.as_str());
        if words.len() == 0 {
            return None;
        }
        Some(self.on_words(msg, &words, owner, now_ms))
    }

    /// Cleans the list of chatters when the cleaning is due at `now_ms`: chatters who
    /// have not spoken in the window before `now_ms` are forgotten, and so are the
    /// votes for the snap.
    pub fn tick(&mut self, now_ms: u64)
        requires
            old(self).wf(),
            now_ms < u64::MAX - SNAP_WINDOW_MS,
        ensures
            final(self).wf(),
            now_ms <= old(self).next_cleanup_ms() ==> *final(self) == *old(self),
            now_ms > old(self).next_cleanup_ms() ==> {
                &&& final(self).chatter_rows() == rows_where(old(self).chatter_rows(), recent_within(now_ms, SNAP_WINDOW_MS))
                &&& final(self).voters() == Seq::<Seq<char>>::empty()
                &&& final(self).state() == old(self).state()
                &&& now_ms <= final(self).next_cleanup_ms() < now_ms + SNAP_WINDOW_MS
                &&& (final(self).next_cleanup_ms() - old(self).next_cleanup_ms()) % (SNAP_WINDOW_MS as int) == 0
            },
    {
        let ghost rows0 = self.chatters.rows();
        let ghost ts0 = self.cleanup_ts;
        let ghost keep = recent_within(now_ms, SNAP_WINDOW_MS);
        let ghost mut k: int = 0;
        while now_ms > self.cleanup_ts
            invariant
                now_ms < u64::MAX - SNAP_WINDOW_MS,
                keep == recent_within(now_ms, SNAP_WINDOW_MS),
                k >= 0,
                rows0 == old(self).chatters.rows(),
                ts0 == old(self).cleanup_ts,
                self.cleanup_ts == ts0 + k * SNAP_WINDOW_MS,
                self.state == old(self).state,
                self.wf(),
                k > 0 ==> self.cleanup_ts < now_ms + SNAP_WINDOW_MS,
                k == 0 ==> self.chatters == old(self).chatters,
                k == 0 ==> self.voters == old(self).voters,
                k > 0 ==> self.chatters.rows() == rows_where(rows0, keep),
                k > 0 ==> self.voters@.len() == 0,
            decreases (if self.cleanup_ts < now_ms { now_ms - self.cleanup_ts } else { 0 }),
        {
            self.chatters.retain_recent(now_ms, SNAP_WINDOW_MS);
            proof {
                if k > 0 {
                    lemma_rows_where_idempotent(rows0, keep);
                }
            }
            self.voters = Vec::new();
            self.cleanup_ts = self.cleanup_ts + SNAP_WINDOW_MS;
            proof {
                k = k + 1;
                assert(self.voters() =~= Seq::<Seq<char>>::empty());
            }
        }
        proof {
            if k > 0 {
                assert(self.voters() =~= Seq::<Seq<char>>::empty());
                assert((self.cleanup_ts - ts0) == k * SNAP_WINDOW_MS);
                vstd::arithmetic::div_mod::lemma_mod_multiples_basic(k, SNAP_WINDOW_MS as int);
            }
        }
    }
}

/// `post` and `actions` are how the snap answers, in state `pre`, a message `msg`
/// received at `now` whose words are `w`: a `$snap` command from a privileged sender
/// is run (see [`snap_command`]); any other message marks its sender as having
/// spoken at `now`.
pub open spec fn answered(pre: Thanos, post: Thanos, msg: ChatMessage, w: Seq<Seq<char>>, owner: Seq<char>, now: u64, actions: Seq<Action>) -> bool {
    &&& post.next_cleanup_ms() == pre.next_cleanup_ms()
    &&& if w[0] == "$snap"@ && privileged(msg, owner) {
        let out = snap_command(pre.state(), pre.voters(), w, msg.channel@, msg.name@, may_rearm(msg, owner));
        &&& post.state() == out.state
        &&& post.voters() == out.voters
        &&& post.chatter_rows() == pre.chatter_rows()
        &&& if out.fires {
            &&& actions.len() == 2
            &&& actions_view(actions.take(1)) == out.say
            &&& actions[1] matches Action::Snap { users, duration, reason }
            &&& duration@ == decimal(SNAP_TIMEOUT_SECS as int)
            &&& reason@ == SNAP_REASON@
            &&& snap_pick(recent_names_of(pre.chatter_rows(), now), strings_of(users@))
        } else {
            actions_view(actions) == out.say
        }
    } else {
        &&& actions.len() == 0
        &&& post.state() == pre.state()
        &&& post.voters() == pre.voters()
        &&& post.chatter_rows() == rows_update(pre.chatter_rows(), msg.name@, now)
    }
}

} // verus!
