//! Properties of the bot that span calls or hold of every input, stated over the
//! spec functions that the modules' contracts use.

use vstd::prelude::*;

use crate::modules::moderation::asciiart::{ascii_art_verdict, is_prose_char, prose_count};
use crate::modules::moderation::noflood::{FLOOD_TIME_MS, count_from, flood_verdict, log_after, log_kept, long_from, stays};
use crate::modules::moderation::misc::misc_verdict;
use crate::modules::moderation::{Moderation, command_reply, length_for, level_of, FilterMsg};
use crate::modules::shiftah::{shiftah_reply, SHIFTAH_BELOW};
use crate::modules::{actions_view, privileged, Action, ActionView, ChatMessage};
use crate::modules::thanos::{answered, may_rearm, sets_snap_off, Thanos, distinct, is_snap_command, resets_votes, runs_snap, snap_replay, snap_runners, snap_step, SnapEvent, drawn, lemma_drawn, lemma_recent_names_distinct, recent_names_of, snap_count, valid_draws, snap_command, snap_pick, word_is, SnapState, SNAP_VOTES, SNAP_WINDOW_MS};
use crate::table::{rows_map, rows_update, lemma_rows_update_map, all_positive, distinct_names, is_recent, lemma_rows_where, recent_within, rows_decremented, rows_where};
use crate::text::{byte_len, utf8_width};

verus! {

broadcast use vstd::string::group_string_axioms;

/// `$moderation off` turns moderation off and `$moderation on` turns it on, whatever
/// it was; any other message from a privileged sender leaves it as it was.
pub proof fn law_moderation_switch(channel: Seq<char>, killed: bool, data: Seq<char>)
    ensures
        command_reply("$moderation off"@, channel, killed).1,
        !command_reply("$moderation on"@, channel, killed).1,
        data != "$moderation off"@ && data != "$moderation on"@ ==> command_reply(data, channel, killed).1 == killed,
{
    reveal_strlit("$moderation off");
    reveal_strlit("$moderation on");
    assert("$moderation off"@.len() == 15 && "$moderation on"@.len() == 14);
}

/// A privileged sender is never punished: all the bot ever does for them is talk.
pub proof fn law_privileged_never_punished(data: Seq<char>, channel: Seq<char>, killed: bool, i: int)
    requires
        0 <= i < command_reply(data, channel, killed).0.len(),
    ensures
        command_reply(data, channel, killed).0[i] is Say,
{
}

/// A raised ban level is what a later look-up gives back, and other names keep theirs.
pub proof fn law_level_recorded(levels: Map<Seq<char>, i32>, name: Seq<char>, other: Seq<char>, v: i32)
    ensures
        level_of(levels.insert(name, v), name) == v,
        other != name ==> level_of(levels.insert(name, v), other) == level_of(levels, other),
{
}

/// Offence levels past the end of the length table all get its last entry.
pub proof fn law_length_capped(lengths: Seq<i32>, level: int)
    requires
        lengths.len() > 0,
        level >= lengths.len() - 1,
    ensures
        length_for(lengths, level) == lengths.last(),
{
}

/// An hour lowers every ban level by one: each remaining row comes from a row one
/// level higher, and every row above level one remains.
pub proof fn law_decay_lowers_levels(rows: Seq<(Seq<char>, i32)>)
    requires
        all_positive(rows),
    ensures
        forall|i: int| 0 <= i < rows_decremented(rows).len() ==> exists|j: int|
            0 <= j < rows.len() && #[trigger] rows[j].0 == (#[trigger] rows_decremented(rows)[i]).0
                && rows[j].1 > 1 && rows_decremented(rows)[i].1 == rows[j].1 - 1,
        forall|j: int| 0 <= j < rows.len() && (#[trigger] rows[j]).1 > 1 ==>
            rows_decremented(rows).contains((rows[j].0, (rows[j].1 - 1) as i32)),
    decreases rows.len(),
{
    if rows.len() > 0 {
        let init = rows.drop_last();
        law_decay_lowers_levels(init);
        let d = rows_decremented(rows);
        let di = rows_decremented(init);
        assert forall|i: int| 0 <= i < d.len() implies exists|j: int|
            0 <= j < rows.len() && #[trigger] rows[j].0 == (#[trigger] d[i]).0 && rows[j].1 > 1 && d[i].1 == rows[j].1 - 1 by {
            if i < di.len() {
                assert(d[i] == di[i]);
                let j = choose|j: int| 0 <= j < init.len() && #[trigger] init[j].0 == (#[trigger] di[i]).0 && init[j].1 > 1 && di[i].1 == init[j].1 - 1;
                assert(rows[j] == init[j]);
            } else {
                assert(rows[rows.len() - 1].0 == d[i].0);
            }
        }
        assert forall|j: int| 0 <= j < rows.len() && (#[trigger] rows[j]).1 > 1 implies d.contains((rows[j].0, (rows[j].1 - 1) as i32)) by {
            let e = (rows[j].0, (rows[j].1 - 1) as i32);
            if j < init.len() {
                assert(init[j] == rows[j]);
                assert(di.contains(e));
                let k = choose|k: int| 0 <= k < di.len() && di[k] == e;
                assert(d[k] == di[k]);
            } else {
                assert(d[d.len() - 1] == e);
            }
        }
    }
}

/// Messages of other users change neither the count nor the length test for `nick`.
pub proof fn law_flood_isolation(log: Seq<FilterMsg>, other: FilterMsg, nick: Seq<char>)
    requires
        other.nick@ != nick,
    ensures
        count_from(log.push(other), nick) == count_from(log, nick),
        long_from(log.push(other), nick) == long_from(log, nick),
        flood_verdict(log.push(other), nick) == flood_verdict(log, nick),
{
    let l2 = log.push(other);
    assert(l2.drop_last() == log);
    if long_from(log, nick) {
        let k = choose|k: int| 0 <= k < log.len() && (#[trigger] log[k]).nick@ == nick && byte_len(log[k].text@) >= crate::modules::moderation::noflood::FLOOD_LEN;
        assert(l2[k] == log[k]);
    }
    if long_from(l2, nick) {
        let k = choose|k: int| 0 <= k < l2.len() && (#[trigger] l2[k]).nick@ == nick && byte_len(l2[k].text@) >= crate::modules::moderation::noflood::FLOOD_LEN;
        assert(k < log.len());
        assert(l2[k] == log[k]);
    }
}

/// Every message the flood filter keeps is from a non-VIP and lies within the window
/// before the newest message.
pub proof fn law_flood_window(log: Seq<FilterMsg>, now: u64)
    ensures
        forall|i: int| 0 <= i < log_kept(log, now).len() ==> stays(#[trigger] log_kept(log, now)[i], now),
    decreases log.len(),
{
    if log.len() > 0 {
        law_flood_window(log.drop_last(), now);
        let k = log_kept(log, now);
        let ki = log_kept(log.drop_last(), now);
        assert forall|i: int| 0 <= i < k.len() implies stays(#[trigger] k[i], now) by {
            if i < ki.len() {
                assert(k[i] == ki[i]);
            }
        }
    }
}

/// The first message of a user is never flagged for flooding.
pub proof fn law_single_message_passes(m: FilterMsg)
    requires
        !m.vip,
    ensures
        flood_verdict(log_after(Seq::empty(), m), m.nick@) is None,
{
    let l = Seq::<FilterMsg>::empty().push(m);
    assert(l.drop_last() == Seq::<FilterMsg>::empty());
    assert(log_kept(l.drop_last(), m.ts_ms) == Seq::<FilterMsg>::empty());
    let k = log_kept(l, m.ts_ms);
    assert(k.len() <= 1);
    if k.len() == 1 {
        assert(k.drop_last() == Seq::<FilterMsg>::empty());
        assert(count_from(k.drop_last(), m.nick@) == 0);
    }
    assert(count_from(k, m.nick@) <= 1);
}

/// Text made only of prose characters (letters, digits, space, `.`, `?`, `!`) is never
/// taken for ascii art, however long.
pub proof fn law_prose_is_not_art(t: Seq<char>)
    requires
        forall|i: int| 0 <= i < t.len() ==> is_prose_char(#[trigger] t[i]),
    ensures
        ascii_art_verdict(t) is None,
{
    lemma_prose_counts(t);
}

proof fn lemma_prose_counts(t: Seq<char>)
    requires
        forall|i: int| 0 <= i < t.len() ==> is_prose_char(#[trigger] t[i]),
    ensures
        prose_count(t) == t.len(),
        byte_len(t) == t.len(),
    decreases t.len(),
{
    if t.len() > 0 {
        let init = t.drop_last();
        assert forall|i: int| 0 <= i < init.len() implies is_prose_char(#[trigger] init[i]) by {
            assert(init[i] == t[i]);
        }
        lemma_prose_counts(init);
        assert(is_prose_char(t[t.len() - 1]));
        assert(utf8_width(t.last()) == 1);
    }
}

/// Once the snap goes off it is disabled, with no votes left.
pub proof fn law_snap_disables(state: SnapState, voters: Seq<Seq<char>>, w: Seq<Seq<char>>, channel: Seq<char>, sender: Seq<char>, rearm_ok: bool)
    ensures
        snap_command(state, voters, w, channel, sender, rearm_ok).fires ==> {
            &&& snap_command(state, voters, w, channel, sender, rearm_ok).state == SnapState::Disabled
            &&& snap_command(state, voters, w, channel, sender, rearm_ok).voters.len() == 0
        },
{
}

/// The snap goes off only when a third different moderator runs it: the two earlier
/// votes and the sender's make three different names.
pub proof fn law_snap_needs_three_moderators(state: SnapState, voters: Seq<Seq<char>>, w: Seq<Seq<char>>, channel: Seq<char>, sender: Seq<char>, rearm_ok: bool)
    requires
        distinct(voters),
        voters.len() < SNAP_VOTES,
    ensures
        snap_command(state, voters, w, channel, sender, rearm_ok).fires ==> {
            &&& voters.len() == 2
            &&& !voters.contains(sender)
            &&& distinct(voters.push(sender))
        },
{
    if snap_command(state, voters, w, channel, sender, rearm_ok).fires {
        let v = voters.push(sender);
        assert forall|i: int, j: int| 0 <= i < v.len() && 0 <= j < v.len() && i != j implies #[trigger] v[i] != #[trigger] v[j] by {
            if i < voters.len() && j < voters.len() {
                assert(voters[i] != voters[j]);
            } else if i < voters.len() {
                assert(voters.contains(voters[i]));
            } else {
                assert(voters.contains(voters[j]));
            }
        }
    }
}

/// The votes stay from different moderators and fewer than `SNAP_VOTES`.
pub proof fn law_votes_stay_distinct(state: SnapState, voters: Seq<Seq<char>>, w: Seq<Seq<char>>, channel: Seq<char>, sender: Seq<char>, rearm_ok: bool)
    requires
        distinct(voters),
        voters.len() < SNAP_VOTES,
    ensures
        distinct(snap_command(state, voters, w, channel, sender, rearm_ok).voters),
        snap_command(state, voters, w, channel, sender, rearm_ok).voters.len() < SNAP_VOTES,
{
    let out = snap_command(state, voters, w, channel, sender, rearm_ok);
    if out.voters.len() > voters.len() {
        law_snap_needs_three_moderators(state, voters, w, channel, sender, rearm_ok);
        let v = voters.push(sender);
        assert(out.voters == v);
        assert forall|i: int, j: int| 0 <= i < v.len() && 0 <= j < v.len() && i != j implies #[trigger] v[i] != #[trigger] v[j] by {
            if i < voters.len() && j < voters.len() {
                assert(voters[i] != voters[j]);
            } else if i < voters.len() {
                assert(voters.contains(voters[i]));
            } else {
                assert(voters.contains(voters[j]));
            }
        }
    }
}

/// A disabled snap stays disabled, and cannot go off, until the bot's owner or the
/// broadcaster rearms it.
pub proof fn law_disabled_until_rearm(voters: Seq<Seq<char>>, w: Seq<Seq<char>>, channel: Seq<char>, sender: Seq<char>, rearm_ok: bool)
    ensures
        !(word_is(w, 1, "rearm"@) && rearm_ok) ==> snap_command(SnapState::Disabled, voters, w, channel, sender, rearm_ok).state == SnapState::Disabled,
        !snap_command(SnapState::Disabled, voters, w, channel, sender, rearm_ok).fires,
{
}

/// `$snap rearm` from the bot's owner or the broadcaster always brings the snap back
/// to idle with no votes.
pub proof fn law_rearm(state: SnapState, voters: Seq<Seq<char>>, w: Seq<Seq<char>>, channel: Seq<char>, sender: Seq<char>)
    requires
        word_is(w, 1, "rearm"@),
    ensures
        snap_command(state, voters, w, channel, sender, true).state == SnapState::Idle,
        snap_command(state, voters, w, channel, sender, true).voters.len() == 0,
        !snap_command(state, voters, w, channel, sender, true).fires,
{
}

/// Adding one event to `init` adds its sender to the runners when it is a `$snap run`.
proof fn lemma_snap_runners_step(evs: Seq<SnapEvent>)
    requires
        evs.len() > 0,
    ensures
        forall|name: Seq<char>| runs_snap(evs.last(), name) ==> snap_runners(evs) == snap_runners(evs.drop_last()).insert(name),
        (forall|name: Seq<char>| !runs_snap(evs.last(), name)) ==> snap_runners(evs) == snap_runners(evs.drop_last()),
{
    let init = evs.drop_last();
    let n = evs.len() - 1;
    assert forall|name: Seq<char>| runs_snap(evs.last(), name) implies snap_runners(evs) == snap_runners(init).insert(name) by {
        assert forall|m: Seq<char>| #[trigger] snap_runners(evs).contains(m) == snap_runners(init).insert(name).contains(m) by {
            if snap_runners(evs).contains(m) {
                let i = choose|i: int| 0 <= i < evs.len() && #[trigger] runs_snap(evs[i], m);
                if i < n {
                    assert(init[i] == evs[i]);
                } else {
                    assert(evs[i] == evs.last());
                    assert(m == name);
                }
            }
            if snap_runners(init).contains(m) {
                let i = choose|i: int| 0 <= i < init.len() && #[trigger] runs_snap(init[i], m);
                assert(evs[i] == init[i]);
            }
            if m == name {
                assert(runs_snap(evs[n], m));
            }
        }
        assert(snap_runners(evs) =~= snap_runners(init).insert(name));
    }
    if forall|name: Seq<char>| !runs_snap(evs.last(), name) {
        assert forall|m: Seq<char>| #[trigger] snap_runners(evs).contains(m) == snap_runners(init).contains(m) by {
            if snap_runners(evs).contains(m) {
                let i = choose|i: int| 0 <= i < evs.len() && #[trigger] runs_snap(evs[i], m);
                if i < n {
                    assert(init[i] == evs[i]);
                } else {
                    assert(evs[i] == evs.last());
                    assert(!runs_snap(evs.last(), m));
                }
            }
            if snap_runners(init).contains(m) {
                let i = choose|i: int| 0 <= i < init.len() && #[trigger] runs_snap(init[i], m);
                assert(evs[i] == init[i]);
            }
        }
        assert(snap_runners(evs) =~= snap_runners(init));
    }
}

/// Finitely many events have finitely many runners.
proof fn lemma_snap_runners_finite(evs: Seq<SnapEvent>)
    ensures
        snap_runners(evs).finite(),
    decreases evs.len(),
{
    if evs.len() == 0 {
        assert(snap_runners(evs) =~= Set::empty());
    } else {
        lemma_snap_runners_finite(evs.drop_last());
        lemma_snap_runners_step(evs);
        if exists|name: Seq<char>| runs_snap(evs.last(), name) {
            let name = choose|name: Seq<char>| runs_snap(evs.last(), name);
            assert(snap_runners(evs) == snap_runners(evs.drop_last()).insert(name));
        }
    }
}

/// Since the last cleaning, rearm or snap, the votes are exactly the different privileged
/// senders of `$snap run` (none while the snap is disabled), and as long as fewer than
/// `SNAP_VOTES` of them have run it, the snap does not go off.
///
/// `state` is where the snap stood after that last cleaning, rearm or snap, all of which
/// leave no votes; `evs` are the events since, none of which clears the votes.
pub proof fn law_votes_are_the_runners(state: SnapState, evs: Seq<SnapEvent>)
    requires
        forall|i: int| 0 <= i < evs.len() ==> !resets_votes(#[trigger] evs[i]),
        snap_runners(evs).len() < SNAP_VOTES,
    ensures
        !snap_replay(state, Seq::empty(), evs).2,
        snap_replay(state, Seq::empty(), evs).0 == state,
        distinct(snap_replay(state, Seq::empty(), evs).1),
        snap_replay(state, Seq::empty(), evs).1.to_set()
            == (if state == SnapState::Idle { snap_runners(evs) } else { Set::<Seq<char>>::empty() }),
    decreases evs.len(),
{
    lemma_snap_runners_finite(evs);
    if evs.len() == 0 {
        assert(snap_runners(evs) =~= Set::empty());
        assert(Seq::<Seq<char>>::empty().to_set() =~= Set::empty());
    } else {
        let init = evs.drop_last();
        let e = evs.last();
        lemma_snap_runners_step(evs);
        lemma_snap_runners_finite(init);
        assert(snap_runners(init).subset_of(snap_runners(evs))) by {
            if exists|name: Seq<char>| runs_snap(e, name) {
                let name = choose|name: Seq<char>| runs_snap(e, name);
                assert(snap_runners(evs) == snap_runners(init).insert(name));
            }
        }
        vstd::set_lib::lemma_len_subset(snap_runners(init), snap_runners(evs));
        assert forall|i: int| 0 <= i < init.len() implies !resets_votes(#[trigger] init[i]) by {
            assert(init[i] == evs[i]);
        }
        law_votes_are_the_runners(state, init);
        let st = snap_replay(state, Seq::empty(), init);
        let v0 = st.1;
        assert(!resets_votes(evs[evs.len() - 1]));
        assert(snap_replay(state, Seq::empty(), evs) == snap_step(st, e));
        if let SnapEvent::Message { words, sender, privileged, rearm_ok } = e {
            if is_snap_command(e) {
                if state == SnapState::Idle && word_is(words, 1, "run"@) {
                    assert(runs_snap(e, sender));
                    assert(snap_runners(evs) == snap_runners(init).insert(sender));
                    let v = if v0.contains(sender) { v0 } else { v0.push(sender) };
                    v0.lemma_push_to_set_commute(sender);
                    if !v0.contains(sender) {
                        assert(distinct(v)) by {
                            assert forall|i: int, j: int| 0 <= i < v.len() && 0 <= j < v.len() && i != j
                                implies #[trigger] v[i] != #[trigger] v[j] by {
                                if i < v0.len() && j < v0.len() {
                                    assert(v0[i] != v0[j]);
                                } else if i < v0.len() {
                                    assert(v0.contains(v0[i]));
                                } else {
                                    assert(v0.contains(v0[j]));
                                }
                            }
                        }
                        assert(v.to_set() =~= snap_runners(evs));
                    } else {
                        assert(v0.to_set().contains(sender));
                        assert(v.to_set() =~= snap_runners(evs));
                    }
                    assert(v.no_duplicates());
                    v.unique_seq_to_set();
                } else if !word_is(words, 1, "run"@) {
                    assert forall|name: Seq<char>| !runs_snap(e, name) by {}
                    assert(snap_runners(evs) == snap_runners(init));
                }
            } else {
                assert forall|name: Seq<char>| !runs_snap(e, name) by {}
                assert(snap_runners(evs) == snap_runners(init));
            }
        }
    }
}

/// A message that the snap answers is one [`SnapEvent::Message`] of [`snap_replay`]: the
/// state and votes afterwards are those of [`snap_step`], and the answer sets the snap off
/// exactly when that step does.
pub proof fn law_answer_is_snap_step(pre: Thanos, post: Thanos, msg: ChatMessage, w: Seq<Seq<char>>, owner: Seq<char>, now: u64, actions: Seq<Action>)
    requires
        w.len() > 0,
        answered(pre, post, msg, w, owner, now, actions),
    ensures
        ({
            let e = SnapEvent::Message { words: w, sender: msg.name@, privileged: privileged(msg, owner), rearm_ok: may_rearm(msg, owner) };
            let st = snap_step((pre.state(), pre.voters(), false), e);
            &&& post.state() == st.0
            &&& post.voters() == st.1
            &&& sets_snap_off(actions) == st.2
        }),
{
    let e = SnapEvent::Message { words: w, sender: msg.name@, privileged: privileged(msg, owner), rearm_ok: may_rearm(msg, owner) };
    if is_snap_command(e) {
        let out = snap_command(pre.state(), pre.voters(), w, msg.channel@, msg.name@, may_rearm(msg, owner));
        if out.fires {
            assert(actions[1] is Snap);
        } else {
            if sets_snap_off(actions) {
                let i = choose|i: int| 0 <= i < actions.len() && #[trigger] actions[i] is Snap;
                assert(actions_view(actions) == out.say);
                assert(actions_view(actions)[i] == actions[i]@);
                assert(actions_view(actions)[i] is Snap);
                assert(forall|k: int| 0 <= k < out.say.len() ==> #[trigger] out.say[k] is Say);
                assert(false);
            }
        }
    }
}

/// Each of the snap's victims spoke in chat within the window before the snap.
pub proof fn law_snap_hits_recent_chatters(rows: Seq<(Seq<char>, u64)>, now: u64, users: Seq<Seq<char>>, i: int)
    requires
        snap_pick(recent_names_of(rows, now), users),
        0 <= i < users.len(),
    ensures
        exists|j: int| 0 <= j < rows.len() && #[trigger] rows[j].0 == users[i] && is_recent(rows[j].1, now, SNAP_WINDOW_MS),
{
    let cands = recent_names_of(rows, now);
    assert(cands.contains(users[i]));
    let k = choose|k: int| 0 <= k < cands.len() && cands[k] == users[i];
    let keep = recent_within(now, SNAP_WINDOW_MS);
    let w = rows_where(rows, keep);
    lemma_rows_where(rows, keep);
    assert(cands.len() == w.len());
    assert(cands[k] == w[k].0);
    assert(keep(rows_where(rows, keep)[k].1));
    assert(rows.contains(w[k]));
    let j = choose|j: int| 0 <= j < rows.len() && rows[j] == w[k];
    assert(rows[j].0 == users[i]);
}

/// Drawing half of the recent chatters, rounded up, one by one from those not drawn yet,
/// gives a snap: each victim spoke recently, and nobody is timed out twice.
pub proof fn law_snap_takes_half(rows: Seq<(Seq<char>, u64)>, now: u64, draws: Seq<usize>)
    requires
        distinct_names(rows),
        valid_draws(recent_names_of(rows, now).len(), draws),
        draws.len() == snap_count(recent_names_of(rows, now).len()),
    ensures
        snap_pick(recent_names_of(rows, now), drawn(recent_names_of(rows, now), draws)),
{
    lemma_drawn(recent_names_of(rows, now), draws);
    lemma_recent_names_distinct(rows, now);
}

/// The easter egg fires on one draw in 8192: `SHIFTAH_BELOW` of the 2^32 values of a `u32`.
pub proof fn law_shiftah_odds()
    ensures
        SHIFTAH_BELOW as int * 8192 == 0x1_0000_0000,
{
}

/// With the ascii art filter on, a timestamped message that the flood filter lets
/// through and that the ascii art test flags gets the ascii art verdict.
pub proof fn law_ascii_art_is_screened(m: Moderation, msg: ChatMessage, ts: u64)
    requires
        msg.sent_ts_ms == Some(ts),
        m.asciiart_on(),
        ascii_art_verdict(msg.data@) is Some,
        match m.flood_log() {
            Some(log) => msg.is_vip || flood_verdict(
                log_after(log, (FilterMsg { nick: msg.name, text: msg.data, vip: msg.is_vip, sub: msg.is_subscriber, ts_ms: ts })),
                msg.name@,
            ) is None,
            None => true,
        },
    ensures
        m.verdict_on(msg) == ascii_art_verdict(msg.data@),
{
}

/// A VIP's message is never judged by the flood filter, nor remembered by it: its
/// verdict is that of the ascii art and pattern filters alone.
pub proof fn law_vip_skips_flood_filter(m: Moderation, msg: ChatMessage, ts: u64)
    requires
        msg.sent_ts_ms == Some(ts),
        msg.is_vip,
    ensures
        m.verdict_on(msg) == (if m.asciiart_on() && ascii_art_verdict(msg.data@) is Some {
            ascii_art_verdict(msg.data@)
        } else if m.misc_on() {
            misc_verdict(msg.data@)
        } else {
            None
        }),
        m.flood_log_after(msg) == m.flood_log(),
{
}

/// The log keeps the message at `i`, if it stays, whatever else is in the log.
proof fn lemma_log_kept_keeps(l: Seq<FilterMsg>, now: u64, i: int)
    requires
        0 <= i < l.len(),
        !l[i].vip,
        l[i].ts_ms + FLOOD_TIME_MS >= now,
    ensures
        log_kept(l, now).contains(l[i]),
    decreases l.len(),
{
    if i == l.len() - 1 {
        let k = log_kept(l, now);
        assert(k[k.len() - 1] == l[i]);
    } else {
        let init = l.drop_last();
        assert(init[i] == l[i]);
        lemma_log_kept_keeps(init, now, i);
        let ki = log_kept(init, now);
        let j = choose|j: int| 0 <= j < ki.len() && ki[j] == l[i];
        let k = log_kept(l, now);
        assert(k[j] == ki[j]);
    }
}

/// When a message arrives, the flood filter keeps every earlier message of a non-VIP
/// still within the window, whoever sent it, and the new message itself unless it is
/// a VIP's.
pub proof fn law_flood_log_keeps_recent(log: Seq<FilterMsg>, m: FilterMsg, x: FilterMsg)
    requires
        log.contains(x),
        !x.vip,
        x.ts_ms + FLOOD_TIME_MS >= m.ts_ms,
    ensures
        log_after(log, m).contains(x),
        !m.vip ==> log_after(log, m).contains(m),
{
    let l = log.push(m);
    let i = choose|i: int| 0 <= i < log.len() && log[i] == x;
    assert(l[i] == x);
    lemma_log_kept_keeps(l, m.ts_ms, i);
    if !m.vip {
        assert(l[l.len() - 1] == m);
        lemma_log_kept_keeps(l, m.ts_ms, l.len() - 1);
    }
}

/// Everything the log keeps was in it.
proof fn lemma_log_kept_from(l: Seq<FilterMsg>, now: u64)
    ensures
        forall|j: int| 0 <= j < log_kept(l, now).len() ==> l.contains(#[trigger] log_kept(l, now)[j]),
    decreases l.len(),
{
    if l.len() > 0 {
        let init = l.drop_last();
        lemma_log_kept_from(init, now);
        let k = log_kept(l, now);
        let ki = log_kept(init, now);
        assert forall|j: int| 0 <= j < k.len() implies l.contains(#[trigger] k[j]) by {
            if j < ki.len() {
                assert(k[j] == ki[j]);
                assert(init.contains(ki[j]));
                let q = choose|q: int| 0 <= q < init.len() && init[q] == ki[j];
                assert(l[q] == init[q]);
            } else {
                assert(k[j] == l[l.len() - 1]);
            }
        }
    }
}

/// The flood filter's log after a message holds only that message and earlier ones.
pub proof fn law_flood_log_invents_nothing(log: Seq<FilterMsg>, m: FilterMsg)
    ensures
        forall|j: int| 0 <= j < log_after(log, m).len() ==>
            (log.contains(#[trigger] log_after(log, m)[j]) || log_after(log, m)[j] == m),
{
    let l = log.push(m);
    lemma_log_kept_from(l, m.ts_ms);
    assert forall|j: int| 0 <= j < log_after(log, m).len() implies
        (log.contains(#[trigger] log_after(log, m)[j]) || log_after(log, m)[j] == m) by {
        let x = log_after(log, m)[j];
        assert(l.contains(x));
        let q = choose|q: int| 0 <= q < l.len() && l[q] == x;
        if q < log.len() {
            assert(log[q] == l[q]);
        }
    }
}

/// A text without prose characters counts none.
proof fn lemma_no_prose(t: Seq<char>)
    requires
        forall|i: int| 0 <= i < t.len() ==> !is_prose_char(#[trigger] t[i]),
    ensures
        prose_count(t) == 0,
    decreases t.len(),
{
    if t.len() > 0 {
        let init = t.drop_last();
        assert forall|i: int| 0 <= i < init.len() implies !is_prose_char(#[trigger] init[i]) by {
            assert(init[i] == t[i]);
        }
        lemma_no_prose(init);
        assert(!is_prose_char(t[t.len() - 1]));
    }
}

/// Texts of at most 175 bytes are never taken for ascii art; longer ones without a
/// single prose character always are.
pub proof fn law_ascii_art_bounds(t: Seq<char>)
    ensures
        byte_len(t) <= 175 ==> ascii_art_verdict(t) is None,
        byte_len(t) > 175 && (forall|i: int| 0 <= i < t.len() ==> !is_prose_char(#[trigger] t[i]))
            ==> ascii_art_verdict(t) == Some((1i32, "possible ascii art")),
{
    if forall|i: int| 0 <= i < t.len() ==> !is_prose_char(#[trigger] t[i]) {
        lemma_no_prose(t);
    }
}

/// A message that is not a `$snap` command marks its sender as having spoken at the
/// time it arrived, whether or not they had spoken before; nobody else's time changes.
pub proof fn law_message_refreshes_chatter(pre: Thanos, post: Thanos, msg: ChatMessage, w: Seq<Seq<char>>, owner: Seq<char>, now: u64, actions: Seq<Action>)
    requires
        pre.wf(),
        post.wf(),
        w.len() > 0,
        !(w[0] == "$snap"@ && privileged(msg, owner)),
        answered(pre, post, msg, w, owner, now, actions),
    ensures
        rows_map(post.chatter_rows()).contains_key(msg.name@),
        rows_map(post.chatter_rows())[msg.name@] == now,
        rows_map(post.chatter_rows()) == rows_map(pre.chatter_rows()).insert(msg.name@, now),
{
    lemma_rows_update_map(pre.chatter_rows(), msg.name@, now);
}

/// The easter egg answers "shiftAh" in the message's channel exactly on the draws below
/// `SHIFTAH_BELOW`, and nothing on the others.
pub proof fn law_shiftah_fires_on_low_draws(channel: Seq<char>, roll: u32)
    ensures
        roll < SHIFTAH_BELOW <==> shiftah_reply(channel, roll).len() > 0,
        roll < SHIFTAH_BELOW ==> shiftah_reply(channel, roll) == seq![ActionView::Say { channel, text: "shiftAh"@ }],
        roll >= SHIFTAH_BELOW ==> shiftah_reply(channel, roll).len() == 0,
{
}

} // verus!
