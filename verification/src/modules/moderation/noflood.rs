//! This filter attempts to prevent anyone from flooding chat. It can be very
//! effective when paired with the anti-bot feature to clean up really fast bot spam.

use vstd::prelude::*;

use super::FilterMsg;
use crate::text::{byte_len, byte_len_of, chars_of};

verus! {

/// How far back the filter looks, in milliseconds.
pub const FLOOD_TIME_MS: u64 = 6000;

/// How many messages of one user in the window make a flood.
pub const FLOOD_COUNT: usize = 4;

/// A message of at least this many bytes marks the flooder as a spammer.
pub const FLOOD_LEN: usize = 200;

/// `x` stays in the log when a message stamped `now` arrives: it is not from a VIP
/// and not older than the window.
pub open spec fn stays(x: FilterMsg, now: u64) -> bool {
    !(x.vip || x.ts_ms + FLOOD_TIME_MS < now)
}

/// The messages of `log` that stay when a message stamped `now` arrives, in order.
pub open spec fn log_kept(log: Seq<FilterMsg>, now: u64) -> Seq<FilterMsg>
    decreases log.len(),
{
    if log.len() == 0 {
        log
    } else if stays(log.last(), now) {
        log_kept(log.drop_last(), now).push(log.last())
    } else {
        log_kept(log.drop_last(), now)
    }
}

/// The log after `msg` arrives.
pub open spec fn log_after(log: Seq<FilterMsg>, msg: FilterMsg) -> Seq<FilterMsg> {
    log_kept(log.push(msg), msg.ts_ms)
}

/// How many messages of `log` come from `nick`.
pub open spec fn count_from(log: Seq<FilterMsg>, nick: Seq<char>) -> nat
    decreases log.len(),
{
    if log.len() == 0 {
        0
    } else {
        count_from(log.drop_last(), nick) + if log.last().nick@ == nick { 1nat } else { 0nat }
    }
}

/// Some message of `log` from `nick` is at least `FLOOD_LEN` bytes long.
pub open spec fn long_from(log: Seq<FilterMsg>, nick: Seq<char>) -> bool {
    exists|i: int| 0 <= i < log.len() && (#[trigger] log[i]).nick@ == nick && byte_len(log[i].text@) >= FLOOD_LEN
}

/// The verdict on a log that already holds the new message of `nick`.
pub open spec fn flood_verdict(log: Seq<FilterMsg>, nick: Seq<char>) -> Option<(i32, &'static str)> {
    if count_from(log, nick) >= FLOOD_COUNT {
        if long_from(log, nick) {
            Some((4, "possible flooder"))
        } else {
            Some((1, "hit rate limit"))
        }
    } else {
        None
    }
}

/// The flood filter: it remembers the recent messages of non-VIP users.
pub struct NoFlood {
    log: Vec<FilterMsg>,
}

impl NoFlood {
    /// The messages remembered, oldest first.
    pub closed spec fn log(&self) -> Seq<FilterMsg> {
        self.log@
    }

    pub fn new() -> (f: Self)
        ensures
            f.log() == Seq::<FilterMsg>::empty(),
    {
        NoFlood { log: Vec::new() }
    }

    fn pushuser(&mut self, msg: &FilterMsg)
        ensures
            final(self).log() == log_after(old(self).log(), *msg),
    {
        let ghost all = self.log@.push(*msg);
        let mut old_log: Vec<FilterMsg> = Vec::new();
        std::mem::swap(&mut old_log, &mut self.log);
        old_log.push(msg.clone());
        assert(old_log@ == all);
        let now = msg.ts_ms;
        let mut kept: Vec<FilterMsg> = Vec::new();
        let mut i: usize = 0;
        while i < old_log.len()
            invariant
                i <= old_log@.len(),
                old_log@ == all,
                now == msg.ts_ms,
                kept@ == log_kept(all.take(i as int), now),
            decreases old_log@.len() - i,
        {
            assert(all.take(i + 1).drop_last() == all.take(i as int));
            let x = &old_log[i];
            let old_enough = now > FLOOD_TIME_MS && x.ts_ms < now - FLOOD_TIME_MS;
            if !(x.vip || old_enough) {
                kept.push(x.clone());
            }
            i = i + 1;
        }
        assert(all.take(i as int) == all);
        self.log = kept;
    }

    /// Counts the messages of `nick` in the log and tells whether one of them is long.
    fn tally(&self, nick: &String) -> (r: (usize, bool))
        ensures
            r.0 == count_from(self.log(), nick@),
            r.1 == long_from(self.log(), nick@),
    {
        let mut count: usize = 0;
        let mut long = false;
        let mut i: usize = 0;
        while i < self.log.len()
            invariant
                i <= self.log@.len(),
                count == count_from(self.log@.take(i as int), nick@),
                count <= i,
                long == long_from(self.log@.take(i as int), nick@),
            decreases self.log@.len() - i,
        {
            let ghost pre = self.log@.take(i as int);
            let ghost post = self.log@.take(i + 1);
            assert(post.drop_last() == pre);
            let x = &self.log[i];
            if x.nick == *nick {
                count = count + 1;
                let chars = chars_of(x.text.as_str());
                if byte_len_of(&chars) >= FLOOD_LEN as u128 {
                    long = true;
                }
            }
            proof {
                if long_from(pre, nick@) {
                    let k = choose|k: int| 0 <= k < pre.len() && (#[trigger] pre[k]).nick@ == nick@ && byte_len(pre[k].text@) >= FLOOD_LEN;
                    assert(post[k] == pre[k]);
                }
                if long_from(post, nick@) {
                    let k = choose|k: int| 0 <= k < post.len() && (#[trigger] post[k]).nick@ == nick@ && byte_len(post[k].text@) >= FLOOD_LEN;
                    if k < i {
                        assert(pre[k] == post[k]);
                    }
                }
                if x.nick@ == nick@ && byte_len(x.text@) >= FLOOD_LEN {
                    assert(post[i as int] == *x);
                }
            }
            i = i + 1;
        }
        assert(self.log@.take(i as int) == self.log@);
        (count, long)
    }

    /// Remembers a message of a non-VIP user, forgets what fell out of the window,
    /// and flags the sender when the log holds `FLOOD_COUNT` or more messages of theirs.
    /// Messages of VIPs are neither flagged nor remembered.
    pub fn filter(&mut self, msg: &FilterMsg) -> (r: Option<(i32, &'static str)>)
        ensures
            msg.vip ==> r is None && final(self).log() == old(self).log(),
            !msg.vip ==> final(self).log() == log_after(old(self).log(), *msg)
                && r == flood_verdict(final(self).log(), msg.nick@),
    {
        if msg.vip {
            return None;
        }
        self.pushuser(msg);
        let (count, long) = self.tally(&msg.nick);
        if count >= FLOOD_COUNT {
            if long {
                Some((4, "possible flooder"))
            } else {
                Some((1, "hit rate limit"))
            }
        } else {
            None
        }
    }
}

} // verus!
