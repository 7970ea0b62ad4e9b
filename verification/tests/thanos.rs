use shiftbot::modules::thanos::{pick, SnapState, Thanos, SNAP_TIMEOUT_SECS, SNAP_WINDOW_MS};
use shiftbot::modules::{Action, ChatMessage};

const T0: u64 = 1_700_000_000_000;

fn chat(name: &str, data: &str, moderator: bool) -> ChatMessage {
    ChatMessage {
        name: name.to_string(),
        channel: "#chan".to_string(),
        data: data.to_string(),
        is_moderator: moderator,
        is_broadcaster: false,
        is_vip: false,
        is_subscriber: false,
        sent_ts_ms: None,
    }
}

fn owner() -> String {
    "owner".to_string()
}

fn said(actions: &[Action]) -> Vec<String> {
    actions
        .iter()
        .filter_map(|a| match a {
            Action::Say { text, .. } => Some(text.clone()),
            _ => None,
        })
        .collect()
}

fn snapped(actions: &[Action]) -> Option<Vec<String>> {
    actions.iter().find_map(|a| match a {
        Action::Snap { users, .. } => Some(users.clone()),
        _ => None,
    })
}

fn run(t: &mut Thanos, moderator: &str, now: u64) -> Vec<Action> {
    t.privmsg(&chat(moderator, "$snap run", true), &owner(), now).unwrap()
}

#[test]
fn snap_three_moderators_then_rearm() {
    let mut t = Thanos::new(T0);
    for n in ["a", "b", "c"] {
        assert_eq!(Some(vec![]), t.privmsg(&chat(n, "hello there", false), &owner(), T0).map(|v| said(&v)));
    }
    assert!(run(&mut t, "m1", T0).is_empty());
    // the same moderator twice is one vote
    assert!(run(&mut t, "m1", T0).is_empty());
    assert!(run(&mut t, "m2", T0).is_empty());
    let r = t.privmsg(&chat("m3", "  $snap   run  ", true), &owner(), T0 + 1).unwrap();
    assert_eq!(vec!["*snap*".to_string()], said(&r));
    let users = snapped(&r).expect("the snap goes off");
    for u in users.iter() {
        assert!(["a", "b", "c"].contains(&u.as_str()));
    }
    // disabled until rearmed
    let r = run(&mut t, "m1", T0);
    assert_eq!(
        vec!["$snap currently disabled. it should be rearmed with $snap rearm".to_string()],
        said(&r)
    );
    // a moderator cannot rearm
    let r = t.privmsg(&chat("m1", "$snap rearm", true), &owner(), T0).unwrap();
    assert_eq!(
        vec!["$snap currently disabled. it should be rearmed with $snap rearm".to_string()],
        said(&r)
    );
    let r = t.privmsg(&chat("owner", "$snap rearm", false), &owner(), T0).unwrap();
    assert_eq!(vec!["$snap rearmed".to_string()], said(&r));
    // the votes start over
    assert!(run(&mut t, "m1", T0).is_empty());
    assert!(run(&mut t, "m2", T0).is_empty());
    let mut streamer = chat("streamer", "$snap rearm", false);
    streamer.is_broadcaster = true;
    let r = t.privmsg(&streamer, &owner(), T0).unwrap();
    assert_eq!(vec!["$snap rearmed".to_string()], said(&r));
    assert!(run(&mut t, "m3", T0).is_empty());
}

#[test]
fn snap_ignores_unprivileged_commands() {
    let mut t = Thanos::new(T0);
    for v in ["v1", "v2", "v3"] {
        let r = t.privmsg(&chat(v, "$snap run", false), &owner(), T0).unwrap();
        assert!(r.is_empty());
    }
    // the unprivileged "$snap run"s count as chatting, not as votes
    assert!(run(&mut t, "m1", T0).is_empty());
    assert!(run(&mut t, "m2", T0).is_empty());
    let r = run(&mut t, "m3", T0);
    let users = snapped(&r).unwrap();
    assert!(users.iter().all(|u| ["v1", "v2", "v3"].contains(&u.as_str())));
}

#[test]
fn snap_empty_message_is_not_answered() {
    let mut t = Thanos::new(T0);
    assert!(t.privmsg(&chat("v", "   ", false), &owner(), T0).is_none());
    assert!(t.privmsg(&chat("v", "", false), &owner(), T0).is_none());
}

#[test]
fn snap_only_recent_chatters() {
    for _ in 0..20 {
        let mut u = Thanos::new(T0);
        u.privmsg(&chat("old", "hi", false), &owner(), T0);
        u.privmsg(&chat("new", "hi", false), &owner(), T0 + SNAP_WINDOW_MS);
        run(&mut u, "m1", T0 + SNAP_WINDOW_MS);
        run(&mut u, "m2", T0 + SNAP_WINDOW_MS);
        let r = run(&mut u, "m3", T0 + SNAP_WINDOW_MS);
        let users = snapped(&r).unwrap();
        assert_eq!(vec!["new".to_string()], users);
    }
}

#[test]
fn snap_tick_forgets_votes() {
    let mut t = Thanos::new(T0);
    run(&mut t, "m1", T0);
    run(&mut t, "m2", T0);
    // cleaning is not due yet: the votes stay
    t.tick(T0 + SNAP_WINDOW_MS);
    let r = run(&mut t, "m3", T0);
    assert_eq!(vec!["*snap*".to_string()], said(&r));

    let mut t = Thanos::new(T0);
    run(&mut t, "m1", T0);
    run(&mut t, "m2", T0);
    t.tick(T0 + SNAP_WINDOW_MS + 1);
    assert!(run(&mut t, "m3", T0).is_empty());
}

#[test]
fn snap_tick_forgets_old_chatters() {
    let mut t = Thanos::new(T0);
    t.privmsg(&chat("old", "hi", false), &owner(), T0);
    t.tick(T0 + 2 * SNAP_WINDOW_MS);
    t.privmsg(&chat("new", "hi", false), &owner(), T0 + 2 * SNAP_WINDOW_MS);
    run(&mut t, "m1", T0 + 2 * SNAP_WINDOW_MS);
    run(&mut t, "m2", T0 + 2 * SNAP_WINDOW_MS);
    // an hour later nobody is recent
    let r = run(&mut t, "m3", T0 + 2 * SNAP_WINDOW_MS + 3_600_000);
    assert_eq!(Some(vec![]), snapped(&r));
}

#[test]
fn snap_words_direct() {
    let mut t = Thanos::new(T0);
    let words = vec!["$snap".to_string(), "rearm".to_string()];
    let r = t.on_words(&chat("owner", "ignored", false), &words, &owner(), T0);
    assert_eq!(vec!["$snap rearmed".to_string()], said(&r));
    let words = vec!["hello".to_string()];
    assert!(t.on_words(&chat("x", "hello", false), &words, &owner(), T0).is_empty());
}

#[test]
fn snap_pick_follows_draws() {
    let c = vec!["a".to_string(), "b".to_string(), "c".to_string()];
    // b is drawn first; a is then at index 0 of what is left
    assert_eq!(vec!["b".to_string(), "a".to_string()], pick(c.clone(), &vec![1, 0]));
    assert_eq!(vec!["c".to_string(), "b".to_string(), "a".to_string()], pick(c.clone(), &vec![2, 1, 0]));
    assert_eq!(vec!["a".to_string(), "b".to_string(), "c".to_string()], pick(c.clone(), &vec![0, 0, 0]));
    assert!(pick(c, &vec![]).is_empty());
}

#[test]
fn snap_takes_half_rounded_up() {
    for (n, expected) in [(1usize, 1usize), (2, 1), (4, 2), (5, 3)] {
        for _ in 0..20 {
            let mut t = Thanos::new(T0);
            let names: Vec<String> = (0..n).map(|i| format!("c{}", i)).collect();
            for name in &names {
                t.privmsg(&chat(name, "hi", false), &owner(), T0);
            }
            run(&mut t, "m1", T0);
            run(&mut t, "m2", T0);
            let r = run(&mut t, "m3", T0);
            let mut users = snapped(&r).unwrap();
            assert_eq!(expected, users.len());
            assert!(users.iter().all(|u| names.contains(u)));
            users.sort();
            users.dedup();
            assert_eq!(expected, users.len());
        }
    }
}

#[test]
fn snap_words_split_at_any_white_space() {
    let mut t = Thanos::new(T0);
    for m in ["m1", "m2"] {
        t.privmsg(&chat(m, "\t$snap \u{3000} run\n", true), &owner(), T0).unwrap();
    }
    let r = t.privmsg(&chat("m3", "  $snap\u{2003}run", true), &owner(), T0).unwrap();
    assert_eq!(vec!["*snap*".to_string()], said(&r));
    // a non-breaking space inside a word still splits it
    let mut t = Thanos::new(T0);
    let r = t.privmsg(&chat("owner", "$snap\u{a0}rearm", false), &owner(), T0).unwrap();
    assert_eq!(vec!["$snap rearmed".to_string()], said(&r));
}

#[test]
fn snap_times_out_for_half_an_hour() {
    let mut t = Thanos::new(T0);
    t.privmsg(&chat("x", "hi", false), &owner(), T0);
    run(&mut t, "m1", T0);
    run(&mut t, "m2", T0);
    let r = run(&mut t, "m3", T0);
    match &r[1] {
        Action::Snap { users, duration, reason } => {
            assert_eq!(vec!["x".to_string()], *users);
            assert_eq!("1800", duration);
            assert_eq!("gone, reduced to atoms", reason);
        }
        _ => panic!("the second action is not the snap"),
    }
    assert_eq!(30 * 60, SNAP_TIMEOUT_SECS);
}

#[test]
fn snap_state_values() {
    assert_ne!(SnapState::Idle, SnapState::Disabled);
}
