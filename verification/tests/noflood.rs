use shiftbot::modules::moderation::noflood::{NoFlood, FLOOD_COUNT, FLOOD_LEN, FLOOD_TIME_MS};
use shiftbot::modules::moderation::FilterMsg;

/// The window in seconds.
const FLOOD_TIME: f64 = FLOOD_TIME_MS as f64 / 1000.0;

fn ms(seconds: f64) -> u64 {
    (seconds * 1000.0).round() as u64
}

fn msg(nick: &str, text: &str, ts: f64) -> FilterMsg {
    FilterMsg {
        nick: nick.into(),
        text: text.into(),
        ts_ms: ms(ts),
        ..Default::default()
    }
}

#[test]
fn single_message() {
    let mut filter = NoFlood::new();
    let msg = msg("a", "hey shift!", 0.0);
    assert_eq!(None, filter.filter(&msg));
}

#[test]
fn single_user_flood() {
    let mut filter = NoFlood::new();
    for i in 0..(FLOOD_COUNT - 1) {
        filter.filter(&msg("a", &format!("hey shift! {}", i), 0.0));
    }
    assert_eq!(
        Some((4, "possible flooder")),
        filter.filter(&msg("a", &"h".to_string().repeat(FLOOD_LEN), FLOOD_TIME - 0.01))
    );
}

#[test]
fn single_user_missed_flood() {
    let mut filter = NoFlood::new();
    for i in 0..(FLOOD_COUNT - 1) {
        filter.filter(&msg("a", &format!("hey shift! {}", i), 0.0));
    }
    assert_eq!(
        Some((1, "hit rate limit")),
        filter.filter(&msg("a", &"h".to_string().repeat(FLOOD_LEN - 1), FLOOD_TIME - 0.01))
    );
}

#[test]
fn single_user_missed_ratelimit() {
    let mut filter = NoFlood::new();
    for i in 0..(FLOOD_COUNT - 1) {
        filter.filter(&msg("a", &format!("hey shift! {}", i), 0.0));
    }
    assert_eq!(
        None,
        filter.filter(&msg("a", &"h".to_string().repeat(FLOOD_LEN), FLOOD_TIME + 0.01))
    );
}

#[test]
fn multi_user_no_timeout() {
    let mut filter = NoFlood::new();
    for i in 0..(FLOOD_COUNT - 1) {
        filter.filter(&msg("a", &format!("hey shift! {}", i), 0.0));
    }
    assert_eq!(
        None,
        filter.filter(&msg("b", &"h".to_string().repeat(FLOOD_LEN), FLOOD_TIME - 0.01))
    );
}

#[test]
fn exclude_vips() {
    let mut filter = NoFlood::new();
    for i in 0..(FLOOD_COUNT - 1) {
        filter.filter(&msg("a", &format!("hey shift! {}", i), 0.0));
    }
    assert_eq!(
        None,
        filter.filter(&FilterMsg {
            nick: "a".into(),
            text: "h".to_string().repeat(FLOOD_LEN),
            vip: true,
            ts_ms: ms(FLOOD_TIME - 0.01),
            ..Default::default()
        })
    );
}

#[test]
fn flood_long_message_earlier_in_window_counts() {
    let mut filter = NoFlood::new();
    filter.filter(&msg("a", &"é".repeat(100), 1.0));
    filter.filter(&msg("a", "x", 1.5));
    filter.filter(&msg("a", "y", 2.0));
    assert_eq!(Some((4, "possible flooder")), filter.filter(&msg("a", "z", 2.5)));
    // the fifth message still finds four in the window
    assert_eq!(Some((4, "possible flooder")), filter.filter(&msg("a", "w", 3.0)));
}

#[test]
fn flood_window_edge_is_kept() {
    let mut filter = NoFlood::new();
    for _ in 0..3 {
        filter.filter(&msg("a", "x", 0.0));
    }
    // exactly the window later, the old messages still count
    assert_eq!(Some((1, "hit rate limit")), filter.filter(&msg("a", "x", FLOOD_TIME)));
}

#[test]
fn flood_vip_message_is_not_remembered() {
    let mut filter = NoFlood::new();
    for _ in 0..3 {
        filter.filter(&FilterMsg { nick: "v".into(), text: "x".into(), vip: true, ..Default::default() });
    }
    assert_eq!(None, filter.filter(&msg("v", "x", 0.0)));
}
