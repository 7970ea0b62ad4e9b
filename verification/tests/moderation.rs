use shiftbot::modules::moderation::{duration_text, log_line, report, Moderation, ModerationConfig, HOUR_MS};
use shiftbot::modules::{Action, ChatMessage};

const OWNER: &str = "owner";
const T0: u64 = 1_700_000_000_000;

fn config() -> ModerationConfig {
    ModerationConfig {
        lengths: vec![0, 5, 60, 300, 600, 1200, 1800, 3600, -1],
        antibot: true,
        noflood: true,
        asciiart: true,
        misc: true,
    }
}

fn chat(name: &str, data: &str, ts: Option<u64>) -> ChatMessage {
    ChatMessage {
        name: name.to_string(),
        channel: "#chan".to_string(),
        data: data.to_string(),
        is_moderator: false,
        is_broadcaster: false,
        is_vip: false,
        is_subscriber: false,
        sent_ts_ms: ts,
    }
}

fn moderator(data: &str) -> ChatMessage {
    let mut m = chat("modname", data, Some(T0));
    m.is_moderator = true;
    m
}

fn owner() -> String {
    OWNER.to_string()
}

fn timeout_of(actions: &[Action]) -> Option<(String, String)> {
    match actions.get(1) {
        Some(Action::Timeout { duration, reason, .. }) => Some((duration.clone(), reason.clone())),
        _ => None,
    }
}

#[test]
fn moderation_off_and_on() {
    let mut m = Moderation::new(config(), T0);
    let step = m.privmsg(&moderator("$moderation off"), &owner(), T0, false);
    assert!(!step.flagged);
    match &step.actions[..] {
        [Action::Say { channel, text }] => {
            assert_eq!(channel, "#chan");
            assert_eq!(text, "moderation disabled");
        }
        _ => panic!("expected one message"),
    }
    // while off, a stream key goes through
    let step = m.privmsg(&chat("viewer", "live_abc_def", Some(T0)), &owner(), T0, false);
    assert!(step.actions.is_empty());
    assert!(!step.flagged);
    assert_eq!(0, m.ban_level(&"viewer".to_string()));

    let step = m.privmsg(&moderator("$moderation on"), &owner(), T0, false);
    match &step.actions[..] {
        [Action::Say { text, .. }] => assert_eq!(text, "moderation enabled"),
        _ => panic!("expected one message"),
    }
    let step = m.privmsg(&chat("viewer", "live_abc_def", Some(T0)), &owner(), T0, false);
    assert!(step.flagged);
    assert_eq!(1, m.ban_level(&"viewer".to_string()));
}

#[test]
fn moderation_privileged_never_screened() {
    let mut m = Moderation::new(config(), T0);
    let o = chat(OWNER, "live_abc_def", Some(T0));
    let step = m.privmsg(&o, &owner(), T0, false);
    assert!(step.actions.is_empty());
    let mut b = chat("streamer", "oauth:abc", Some(T0));
    b.is_broadcaster = true;
    assert!(m.privmsg(&b, &owner(), T0, false).actions.is_empty());
    assert!(m.privmsg(&moderator("256-555-7556"), &owner(), T0, false).actions.is_empty());
    assert!(!m.will_screen(&b, &owner()));
    assert!(m.will_screen(&chat("x", "y", None), &owner()));
}

#[test]
fn moderation_escalates_and_reports() {
    let mut m = Moderation::new(config(), T0);
    let msg = chat("viewer", "my key live_abc_def", Some(T0));
    let step = m.privmsg(&msg, &owner(), T0, false);
    assert!(step.flagged);
    assert_eq!(2, step.actions.len());
    match &step.actions[0] {
        Action::Report { text, .. } => assert_eq!(
            text,
            "```\nusername: viewer\nreason:   possible stream key\nduration: 5\nmessage:  my key live_abc_def\n```"
        ),
        _ => panic!("expected a report"),
    }
    assert_eq!(
        Some(("5".to_string(), "automatic timeout: possible stream key".to_string())),
        timeout_of(&step.actions)
    );
    // a phone number scores two: level 3
    let step = m.privmsg(&chat("viewer", "call 256-555-7556", Some(T0)), &owner(), T0, false);
    assert_eq!(3, m.ban_level(&"viewer".to_string()));
    assert_eq!(
        Some(("300".to_string(), "automatic timeout: possible phone number".to_string())),
        timeout_of(&step.actions)
    );
    // other users keep their own level
    assert_eq!(0, m.ban_level(&"other".to_string()));
}

#[test]
fn moderation_last_length_bans() {
    let mut m = Moderation::new(config(), T0);
    let mut last = None;
    for i in 0..5 {
        // ten seconds apart, so the flood filter stays quiet
        let t = T0 + i * 10_000;
        last = Some(m.privmsg(&chat("spammer", "(256) 555-7556", Some(t)), &owner(), t, false));
    }
    // levels 2, 4, 6, 8, 10: the last two reach the end of the table
    assert_eq!(10, m.ban_level(&"spammer".to_string()));
    let step = last.unwrap();
    match &step.actions[..] {
        [Action::Report { text, .. }, Action::Ban { channel, user, reason }] => {
            assert!(text.contains("duration: ban\n"));
            assert_eq!(channel, "#chan");
            assert_eq!(user, "spammer");
            assert_eq!(reason, "automatic ban: possible phone number");
        }
        _ => panic!("expected a report and a ban"),
    }
}

#[test]
fn moderation_antibot_ban() {
    let mut m = Moderation::new(config(), T0);
    let step = m.privmsg(&chat("bot", "oauth:x", Some(T0)), &owner(), T0, true);
    match &step.actions[..] {
        [Action::Report { text, .. }, Action::Ban { reason, .. }] => {
            assert!(text.contains("duration: ban (anti-bot)\n"));
            assert_eq!(reason, "automatic ban (anti-bot): possible oauth token");
        }
        _ => panic!("expected a report and a ban"),
    }
    // with the anti-bot ban disabled, the surge changes nothing
    let mut cfg = config();
    cfg.antibot = false;
    let mut m = Moderation::new(cfg, T0);
    let step = m.privmsg(&chat("bot", "oauth:x", Some(T0)), &owner(), T0, true);
    assert_eq!(Some(("5".to_string(), "automatic timeout: possible oauth token".to_string())), timeout_of(&step.actions));
}

#[test]
fn moderation_zero_length_timeout() {
    let mut cfg = config();
    cfg.lengths = vec![0, 0];
    let mut m = Moderation::new(cfg, T0);
    let step = m.privmsg(&chat("v", "oauth:x", Some(T0)), &owner(), T0, false);
    assert_eq!(Some(("0".to_string(), "automatic timeout: possible oauth token".to_string())), timeout_of(&step.actions));
}

#[test]
fn moderation_without_timestamp_is_not_screened() {
    let mut m = Moderation::new(config(), T0);
    let step = m.privmsg(&chat("viewer", "live_a_b", None), &owner(), T0, false);
    assert!(step.actions.is_empty());
    assert!(!step.flagged);
}

#[test]
fn moderation_levels_decay_hourly() {
    let mut m = Moderation::new(config(), T0);
    m.privmsg(&chat("a", "256-555-7556", Some(T0)), &owner(), T0, false); // level 2
    m.privmsg(&chat("b", "oauth:", Some(T0)), &owner(), T0, false); // level 1
    // the first decrease is due at once
    m.tick(T0 + 1);
    assert_eq!(1, m.ban_level(&"a".to_string()));
    assert_eq!(0, m.ban_level(&"b".to_string()));
    // nothing more until the next hour
    m.tick(T0 + HOUR_MS);
    assert_eq!(1, m.ban_level(&"a".to_string()));
    m.tick(T0 + HOUR_MS + 1);
    assert_eq!(0, m.ban_level(&"a".to_string()));
}

#[test]
fn moderation_tick_catches_up_several_hours() {
    let mut m = Moderation::new(config(), T0);
    for _ in 0..3 {
        m.privmsg(&chat("a", "256-555-7556", Some(T0)), &owner(), T0, false);
    }
    assert_eq!(6, m.ban_level(&"a".to_string()));
    m.tick(T0 + 3 * HOUR_MS + 1);
    assert_eq!(2, m.ban_level(&"a".to_string()));
}

#[test]
fn moderation_flood_through_module() {
    let mut cfg = config();
    cfg.asciiart = false;
    cfg.misc = false;
    let mut m = Moderation::new(cfg, T0);
    for i in 0..3 {
        let step = m.privmsg(&chat("f", "hi", Some(T0 + i)), &owner(), T0, false);
        assert!(!step.flagged);
    }
    let step = m.privmsg(&chat("f", "hi", Some(T0 + 3)), &owner(), T0, false);
    assert!(step.flagged);
    assert_eq!(Some(("5".to_string(), "automatic timeout: hit rate limit".to_string())), timeout_of(&step.actions));
}

#[test]
fn moderation_duration_text() {
    assert_eq!("ban (anti-bot)", duration_text(-2));
    assert_eq!("ban", duration_text(-1));
    assert_eq!("0", duration_text(0));
    assert_eq!("3600", duration_text(3600));
    assert_eq!("-3", duration_text(-3));
    assert_eq!("-2147483648", duration_text(i32::MIN));
    assert_eq!("2147483647", duration_text(i32::MAX));
}

#[test]
fn moderation_report_layout() {
    let r = report(&"u".to_string(), "why", &"5".to_string(), &"text".to_string());
    assert_eq!("```\nusername: u\nreason:   why\nduration: 5\nmessage:  text\n```", r);
}

#[test]
fn moderation_log_line_layout() {
    let l = log_line(&"ban (anti-bot)".to_string(), &"bob".to_string(), "possible flooder", &"spam".to_string());
    assert_eq!("ban (anti-bot): bob: possible flooder: spam", l);
}

#[test]
fn moderation_antibot_flooder_log_line() {
    let mut m = Moderation::new(config(), T0);
    m.privmsg(&chat("bob", &"h".repeat(200), Some(T0)), &owner(), T0, false);
    m.privmsg(&chat("bob", "a", Some(T0 + 1)), &owner(), T0, false);
    m.privmsg(&chat("bob", "b", Some(T0 + 2)), &owner(), T0, false);
    let step = m.privmsg(&chat("bob", "spam", Some(T0 + 3)), &owner(), T0, true);
    assert!(step.flagged);
    match &step.actions[..] {
        [Action::Report { log, text }, Action::Ban { reason, .. }] => {
            assert_eq!("ban (anti-bot): bob: possible flooder: spam", log);
            assert_eq!(
                "```\nusername: bob\nreason:   possible flooder\nduration: ban (anti-bot)\nmessage:  spam\n```",
                text
            );
            assert_eq!("automatic ban (anti-bot): possible flooder", reason);
        }
        _ => panic!("expected a report and a ban"),
    }
}

#[test]
fn moderation_timeout_log_line() {
    let mut m = Moderation::new(config(), T0);
    let step = m.privmsg(&chat("viewer", "oauth:x", Some(T0)), &owner(), T0, false);
    match &step.actions[0] {
        Action::Report { log, .. } => assert_eq!("5: viewer: possible oauth token: oauth:x", log),
        _ => panic!("expected a report"),
    }
}
