use shiftbot::modules::shiftah::SHIFTAH_BELOW;
use shiftbot::modules::{Action, ChatMessage, Chat, ShiftAh};
use shiftbot::table::NameTable;
use shiftbot::text::{byte_len_of, chars_of, i32_to_decimal, joined};

fn chat(name: &str, data: &str) -> ChatMessage {
    ChatMessage {
        name: name.to_string(),
        channel: "#chan".to_string(),
        data: data.to_string(),
        is_moderator: false,
        is_broadcaster: false,
        is_vip: false,
        is_subscriber: false,
        sent_ts_ms: None,
    }
}

#[test]
fn chat_line_format() {
    let mut c = Chat::new();
    assert_eq!("<someone> hello there", c.privmsg(&chat("someone", "hello there")));
    assert_eq!("<> ", c.privmsg(&chat("", "")));
}

#[test]
fn shiftah_fires_below_threshold() {
    let s = ShiftAh::new();
    let m = chat("a", "b");
    match &s.respond(&m, 0)[..] {
        [Action::Say { channel, text }] => {
            assert_eq!(channel, "#chan");
            assert_eq!(text, "shiftAh");
        }
        _ => panic!("expected the easter egg"),
    }
    assert_eq!(1, s.respond(&m, SHIFTAH_BELOW - 1).len());
    assert!(s.respond(&m, SHIFTAH_BELOW).is_empty());
    assert!(s.respond(&m, u32::MAX).is_empty());
}

#[test]
fn shiftah_random_answer_is_empty_or_egg() {
    let mut s = ShiftAh::new();
    for _ in 0..100 {
        let a = s.privmsg(&chat("a", "b"));
        assert!(a.len() <= 1);
    }
}

#[test]
fn table_insert_get() {
    let mut t: NameTable<i32> = NameTable::new();
    t.insert("a".to_string(), 1);
    t.insert("b".to_string(), 2);
    t.insert("a".to_string(), 3);
    assert_eq!(2, t.len());
    assert_eq!(Some(3), t.get(&"a".to_string()));
    assert_eq!(Some(2), t.get(&"b".to_string()));
    assert_eq!(None, t.get(&"c".to_string()));
}

#[test]
fn table_decrement_and_recent() {
    let mut t: NameTable<i32> = NameTable::new();
    t.insert("a".to_string(), 1);
    t.insert("b".to_string(), 3);
    t.decrement_all();
    assert_eq!(None, t.get(&"a".to_string()));
    assert_eq!(Some(2), t.get(&"b".to_string()));

    let mut r: NameTable<u64> = NameTable::new();
    r.insert("x".to_string(), 100);
    r.insert("y".to_string(), 200);
    assert_eq!(vec!["y".to_string()], r.recent_names(250, 100));
    assert_eq!(vec!["x".to_string(), "y".to_string()], r.recent_names(150, 100));
    assert_eq!(vec!["x".to_string(), "y".to_string()], r.recent_names(50, 100));
    r.retain_recent(250, 100);
    assert_eq!(1, r.len());
    assert_eq!(Some(200), r.get(&"y".to_string()));
}

#[test]
fn text_helpers() {
    assert_eq!(vec!['h', 'é', '█'], chars_of("hé█"));
    assert_eq!(6, byte_len_of(&chars_of("hé█")));
    assert_eq!(4, byte_len_of(&chars_of("😀")));
    assert_eq!("ab", joined("a", "b"));
    assert_eq!("1800", i32_to_decimal(1800));
    assert_eq!("-7", i32_to_decimal(-7));
    assert_eq!("0", i32_to_decimal(0));
    assert_eq!("-2147483648", i32_to_decimal(i32::MIN));
    assert_eq!("2147483647", i32_to_decimal(i32::MAX));
    assert_eq!(i32::MIN.to_string(), i32_to_decimal(i32::MIN));
}
