use shiftbot::modules::moderation::misc::Misc;
use shiftbot::modules::moderation::FilterMsg;

fn message(text: &str) -> FilterMsg {
    FilterMsg {
        text: text.into(),
        ..Default::default()
    }
}

#[test]
fn misc_short_text() {
    let msg = message("this is a normal chat message");
    let mut filter = Misc::new();
    assert_eq!(None, filter.filter(&msg));
}

#[test]
fn misc_long_text() {
    let msg = message(&"this is a normal chat message".to_string().repeat(30));
    let mut filter = Misc::new();
    assert_eq!(None, filter.filter(&msg));
}

#[test]
fn stream_key() {
    let msg = message("my stream key is live_34jk2l34_343");
    let mut filter = Misc::new();
    assert_eq!(Some((1, "possible stream key")), filter.filter(&msg));
}

#[test]
fn oauth_token() {
    let msg = message("lol oauth:3wfkjwlkfjawklfjwelkfjkljf");
    let mut filter = Misc::new();
    assert_eq!(Some((1, "possible oauth token")), filter.filter(&msg));
}

#[test]
fn phone_number() {
    let msg = message("256-555-7556");
    let mut filter = Misc::new();
    assert_eq!(Some((2, "possible phone number")), filter.filter(&msg));

    let msg = message("256 555 7556");
    assert_eq!(Some((2, "possible phone number")), filter.filter(&msg));

    let msg = message("(256) 555-7556");
    assert_eq!(Some((2, "possible phone number")), filter.filter(&msg));

    let msg = message("2565557556");
    assert_eq!(None, filter.filter(&msg));
}

#[test]
fn misc_first_pattern_wins() {
    let mut filter = Misc::new();
    let msg = message("oauth:abc and live_a_b and 256-555-7556");
    assert_eq!(Some((1, "possible stream key")), filter.filter(&msg));
    let msg = message("call 256-555-7556, token oauth:");
    assert_eq!(Some((1, "possible oauth token")), filter.filter(&msg));
}

#[test]
fn misc_edge_cases() {
    let mut filter = Misc::new();
    assert_eq!(Some((1, "possible stream key")), filter.filter(&message("live__")));
    assert_eq!(None, filter.filter(&message("live_abc")));
    assert_eq!(None, filter.filter(&message("live_ab-c_d")));
    assert_eq!(Some((1, "possible oauth token")), filter.filter(&message("oauth:")));
    assert_eq!(None, filter.filter(&message("oauth")));
    assert_eq!(Some((2, "possible phone number")), filter.filter(&message("256)-555 7556")));
    assert_eq!(None, filter.filter(&message("256--555-7556")));
    assert_eq!(None, filter.filter(&message("256-555-755")));
    assert_eq!(Some((2, "possible phone number")), filter.filter(&message("x1256 555 75567")));
    assert_eq!(None, filter.filter(&message("")));
}

#[test]
fn misc_agrees_with_regex() {
    let key = regex::Regex::new("live_[a-zA-Z0-9]*_[a-zA-Z0-9]*").unwrap();
    let oauth = regex::Regex::new("oauth:[a-zA-Z0-9]*").unwrap();
    let phone = regex::Regex::new("\\(?[0-9]{3}\\)?[- ][0-9]{3}[- ][0-9]{4}").unwrap();
    let samples = [
        "live_", "live__", "xlive_a1_", "live_é_", "Live_a_b", "live_ab", "live_a b_",
        "oauth", "oauth:", "OAUTH:x", "oa uth:", "my oauth:é",
        "(123)-456-7890", "123)456-7890", "123) 456-7890", "(12) 345-6789", "123 456 789",
        "1234 567 8901", "12-345-6789", "٣٤٥ 678 9012", "123 456 7890 and more",
        "", "nothing here", "live_x_ oauth: 123-456-7890",
    ];
    for s in samples.iter() {
        let expected = if key.is_match(s) {
            Some((1, "possible stream key"))
        } else if oauth.is_match(s) {
            Some((1, "possible oauth token"))
        } else if phone.is_match(s) {
            Some((2, "possible phone number"))
        } else {
            None
        };
        let mut filter = Misc::new();
        assert_eq!(expected, filter.filter(&message(s)), "{}", s);
    }
}
