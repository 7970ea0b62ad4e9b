use shiftbot::modules::moderation::asciiart::AsciiArt;
use shiftbot::modules::moderation::FilterMsg;

fn msg(text: &str) -> FilterMsg {
    FilterMsg {
        text: text.into(),
        ..Default::default()
    }
}

#[test]
fn asciiart_short_text() {
    let msg = msg("this is a normal chat message");
    let mut filter = AsciiArt::new();
    assert_eq!(None, filter.filter(&msg));
}

#[test]
fn asciiart_long_text() {
    let msg = msg(&"this is a normal chat message".to_string().repeat(30));
    let mut filter = AsciiArt::new();
    assert_eq!(None, filter.filter(&msg));
}

#[test]
fn short_ascii_art() {
    let msg = msg(&"|".to_string().repeat(60));
    let mut filter = AsciiArt::new();
    assert_eq!(None, filter.filter(&msg));
}

#[test]
fn long_ascii_art() {
    let msg = msg(&"|".to_string().repeat(300));
    let mut filter = AsciiArt::new();
    assert_eq!(Some((1, "possible ascii art")), filter.filter(&msg));
}

#[test]
fn truck() {
    let msg = msg(r"──────▄▌▐▀▀▀▀▀▀▀▀▀▀▀▀▀▀▀▀▀▀▀▀▀▀▀▌ ───▄▄ █ KKona WATCH OUT I'M TRUCKIN ███████▌█▄▄▄▄▄▄▄▄▄▄▄▄▄▄▄▄▄▄▄▄▄▄▄▌ ▀(@)▀▀▀▀▀▀▀(@)(@)▀▀▀▀▀▀▀▀▀▀▀▀▀(@)▀");
    let mut filter = AsciiArt::new();
    assert_eq!(None, filter.filter(&msg));
}

#[test]
fn ascii_art_small_limit_is_bytes() {
    // 175 bytes of art pass, 176 are judged
    let mut filter = AsciiArt::new();
    assert_eq!(None, filter.filter(&msg(&"|".repeat(175))));
    assert_eq!(Some((1, "possible ascii art")), filter.filter(&msg(&"|".repeat(176))));
    // 59 three-byte characters are 177 bytes
    assert_eq!(Some((1, "possible ascii art")), filter.filter(&msg(&"█".repeat(59))));
    assert_eq!(None, filter.filter(&msg(&"█".repeat(58))));
}

#[test]
fn ascii_art_eight_percent_boundary() {
    let mut filter = AsciiArt::new();
    // 16 prose characters in 200 bytes: exactly 8%, flagged
    let text = format!("{}{}", "a".repeat(16), "|".repeat(184));
    assert_eq!(Some((1, "possible ascii art")), filter.filter(&msg(&text)));
    // 17 in 200: above 8%, passes
    let text = format!("{}{}", "a".repeat(17), "|".repeat(183));
    assert_eq!(None, filter.filter(&msg(&text)));
}

#[test]
fn ascii_art_agrees_with_regex_count() {
    let re = regex::Regex::new(r"[a-zA-Z0-9 \.\?!]").unwrap();
    let samples = [
        "|".repeat(300),
        "hello world ".repeat(20),
        format!("{}{}", "ab?!. ".repeat(4), "▀".repeat(100)),
        format!("{}{}", "x".repeat(30), "(@)".repeat(100)),
        "é".repeat(120),
    ];
    for s in samples.iter() {
        let count = re.find_iter(s).count();
        let expected = if s.len() <= 175 {
            None
        } else if (count as f32) / (s.len() as f32) <= 0.08 {
            Some((1, "possible ascii art"))
        } else {
            None
        };
        let mut filter = AsciiArt::new();
        assert_eq!(expected, filter.filter(&msg(s)), "{}", s);
    }
}
