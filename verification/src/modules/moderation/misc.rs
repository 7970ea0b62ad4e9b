//! Miscellaneous patterns that don't really fit anywhere else: stream keys,
//! OAuth tokens and phone numbers.

use vstd::prelude::*;

use super::FilterMsg;

verus! {

/// An ASCII letter or digit.
pub open spec fn is_alnum(c: char) -> bool {
    ('a' <= c && c <= 'z') || ('A' <= c && c <= 'Z') || ('0' <= c && c <= '9')
}

/// An ASCII digit.
pub open spec fn is_digit(c: char) -> bool {
    '0' <= c && c <= '9'
}

/// A phone number separator: `-` or a space.
pub open spec fn is_sep(c: char) -> bool {
    c == '-' || c == ' '
}

/// `t` holds `lit` starting at position `i`.
pub open spec fn occurs_at(t: Seq<char>, i: int, lit: Seq<char>) -> bool {
    0 <= i && i + lit.len() <= t.len() && t.subrange(i, i + lit.len()) == lit
}

/// The characters `live_`.
pub open spec fn live_prefix() -> Seq<char> {
    seq!['l', 'i', 'v', 'e', '_']
}

/// The characters `oauth:`.
pub open spec fn oauth_prefix() -> Seq<char> {
    seq!['o', 'a', 'u', 't', 'h', ':']
}

/// A stream key starts at `i`: `live_`, letters and digits, then `_`
/// (the pattern `live_[a-zA-Z0-9]*_[a-zA-Z0-9]*`).
pub open spec fn stream_key_at(t: Seq<char>, i: int) -> bool {
    &&& occurs_at(t, i, live_prefix())
    &&& exists|j: int|
        i + 5 <= j < t.len() && t[j] == '_' && (forall|k: int| i + 5 <= k < j ==> #[trigger] is_alnum(t[k]))
}

/// `t` holds a stream key somewhere.
pub open spec fn has_stream_key(t: Seq<char>) -> bool {
    exists|i: int| 0 <= i < t.len() && #[trigger] stream_key_at(t, i)
}

/// `t` holds an OAuth token somewhere (the pattern `oauth:[a-zA-Z0-9]*`).
pub open spec fn has_oauth_token(t: Seq<char>) -> bool {
    exists|i: int| 0 <= i < t.len() && #[trigger] occurs_at(t, i, oauth_prefix())
}

/// `n` digits start at `i`.
pub open spec fn digits_at(t: Seq<char>, i: int, n: int) -> bool {
    0 <= i && i + n <= t.len() && forall|k: int| i <= k < i + n ==> #[trigger] is_digit(t[k])
}

/// From `k` on: a separator, three digits, a separator, four digits.
pub open spec fn phone_tail_at(t: Seq<char>, k: int) -> bool {
    &&& 0 <= k && k + 9 < t.len() + 1
    &&& is_sep(t[k])
    &&& digits_at(t, k + 1, 3)
    &&& is_sep(t[k + 4])
    &&& digits_at(t, k + 5, 4)
}

/// A phone number starts at `i`: three digits, an optional `)`, then the tail
/// (the pattern `\(?[0-9]{3}\)?[- ][0-9]{3}[- ][0-9]{4}`; its leading optional `(`
/// never decides whether the text holds a match).
pub open spec fn phone_at(t: Seq<char>, i: int) -> bool {
    &&& digits_at(t, i, 3)
    &&& (phone_tail_at(t, i + 3) || (i + 3 < t.len() && t[i + 3] == ')' && phone_tail_at(t, i + 4)))
}

/// `t` holds a phone number somewhere.
pub open spec fn has_phone_number(t: Seq<char>) -> bool {
    exists|i: int| 0 <= i < t.len() && #[trigger] phone_at(t, i)
}

/// What the filter says of a text: the first pattern that the text holds decides.
pub open spec fn misc_verdict(t: Seq<char>) -> Option<(i32, &'static str)> {
    if has_stream_key(t) {
        Some((1, "possible stream key"))
    } else if has_oauth_token(t) {
        Some((1, "possible oauth token"))
    } else if has_phone_number(t) {
        Some((2, "possible phone number"))
    } else {
        None
    }
}

/// The pattern of a stream key.
pub const STREAM_KEY_PATTERN: &'static str = "live_[a-zA-Z0-9]*_[a-zA-Z0-9]*";

/// The pattern of an OAuth token.
pub const OAUTH_PATTERN: &'static str = "oauth:[a-zA-Z0-9]*";

/// The pattern of a phone number.
pub const PHONE_PATTERN: &'static str = "\\(?[0-9]{3}\\)?[- ][0-9]{3}[- ][0-9]{4}";

/// Whether `text` holds a match of the regular expression `pattern`, one of the three
/// patterns of this filter.
///
/// Trusted: compiles `pattern` with `regex::Regex::new` (the three patterns are valid, so
/// the `unwrap` does not panic) and calls `Regex::is_match`. The contract states, for each
/// pattern, the texts that hold a match as the `regex` syntax defines them: the spec
/// functions [`has_stream_key`], [`has_oauth_token`] and [`has_phone_number`].
#[verifier::external_body]
fn regex_is_match(pattern: &str, text: &str) -> (b: bool)
    requires
        pattern@ == STREAM_KEY_PATTERN@ || pattern@ == OAUTH_PATTERN@ || pattern@ == PHONE_PATTERN@,
    ensures
        pattern@ == STREAM_KEY_PATTERN@ ==> b == has_stream_key(text@),
        pattern@ == OAUTH_PATTERN@ ==> b == has_oauth_token(text@),
        pattern@ == PHONE_PATTERN@ ==> b == has_phone_number(text@),
{
    regex::Regex::new(pattern).unwrap().is_match(text)
}

/// The filter for stream keys, OAuth tokens and phone numbers. It keeps no state.
pub struct Misc;

impl Misc {
    pub fn new() -> (f: Self) {
        Misc
    }

    /// Flags a message that holds a stream key, an OAuth token or a phone number,
    /// see [`misc_verdict`].
    pub fn filter(&mut self, msg: &FilterMsg) -> (r: Option<(i32, &'static str)>)
        ensures
            r == misc_verdict(msg.text@),
    {
        let t = msg.text.as_str();
        if regex_is_match(STREAM_KEY_PATTERN, t) {
            return Some((1, "possible stream key"));
        }
        if regex_is_match(OAUTH_PATTERN, t) {
            return Some((1, "possible oauth token"));
        }
        if regex_is_match(PHONE_PATTERN, t) {
            return Some((2, "possible phone number"));
        }
        None
    }
}

} // verus!
