//! Really dumb filter that removes a majority of ascii art from chat.

use vstd::prelude::*;

use super::FilterMsg;
use crate::text::{byte_len, byte_len_of, chars_of};

verus! {

/// Messages of at most this many bytes are never taken for ascii art.
pub const SMALL_ART_BYTES: u128 = 175;

/// The characters of ordinary prose: ASCII letters, digits, space, `.`, `?` and `!`.
pub open spec fn is_prose_char(c: char) -> bool {
    ('a' <= c && c <= 'z') || ('A' <= c && c <= 'Z') || ('0' <= c && c <= '9') || c == ' ' || c == '.'
        || c == '?' || c == '!'
}

/// How many characters of `s` are prose characters.
pub open spec fn prose_count(s: Seq<char>) -> nat
    decreases s.len(),
{
    if s.len() == 0 {
        0
    } else {
        prose_count(s.drop_last()) + if is_prose_char(s.last()) { 1nat } else { 0nat }
    }
}

/// A message longer than 175 bytes of which at most 8% (prose characters over
/// bytes) is prose is taken for ascii art.
pub open spec fn ascii_art_verdict(text: Seq<char>) -> Option<(i32, &'static str)> {
    if byte_len(text) <= 175 {
        None
    } else if 25 * prose_count(text) <= 2 * byte_len(text) {
        Some((1, "possible ascii art"))
    } else {
        None
    }
}

/// The pattern of one prose character.
pub const PROSE_PATTERN: &'static str = "[a-zA-Z0-9 \\.\\?!]";

/// How many matches of the regular expression `pattern`, the prose pattern, `text` holds.
///
/// Trusted: compiles `pattern` with `regex::Regex::new` (it is valid, so the `unwrap` does
/// not panic) and counts `Regex::find_iter`. Each match of a one-character class is one
/// character of the class, so the contract states the count as [`prose_count`].
#[verifier::external_body]
fn regex_count(pattern: &str, text: &str) -> (n: usize)
    requires
        pattern@ == PROSE_PATTERN@,
    ensures
        n == prose_count(text@),
{
    regex::Regex::new(pattern).unwrap().find_iter(text).count()
}

/// The ascii art filter. It keeps no state.
pub struct AsciiArt;

impl AsciiArt {
    pub fn new() -> (f: Self) {
        AsciiArt
    }

    /// Flags a message as possible ascii art, see [`ascii_art_verdict`].
    pub fn filter(&mut self, msg: &FilterMsg) -> (r: Option<(i32, &'static str)>)
        ensures
            r == ascii_art_verdict(msg.text@),
    {
        let chars = chars_of(msg.text.as_str());
        let len = byte_len_of(&chars);
        // allow small ascii art
        if len <= SMALL_ART_BYTES {
            return None;
        }
        let prose = regex_count(PROSE_PATTERN, msg.text.as_str()) as u128;
        if 25 * prose <= 2 * len {
            return Some((1, "possible ascii art"));
        }
        None
    }
}

} // verus!
