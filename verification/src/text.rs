//! Character-level helpers shared by the filters and the command handlers.

use vstd::prelude::*;

verus! {

/// Number of bytes that UTF-8 spends on the character `c`.
pub open spec fn utf8_width(c: char) -> nat {
    if (c as u32) < 0x80 {
        1
    } else if (c as u32) < 0x800 {
        2
    } else if (c as u32) < 0x10000 {
        3
    } else {
        4
    }
}

/// Number of bytes of the UTF-8 encoding of `s` (what `str::len` returns).
pub open spec fn byte_len(s: Seq<char>) -> nat
    decreases s.len(),
{
    if s.len() == 0 {
        0
    } else {
        byte_len(s.drop_last()) + utf8_width(s.last())
    }
}

/// The characters of `s`, in order.
pub fn chars_of(s: &str) -> (v: Vec<char>)
    ensures
        v@ == s@,
{
    broadcast use vstd::string::group_string_axioms;

    let mut v: Vec<char> = Vec::new();
    for c in it: s.chars()
        invariant
            v@ == it.seq().take(it.index() as int),
            it.seq() == s@,
    {
        v.push(c);
    }
    v
}

/// UTF-8 width of one character.
pub fn char_width(c: char) -> (w: u128)
    ensures
        w == utf8_width(c),
{
    let u = c as u32;
    if u < 0x80 {
        1
    } else if u < 0x800 {
        2
    } else if u < 0x10000 {
        3
    } else {
        4
    }
}

/// Byte length of the UTF-8 encoding of `chars`.
pub fn byte_len_of(chars: &Vec<char>) -> (n: u128)
    ensures
        n == byte_len(chars@),
        n <= 4 * chars@.len(),
        n <= 4 * usize::MAX,
{
    let mut total: u128 = 0;
    let mut i: usize = 0;
    while i < chars.len()
        invariant
            i <= chars@.len(),
            total == byte_len(chars@.take(i as int)),
            total <= 4 * i,
        decreases chars@.len() - i,
    {
        assert(chars@.take(i + 1).drop_last() == chars@.take(i as int));
        total = total + char_width(chars[i]);
        i = i + 1;
    }
    assert(chars@.take(i as int) == chars@);
    total
}

/// `a` followed by `b`.
pub fn joined(a: &str, b: &str) -> (s: String)
    ensures
        s@ == a@ + b@,
{
    let mut s = a.to_owned();
    s.append(b);
    s
}

/// The ASCII digit for `d`.
pub open spec fn digit_char(d: nat) -> char {
    ('0' as u32 + d) as char
}

/// Decimal digits of `n`, most significant first, without leading zeros ("0" for zero).
pub open spec fn decimal_digits(n: nat) -> Seq<char>
    decreases n,
{
    if n < 10 {
        seq![digit_char(n)]
    } else {
        decimal_digits(n / 10).push(digit_char(n % 10))
    }
}

/// What `i32::to_string` prints for `x`: an optional minus sign, then the digits.
pub open spec fn decimal(x: int) -> Seq<char> {
    if x < 0 {
        seq!['-'] + decimal_digits((-x) as nat)
    } else {
        decimal_digits(x as nat)
    }
}

fn digit_of(d: u64) -> (c: char)
    requires
        d < 10,
    ensures
        c == digit_char(d as nat),
        '0' <= c <= '9',
{
    match d {
        0 => '0',
        1 => '1',
        2 => '2',
        3 => '3',
        4 => '4',
        5 => '5',
        6 => '6',
        7 => '7',
        8 => '8',
        _ => '9',
    }
}

/// The one-character text of `c`, a minus sign or a decimal digit.
fn char_text(c: char) -> (t: &'static str)
    requires
        c == '-' || '0' <= c <= '9',
    ensures
        t@ == seq![c],
{
    broadcast use vstd::string::group_string_axioms;

    match c {
        '-' => {
            proof {
                reveal_strlit("-");
                assert("-"@ =~= seq!['-']);
            }
            "-"
        },
        '0' => {
            proof {
                reveal_strlit("0");
                assert("0"@ =~= seq!['0']);
            }
            "0"
        },
        '1' => {
            proof {
                reveal_strlit("1");
                assert("1"@ =~= seq!['1']);
            }
            "1"
        },
        '2' => {
            proof {
                reveal_strlit("2");
                assert("2"@ =~= seq!['2']);
            }
            "2"
        },
        '3' => {
            proof {
                reveal_strlit("3");
                assert("3"@ =~= seq!['3']);
            }
            "3"
        },
        '4' => {
            proof {
                reveal_strlit("4");
                assert("4"@ =~= seq!['4']);
            }
            "4"
        },
        '5' => {
            proof {
                reveal_strlit("5");
                assert("5"@ =~= seq!['5']);
            }
            "5"
        },
        '6' => {
            proof {
                reveal_strlit("6");
                assert("6"@ =~= seq!['6']);
            }
            "6"
        },
        '7' => {
            proof {
                reveal_strlit("7");
                assert("7"@ =~= seq!['7']);
            }
            "7"
        },
        '8' => {
            proof {
                reveal_strlit("8");
                assert("8"@ =~= seq!['8']);
            }
            "8"
        },
        _ => {
            proof {
                reveal_strlit("9");
                assert("9"@ =~= seq!['9']);
            }
            "9"
        },
    }
}

/// The decimal rendering of `x`, as `i32::to_string` gives it.
pub fn i32_to_decimal(x: i32) -> (s: String)
    ensures
        s@ == decimal(x as int),
{
    let negative = x < 0;
    let mut n: u64 = if negative { (-(x as i64)) as u64 } else { x as u64 };
    let ghost whole = n as nat;
    // digits collected least significant first
    let mut rev: Vec<char> = Vec::new();
    loop
        invariant_except_break
            decimal_digits(whole) == decimal_digits(n as nat) + rev@.reverse(),
        invariant
            forall|k: int| 0 <= k < rev@.len() ==> '0' <= #[trigger] rev@[k] <= '9',
        ensures
            decimal_digits(whole) == rev@.reverse(),
        decreases n,
    {
        let d = n % 10;
        let c = digit_of(d);
        if n < 10 {
            let ghost old_rev = rev@;
            rev.push(c);
            proof {
                assert(decimal_digits(n as nat) == seq![c]);
                assert(rev@.reverse() =~= seq![c] + old_rev.reverse());
                assert(decimal_digits(whole) =~= rev@.reverse());
            }
            break;
        }
        let ghost old_rev = rev@;
        let ghost m = n as nat;
        rev.push(c);
        proof {
            assert(decimal_digits(m) == decimal_digits(m / 10).push(digit_char(m % 10)));
            assert(rev@.reverse() =~= seq![c] + old_rev.reverse());
            assert(decimal_digits(m / 10) + rev@.reverse() =~= decimal_digits(m / 10).push(c) + old_rev.reverse());
        }
        n = n / 10;
    }
    let mut out = String::new();
    if negative {
        out.append(char_text('-'));
    }
    let ghost prefix = out@;
    let mut i: usize = rev.len();
    while i > 0
        invariant
            i <= rev@.len(),
            forall|k: int| 0 <= k < rev@.len() ==> '0' <= #[trigger] rev@[k] <= '9',
            out@ == prefix + rev@.subrange(i as int, rev@.len() as int).reverse(),
        decreases i,
    {
        i = i - 1;
        out.append(char_text(rev[i]));
        assert(rev@.subrange(i as int, rev@.len() as int).reverse() =~= rev@.subrange(i + 1, rev@.len() as int).reverse().push(rev@[i as int]));
    }
    assert(rev@.subrange(0, rev@.len() as int) == rev@);
    proof {
        if negative {
            assert(whole == -(x as int));
        } else {
            assert(out@ =~= rev@.reverse());
        }
    }
    out
}

/// `c` has the Unicode `White_Space` property (what `char::is_whitespace` tests).
pub open spec fn is_white_space(c: char) -> bool {
    let u = c as u32;
    ||| 0x9 <= u <= 0xD
    ||| u == 0x20
    ||| u == 0x85
    ||| u == 0xA0
    ||| u == 0x1680
    ||| 0x2000 <= u <= 0x200A
    ||| u == 0x2028
    ||| u == 0x2029
    ||| u == 0x202F
    ||| u == 0x205F
    ||| u == 0x3000
}

/// The words of `s`, when the characters `cur` of a word have been read just before it.
pub open spec fn words_after(s: Seq<char>, cur: Seq<char>) -> Seq<Seq<char>>
    decreases s.len(),
{
    if s.len() == 0 {
        if cur.len() == 0 { Seq::empty() } else { seq![cur] }
    } else if is_white_space(s[0]) {
        let rest = words_after(s.drop_first(), Seq::empty());
        if cur.len() == 0 { rest } else { seq![cur] + rest }
    } else {
        words_after(s.drop_first(), cur.push(s[0]))
    }
}

/// The words of `s`: its maximal runs of characters that are not white space, in order
/// (what `str::split_whitespace` yields).
pub open spec fn whitespace_words(s: Seq<char>) -> Seq<Seq<char>> {
    words_after(s, Seq::empty())
}

/// The characters of each string of `v`.
pub open spec fn strings_of(v: Seq<String>) -> Seq<Seq<char>> {
    v.map_values(|x: String| x@)
}

/// Splits `s` at white space.
///
/// Trusted: calls `str::split_whitespace`, which std documents as splitting at
/// `White_Space` characters and yielding no empty word, and turns each word into a
/// `String`; the contract states those words ([`whitespace_words`]).
#[verifier::external_body]
pub(crate) fn split_words(s: &str) -> (words: Vec<String>)
    ensures
        strings_of(words@) == whitespace_words(s@),
{
    s.split_whitespace().map(|w| w.to_string()).collect()
}

} // verus!
