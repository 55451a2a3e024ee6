//! Decimal and hexadecimal text building, and the length cap applied to
//! every string that targets a fixed-width schema slot.

use vstd::prelude::*;

verus! {

/// Maximum length, in characters, of an ordinary string on the wire.
/// Longer strings are silently truncated to this length.
pub const MAX_STRING_LEN: usize = 1024;

/// The character for a single decimal digit.
pub open spec fn digit_char(n: nat) -> char {
    if n == 0 { '0' }
    else if n == 1 { '1' }
    else if n == 2 { '2' }
    else if n == 3 { '3' }
    else if n == 4 { '4' }
    else if n == 5 { '5' }
    else if n == 6 { '6' }
    else if n == 7 { '7' }
    else if n == 8 { '8' }
    else { '9' }
}

/// Decimal digits of `n`, most significant first, with no leading zeros
/// (a single `'0'` for zero).
pub open spec fn dec_digits(n: nat) -> Seq<char>
    decreases n,
{
    if n < 10 {
        seq![digit_char(n)]
    } else {
        dec_digits(n / 10).push(digit_char(n % 10))
    }
}

/// The last `width` decimal digits of `n`, zero padded on the left.
pub open spec fn dec_pad(n: nat, width: nat) -> Seq<char>
    decreases width,
{
    if width == 0 {
        Seq::empty()
    } else {
        dec_pad(n / 10, (width - 1) as nat).push(digit_char(n % 10))
    }
}

/// The character for a single hexadecimal digit, lower case.
pub open spec fn hex_char(n: nat) -> char {
    if n < 10 { digit_char(n) }
    else if n == 10 { 'a' }
    else if n == 11 { 'b' }
    else if n == 12 { 'c' }
    else if n == 13 { 'd' }
    else if n == 14 { 'e' }
    else { 'f' }
}

/// The last `width` hexadecimal digits of `n`, zero padded on the left.
pub open spec fn hex_pad(n: nat, width: nat) -> Seq<char>
    decreases width,
{
    if width == 0 {
        Seq::empty()
    } else {
        hex_pad(n / 16, (width - 1) as nat).push(hex_char(n % 16))
    }
}

/// Decimal digits of an integer, with a leading `'-'` when negative.
pub open spec fn int_digits(n: int) -> Seq<char> {
    if n < 0 {
        seq!['-'] + dec_digits((-n) as nat)
    } else {
        dec_digits(n as nat)
    }
}

/// `s` cut to the schema's string cap: unchanged when it fits, else exactly
/// the first [`MAX_STRING_LEN`] characters.
pub open spec fn truncated(s: Seq<char>) -> Seq<char> {
    if s.len() <= MAX_STRING_LEN {
        s
    } else {
        s.subrange(0, MAX_STRING_LEN as int)
    }
}

/// A single decimal digit as a string slice.
fn digit_str(n: u64) -> (r: &'static str)
    requires
        n < 10,
    ensures
        r@ == seq![digit_char(n as nat)],
{
    proof {
        reveal_strlit("0");
        reveal_strlit("1");
        reveal_strlit("2");
        reveal_strlit("3");
        reveal_strlit("4");
        reveal_strlit("5");
        reveal_strlit("6");
        reveal_strlit("7");
        reveal_strlit("8");
        reveal_strlit("9");
    }
    if n == 0 { "0" }
    else if n == 1 { "1" }
    else if n == 2 { "2" }
    else if n == 3 { "3" }
    else if n == 4 { "4" }
    else if n == 5 { "5" }
    else if n == 6 { "6" }
    else if n == 7 { "7" }
    else if n == 8 { "8" }
    else { "9" }
}

/// A single hexadecimal digit as a string slice.
fn hex_digit_str(n: u64) -> (r: &'static str)
    requires
        n < 16,
    ensures
        r@ == seq![hex_char(n as nat)],
{
    proof {
        reveal_strlit("a");
        reveal_strlit("b");
        reveal_strlit("c");
        reveal_strlit("d");
        reveal_strlit("e");
        reveal_strlit("f");
    }
    if n < 10 { digit_str(n) }
    else if n == 10 { "a" }
    else if n == 11 { "b" }
    else if n == 12 { "c" }
    else if n == 13 { "d" }
    else if n == 14 { "e" }
    else { "f" }
}

/// The decimal representation of `n`, without leading zeros.
pub fn u64_to_string(n: u64) -> (r: String)
    ensures
        r@ == dec_digits(n as nat),
    decreases n,
{
    if n < 10 {
        digit_str(n).to_owned()
    } else {
        let prefix = u64_to_string(n / 10);
        prefix.concat(digit_str(n % 10))
    }
}

/// The last `width` decimal digits of `n`, zero padded on the left.
pub fn u64_to_string_pad(n: u64, width: u64) -> (r: String)
    ensures
        r@ == dec_pad(n as nat, width as nat),
    decreases width,
{
    if width == 0 {
        String::new()
    } else {
        let prefix = u64_to_string_pad(n / 10, width - 1);
        prefix.concat(digit_str(n % 10))
    }
}

/// The last `width` hexadecimal digits of `n`, zero padded on the left.
pub fn u64_to_hex_pad(n: u64, width: u64) -> (r: String)
    ensures
        r@ == hex_pad(n as nat, width as nat),
    decreases width,
{
    if width == 0 {
        String::new()
    } else {
        let prefix = u64_to_hex_pad(n / 16, width - 1);
        prefix.concat(hex_digit_str(n % 16))
    }
}

/// The decimal representation of `n`, with a leading `'-'` when negative.
pub fn i64_to_string(n: i64) -> (r: String)
    ensures
        r@ == int_digits(n as int),
{
    if n >= 0 {
        u64_to_string(n as u64)
    } else {
        let magnitude: u64 = if n == i64::MIN {
            0x8000_0000_0000_0000u64
        } else {
            (-n) as u64
        };
        proof {
            reveal_strlit("-");
        }
        let r = "-".to_owned().concat(u64_to_string(magnitude).as_str());
        proof {
            assert(r@ == seq!['-'] + dec_digits(magnitude as nat));
        }
        r
    }
}

/// What truncation does: a string at or under the cap is kept whole; a
/// longer one is cut to exactly the cap, keeping its first characters
/// unchanged — never dropped and never shortened further.
pub proof fn lemma_truncated(s: Seq<char>)
    ensures
        truncated(s).len() <= MAX_STRING_LEN,
        s.len() <= MAX_STRING_LEN ==> truncated(s) == s,
        s.len() > MAX_STRING_LEN ==> truncated(s).len() == MAX_STRING_LEN,
        forall|i: int| 0 <= i < truncated(s).len() ==> truncated(s)[i] == s[i],
{
}

/// Relies on `String: FromIterator<char>`: collecting characters yields
/// the string of exactly those characters, in order.
#[verifier::external_body]
pub fn chars_to_string(v: &Vec<char>) -> (r: String)
    ensures
        r@ == v@,
{
    v.iter().collect()
}

/// Relies on `char::from_u32`: yields the character of a Unicode scalar
/// value, and `None` exactly for surrogates and values above the Unicode
/// maximum.
#[verifier::external_body]
pub fn char_from_u32(v: u32) -> (r: Option<char>)
    ensures
        vstd::utf8::is_scalar(v) ==> r == Some(v as char),
        !vstd::utf8::is_scalar(v) ==> r is None,
{
    char::from_u32(v)
}

/// The characters of `s` as a vector.
pub fn str_to_chars(s: &str) -> (r: Vec<char>)
    ensures
        r@ == s@,
{
    let n = s.unicode_len();
    let mut out: Vec<char> = Vec::new();
    let mut i: usize = 0;
    while i < n
        invariant
            i <= n,
            n == s@.len(),
            out@ == s@.take(i as int),
        decreases n - i,
    {
        out.push(s.get_char(i));
        proof {
            assert(s@.take(i as int).push(s@[i as int]) =~= s@.take(i as int + 1));
        }
        i += 1;
    }
    proof {
        assert(s@.take(n as int) =~= s@);
    }
    out
}

/// `s` cut to the schema's string cap; see [`truncated`].
pub fn truncate_str(s: &str) -> (r: String)
    ensures
        r@ == truncated(s@),
{
    let len = s.unicode_len();
    if len <= MAX_STRING_LEN {
        s.to_owned()
    } else {
        s.substring_char(0, MAX_STRING_LEN).to_owned()
    }
}

} // verus!
