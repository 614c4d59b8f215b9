//! Strings by the character: the few operations on text that the journal
//! needs, with positions counted in characters.

use vstd::prelude::*;

verus! {

/// The decimal digits of `n`, without leading zeros.
pub open spec fn digits(n: nat) -> Seq<char>
    decreases n,
{
    if n < 10 {
        seq![((48 + n) as u8) as char]
    } else {
        digits(n / 10).push(((48 + n % 10) as u8) as char)
    }
}

/// The decimal form of an integer: a minus sign before the digits of a
/// negative one.
pub open spec fn signed_digits(n: int) -> Seq<char> {
    if n < 0 {
        seq!['-'] + digits((-n) as nat)
    } else {
        digits(n as nat)
    }
}

/// `text` written `n` times in a row.
pub open spec fn repeated(text: Seq<char>, n: nat) -> Seq<char>
    decreases n,
{
    if n == 0 {
        Seq::empty()
    } else {
        repeated(text, (n - 1) as nat) + text
    }
}

/// `text` with `more` put in before the character at `at`.
pub open spec fn inserted(text: Seq<char>, at: int, more: Seq<char>) -> Seq<char> {
    text.subrange(0, at) + more + text.subrange(at, text.len() as int)
}

/// `String::push` of the standard library: the character is appended to the
/// string.
#[verifier::external_body]
pub(crate) fn push_char(s: &mut String, c: char)
    ensures
        final(s)@ == old(s)@.push(c),
{
    s.push(c);
}

/// The string of the characters given.
pub fn from_chars(chars: &Vec<char>) -> (s: String)
    ensures
        s@ == chars@,
{
    let mut s = String::new();
    let mut i: usize = 0;
    while i < chars.len()
        invariant
            i <= chars.len(),
            s@ == chars@.take(i as int),
        decreases chars.len() - i,
    {
        push_char(&mut s, chars[i]);
        proof {
            assert(chars@.take(i as int + 1) =~= chars@.take(i as int).push(chars@[i as int]));
        }
        i += 1;
    }
    proof {
        assert(chars@.take(chars@.len() as int) =~= chars@);
    }
    s
}

/// The number of characters of the text.
pub fn char_len(text: &str) -> (n: usize)
    ensures
        n == text@.len(),
{
    text.unicode_len()
}

/// The text with `more` put in before the character at `at`.
pub fn insert_at(text: &str, at: usize, more: &str) -> (s: String)
    requires
        at <= text@.len(),
    ensures
        s@ == inserted(text@, at as int, more@),
{
    let n = text.unicode_len();
    let mut s = String::from_str(text.substring_char(0, at));
    s.append(more);
    s.append(text.substring_char(at, n));
    s
}

/// The text without the character at `at`.
pub fn remove_at(text: &str, at: usize) -> (s: String)
    requires
        at < text@.len(),
    ensures
        s@ == text@.remove(at as int),
{
    let n = text.unicode_len();
    let mut s = String::from_str(text.substring_char(0, at));
    s.append(text.substring_char(at + 1, n));
    assert(s@ =~= text@.remove(at as int));
    s
}

/// The text without its last character; the empty text stays empty.
pub fn without_last(text: &str) -> (s: String)
    ensures
        s@ == (if text@.len() == 0 {
            text@
        } else {
            text@.drop_last()
        }),
{
    let n = text.unicode_len();
    if n == 0 {
        String::from_str(text)
    } else {
        let s = String::from_str(text.substring_char(0, n - 1));
        assert(s@ =~= text@.drop_last());
        s
    }
}

/// `text` written `n` times in a row.
pub fn repeat(text: &str, n: usize) -> (s: String)
    ensures
        s@ == repeated(text@, n as nat),
{
    let mut s = String::new();
    let mut i: usize = 0;
    while i < n
        invariant
            i <= n,
            s@ == repeated(text@, i as nat),
        decreases n - i,
    {
        s.append(text);
        i += 1;
    }
    s
}

/// The decimal digits of `n`.
pub fn decimal(n: u64) -> (s: String)
    ensures
        s@ == digits(n as nat),
    decreases n,
{
    let d: u8 = (n % 10) as u8;
    let c: char = (48 + d) as char;
    if n < 10 {
        let mut s = String::new();
        push_char(&mut s, c);
        assert(s@ =~= seq![c]);
        s
    } else {
        let mut s = decimal(n / 10);
        push_char(&mut s, c);
        s
    }
}

/// The decimal form of `n`, with a minus sign if it is negative.
pub fn signed_decimal(n: i64) -> (s: String)
    ensures
        s@ == signed_digits(n as int),
{
    if n < 0 {
        let magnitude: u64 = if n == i64::MIN {
            9223372036854775808u64
        } else {
            (-n) as u64
        };
        let mut s = String::new();
        push_char(&mut s, '-');
        let d = decimal(magnitude);
        s.append(d.as_str());
        assert(s@ =~= seq!['-'] + digits((-n) as nat));
        s
    } else {
        decimal(n as u64)
    }
}

} // verus!
