//! Character-level helpers shared by the rest of the crate: whitespace,
//! word counting, prefixes and the decimal notation of integers.
//!
//! Everything is specified over `Seq<char>`, the view of `str` and `String`.

use vstd::prelude::*;

verus! {

/// The characters with the Unicode `White_Space` property.
pub open spec fn is_whitespace(c: char) -> bool {
    let n = c as u32;
    (0x09 <= n <= 0x0D) || n == 0x20 || n == 0x85 || n == 0xA0 || n == 0x1680 || (0x2000 <= n
        <= 0x200A) || n == 0x2028 || n == 0x2029 || n == 0x202F || n == 0x205F || n == 0x3000
}

/// Trusted: `char::is_whitespace`. The standard library documents it as the
/// test for the Unicode `White_Space` property; the contract spells that
/// property out as the code points listed in [`is_whitespace`].
#[verifier::external_body]
pub(crate) fn char_is_whitespace(c: char) -> (white: bool)
    ensures
        white == is_whitespace(c),
{
    c.is_whitespace()
}

/// Trusted: `==` on `str`, which compares the two texts character by
/// character.
#[verifier::external_body]
pub(crate) fn same_text(a: &str, b: &str) -> (same: bool)
    ensures
        same == (a@ == b@),
{
    a == b
}

/// A text is blank when it holds nothing but whitespace, that is, when
/// trimming it leaves the empty string.
pub open spec fn blank(s: Seq<char>) -> bool {
    forall|i: int| 0 <= i < s.len() ==> is_whitespace(#[trigger] s[i])
}

/// Position `i` starts a word: it holds a non-whitespace character that is
/// first in the text or follows whitespace.
pub open spec fn starts_word(s: Seq<char>, i: int) -> bool {
    !is_whitespace(s[i]) && (i == 0 || is_whitespace(s[i - 1]))
}

/// Number of words that start among the first `n` positions of `s`.
pub open spec fn word_starts(s: Seq<char>, n: nat) -> nat
    decreases n,
{
    if n == 0 {
        0
    } else {
        word_starts(s, (n - 1) as nat) + if starts_word(s, n - 1) {
            1nat
        } else {
            0nat
        }
    }
}

/// Number of maximal runs of non-whitespace characters in `s`.
pub open spec fn word_count(s: Seq<char>) -> nat {
    word_starts(s, s.len())
}

/// Two neighbouring positions never both start a word, so at most every
/// second position does.
pub proof fn lemma_word_starts_bound(s: Seq<char>, n: nat)
    requires
        n <= s.len(),
    ensures
        word_starts(s, n) <= (n + 1) / 2,
        n > 0 && is_whitespace(s[n - 1]) ==> word_starts(s, n) <= n / 2,
    decreases n,
{
    if n > 0 {
        lemma_word_starts_bound(s, (n - 1) as nat);
    }
}

/// Whether `text` is blank.
pub fn is_blank(text: &str) -> (all_white: bool)
    ensures
        all_white == blank(text@),
{
    let mut all_white = true;
    for c in it: text.chars()
        invariant
            it.seq() == text@,
            all_white == blank(text@.take(it.index())),
    {
        let white = char_is_whitespace(c);
        proof {
            let before = text@.take(it.index());
            let after = text@.take(it.index() + 1);
            assert(after[it.index()] == c);
            assert(forall|i: int| 0 <= i < before.len() ==> before[i] == after[i]);
        }
        all_white = all_white && white;
    }
    proof {
        assert(text@.take(text@.len() as int) =~= text@);
    }
    all_white
}

/// The characters of `text`, in order.
pub fn chars_of(text: &str) -> (chars: Vec<char>)
    ensures
        chars@ == text@,
{
    let mut chars: Vec<char> = Vec::new();
    for c in it: text.chars()
        invariant
            it.seq() == text@,
            chars@ == text@.take(it.index()),
    {
        chars.push(c);
        proof {
            assert(text@.take(it.index() + 1) =~= text@.take(it.index()).push(c));
        }
    }
    proof {
        assert(text@.take(text@.len() as int) =~= text@);
    }
    chars
}

/// Counts the words of `text`, as splitting it on whitespace would.
pub fn count_words(text: &str) -> (count: usize)
    ensures
        count == word_count(text@),
{
    let total = text.unicode_len();
    let mut count: usize = 0;
    let mut in_word = false;
    for c in it: text.chars()
        invariant
            it.seq() == text@,
            total == text@.len(),
            count == word_starts(text@, it.index() as nat),
            count <= it.index(),
            in_word == (it.index() > 0 && !is_whitespace(text@[it.index() - 1])),
    {
        let white = char_is_whitespace(c);
        if !white && !in_word {
            count = count + 1;
        }
        in_word = !white;
    }
    count
}

/// A decimal digit.
pub open spec fn is_digit(c: char) -> bool {
    '0' <= c <= '9'
}

/// The number that a text of decimal digits denotes; leading zeros count
/// for nothing.
pub open spec fn digits_value(digits: Seq<char>) -> int
    decreases digits.len(),
{
    if digits.len() == 0 {
        0
    } else {
        digits_value(digits.drop_last()) * 10 + (digits.last() as int - '0' as int)
    }
}

/// The number that a text denotes in decimal notation, where it denotes
/// one that fits: an optional sign, `+` or `-`, then one digit or more and
/// nothing else.
pub open spec fn decimal_i64(text: Seq<char>) -> Option<i64> {
    let signed = text.len() > 0 && (text[0] == '-' || text[0] == '+');
    let digits = if signed {
        text.drop_first()
    } else {
        text
    };
    let value = if signed && text[0] == '-' {
        -digits_value(digits)
    } else {
        digits_value(digits)
    };
    if digits.len() > 0 && (forall|i: int| 0 <= i < digits.len() ==> is_digit(#[trigger] digits[i]))
        && i64::MIN <= value <= i64::MAX {
        Some(value as i64)
    } else {
        None
    }
}

/// Trusted: `str::parse::<i64>`. The standard library documents the
/// accepted texts as an optional sign followed by decimal digits only, with
/// an error for the empty text, for any other character and for a number
/// that does not fit; the contract says the same through [`decimal_i64`].
#[verifier::external_body]
pub(crate) fn parse_i64(text: &str) -> (value: Option<i64>)
    ensures
        value == decimal_i64(text@),
{
    text.parse::<i64>().ok()
}

/// The decimal digits of a natural number, without leading zeros.
pub open spec fn decimal_digits(n: nat) -> Seq<char>
    decreases n,
{
    if n < 10 {
        seq![('0' as int + n) as char]
    } else {
        decimal_digits(n / 10).push(('0' as int + n % 10) as char)
    }
}

/// The decimal notation of an integer: its digits, after `-` if it is
/// negative.
pub open spec fn decimal(n: int) -> Seq<char> {
    if n < 0 {
        seq!['-'] + decimal_digits((-n) as nat)
    } else {
        decimal_digits(n as nat)
    }
}

/// Trusted: `i64::to_string`, which writes the number in decimal notation,
/// with a leading `-` for a negative one and no other decoration.
#[verifier::external_body]
pub(crate) fn decimal_string(n: i64) -> (text: String)
    ensures
        text@ == decimal(n as int),
{
    n.to_string()
}

/// Trusted: `str::starts_with` with a text as the pattern, which tells
/// whether the pattern is a prefix of the text.
#[verifier::external_body]
pub(crate) fn starts_with(text: &str, prefix: &str) -> (found: bool)
    ensures
        found == prefix@.is_prefix_of(text@),
{
    text.starts_with(prefix)
}

} // verus!
